use signer::scan::{model_file_name, upright_rotation, Frame, Orientation, QuarterTurn, Turn};

#[test]
fn every_turn_is_tried_until_one_works() {
    let orientation = Orientation::new();
    assert_eq!(orientation.candidates(), vec![0, 90, 180, 270]);
}

#[test]
fn the_first_turn_that_works_is_the_only_one_tried_afterwards() {
    let mut orientation = Orientation::new();
    orientation.record(None);
    assert_eq!(orientation.candidates(), vec![0, 90, 180, 270]);
    orientation.record(Some(180));
    assert_eq!(orientation.candidates(), vec![180]);
    orientation.record(Some(90));
    orientation.record(None);
    assert_eq!(orientation.candidates(), vec![180]);
}

#[test]
fn rotations_compose_into_a_turn_of_less_than_a_full_circle() {
    assert_eq!(upright_rotation(0, 0), 0);
    assert_eq!(upright_rotation(90, 270), 0);
    assert_eq!(upright_rotation(180, 270), 90);
    assert_eq!(upright_rotation(-90, 0), 270);
    assert_eq!(upright_rotation(-720, 180), 180);
    assert_eq!(upright_rotation(i32::MAX, 270), ((i32::MAX as i64 + 270) % 360) as i32);
    assert_eq!(upright_rotation(i32::MIN, 0), (i32::MIN as i64).rem_euclid(360) as i32);
}

fn frame(rotation: i32) -> Frame<(f32, f32)> {
    Frame { rotation, size: (595.0, 842.0) }
}

#[test]
fn an_upright_or_upside_down_page_can_be_signed() {
    assert!(matches!(frame(0).turn(), Ok(Turn::Upright)));
    assert!(matches!(frame(360).turn(), Ok(Turn::Upright)));
    assert!(matches!(frame(180).turn(), Ok(Turn::HalfTurn)));
    assert!(matches!(frame(-180).turn(), Ok(Turn::HalfTurn)));
}

#[test]
fn a_quarter_turn_is_refused() {
    assert!(matches!(frame(90).turn(), Err(QuarterTurn(90))));
    assert!(matches!(frame(-90).turn(), Err(QuarterTurn(270))));
    assert!(matches!(frame(450).turn(), Err(QuarterTurn(90))));
}

#[test]
fn a_model_is_cached_under_the_last_segment_of_its_url() {
    assert_eq!(
        model_file_name("https://ocrs-models.s3-accelerate.amazonaws.com/text-detection.rten"),
        "text-detection.rten"
    );
    assert_eq!(model_file_name("model.rten"), "model.rten");
    assert_eq!(model_file_name("https://example.com/"), "");
    assert_eq!(model_file_name(""), "");
}

#[test]
fn a_page_is_tried_turn_by_turn_until_one_works() {
    let orientation = Orientation::new();
    let mut search = orientation.page_search();
    assert_eq!(search.next_turn(), Some(0));
    assert_eq!(search.next_turn(), Some(90));
    search.succeeded();
    assert_eq!(search.next_turn(), None);
    assert_eq!(search.found_turn(), Some(90));
}

#[test]
fn a_page_no_turn_reads_is_tried_at_all_four() {
    let mut search = Orientation::new().page_search();
    let mut tried = Vec::new();
    while let Some(turn) = search.next_turn() {
        tried.push(turn);
    }
    assert_eq!(tried, vec![0, 90, 180, 270]);
    assert_eq!(search.found_turn(), None);
}

#[test]
fn later_pages_are_tried_at_the_found_turn_only() {
    let mut orientation = Orientation::new();
    orientation.record(Some(180));
    let mut search = orientation.page_search();
    assert_eq!(search.next_turn(), Some(180));
    assert_eq!(search.next_turn(), None);
}
