use signer::ink::{blanks, locate_label, longest_run, rule_after, InkImage, LineBounds, OcrLine};

/// A page from rows of `#` (ink) and `.` (paper).
fn page(rows: &[&str]) -> InkImage {
    let width = rows[0].len() as u32;
    let pixels = rows
        .iter()
        .flat_map(|row| row.chars().map(|c| if c == '#' { 0 } else { 255 }))
        .collect();
    InkImage::new(width, rows.len() as u32, pixels).unwrap()
}

#[test]
fn a_page_must_fill_its_rows() {
    assert!(InkImage::new(3, 2, vec![0; 5]).is_none());
    assert!(InkImage::new(3, 2, vec![0; 6]).is_some());
}

#[test]
fn the_longest_run_wins() {
    let ink = page(&["##.####.###"]);
    assert_eq!(longest_run(&ink, 0, 0), Some((3, 6)));
}

#[test]
fn the_first_of_equally_long_runs_wins() {
    let ink = page(&["..###..###"]);
    assert_eq!(longest_run(&ink, 0, 0), Some((2, 4)));
}

#[test]
fn a_run_is_cut_where_the_search_starts() {
    let ink = page(&["#####..##"]);
    assert_eq!(longest_run(&ink, 0, 2), Some((2, 4)));
    assert_eq!(longest_run(&ink, 0, 5), Some((7, 8)));
}

#[test]
fn a_row_without_ink_has_no_run() {
    let ink = page(&["#........"]);
    assert_eq!(longest_run(&ink, 0, 1), None);
    assert_eq!(longest_run(&ink, 0, 20), None);
}

#[test]
fn the_threshold_decides_what_is_ink() {
    let ink = InkImage::new(4, 1, vec![159, 159, 160, 159]).unwrap();
    assert_eq!(longest_run(&ink, 0, 0), Some((0, 1)));
}

fn bounds(top: i32, right: i32, bottom: i32) -> LineBounds {
    LineBounds { top, right, bottom }
}

/// A page `width` wide with a rule on row `y` from `x0` to `x1`.
fn ruled(width: u32, height: u32, rules: &[(u32, u32, u32)]) -> InkImage {
    let mut pixels = vec![255u8; (width * height) as usize];
    for &(y, x0, x1) in rules {
        for x in x0..=x1 {
            pixels[(y * width + x) as usize] = 0;
        }
    }
    InkImage::new(width, height, pixels).unwrap()
}

#[test]
fn the_rule_after_a_line_is_found_below_it() {
    let ink = ruled(100, 30, &[(15, 20, 79)]);
    assert_eq!(rule_after(&ink, &bounds(5, 10, 8), 30), Some((15, 20, 79)));
}

#[test]
fn a_rule_starts_two_pixels_right_of_the_line() {
    let ink = ruled(100, 30, &[(6, 10, 79)]);
    assert_eq!(rule_after(&ink, &bounds(5, 10, 8), 30), Some((6, 12, 79)));
}

#[test]
fn a_short_run_is_no_rule() {
    // Thirty columns between first and last make a rule; twenty-nine do not.
    let ink = ruled(100, 30, &[(6, 20, 49)]);
    assert_eq!(rule_after(&ink, &bounds(5, 10, 8), 30), None);
    let ink = ruled(100, 30, &[(6, 20, 50)]);
    assert_eq!(rule_after(&ink, &bounds(5, 10, 8), 30), Some((6, 20, 50)));
}

#[test]
fn the_lowest_of_equally_long_rules_wins() {
    let ink = ruled(100, 30, &[(6, 20, 59), (9, 30, 69)]);
    assert_eq!(rule_after(&ink, &bounds(5, 10, 8), 30), Some((9, 30, 69)));
    let ink = ruled(100, 30, &[(6, 20, 60), (9, 30, 69)]);
    assert_eq!(rule_after(&ink, &bounds(5, 10, 8), 30), Some((6, 20, 60)));
}

#[test]
fn a_rule_too_far_below_is_not_looked_at() {
    // Rows 5 up to 8 + 12 = 20 are searched.
    let ink = ruled(100, 30, &[(20, 20, 79)]);
    assert_eq!(rule_after(&ink, &bounds(5, 10, 8), 30), None);
    let ink = ruled(100, 30, &[(19, 20, 79)]);
    assert_eq!(rule_after(&ink, &bounds(5, 10, 8), 30), Some((19, 20, 79)));
}

#[test]
fn the_search_stops_at_the_page_height_given() {
    let ink = ruled(100, 30, &[(12, 20, 79)]);
    assert_eq!(rule_after(&ink, &bounds(5, 10, 8), 12), None);
}

#[test]
fn negative_bounds_count_from_zero() {
    let ink = ruled(100, 30, &[(0, 2, 79)]);
    assert_eq!(rule_after(&ink, &bounds(-4, -9, -1), 30), Some((0, 2, 79)));
}

fn line(text: &str, top: i32, right: i32, bottom: i32) -> OcrLine {
    OcrLine { text: text.to_string(), bounds: bounds(top, right, bottom) }
}

#[test]
fn each_label_finds_the_rule_after_its_line() {
    let ink = ruled(200, 60, &[(10, 60, 150), (40, 90, 190)]);
    let lines = vec![
        line("Datum:", 2, 50, 8),
        line("Pflegedienst", 15, 80, 20),
        line("Klient/Bevollm?chtigter/Betreuer", 30, 80, 38),
    ];
    assert_eq!(
        blanks(&lines, &ink, "Datum:", "Klient/Bevollmächtigter/Betreuer:"),
        Some((Some((10, 60, 150)), Some((40, 90, 190))))
    );
}

#[test]
fn a_reading_without_a_rule_gives_way_to_a_later_one() {
    let ink = ruled(200, 60, &[(40, 90, 190)]);
    let lines = vec![line("Datum", 2, 50, 8), line("Datum", 30, 80, 38)];
    assert_eq!(locate_label(&lines, &ink, "Datum:"), Some((40, 90, 190)));
}

#[test]
fn the_first_reading_with_a_rule_wins() {
    let ink = ruled(200, 60, &[(5, 60, 150), (40, 90, 190)]);
    let lines = vec![line("Datum", 2, 50, 8), line("Datum", 30, 80, 38)];
    assert_eq!(locate_label(&lines, &ink, "Datum:"), Some((5, 60, 150)));
}

#[test]
fn a_page_read_the_wrong_way_up_has_no_blanks() {
    let ink = ruled(200, 60, &[(10, 60, 150)]);
    let lines = vec![line(":mutaD", 2, 50, 8)];
    assert_eq!(blanks(&lines, &ink, "Datum:", "Klient:"), None);
}

#[test]
fn a_label_without_a_rule_has_no_blank() {
    let ink = ruled(200, 60, &[(10, 60, 150)]);
    let lines = vec![line("Datum:", 2, 50, 8), line("Klient:", 40, 80, 45)];
    assert_eq!(blanks(&lines, &ink, "Datum:", "Klient:"), Some((Some((10, 60, 150)), None)));
}
