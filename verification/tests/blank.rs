use signer::blank::find_blank;
use signer::pages::text_blanks;

/// A character's box: x, y, width, height, in PDF points.
type Bbox = (f32, f32, f32, f32);

/// The label, a space, then a run of underscores, laid out left to right on
/// one line at the metrics the real documents use.
fn line(text: &str) -> (Vec<char>, Vec<Bbox>) {
    let chars: Vec<char> = text.chars().collect();
    let boxes = (0..chars.len()).map(|index| (index as f32 * 4.0, 367.68, 4.0, 6.96)).collect();
    (chars, boxes)
}

/// The blank's rectangle (x, y, width, height), from the boxes of its first
/// and last underscore.
fn blank(line: &(Vec<char>, Vec<Bbox>), label: &str) -> Option<Bbox> {
    let (start, end) = find_blank(&line.0, label)?;
    let (first, last) = (line.1[start], line.1[end - 1]);
    Some((first.0, first.1, last.0 + last.2 - first.0, first.3))
}

#[test]
fn blank_is_the_underscore_run_after_the_label() {
    let blank = blank(&line("Datum: ____"), "Datum:").unwrap();

    // Seven characters of `Datum: ` precede the run, which is four wide.
    assert_eq!(blank.0, 28.0);
    assert_eq!(blank.2, 16.0);
    assert_eq!(blank.1, 367.68);
}

#[test]
fn blank_stops_at_the_next_label() {
    let chars = line("Datum: ____Pflegedienst: __");
    let blank = blank(&chars, "Datum:").unwrap();

    assert_eq!(blank.2, 16.0, "ran past the end of its own underscores");
}

#[test]
fn a_later_label_finds_its_own_blank() {
    let chars = line("Datum: ____Pflegedienst: __");
    let blank = blank(&chars, "Pflegedienst:").unwrap();

    assert_eq!(blank.0, 100.0);
    assert_eq!(blank.2, 8.0);
}

#[test]
fn a_missing_label_has_no_blank() {
    assert!(blank(&line("Datum: ____"), "Klient:").is_none());
}

#[test]
fn a_label_with_no_underscores_has_no_blank() {
    assert!(blank(&line("Datum: 1.5.2026"), "Datum:").is_none());
}

#[test]
fn a_label_is_found_past_a_multi_byte_character() {
    // `ä` is two bytes but one character, so a byte offset would slip here.
    let chars = line("Bevollmächtigter: __");
    let blank = blank(&chars, "Bevollmächtigter:").unwrap();

    assert_eq!(blank.0, 72.0);
}

fn chars(text: &str) -> Vec<char> {
    text.chars().collect()
}

#[test]
fn the_span_covers_exactly_the_underscores() {
    assert_eq!(find_blank(&chars("Datum: ____"), "Datum:"), Some((7, 11)));
    assert_eq!(find_blank(&chars("Datum:___ x"), "Datum:"), Some((6, 9)));
}

#[test]
fn any_whitespace_may_separate_label_and_blank() {
    assert_eq!(find_blank(&chars("Datum:\t \u{a0}\n__"), "Datum:"), Some((10, 12)));
    assert_eq!(find_blank(&chars("Datum:\u{2003}_"), "Datum:"), Some((7, 8)));
}

#[test]
fn a_label_without_a_blank_gives_way_to_a_later_one() {
    // The first `Datum:` has no blank; the second one's is the blank.
    assert_eq!(find_blank(&chars("Datum: x Datum: __"), "Datum:"), Some((16, 18)));
    assert_eq!(
        text_blanks(&chars("Datum: x Datum: __"), "Datum:", "Klient:"),
        Some((Some((16, 18)), None))
    );
}

#[test]
fn the_first_label_with_a_blank_wins() {
    assert_eq!(find_blank(&chars("Datum: _ Datum: ___"), "Datum:"), Some((7, 8)));
}

#[test]
fn a_blank_at_the_very_end_is_found() {
    assert_eq!(find_blank(&chars("Datum:_"), "Datum:"), Some((6, 7)));
}

#[test]
fn a_label_at_the_very_end_has_no_blank() {
    assert_eq!(find_blank(&chars("Datum:"), "Datum:"), None);
    assert_eq!(find_blank(&chars("Datum:   "), "Datum:"), None);
}

#[test]
fn a_label_longer_than_the_text_is_not_found() {
    assert_eq!(find_blank(&chars("Dat"), "Datum:"), None);
    assert_eq!(find_blank(&[], "Datum:"), None);
}

#[test]
fn a_page_with_either_blank_is_kept() {
    let text = chars("Datum: __ Klient: ___");
    assert_eq!(text_blanks(&text, "Datum:", "Klient:"), Some((Some((7, 9)), Some((18, 21)))));
    assert_eq!(text_blanks(&text, "Datum:", "Betreuer:"), Some((Some((7, 9)), None)));
    assert_eq!(text_blanks(&text, "Ort:", "Klient:"), Some((None, Some((18, 21)))));
}

#[test]
fn a_page_with_neither_blank_is_dropped() {
    assert_eq!(text_blanks(&chars("Datum: 1.5.2026"), "Datum:", "Klient:"), None);
}
