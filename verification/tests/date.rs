use signer::date::{format_date, parse_date, pick_reading, write_day, CivilDate, DateError, DEFAULT_DATE_FORMAT};

#[test]
fn a_date_reads_the_same_either_way_round() {
    let european = format_date(Some("31.05.2026"), DEFAULT_DATE_FORMAT).unwrap();
    let iso = format_date(Some("2026-05-31"), DEFAULT_DATE_FORMAT).unwrap();

    assert_eq!(european, "31.05.2026");
    assert_eq!(european, iso, "the input form leaked into the output");
}

#[test]
fn the_format_decides_how_the_date_is_written() {
    assert_eq!(
        format_date(Some("31.05.2026"), "%Y-%m-%d").unwrap(),
        "2026-05-31"
    );
}

#[test]
fn a_date_that_is_not_one_is_refused() {
    // Rather than silently standing in today's date for it.
    assert!(format_date(Some("tomorrow"), DEFAULT_DATE_FORMAT).is_err());
}

#[test]
fn an_impossible_day_is_refused() {
    assert!(format_date(Some("31.02.2026"), DEFAULT_DATE_FORMAT).is_err());
}

#[test]
fn a_format_that_wants_more_than_a_date_is_refused() {
    // `%Q` needs a time zone, which a civil date has not got.
    assert!(format_date(Some("31.05.2026"), "%Q").is_err());
}

#[test]
fn both_input_forms_give_the_same_day() {
    let day = CivilDate { year: 2026, month: 5, day: 31 };
    assert_eq!(parse_date("31.05.2026").unwrap(), day);
    assert_eq!(parse_date("2026-05-31").unwrap(), day);
}

#[test]
fn an_unreadable_date_names_the_input() {
    match parse_date("tomorrow") {
        Err(DateError::Unreadable(input)) => assert_eq!(input, "tomorrow"),
        other => panic!("expected an unreadable date, got {other:?}"),
    }
}

#[test]
fn an_unwritable_format_names_the_format() {
    let day = CivilDate { year: 2026, month: 5, day: 31 };
    match write_day(day, "%Q") {
        Err(DateError::Unwritable(format, _)) => assert_eq!(format, "%Q"),
        other => panic!("expected an unwritable format, got {other:?}"),
    }
}

#[test]
fn month_names_render_in_english() {
    assert_eq!(format_date(Some("01.03.2026"), "%B %-d, %Y").unwrap(), "March 1, 2026");
}

#[test]
fn leap_days_are_real_only_in_leap_years() {
    assert!(parse_date("29.02.2024").is_ok());
    assert!(parse_date("29.02.2026").is_err());
}

#[test]
fn without_a_date_today_is_written() {
    let written = format_date(None, "%Y-%m-%d").unwrap();
    assert_eq!(written.len(), 10);
    assert!(parse_date(&written).is_ok());
}

#[test]
fn the_european_reading_wins_over_the_iso_one() {
    let (a, b) = (CivilDate { year: 2026, month: 5, day: 1 }, CivilDate { year: 2026, month: 1, day: 5 });
    assert_eq!(pick_reading("x", Some(a), Some(b)).unwrap(), a);
    assert_eq!(pick_reading("x", None, Some(b)).unwrap(), b);
    match pick_reading("x", None, None) {
        Err(DateError::Unreadable(input)) => assert_eq!(input, "x"),
        other => panic!("expected an unreadable date, got {other:?}"),
    }
}
