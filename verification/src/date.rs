//! Reading the date to fill in, and writing it out again.
//!
//! A date is read as `DD.MM.YYYY` or as `YYYY-MM-DD` and written in a
//! `strftime` format, so the result is the same whichever way it was typed.
//! `jiff` does the reading and the writing.

use vstd::prelude::*;

verus! {

/// What `--date` is read as first.
pub const EUROPEAN: &'static str = "%d.%m.%Y";

/// What `--date` is read as when it is not European.
pub const ISO: &'static str = "%Y-%m-%d";

/// The format the date is written in unless another is given.
pub const DEFAULT_DATE_FORMAT: &'static str = "%d.%m.%Y";

#[verifier::external_type_specification]
#[verifier::external_body]
pub struct ExJiffError(jiff::Error);

/// A day of the proleptic Gregorian calendar.
#[derive(Clone, Copy, Debug, PartialEq, Eq)]
pub struct CivilDate {
    pub year: i16,
    pub month: i8,
    pub day: i8,
}

pub open spec fn is_leap_year(year: int) -> bool {
    (year % 4 == 0 && year % 100 != 0) || year % 400 == 0
}

pub open spec fn days_in_month(year: int, month: int) -> int {
    if month == 2 {
        if is_leap_year(year) { 29 } else { 28 }
    } else if month == 4 || month == 6 || month == 9 || month == 11 {
        30
    } else {
        31
    }
}

impl CivilDate {
    /// A real day, in the years `jiff` covers.
    pub open spec fn valid(self) -> bool {
        &&& -9999 <= self.year <= 9999
        &&& 1 <= self.month <= 12
        &&& 1 <= self.day <= days_in_month(self.year as int, self.month as int)
    }
}

/// What `jiff` reads `input` as under the `strptime` format `format`, or
/// `None` where it refuses to.
pub uninterp spec fn strptime(format: Seq<char>, input: Seq<char>) -> Option<CivilDate>;

/// What `jiff` writes for `date` under the `strftime` format `format`, or
/// `None` where the format cannot be written from a date alone.
pub uninterp spec fn strftime(format: Seq<char>, date: CivilDate) -> Option<Seq<char>>;

/// `jiff::civil::Date::strptime`: `input` read as a date under `format`.
/// What it reads is left to the name `strptime`; the contract adds only that
/// a date it gives back is a real one, which `jiff`'s `Date` always is.
#[verifier::external_body]
fn read_date(format: &str, input: &str) -> (r: Result<CivilDate, jiff::Error>)
    ensures
        match r {
            Ok(date) => strptime(format@, input@) == Some(date) && date.valid(),
            Err(_) => strptime(format@, input@) is None,
        },
{
    match jiff::civil::Date::strptime(format, input) {
        Ok(date) => Ok(CivilDate { year: date.year(), month: date.month(), day: date.day() }),
        Err(error) => Err(error),
    }
}

/// `jiff::fmt::strtime::format`: `date` written under `format`, as the name
/// `strftime` says. The date is handed over as `jiff::civil::date`, which
/// panics on a day that does not exist; the `requires` rules that out.
#[verifier::external_body]
fn write_date(format: &str, date: CivilDate) -> (r: Result<String, jiff::Error>)
    requires
        date.valid(),
    ensures
        match r {
            Ok(text) => strftime(format@, date) == Some(text@),
            Err(_) => strftime(format@, date) is None,
        },
{
    jiff::fmt::strtime::format(format, jiff::civil::date(date.year, date.month, date.day))
}

#[verifier::external_type_specification]
#[verifier::external_body]
pub struct ExSystemTime(std::time::SystemTime);

/// `std::time::SystemTime::now`: the system clock's reading. Nothing is
/// said of it.
#[verifier::external_body]
fn clock() -> std::time::SystemTime {
    std::time::SystemTime::now()
}

/// `jiff::Zoned::try_from` a clock reading, as a date: that day in the
/// system's time zone (`jiff` falls back to UTC when it cannot tell which
/// zone that is). The day depends on the zone, so only its being a real day
/// is stated. `jiff` refuses a reading outside the years it covers.
#[verifier::external_body]
fn day_at(now: std::time::SystemTime) -> (r: Result<CivilDate, jiff::Error>)
    ensures
        r matches Ok(day) ==> day.valid(),
{
    match jiff::Zoned::try_from(now) {
        Ok(zoned) => {
            let date = zoned.date();
            Ok(CivilDate { year: date.year(), month: date.month(), day: date.day() })
        },
        Err(error) => Err(error),
    }
}

/// Why a date could not be filled in.
#[derive(Debug)]
pub enum DateError {
    /// The given date is neither `DD.MM.YYYY` nor `YYYY-MM-DD`.
    Unreadable(String),
    /// The date cannot be written in this format.
    Unwritable(String, jiff::Error),
    /// No date was given, and the system clock reads a time outside the
    /// years a date can have.
    Clock(jiff::Error),
}

/// What a date typed as `input` is: read as European, or else as ISO.
pub open spec fn reading(input: Seq<char>) -> Option<CivilDate> {
    match strptime(EUROPEAN@, input) {
        Some(date) => Some(date),
        None => strptime(ISO@, input),
    }
}

/// `r` is what writing `date` in `format` gives.
pub open spec fn is_written(format: Seq<char>, date: CivilDate, r: Result<String, DateError>) -> bool {
    match strftime(format, date) {
        Some(text) => r matches Ok(s) && s@ == text,
        None => r matches Err(DateError::Unwritable(f, _)) && f@ == format,
    }
}

/// The day typed as `input`, given what it reads as in the European form
/// and in the ISO form: the European reading wins, and with neither the
/// input is refused.
pub fn pick_reading(input: &str, european: Option<CivilDate>, iso: Option<CivilDate>) -> (r: Result<CivilDate, DateError>)
    ensures
        match european {
            Some(day) => r == Ok::<CivilDate, DateError>(day),
            None => match iso {
                Some(day) => r == Ok::<CivilDate, DateError>(day),
                None => r matches Err(DateError::Unreadable(s)) && s@ == input@,
            },
        },
{
    match european {
        Some(day) => Ok(day),
        None => match iso {
            Some(day) => Ok(day),
            None => Err(DateError::Unreadable(input.to_string())),
        },
    }
}

/// `date` read as `DD.MM.YYYY`, or failing that as `YYYY-MM-DD`.
pub fn parse_date(date: &str) -> (r: Result<CivilDate, DateError>)
    ensures
        match reading(date@) {
            Some(day) => r == Ok::<CivilDate, DateError>(day) && day.valid(),
            None => r matches Err(DateError::Unreadable(s)) && s@ == date@,
        },
        strptime(EUROPEAN@, date@) matches Some(day) ==> r == Ok::<CivilDate, DateError>(day),
        strptime(EUROPEAN@, date@) is None ==> match strptime(ISO@, date@) {
            Some(day) => r == Ok::<CivilDate, DateError>(day),
            None => r is Err,
        },
{
    let european = match read_date(EUROPEAN, date) {
        Ok(day) => Some(day),
        Err(_) => None,
    };
    let iso = match read_date(ISO, date) {
        Ok(day) => Some(day),
        Err(_) => None,
    };
    pick_reading(date, european, iso)
}

/// A date typed in the European form is the day `jiff` reads under
/// `%d.%m.%Y`, exactly as read: day stays day and month stays month.
pub proof fn lemma_european_form_read_as_typed(input: Seq<char>, day: CivilDate)
    requires
        strptime(EUROPEAN@, input) == Some(day),
    ensures
        reading(input) == Some(day),
        reading(input)->0.day == day.day,
        reading(input)->0.month == day.month,
        reading(input)->0.year == day.year,
{
}

/// A date that is not in the European form is the day `jiff` reads under
/// `%Y-%m-%d`, or none.
pub proof fn lemma_iso_form_read_otherwise(input: Seq<char>)
    requires
        strptime(EUROPEAN@, input) is None,
    ensures
        reading(input) == strptime(ISO@, input),
{
}

/// Whatever day the typed date reads as under `%d.%m.%Y`, that same day is
/// what gets written, in whatever format: `format_date` never alters the day
/// it read.
pub proof fn lemma_written_day_is_the_read_day(input: Seq<char>, format: Seq<char>, day: CivilDate, r: Result<String, DateError>)
    requires
        strptime(EUROPEAN@, input) == Some(day),
        is_formatted(Some(input), format, r),
    ensures
        match strftime(format, day) {
            Some(text) => r matches Ok(s) && s@ == text,
            None => r matches Err(DateError::Unwritable(f, _)) && f@ == format,
        },
{
}

/// `date` written in `format`.
pub fn write_day(date: CivilDate, format: &str) -> (r: Result<String, DateError>)
    requires
        date.valid(),
    ensures
        is_written(format@, date, r),
{
    match write_date(format, date) {
        Ok(text) => Ok(text),
        Err(error) => Err(DateError::Unwritable(format.to_string(), error)),
    }
}

/// Today's date, as the clock and its zone gave it (or their refusal),
/// written in `format`: the day given is the day written, unchanged.
pub fn fill_today(today: Result<CivilDate, jiff::Error>, format: &str) -> (r: Result<String, DateError>)
    requires
        today matches Ok(day) ==> day.valid(),
    ensures
        today matches Ok(day) ==> is_written(format@, day, r),
        today matches Err(error) ==> r matches Err(DateError::Clock(e)) && e == error,
{
    match today {
        Ok(day) => write_day(day, format),
        Err(error) => Err(DateError::Clock(error)),
    }
}

/// `r` is what [`format_date`] gives for the date typed as `input` (or
/// none) in `format`: the day read, written; the input named if it is not a
/// date; and for no input, some real day (today's) written, or the clock
/// refused.
pub open spec fn is_formatted(input: Option<Seq<char>>, format: Seq<char>, r: Result<String, DateError>) -> bool {
    match input {
        Some(typed) => match reading(typed) {
            Some(day) => is_written(format, day, r),
            None => r matches Err(DateError::Unreadable(s)) && s@ == typed,
        },
        None => r matches Err(DateError::Clock(_))
            || exists|day: CivilDate| day.valid() && is_written(format, day, r),
    }
}

/// Two ways of typing the same day give the same text.
pub proof fn lemma_same_day_same_text(
    a: Seq<char>,
    b: Seq<char>,
    format: Seq<char>,
    ra: Result<String, DateError>,
    rb: Result<String, DateError>,
)
    requires
        reading(a) is Some,
        reading(a) == reading(b),
        is_formatted(Some(a), format, ra),
        is_formatted(Some(b), format, rb),
    ensures
        ra is Ok <==> rb is Ok,
        ra matches Ok(sa) ==> rb matches Ok(sb) && sa@ == sb@,
{
}

/// `date`, or today if there is none, written in `format`: the same result
/// whichever way the date was typed.
pub fn format_date(date: Option<&str>, format: &str) -> (r: Result<String, DateError>)
    ensures
        is_formatted(
            match date {
                Some(input) => Some(input@),
                None => None,
            },
            format@,
            r,
        ),
{
    match date {
        Some(input) => {
            let day = parse_date(input)?;
            write_day(day, format)
        },
        None => fill_today(day_at(clock()), format),
    }
}

} // verus!
