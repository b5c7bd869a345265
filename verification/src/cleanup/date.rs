//! Calendar dates of file modification, and the two conversions the library
//! takes from chrono: a Unix timestamp to a UTC date, and text to a date.
use chrono::Datelike;
use vstd::prelude::*;

verus! {

/// A proleptic Gregorian calendar date.
#[derive(Debug, Clone, Copy, PartialEq, Eq, Structural)]
pub struct Date {
    pub year: i32,
    /// 1 to 12.
    pub month: u32,
    /// 1 to 31.
    pub day: u32,
}

/// Whether `a` is an earlier day than `b` (year, then month, then day).
pub open spec fn date_lt(a: Date, b: Date) -> bool {
    a.year < b.year || (a.year == b.year && (a.month < b.month || (a.month == b.month && a.day
        < b.day)))
}

impl Date {
    /// Whether this date is an earlier day than `other`.
    pub fn is_before(&self, other: &Date) -> (r: bool)
        ensures
            r == date_lt(*self, *other),
    {
        self.year < other.year || (self.year == other.year && (self.month < other.month || (
        self.month == other.month && self.day < other.day)))
    }
}

/// The proleptic Gregorian date, as (year, month, day), of the day `z` days
/// after 1970-01-01 (negative `z` before it). Days are counted in 400-year
/// eras of 146097 days whose years start on March 1, so that a leap day is the
/// last day of its year.
pub open spec fn civil_from_days(z: int) -> (int, int, int) {
    let z = z + 719468;
    let era = z / 146097;
    let doe = z - era * 146097;
    let yoe = (doe - doe / 1460 + doe / 36524 - doe / 146096) / 365;
    let doy = doe - (365 * yoe + yoe / 4 - yoe / 100);
    let mp = (5 * doy + 2) / 153;
    let d = doy - (153 * mp + 2) / 5 + 1;
    let m = if mp < 10 {
        mp + 3
    } else {
        mp - 9
    };
    let y = yoe + era * 400 + if m <= 2 {
        1int
    } else {
        0int
    };
    (y, m, d)
}

/// The UTC calendar date, as (year, month, day), of a Unix timestamp in seconds,
/// as `chrono::DateTime::from_timestamp` computes it: the date of the day that
/// holds the instant, `None` when its year is outside chrono's range
/// (-262143 to 262142).
pub open spec fn spec_date_of_timestamp(secs: i64) -> Option<(i32, u32, u32)> {
    let (y, m, d) = civil_from_days(secs as int / 86400);
    if -262143 <= y <= 262142 {
        Some((y as i32, m as u32, d as u32))
    } else {
        None
    }
}

/// The date, as (year, month, day), that `chrono::NaiveDate::parse_from_str`
/// reads from `s` with the format `fmt`; `None` when it refuses the text.
pub uninterp spec fn spec_parse_date(s: Seq<char>, fmt: Seq<char>) -> Option<(i32, u32, u32)>;

/// The UTC date of a Unix timestamp (`chrono::DateTime::from_timestamp(secs, 0)`,
/// then its date): the proleptic Gregorian date of the day that holds the
/// instant, `spec_date_of_timestamp`; chrono refuses years outside its range.
#[verifier::external_body]
pub(crate) fn date_of_timestamp(secs: i64) -> (r: Option<Date>)
    ensures
        match r {
            Some(d) => spec_date_of_timestamp(secs) == Some((d.year, d.month, d.day)) && 1
                <= d.month <= 12 && 1 <= d.day <= 31,
            None => spec_date_of_timestamp(secs) is None,
        },
{
    match chrono::DateTime::from_timestamp(secs, 0) {
        Some(dt) => {
            let d = dt.naive_utc().date();
            Some(Date { year: d.year(), month: d.month(), day: d.day() })
        },
        None => None,
    }
}

/// Text read as a date with a chrono format (`chrono::NaiveDate::parse_from_str`).
/// The result is named by `spec_parse_date`; chrono documents months as 1 to 12
/// and days as 1 to 31.
#[verifier::external_body]
pub(crate) fn parse_date(s: &str, fmt: &str) -> (r: Option<Date>)
    ensures
        match r {
            Some(d) => spec_parse_date(s@, fmt@) == Some((d.year, d.month, d.day)) && 1 <= d.month
                <= 12 && 1 <= d.day <= 31,
            None => spec_parse_date(s@, fmt@) is None,
        },
{
    match chrono::NaiveDate::parse_from_str(s, fmt) {
        Ok(d) => Some(Date { year: d.year(), month: d.month(), day: d.day() }),
        Err(_) => None,
    }
}

/// The date a file modified at a Unix timestamp was last changed, in UTC.
pub fn modified_date_of(secs: i64) -> (r: Option<Date>)
    ensures
        match r {
            Some(d) => spec_date_of_timestamp(secs) == Some((d.year, d.month, d.day)),
            None => spec_date_of_timestamp(secs) is None,
        },
{
    date_of_timestamp(secs)
}

/// A `YYYY-MM-DD` date given on the command line.
pub fn parse_ymd(s: &str) -> (r: Option<Date>)
    ensures
        match r {
            Some(d) => spec_parse_date(s@, "%Y-%m-%d"@) == Some((d.year, d.month, d.day)),
            None => spec_parse_date(s@, "%Y-%m-%d"@) is None,
        },
{
    parse_date(s, "%Y-%m-%d")
}

} // verus!
