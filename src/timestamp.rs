//! Civil date and time of day, as read from file names or remote records.

use vstd::prelude::*;

verus! {

/// Whether `y` is a leap year of the proleptic Gregorian calendar.
pub open spec fn is_leap_year(y: int) -> bool {
    (y % 4 == 0 && y % 100 != 0) || y % 400 == 0
}

/// The number of days of month `m` (1 to 12) of year `y`.
pub open spec fn days_in_month(y: int, m: int) -> int {
    if m == 2 {
        if is_leap_year(y) { 29 } else { 28 }
    } else if m == 4 || m == 6 || m == 9 || m == 11 {
        30
    } else {
        31
    }
}

/// Whether year, month and day name a day of the proleptic Gregorian calendar.
pub open spec fn valid_date(y: int, m: int, d: int) -> bool {
    1 <= m <= 12 && 1 <= d <= days_in_month(y, m)
}

/// Whether hour, minute and second name a time of day (no leap second).
pub open spec fn valid_time(h: int, mi: int, s: int) -> bool {
    0 <= h < 24 && 0 <= mi < 60 && 0 <= s < 60
}

/// The years that the calendar library represents.
pub open spec fn year_in_range(y: int) -> bool {
    -262143 <= y <= 262142
}

/// A date and a time of day, without time zone.
#[derive(Clone, Copy, Debug, PartialEq, Eq)]
pub struct Timestamp {
    pub year: i32,
    pub month: u32,
    pub day: u32,
    pub hour: u32,
    pub minute: u32,
    pub second: u32,
}

impl Timestamp {
    /// Every field names a real calendar day and time of day.
    pub open spec fn wf(&self) -> bool {
        &&& year_in_range(self.year as int)
        &&& valid_date(self.year as int, self.month as int, self.day as int)
        &&& valid_time(self.hour as int, self.minute as int, self.second as int)
    }
}

/// Relies on chrono::NaiveDate::from_ymd_opt: it returns a date exactly for
/// a month of 1 to 12 and a day that exists in that month, in a year that
/// the library represents.
#[verifier::external_body]
fn calendar_has_date(y: i32, m: u32, d: u32) -> (r: bool)
    requires
        year_in_range(y as int),
    ensures
        r == valid_date(y as int, m as int, d as int),
{
    chrono::NaiveDate::from_ymd_opt(y, m, d).is_some()
}

/// Relies on chrono::NaiveTime::from_hms_opt: it returns a time exactly for
/// an hour under 24, a minute under 60 and a second under 60.
#[verifier::external_body]
fn clock_has_time(h: u32, mi: u32, s: u32) -> (r: bool)
    ensures
        r == valid_time(h as int, mi as int, s as int),
{
    chrono::NaiveTime::from_hms_opt(h, mi, s).is_some()
}

/// Builds a timestamp from its fields, when they name a real day and time.
pub fn make_timestamp(
    year: i32,
    month: u32,
    day: u32,
    hour: u32,
    minute: u32,
    second: u32,
) -> (r: Option<Timestamp>)
    requires
        year_in_range(year as int),
    ensures
        r.is_some() <==> (valid_date(year as int, month as int, day as int) && valid_time(
            hour as int,
            minute as int,
            second as int,
        )),
        r.is_some() ==> r.unwrap().wf() && r.unwrap() == (Timestamp {
            year,
            month,
            day,
            hour,
            minute,
            second,
        }),
{
    if calendar_has_date(year, month, day) && clock_has_time(hour, minute, second) {
        Some(Timestamp { year, month, day, hour, minute, second })
    } else {
        None
    }
}


/// The number of days from 1970-01-01 to the given day of the proleptic
/// Gregorian calendar (negative before it): whole 400-year cycles of 146097
/// days, then the day within the cycle, counted in years that start on
/// March 1.
pub open spec fn days_from_epoch(y: int, m: int, d: int) -> int {
    let yy = if m <= 2 { y - 1 } else { y };
    let era = yy / 400;
    let yoe = yy - era * 400;
    let doy = (153 * (if m > 2 { m - 3 } else { m + 9 }) + 2) / 5 + d - 1;
    let doe = yoe * 365 + yoe / 4 - yoe / 100 + doy;
    era * 146097 + doe - 719468
}

/// The day of the week of a date, counted from Sunday (0) to Saturday (6);
/// 1970-01-01 was a Thursday.
pub open spec fn weekday_of(year: i32, month: u32, day: u32) -> u32 {
    ((days_from_epoch(year as int, month as int, day as int) + 4) % 7) as u32
}

/// Relies on chrono::NaiveDate::from_ymd_opt, which gives the date for a
/// real day, and on its weekday read by Weekday::num_days_from_sunday, which
/// counts 0 to 6 from Sunday in the proleptic Gregorian calendar.
#[verifier::external_body]
pub(crate) fn weekday_from_sunday(year: i32, month: u32, day: u32) -> (r: u32)
    requires
        year_in_range(year as int),
        valid_date(year as int, month as int, day as int),
    ensures
        r == weekday_of(year, month, day),
{
    match chrono::NaiveDate::from_ymd_opt(year, month, day) {
        Some(date) => chrono::Datelike::weekday(&date).num_days_from_sunday(),
        None => 0,
    }
}

/// The UTC date and time that an RFC 3339 text writes, if it is one.
pub uninterp spec fn rfc3339_utc(s: Seq<char>) -> Option<Timestamp>;

/// Relies on chrono::DateTime::parse_from_rfc3339 and DateTime::to_utc:
/// an RFC 3339 text gives a date and time, read here in UTC; the fields of
/// a chrono date and time always name a real day and a time of day with a
/// second under 60.
#[verifier::external_body]
pub(crate) fn parse_rfc3339_utc(s: &str) -> (r: Option<Timestamp>)
    ensures
        r == rfc3339_utc(s@),
        r is Some ==> r.unwrap().wf(),
{
    match chrono::DateTime::parse_from_rfc3339(s) {
        Ok(t) => {
            let u = t.to_utc();
            Some(Timestamp {
                year: chrono::Datelike::year(&u),
                month: chrono::Datelike::month(&u),
                day: chrono::Datelike::day(&u),
                hour: chrono::Timelike::hour(&u),
                minute: chrono::Timelike::minute(&u),
                second: chrono::Timelike::second(&u),
            })
        },
        Err(_) => None,
    }
}

} // verus!
