//! Calendar values as the DS3231 driver reads and writes them, and the
//! calendar facts it takes from `chrono`.
use vstd::prelude::*;

verus! {

/// Proleptic Gregorian leap year.
pub open spec fn is_leap_year(year: int) -> bool {
    year % 4 == 0 && (year % 100 != 0 || year % 400 == 0)
}

/// Number of days of a month (1 to 12) in a year.
pub open spec fn days_in_month(year: int, month: int) -> int {
    if month == 2 {
        if is_leap_year(year) {
            29
        } else {
            28
        }
    } else if month == 4 || month == 6 || month == 9 || month == 11 {
        30
    } else {
        31
    }
}

/// The first and last years that `chrono::NaiveDate` can hold.
pub open spec fn min_year() -> int {
    -262143
}

pub open spec fn max_year() -> int {
    262142
}

/// The year, month and day name a day of the calendar that `chrono` can hold.
pub open spec fn valid_date(year: i32, month: u32, day: u32) -> bool {
    &&& min_year() <= year <= max_year()
    &&& 1 <= month <= 12
    &&& 1 <= day <= days_in_month(year as int, month as int)
}

/// The hour, minute and second name a time of day (no leap second).
pub open spec fn valid_time(hour: u32, minute: u32, second: u32) -> bool {
    hour < 24 && minute < 60 && second < 60
}

/// ISO 8601 day-of-week number (Monday = 1 .. Sunday = 7) of a calendar day,
/// as `chrono` computes it.
pub uninterp spec fn iso_weekday(year: i32, month: u32, day: u32) -> u32;

/// Calls `chrono::NaiveDate::from_ymd_opt` and reports whether it gave a date.
/// Trusted: `from_ymd_opt` returns `Some` exactly for a month of 1 to 12, a day
/// that exists in that month of the proleptic Gregorian calendar, and a year
/// between `chrono`'s `MIN_YEAR` and `MAX_YEAR`.
#[verifier::external_body]
fn chrono_date_exists(year: i32, month: u32, day: u32) -> (exists: bool)
    ensures
        exists == valid_date(year, month, day),
{
    chrono::NaiveDate::from_ymd_opt(year, month, day).is_some()
}

/// Calls `chrono::NaiveTime::from_hms_opt` and reports whether it gave a time.
/// Trusted: `from_hms_opt` returns `Some` exactly when the hour is below 24 and
/// the minute and second are below 60.
#[verifier::external_body]
fn chrono_time_exists(hour: u32, minute: u32, second: u32) -> (exists: bool)
    ensures
        exists == valid_time(hour, minute, second),
{
    chrono::NaiveTime::from_hms_opt(hour, minute, second).is_some()
}

/// Calls `chrono::Datelike::weekday` on the date and then
/// `chrono::Weekday::number_from_monday`.
/// Trusted: the result is `chrono`'s weekday of that day, numbered from
/// Monday = 1 to Sunday = 7; the date must exist (the date is built with
/// `from_ymd_opt(..).unwrap()`).
#[verifier::external_body]
fn chrono_weekday_from_monday(year: i32, month: u32, day: u32) -> (weekday: u32)
    requires
        valid_date(year, month, day),
    ensures
        weekday == iso_weekday(year, month, day),
        1 <= weekday <= 7,
{
    let date = chrono::NaiveDate::from_ymd_opt(year, month, day).unwrap();
    chrono::Datelike::weekday(&date).number_from_monday()
}

/// A calendar date and time of day, field by field as `chrono`'s accessors
/// give them.
#[derive(Clone, Copy, Debug, PartialEq, Eq, Structural)]
pub struct DateTime {
    pub year: i32,
    pub month: u32,
    pub day: u32,
    pub hour: u32,
    pub minute: u32,
    pub second: u32,
}

impl DateTime {
    /// The fields name an existing date and time that `chrono` can hold.
    pub open spec fn valid(&self) -> bool {
        valid_date(self.year, self.month, self.day) && valid_time(
            self.hour,
            self.minute,
            self.second,
        )
    }

    /// Whether the fields name a date and time that `chrono` can hold.
    pub fn is_valid(&self) -> (valid: bool)
        ensures
            valid == self.valid(),
    {
        chrono_date_exists(self.year, self.month, self.day) && chrono_time_exists(
            self.hour,
            self.minute,
            self.second,
        )
    }

    /// ISO weekday number (Monday = 1 .. Sunday = 7) of the date.
    pub fn weekday_from_monday(&self) -> (weekday: u32)
        requires
            self.valid(),
        ensures
            weekday == iso_weekday(self.year, self.month, self.day),
            1 <= weekday <= 7,
    {
        chrono_weekday_from_monday(self.year, self.month, self.day)
    }
}

/// A calendar date, field by field as `chrono`'s accessors give them.
#[derive(Clone, Copy, Debug, PartialEq, Eq, Structural)]
pub struct Date {
    pub year: i32,
    pub month: u32,
    pub day: u32,
}

/// A time of day, field by field as `chrono`'s accessors give them.
#[derive(Clone, Copy, Debug, PartialEq, Eq, Structural)]
pub struct Time {
    pub hour: u32,
    pub minute: u32,
    pub second: u32,
}

} // verus!
