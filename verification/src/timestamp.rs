//! The format's legacy timestamps: 32-bit counts of seconds since
//! 1904-01-01T00:00:00Z, converted to a calendar breakdown.
//!
//! The conversion itself is done by the `chrono` crate; its contract is
//! stated against a day-numbering function over the proleptic Gregorian
//! calendar, so that the returned calendar time provably lies exactly
//! `epoch_secs` seconds after the 1904 epoch.

use vstd::prelude::*;

use chrono::{Datelike, TimeDelta, Timelike};

verus! {

/// A calendar time, broken down into plain fields.  No time zone is
/// attached; all values are in UTC, as the format prescribes.
#[derive(Clone, Copy, Debug, PartialEq, Eq, Structural)]
pub struct CalendarTime {
    pub year: i32,
    pub month: u8,
    pub day: u8,
    pub hour: u8,
    pub minute: u8,
    pub second: u8,
}

/// True for leap years of the proleptic Gregorian calendar.
pub open spec fn is_leap_year(y: int) -> bool {
    (y % 4 == 0 && y % 100 != 0) || y % 400 == 0
}

/// The number of days in the given month.
pub open spec fn days_in_month(y: int, m: int) -> int
    recommends
        1 <= m <= 12,
{
    if m == 2 {
        if is_leap_year(y) {
            29
        } else {
            28
        }
    } else if m == 4 || m == 6 || m == 9 || m == 11 {
        30
    } else {
        31
    }
}

/// The serial day number of a calendar date: days since 0000-03-01 of the
/// proleptic Gregorian calendar, counted in eras of 146097 days
/// (400 years).  Only differences of day numbers are ever used.
pub open spec fn days_from_civil(y: int, m: int, d: int) -> int
    recommends
        1 <= y,
        1 <= m <= 12,
        1 <= d <= days_in_month(y, m),
{
    let shifted_year = if m <= 2 {
        y - 1
    } else {
        y
    };
    let era = shifted_year / 400;
    let year_of_era = shifted_year - era * 400;
    let shifted_month = if m > 2 {
        m - 3
    } else {
        m + 9
    };
    let day_of_year = (153 * shifted_month + 2) / 5 + d - 1;
    let day_of_era = year_of_era * 365 + year_of_era / 4 - year_of_era / 100 + day_of_year;
    era * 146097 + day_of_era
}

impl CalendarTime {
    /// Fields form a real calendar time.
    pub open spec fn valid(self) -> bool {
        &&& 1 <= self.year
        &&& 1 <= self.month <= 12
        &&& 1 <= self.day <= days_in_month(self.year as int, self.month as int)
        &&& self.hour < 24
        &&& self.minute < 60
        &&& self.second < 60
    }

    /// The time measured in whole seconds on the same serial scale as
    /// [`days_from_civil`].
    pub open spec fn total_seconds(self) -> int {
        days_from_civil(self.year as int, self.month as int, self.day as int) * 86400
            + self.hour * 3600 + self.minute * 60 + self.second
    }
}

/// The format's native epoch, 1904-01-01T00:00:00Z.
pub open spec fn mp4_epoch() -> CalendarTime {
    CalendarTime { year: 1904, month: 1, day: 1, hour: 0, minute: 0, second: 0 }
}

/// Relies on chrono's `NaiveDate::from_ymd_opt`, `NaiveDate::and_hms_opt`,
/// `NaiveDateTime::checked_add_signed` and the `Datelike` / `Timelike`
/// accessors: adding a whole number of seconds to 1904-01-01T00:00:00 on
/// the proleptic Gregorian calendar and reading back the calendar fields.
/// The result is a valid calendar time lying exactly `epoch_secs` seconds
/// after the epoch; the largest 32-bit input stays far below chrono's year
/// ceiling, so the conversion cannot fail.
#[verifier::external_body]
pub fn as_timestamp(epoch_secs: u32) -> (r: CalendarTime)
    ensures
        r.valid(),
        r.total_seconds() == mp4_epoch().total_seconds() + epoch_secs,
{
    let epoch = chrono::NaiveDate::from_ymd_opt(1904, 1, 1)
        .unwrap()
        .and_hms_opt(0, 0, 0)
        .unwrap();
    let t = epoch.checked_add_signed(TimeDelta::seconds(epoch_secs as i64)).unwrap();
    CalendarTime {
        year: t.year(),
        month: t.month() as u8,
        day: t.day() as u8,
        hour: t.hour() as u8,
        minute: t.minute() as u8,
        second: t.second() as u8,
    }
}

} // verus!
