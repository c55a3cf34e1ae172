//! Calendar dates as course files store them, and the seconds since the
//! epoch that they stand for.

use chrono::{NaiveDate, NaiveDateTime, NaiveTime};
use vstd::prelude::*;

verus! {

pub open spec fn is_leap_year(year: int) -> bool {
    year % 4 == 0 && (year % 100 != 0 || year % 400 == 0)
}

/// Number of days of a month; zero for a month that does not exist.
pub open spec fn days_in_month(year: int, month: int) -> int {
    if month == 4 || month == 6 || month == 9 || month == 11 {
        30
    } else if month == 2 {
        if is_leap_year(year) {
            29
        } else {
            28
        }
    } else if 1 <= month <= 12 {
        31
    } else {
        0
    }
}

/// The day exists in the proleptic Gregorian calendar.
pub open spec fn valid_date(year: int, month: int, day: int) -> bool {
    1 <= month <= 12 && 1 <= day <= days_in_month(year, month)
}

/// The hour and minute exist on a clock.
pub open spec fn valid_time(hour: int, minute: int) -> bool {
    0 <= hour < 24 && 0 <= minute < 60
}

/// The five stored values form a date and a time of day.
pub open spec fn valid_calendar(year: u16, month: u8, day: u8, hour: u8, minute: u8) -> bool {
    valid_date(year as int, month as int, day as int) && valid_time(hour as int, minute as int)
}

/// Number of leap years among the years `0 .. year`, for a year from 0 on.
pub open spec fn leap_years_before(year: int) -> int {
    (year + 3) / 4 - (year + 99) / 100 + (year + 399) / 400
}

/// Number of days of the year that lie in front of the month.
pub open spec fn days_before_month(year: int, month: int) -> int
    decreases month,
{
    if month <= 1 {
        0
    } else {
        days_before_month(year, month - 1) + days_in_month(year, month - 1)
    }
}

/// Number of days from 1 January 1970 to the given day, for a year from 0
/// on; negative for a day in front of it.
pub open spec fn days_since_epoch(year: int, month: int, day: int) -> int {
    365 * year + leap_years_before(year) + days_before_month(year, month) + (day - 1) - 719528
}

/// Number of seconds from the midnight that began 1 January 1970 to the
/// given minute.
pub open spec fn seconds_since_epoch(year: int, month: int, day: int, hour: int, minute: int) -> int {
    days_since_epoch(year, month, day) * 86400 + hour * 3600 + minute * 60
}

/// Trusted: calls `NaiveDate::from_ymd_opt`, `NaiveTime::from_hms_opt` and
/// `DateTime::timestamp` of `chrono`. The first gives a date exactly for a day
/// that exists, the second a time exactly for an hour under 24 and a minute
/// under 60, and the third counts the seconds since the epoch, without leap
/// seconds. The contract states for which values a number comes back, and
/// which.
#[verifier::external_body]
fn naive_timestamp(year: u16, month: u8, day: u8, hour: u8, minute: u8) -> (secs: Option<i64>)
    ensures
        secs is Some <==> valid_calendar(year, month, day, hour, minute),
        secs is Some ==> secs.unwrap() == seconds_since_epoch(
            year as int,
            month as int,
            day as int,
            hour as int,
            minute as int,
        ),
{
    let date = NaiveDate::from_ymd_opt(year as i32, month as u32, day as u32)?;
    let time = NaiveTime::from_hms_opt(hour as u32, minute as u32, 0)?;
    Some(NaiveDateTime::new(date, time).and_utc().timestamp())
}

/// The stored value of a count of seconds: the count itself, or, for a
/// moment in front of the epoch, the count in two's complement.
pub open spec fn stored_seconds(secs: int) -> u64 {
    if secs >= 0 {
        secs as u64
    } else {
        (secs + 0x1_0000_0000_0000_0000) as u64
    }
}

/// The timestamp of calendar values, where they form a date and a time.
pub open spec fn timestamp_of(year: u16, month: u8, day: u8, hour: u8, minute: u8) -> Option<u64> {
    if valid_calendar(year, month, day, hour, minute) {
        Some(
            stored_seconds(
                seconds_since_epoch(year as int, month as int, day as int, hour as int, minute as int),
            ),
        )
    } else {
        None
    }
}

/// Seconds since the epoch of the given minute, or `None` where the values
/// form no date or no time of day.
pub fn timestamp(year: u16, month: u8, day: u8, hour: u8, minute: u8) -> (res: Option<u64>)
    ensures
        res == timestamp_of(year, month, day, hour, minute),
{
    match naive_timestamp(year, month, day, hour, minute) {
        Some(secs) => {
            if secs >= 0 {
                Some(secs as u64)
            } else {
                let back: u64 = (-(secs + 1)) as u64;
                Some(u64::MAX - back)
            }
        },
        None => None,
    }
}

} // verus!
