//! The calendar date a date picker widget shows.
use vstd::prelude::*;
use chrono::Datelike;

verus! {

/// The smallest year a `chrono::NaiveDate` holds.
pub const MIN_YEAR: i32 = -262143;

/// The largest year a `chrono::NaiveDate` holds.
pub const MAX_YEAR: i32 = 262142;

/// Leap years of the proleptic Gregorian calendar (year 0 is a leap year).
pub open spec fn is_leap_year(y: int) -> bool {
    y % 4 == 0 && (y % 100 != 0 || y % 400 == 0)
}

/// The number of days of month `m` (1 to 12) of year `y`.
pub open spec fn days_in_month(y: int, m: int) -> int {
    if m == 2 {
        if is_leap_year(y) { 29 } else { 28 }
    } else if m == 4 || m == 6 || m == 9 || m == 11 {
        30
    } else {
        31
    }
}

/// Whether year `y`, month `m` and day `d` name a day that `chrono::NaiveDate` can hold.
pub open spec fn valid_ymd(y: int, m: int, d: int) -> bool {
    &&& MIN_YEAR <= y <= MAX_YEAR
    &&& 1 <= m <= 12
    &&& 1 <= d <= days_in_month(y, m)
}

/// `chrono::NaiveDate::from_ymd_opt`, with the date it makes given back as year, month and
/// day. Its documentation and source say that it gives `None` exactly when the day does not
/// exist in the calendar or the year is out of chrono's range, and otherwise the date of
/// that year, month and day.
#[verifier::external_body]
fn ymd_checked(year: i32, month: u32, day: u32) -> (r: Option<(i32, u32, u32)>)
    ensures
        r == if valid_ymd(year as int, month as int, day as int) {
            Some((year, month, day))
        } else {
            None
        },
{
    match chrono::NaiveDate::from_ymd_opt(year, month, day) {
        Some(date) => Some((date.year(), date.month(), date.day())),
        None => None,
    }
}

/// `v` clamped into `[lo, hi]`.
pub open spec fn clamp_u32(v: u32, lo: u32, hi: u32) -> u32 {
    if v < lo { lo } else if v > hi { hi } else { v }
}

/// The date a date picker shows for a stored year, month and day: the month is clamped to
/// 1..=12 and the day to 1..=28; when chrono cannot hold that date, 2025-01-01.
pub fn picker_date(year: i32, month: u32, day: u32) -> (r: (i32, u32, u32))
    ensures
        r == if MIN_YEAR <= year <= MAX_YEAR {
            (year, clamp_u32(month, 1, 12), clamp_u32(day, 1, 28))
        } else {
            (2025i32, 1u32, 1u32)
        },
{
    let m: u32 = if month < 1 { 1 } else if month > 12 { 12 } else { month };
    let d: u32 = if day < 1 { 1 } else if day > 28 { 28 } else { day };
    match ymd_checked(year, m, d) {
        Some(date) => date,
        None => {
            let fallback = ymd_checked(2025, 1, 1);
            match fallback {
                Some(date) => date,
                None => (2025, 1, 1),
            }
        },
    }
}

} // verus!
