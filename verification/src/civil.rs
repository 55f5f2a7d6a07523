//! Proleptic Gregorian calendar arithmetic on plain integers.
//!
//! A `Civil` value is a wall-clock date and time of day, with no time zone
//! attached. Instants are `i64` seconds since the Unix epoch; the supported
//! range is `MIN_INSTANT..=MAX_INSTANT`, an exact number of days on either
//! side of the epoch, comfortably inside what the `chrono` crate represents.

use vstd::prelude::*;
use vstd::arithmetic::div_mod::{lemma_hoist_over_denominator, lemma_mod_multiples_vanish};

verus! {

/// Latest supported instant: 92 000 000 days after the Unix epoch.
pub const MAX_INSTANT: i64 = 7_948_800_000_000;
/// Earliest supported instant: 92 000 000 days before the Unix epoch.
pub const MIN_INSTANT: i64 = -7_948_800_000_000;

/// A wall-clock date and time of day, time-zone free.
#[derive(Clone, Copy, Debug, PartialEq, Eq, Structural)]
pub struct Civil {
    pub year: i32,
    pub month: u8,
    pub day: u8,
    pub hour: u8,
    pub minute: u8,
    pub second: u8,
}

pub open spec fn is_leap_year(y: int) -> bool {
    y % 4 == 0 && (y % 100 != 0 || y % 400 == 0)
}

pub open spec fn days_in_month(y: int, m: int) -> int {
    if m == 2 {
        if is_leap_year(y) { 29 } else { 28 }
    } else if m == 4 || m == 6 || m == 9 || m == 11 {
        30
    } else {
        31
    }
}

/// A calendar date and time of day with every field in range.
pub open spec fn valid_civil(c: Civil) -> bool {
    &&& 1 <= c.month <= 12
    &&& 1 <= c.day <= days_in_month(c.year as int, c.month as int)
    &&& c.hour <= 23
    &&& c.minute <= 59
    &&& c.second <= 59
}

/// Day number of a calendar date, counted from 1970-01-01 (day 0).
pub open spec fn days_from_civil(y: int, m: int, d: int) -> int {
    let yy = if m <= 2 { y - 1 } else { y };
    let era = yy / 400;
    let yoe = yy - era * 400;
    let mp = if m > 2 { m - 3 } else { m + 9 };
    let doy = (153 * mp + 2) / 5 + d - 1;
    let doe = yoe * 365 + yoe / 4 - yoe / 100 + doy;
    era * 146097 + doe - 719468
}

/// Day number (from the epoch) of the UTC calendar date holding instant `t`.
pub open spec fn epoch_day(t: int) -> int {
    (t + 7_948_800_000_000) / 86400 - 92_000_000
}

/// Seconds elapsed since UTC midnight at instant `t`.
pub open spec fn second_of_day(t: int) -> int {
    (t + 7_948_800_000_000) % 86400
}

/// Weekday of a day number, with Monday as 0 and Sunday as 6.
pub open spec fn weekday_of_day(day: int) -> int {
    (day + 3) % 7
}

/// The instant a civil time names when read as UTC. Read in some other
/// time zone, the instant it names differs from this by that zone's
/// offset, which is always less than a day.
pub open spec fn civil_instant(c: Civil) -> int {
    86400 * days_from_civil(c.year as int, c.month as int, c.day as int) + 3600 * c.hour
        + 60 * c.minute + c.second
}

/// Whether `c` is the UTC calendar form of instant `t`: the date holds
/// `t`'s epoch day and the time of day splits `t`'s second of the day.
pub open spec fn is_utc_civil(t: int, c: Civil) -> bool {
    &&& days_from_civil(c.year as int, c.month as int, c.day as int) == epoch_day(t)
    &&& c.hour == second_of_day(t) / 3600
    &&& c.minute == (second_of_day(t) % 3600) / 60
    &&& c.second == second_of_day(t) % 60
}

pub fn leap_year(y: i32) -> (r: bool)
    ensures
        r == is_leap_year(y as int),
{
    (y % 4 == 0 && y % 100 != 0) || y % 400 == 0
}

pub fn month_length(y: i32, m: u8) -> (r: u8)
    requires
        1 <= m <= 12,
    ensures
        r == days_in_month(y as int, m as int),
{
    if m == 2 {
        if leap_year(y) { 29 } else { 28 }
    } else if m == 4 || m == 6 || m == 9 || m == 11 {
        30
    } else {
        31
    }
}

/// Day number of a calendar date, counted from 1970-01-01 (day 0).
pub fn civil_to_day(y: i32, m: u8, d: u8) -> (r: i64)
    requires
        -400_000 <= y <= 400_000,
        1 <= m <= 12,
        1 <= d <= 31,
    ensures
        r == days_from_civil(y as int, m as int, d as int),
{
    let yy: i64 = if m <= 2 { y as i64 - 1 } else { y as i64 };
    // Shift the year by a multiple of 400 so every intermediate value is
    // non-negative; the era count shifts by the same whole number of eras.
    let ys: u64 = (yy + 1_200_000) as u64;
    let era: u64 = ys / 400;
    let yoe: u64 = ys - era * 400;
    let mp: u64 = if m > 2 { (m - 3) as u64 } else { (m + 9) as u64 };
    let doy: u64 = (153 * mp + 2) / 5 + d as u64 - 1;
    let doe: u64 = yoe * 365 + yoe / 4 - yoe / 100 + doy;
    proof {
        lemma_hoist_over_denominator(yy as int, 3000, 400);
        assert(ys as int / 400 == yy as int / 400 + 3000);
    }
    (era * 146097 + doe) as i64 - 3000 * 146097 - 719468
}

/// Weekday of a day number, with Monday as 0 and Sunday as 6.
pub fn weekday_of(day: i64) -> (r: u8)
    requires
        -1_000_000_000 <= day <= 1_000_000_000,
    ensures
        r == weekday_of_day(day as int),
        r < 7,
{
    let shifted: u64 = (day + 3 + 7_000_000_000) as u64;
    proof {
        lemma_mod_multiples_vanish(1_000_000_000, day as int + 3, 7);
    }
    (shifted % 7) as u8
}

/// The nearest supported instant: `t` itself whenever `t` is in range.
pub fn clamp_instant(t: i64) -> (r: i64)
    ensures
        MIN_INSTANT <= r <= MAX_INSTANT,
        MIN_INSTANT <= t <= MAX_INSTANT ==> r == t,
{
    if t < MIN_INSTANT {
        MIN_INSTANT
    } else if t > MAX_INSTANT {
        MAX_INSTANT
    } else {
        t
    }
}

/// Day number (from the epoch) of the UTC calendar date holding instant `t`.
pub fn epoch_day_of(t: i64) -> (r: i64)
    requires
        MIN_INSTANT <= t <= MAX_INSTANT,
    ensures
        r == epoch_day(t as int),
{
    let shifted: u64 = (t + 7_948_800_000_000) as u64;
    (shifted / 86400) as i64 - 92_000_000
}

} // verus!
