//! The time sources: the clock and the machine's local time zone.
//!
//! Everything here is a thin trusted wrapper around `chrono`. The local
//! time zone is not a function the library could state — it depends on the
//! machine — so the wrappers promise validity of what comes back plus the
//! one bound every zone obeys: a `chrono` offset is strictly less than one
//! day (`FixedOffset::east_opt` refuses anything at or beyond ±86400 s),
//! so a local civil time and the instant it names always lie within a day
//! of one another. The verified callers say what they compute from any
//! such value.

use vstd::prelude::*;
use crate::civil::{Civil, civil_instant, is_utc_civil, valid_civil, MIN_INSTANT, MAX_INSTANT};
use chrono::{Datelike, TimeZone, Timelike};

verus! {

/// What a wall-clock time maps to in the local time zone: one instant, two
/// (a clock turned back), or none (a clock turned forward).
#[derive(Clone, Copy, Debug, PartialEq, Eq, Structural)]
pub enum LocalOutcome {
    Single(i64),
    Ambiguous(i64, i64),
    Missing,
}

/// Relies on `chrono::Utc::now`: the current instant, which is a valid
/// `chrono` datetime and so lies within `chrono`'s representable range.
#[verifier::external_body]
pub(crate) fn now_unix() -> (r: i64)
    ensures
        -8_400_000_000_000 <= r <= 8_300_000_000_000,
{
    chrono::Utc::now().timestamp()
}

/// Relies on `chrono::DateTime::from_timestamp` and
/// `chrono::DateTime::with_timezone(&Local)`: the local calendar date and
/// time of day of an instant. Which civil time comes back depends on the
/// machine's time zone; it is always a valid calendar time within a day of
/// the instant (the zone's offset is under a day), and within the
/// supported range its year stays far inside the year bounds the calendar
/// arithmetic asks for.
#[verifier::external_body]
pub(crate) fn local_civil_of(t: i64) -> (r: Civil)
    requires
        MIN_INSTANT - 172_800 <= t <= MAX_INSTANT + 172_800,
    ensures
        valid_civil(r),
        -260_000 <= r.year <= 260_000,
        -86400 < civil_instant(r) - t < 86400,
{
    let local = chrono::DateTime::<chrono::Utc>::from_timestamp(t, 0)
        .unwrap()
        .with_timezone(&chrono::Local);
    Civil {
        year: local.year(),
        month: local.month() as u8,
        day: local.day() as u8,
        hour: local.hour() as u8,
        minute: local.minute() as u8,
        second: local.second() as u8,
    }
}

/// Relies on `chrono::TimeZone::from_local_datetime` on `chrono::Local`:
/// the instants (none, one or two) that a local wall-clock time names.
/// Every returned instant differs from the wall-clock time read as UTC by
/// the zone's offset, which is under a day. No order is promised for an
/// ambiguous pair: `chrono`'s enum documents it as `(earliest, latest)`,
/// but its Unix time-zone lookup orders the pair by offset, which on a
/// fold is the opposite order of the instants — callers must pick the one
/// they mean themselves.
#[verifier::external_body]
pub(crate) fn local_instant_of(c: Civil) -> (r: LocalOutcome)
    requires
        valid_civil(c),
        -262_000 <= c.year <= 262_000,
    ensures
        r matches LocalOutcome::Single(v) ==> -86400 < v - civil_instant(c) < 86400,
        r matches LocalOutcome::Ambiguous(a, b) ==> -86400 < a - civil_instant(c) < 86400
            && -86400 < b - civil_instant(c) < 86400,
{
    let date = chrono::NaiveDate::from_ymd_opt(c.year, c.month as u32, c.day as u32).unwrap();
    let naive = date.and_hms_opt(c.hour as u32, c.minute as u32, c.second as u32).unwrap();
    match chrono::Local.from_local_datetime(&naive) {
        chrono::LocalResult::Single(dt) => LocalOutcome::Single(dt.timestamp()),
        chrono::LocalResult::Ambiguous(a, b) => LocalOutcome::Ambiguous(a.timestamp(), b.timestamp()),
        chrono::LocalResult::None => LocalOutcome::Missing,
    }
}

/// Relies on `chrono::DateTime::from_timestamp`: the UTC calendar date and
/// time of day of an instant. Unlike the local conversions this is plain
/// arithmetic, so the contract pins it down exactly: the date is the one
/// whose day number is the instant's epoch day, and the time of day splits
/// the instant's second of the day.
#[verifier::external_body]
pub(crate) fn utc_civil_of(t: i64) -> (r: Civil)
    requires
        MIN_INSTANT <= t <= MAX_INSTANT,
    ensures
        valid_civil(r),
        -260_000 <= r.year <= 260_000,
        is_utc_civil(t as int, r),
{
    let utc = chrono::DateTime::<chrono::Utc>::from_timestamp(t, 0).unwrap();
    Civil {
        year: utc.year(),
        month: utc.month() as u8,
        day: utc.day() as u8,
        hour: utc.hour() as u8,
        minute: utc.minute() as u8,
        second: utc.second() as u8,
    }
}

} // verus!
