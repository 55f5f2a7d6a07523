//! The relative-time renderer.
//!
//! `pretty_time` turns an instant into a human phrase, judged against the
//! clock. An instant whose local time of day is exactly midnight is taken
//! to be a date-only due date and renders at day granularity; anything else
//! within a day of now renders as a duration (rounded up to whole minutes),
//! and otherwise the calendar difference in days picks today / yesterday /
//! tomorrow, a weekday name within six days, or the full date. Day
//! difference is judged on local dates for date-only values and on UTC
//! dates otherwise, and every time of day shown is local.

use vstd::prelude::*;
use vstd::string::*;
use crate::civil::{civil_instant, civil_to_day, clamp_instant, days_from_civil, epoch_day,
    epoch_day_of, valid_civil, weekday_of, weekday_of_day, Civil, MIN_INSTANT, MAX_INSTANT};
use crate::text::{dec_str, dec_u64, pad2_str, pad2_u64, year_str, year_string};
use crate::zone::{local_civil_of, now_unix};

verus! {

/// Whether a local civil time reads as a date-only due date.
pub open spec fn is_midnight(c: Civil) -> bool {
    c.hour == 0 && c.minute == 0 && c.second == 0
}

/// A time of day as `HH:MM`.
pub open spec fn hm_str(c: Civil) -> Seq<char> {
    pad2_str(c.hour as nat) + ":"@ + pad2_str(c.minute as nat)
}

/// A date as `YYYY-MM-DD`.
pub open spec fn ymd_str(c: Civil) -> Seq<char> {
    year_str(c.year as int) + "-"@ + pad2_str(c.month as nat) + "-"@ + pad2_str(c.day as nat)
}

/// A date and time as `YYYY-MM-DD HH:MM:SS`.
pub open spec fn ymd_hms_str(c: Civil) -> Seq<char> {
    ymd_str(c) + " "@ + hm_str(c) + ":"@ + pad2_str(c.second as nat)
}

/// The English name of a weekday, Monday being 0.
pub open spec fn weekday_name(w: int) -> Seq<char> {
    if w == 0 { "Monday"@ }
    else if w == 1 { "Tuesday"@ }
    else if w == 2 { "Wednesday"@ }
    else if w == 3 { "Thursday"@ }
    else if w == 4 { "Friday"@ }
    else if w == 5 { "Saturday"@ }
    else { "Sunday"@ }
}

/// A duration below a day as hours and minutes, rounded up to whole
/// minutes: both parts when both are non-zero, one part when one is, and
/// `0m` for nothing.
pub open spec fn duration_phrase(abs_secs: int) -> Seq<char>
    recommends
        0 <= abs_secs < 86400,
{
    let mins = (abs_secs + 59) / 60;
    let h = mins / 60;
    let m = mins % 60;
    if h > 0 && m > 0 {
        dec_str(h as nat) + "h "@ + dec_str(m as nat) + "m"@
    } else if h > 0 {
        dec_str(h as nat) + "h"@
    } else if m > 0 {
        dec_str(m as nat) + "m"@
    } else {
        "0m"@
    }
}

/// What `pretty_time` says for instant `dt` when the clock reads `now`,
/// given the local civil forms of the two instants.
pub open spec fn pretty_spec(dt: int, now: int, dl: Civil, nl: Civil) -> Seq<char> {
    let date_only = is_midnight(dl);
    let secs = dt - now;
    let abs = if secs >= 0 { secs } else { -secs };
    if !date_only && abs < 86400 {
        if secs >= 0 {
            "in "@ + duration_phrase(abs)
        } else {
            duration_phrase(abs) + " ago"@
        }
    } else {
        let dl_day = days_from_civil(dl.year as int, dl.month as int, dl.day as int);
        let nl_day = days_from_civil(nl.year as int, nl.month as int, nl.day as int);
        let diff = if date_only { dl_day - nl_day } else { epoch_day(dt) - epoch_day(now) };
        if diff == 0 {
            if date_only { "today"@ } else { "today at "@ + hm_str(dl) }
        } else if diff == -1 {
            if date_only { "yesterday"@ } else { "yesterday at "@ + hm_str(dl) }
        } else if diff == 1 {
            if date_only { "tomorrow"@ } else { "tomorrow at "@ + hm_str(dl) }
        } else if -6 <= diff <= 6 {
            let name = weekday_name(weekday_of_day(dl_day));
            if date_only { name } else { name + " at "@ + hm_str(dl) }
        } else {
            if date_only { ymd_str(dl) } else { ymd_str(dl) + " "@ + hm_str(dl) }
        }
    }
}

fn weekday_string(w: u8) -> (r: String)
    requires
        w < 7,
    ensures
        r@ == weekday_name(w as int),
{
    match w {
        0 => String::from_str("Monday"),
        1 => String::from_str("Tuesday"),
        2 => String::from_str("Wednesday"),
        3 => String::from_str("Thursday"),
        4 => String::from_str("Friday"),
        5 => String::from_str("Saturday"),
        _ => String::from_str("Sunday"),
    }
}

fn hm_string(c: &Civil) -> (r: String)
    ensures
        r@ == hm_str(*c),
{
    let mut s = pad2_u64(c.hour as u64);
    s.append(":");
    let m = pad2_u64(c.minute as u64);
    s.append(m.as_str());
    proof {
        assert(s@ =~= hm_str(*c));
    }
    s
}

fn ymd_string(c: &Civil) -> (r: String)
    requires
        -400_000 <= c.year <= 400_000,
    ensures
        r@ == ymd_str(*c),
{
    let mut s = year_string(c.year as i64);
    s.append("-");
    let mo = pad2_u64(c.month as u64);
    s.append(mo.as_str());
    s.append("-");
    let d = pad2_u64(c.day as u64);
    s.append(d.as_str());
    proof {
        assert(s@ =~= ymd_str(*c));
    }
    s
}

/// A date and time as `YYYY-MM-DD HH:MM:SS`, the stored timestamp form.
pub fn ymd_hms_string(c: &Civil) -> (r: String)
    requires
        -400_000 <= c.year <= 400_000,
    ensures
        r@ == ymd_hms_str(*c),
{
    let mut s = ymd_string(c);
    s.append(" ");
    let hm = hm_string(c);
    s.append(hm.as_str());
    s.append(":");
    let sec = pad2_u64(c.second as u64);
    s.append(sec.as_str());
    proof {
        assert(s@ =~= ymd_hms_str(*c));
    }
    s
}

fn duration_string(abs_secs: i64) -> (r: String)
    requires
        0 <= abs_secs < 86400,
    ensures
        r@ == duration_phrase(abs_secs as int),
{
    let mins: u64 = (abs_secs as u64 + 59) / 60;
    let h: u64 = mins / 60;
    let m: u64 = mins % 60;
    if h > 0 && m > 0 {
        let mut s = dec_u64(h);
        s.append("h ");
        let ms = dec_u64(m);
        s.append(ms.as_str());
        s.append("m");
        proof {
            assert(s@ =~= duration_phrase(abs_secs as int));
        }
        s
    } else if h > 0 {
        let mut s = dec_u64(h);
        s.append("h");
        proof {
            assert(s@ =~= duration_phrase(abs_secs as int));
        }
        s
    } else if m > 0 {
        let mut s = dec_u64(m);
        s.append("m");
        proof {
            assert(s@ =~= duration_phrase(abs_secs as int));
        }
        s
    } else {
        String::from_str("0m")
    }
}

/// Renders instant `dt` against clock reading `now`, given the local civil
/// forms of the two instants. The whole phrase is pinned down by
/// `pretty_spec`; the public entry points only supply the clock and the
/// local time zone's answers.
pub fn pretty_time_parts(dt: i64, now: i64, dt_local: Civil, now_local: Civil) -> (r: String)
    requires
        MIN_INSTANT <= dt <= MAX_INSTANT,
        MIN_INSTANT <= now <= MAX_INSTANT,
        valid_civil(dt_local),
        valid_civil(now_local),
        -400_000 <= dt_local.year <= 400_000,
        -400_000 <= now_local.year <= 400_000,
    ensures
        r@ == pretty_spec(dt as int, now as int, dt_local, now_local),
{
    let date_only = dt_local.hour == 0 && dt_local.minute == 0 && dt_local.second == 0;
    let secs: i64 = dt - now;
    let abs: i64 = if secs >= 0 { secs } else { -secs };
    if !date_only && abs < 86400 {
        let phrase = duration_string(abs);
        if secs >= 0 {
            let mut s = String::from_str("in ");
            s.append(phrase.as_str());
            proof {
                assert(s@ =~= pretty_spec(dt as int, now as int, dt_local, now_local));
            }
            s
        } else {
            let mut s = phrase;
            s.append(" ago");
            proof {
                assert(s@ =~= pretty_spec(dt as int, now as int, dt_local, now_local));
            }
            s
        }
    } else {
        let dl_day = civil_to_day(dt_local.year, dt_local.month, dt_local.day);
        let nl_day = civil_to_day(now_local.year, now_local.month, now_local.day);
        let diff: i64 = if date_only {
            dl_day - nl_day
        } else {
            epoch_day_of(dt) - epoch_day_of(now)
        };
        if diff == 0 {
            if date_only {
                String::from_str("today")
            } else {
                let mut s = String::from_str("today at ");
                let hm = hm_string(&dt_local);
                s.append(hm.as_str());
                proof {
                    assert(s@ =~= pretty_spec(dt as int, now as int, dt_local, now_local));
                }
                s
            }
        } else if diff == -1 {
            if date_only {
                String::from_str("yesterday")
            } else {
                let mut s = String::from_str("yesterday at ");
                let hm = hm_string(&dt_local);
                s.append(hm.as_str());
                proof {
                    assert(s@ =~= pretty_spec(dt as int, now as int, dt_local, now_local));
                }
                s
            }
        } else if diff == 1 {
            if date_only {
                String::from_str("tomorrow")
            } else {
                let mut s = String::from_str("tomorrow at ");
                let hm = hm_string(&dt_local);
                s.append(hm.as_str());
                proof {
                    assert(s@ =~= pretty_spec(dt as int, now as int, dt_local, now_local));
                }
                s
            }
        } else if -6 <= diff && diff <= 6 {
            let wd = weekday_of(dl_day);
            let name = weekday_string(wd);
            if date_only {
                name
            } else {
                let mut s = name;
                s.append(" at ");
                let hm = hm_string(&dt_local);
                s.append(hm.as_str());
                proof {
                    assert(s@ =~= pretty_spec(dt as int, now as int, dt_local, now_local));
                }
                s
            }
        } else {
            let ymd = ymd_string(&dt_local);
            if date_only {
                ymd
            } else {
                let mut s = ymd;
                s.append(" ");
                let hm = hm_string(&dt_local);
                s.append(hm.as_str());
                proof {
                    assert(s@ =~= pretty_spec(dt as int, now as int, dt_local, now_local));
                }
                s
            }
        }
    }
}

/// Renders instant `dt` against a given clock reading, asking the local
/// time zone for the civil forms of the two instants. The phrase is
/// `pretty_spec` for civil forms that each lie within a day of their
/// instant (a time-zone offset is under a day), which ties the rendered
/// calendar date to the instant rendered.
pub fn pretty_time_at(dt: i64, now: i64) -> (r: String)
    requires
        MIN_INSTANT <= dt <= MAX_INSTANT,
        MIN_INSTANT <= now <= MAX_INSTANT,
    ensures
        exists|dl: Civil, nl: Civil|
            valid_civil(dl) && valid_civil(nl) && -86400 < civil_instant(dl) - dt < 86400
                && -86400 < civil_instant(nl) - now < 86400 && r@ == #[trigger] pretty_spec(
                dt as int,
                now as int,
                dl,
                nl,
            ),
{
    let dt_local = local_civil_of(dt);
    let now_local = local_civil_of(now);
    let r = pretty_time_parts(dt, now, dt_local, now_local);
    proof {
        assert(valid_civil(dt_local) && valid_civil(now_local)
            && -86400 < civil_instant(dt_local) - dt < 86400
            && -86400 < civil_instant(now_local) - now < 86400
            && r@ == pretty_spec(dt as int, now as int, dt_local, now_local));
    }
    r
}

/// Renders instant `dt` against the clock: `pretty_spec` for the clock
/// value read and for local civil forms each within a day of their
/// instant.
pub fn pretty_time(dt: i64) -> (r: String)
    requires
        MIN_INSTANT <= dt <= MAX_INSTANT,
    ensures
        exists|now: int, dl: Civil, nl: Civil|
            MIN_INSTANT <= now <= MAX_INSTANT && valid_civil(dl) && valid_civil(nl)
                && -86400 < civil_instant(dl) - dt < 86400
                && -86400 < civil_instant(nl) - now < 86400 && r@ == #[trigger] pretty_spec(
                dt as int,
                now,
                dl,
                nl,
            ),
{
    let now = clamp_instant(now_unix());
    pretty_time_at(dt, now)
}

/// One half of the date-only round trip: an instant at local midnight
/// whose local calendar date lies more than six days from today's renders
/// as the bare `YYYY-MM-DD` — and that phrase holds no clock time: no ':'
/// occurs in it.
pub proof fn lemma_date_only_far_renders_bare_date(dt: int, now: int, dl: Civil, nl: Civil)
    requires
        is_midnight(dl),
        ({
            let diff = days_from_civil(dl.year as int, dl.month as int, dl.day as int)
                - days_from_civil(nl.year as int, nl.month as int, nl.day as int);
            diff < -6 || diff > 6
        }),
    ensures
        pretty_spec(dt, now, dl, nl) == ymd_str(dl),
        forall|i: int| 0 <= i < pretty_spec(dt, now, dl, nl).len()
            ==> (#[trigger] pretty_spec(dt, now, dl, nl)[i]) as u32 != 58,
{
    crate::text::lemma_year_str_chars(dl.year as int);
    crate::text::lemma_pad2_str_shape(dl.month as nat);
    crate::text::lemma_pad2_str_shape(dl.day as nat);
    reveal_strlit("-");
}

/// The other half of the round trip: a date-time due date a full day or
/// more from now renders with its local clock time — the phrase ends in
/// the local `HH:MM`, never a zone-shifted one.
pub proof fn lemma_date_time_far_renders_local_time(dt: int, now: int, dl: Civil, nl: Civil)
    requires
        valid_civil(dl),
        !is_midnight(dl),
        ({
            let secs = dt - now;
            (if secs >= 0 { secs } else { -secs }) >= 86400
        }),
    ensures
        ({
            let s = pretty_spec(dt, now, dl, nl);
            s.len() >= 5 && s.subrange(s.len() - 5, s.len() as int) == hm_str(dl)
        }),
{
    crate::text::lemma_pad2_str_shape(dl.hour as nat);
    crate::text::lemma_pad2_str_shape(dl.minute as nat);
    reveal_strlit(":");
    let s = pretty_spec(dt, now, dl, nl);
    assert(hm_str(dl).len() == 5);
    assert(s.subrange(s.len() - 5, s.len() as int) =~= hm_str(dl));
}

/// Whether a not-yet-due date deserves a "soon" mark. The window tiers are
/// as tuned in the display code; together they admit exactly the due dates
/// from now through the next twenty-four hours.
pub fn is_due_soon(due: i64, now: i64) -> (r: bool)
    ensures
        r == (0 <= due as int - now as int <= 86400),
{
    let diff: i128 = due as i128 - now as i128;
    if diff < 0 {
        return false;
    }
    if diff <= 20 * 60 {
        return true;  // minute-level tasks
    }
    if diff <= 24 * 3600 {
        return true;  // day-before window
    }
    if diff <= 7 * 86400 {
        return diff <= 86400;  // week-range tasks
    }
    diff <= 3 * 86400  // longer-range tasks
}

} // verus!
