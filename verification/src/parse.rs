//! The due-date parser.
//!
//! A due date is given as one of: the keywords `today` / `tomorrow`
//! (case-insensitive, meaning 23:59:59 local time of that day), a relative
//! duration `<H>h[<M>m]` or `<M>m` (signed integers; spaces are ignored), an
//! absolute date `YYYY-MM-DD` (local midnight), or an absolute date-time
//! `YYYY-MM-DD HH:MM[:SS]` (local time). Classification of the text is
//! fully verified; turning a local wall-clock time into an instant goes
//! through the time-zone wrappers, and a gap in local time (a clock turned
//! forward) is reported as an error while an ambiguous time resolves to the
//! later instant.

use vstd::prelude::*;
use vstd::string::*;
use crate::civil::{civil_instant, clamp_instant, days_in_month, month_length, valid_civil, Civil,
    MIN_INSTANT, MAX_INSTANT};
use crate::error::TaskError;
use crate::text::{
    all_digit_bytes, digits_val, find_byte, int_form, int_val, is_digit_byte, is_ws_byte,
    lower_byte,
    lemma_find_byte_at, lemma_lower_bytes_push, lemma_strip_spaces_push, lemma_ws_prefix_len_at,
    lemma_ws_suffix_len_at, lower_bytes, parse_i64_range, strip_spaces, trim_bytes, ws_prefix_len,
    ws_suffix_len,
};
use crate::zone::{local_civil_of, local_instant_of, now_unix, LocalOutcome};

verus! {

/// What a due-date string was recognized as.
#[derive(Clone, Copy, Debug, PartialEq, Eq, Structural)]
pub enum DueForm {
    /// The keyword `today`.
    Today,
    /// The keyword `tomorrow`.
    Tomorrow,
    /// A relative duration of `hours` hours plus `minutes` minutes from now.
    Rel { hours: i64, minutes: i64 },
    /// An hour count followed by something that is not a valid `<M>m` suffix.
    HourSuffixError,
    /// A calendar date, meaning local midnight of that day.
    DateOnly { year: u16, month: u8, day: u8 },
    /// A calendar date with a local time of day.
    DateTimeAt { year: u16, month: u8, day: u8, hour: u8, minute: u8, second: u8 },
    /// None of the accepted forms.
    Unrecognized,
}

/// The UTF-8 bytes of "today".
pub open spec fn today_bytes() -> Seq<u8> {
    seq![116u8, 111, 100, 97, 121]
}

/// The UTF-8 bytes of "tomorrow".
pub open spec fn tomorrow_bytes() -> Seq<u8> {
    seq![116u8, 111, 109, 111, 114, 114, 111, 119]
}

pub open spec fn fits_i64(x: int) -> bool {
    i64::MIN <= x <= i64::MAX
}

pub open spec fn digits2_at(s: Seq<u8>, i: int) -> bool {
    is_digit_byte(s[i]) && is_digit_byte(s[i + 1])
}

pub open spec fn val2_at(s: Seq<u8>, i: int) -> int {
    (s[i] - 48) * 10 + (s[i + 1] - 48)
}

pub open spec fn digits4_at(s: Seq<u8>, i: int) -> bool {
    is_digit_byte(s[i]) && is_digit_byte(s[i + 1]) && is_digit_byte(s[i + 2])
        && is_digit_byte(s[i + 3])
}

pub open spec fn val4_at(s: Seq<u8>, i: int) -> int {
    ((s[i] - 48) * 1000 + (s[i + 1] - 48) * 100 + (s[i + 2] - 48) * 10 + (s[i + 3] - 48)) as int
}

/// Whether `s` is exactly `YYYY-MM-DD` in shape (validity judged separately).
pub open spec fn date_pattern(s: Seq<u8>) -> bool {
    s.len() == 10 && digits4_at(s, 0) && s[4] == 45 && digits2_at(s, 5) && s[7] == 45
        && digits2_at(s, 8)
}

/// Whether `s[i..]` starts with `HH:MM` in shape.
pub open spec fn time_pattern_at(s: Seq<u8>, i: int) -> bool {
    digits2_at(s, i) && s[i + 2] == 58 && digits2_at(s, i + 3)
}

/// Classifies trimmed, lowercased text as an absolute date or date-time.
pub open spec fn date_form_of(t: Seq<u8>) -> DueForm {
    if date_pattern(t) {
        let y = val4_at(t, 0);
        let mo = val2_at(t, 5);
        let d = val2_at(t, 8);
        if 1 <= mo <= 12 && 1 <= d <= days_in_month(y, mo) {
            DueForm::DateOnly { year: y as u16, month: mo as u8, day: d as u8 }
        } else {
            DueForm::Unrecognized
        }
    } else if t.len() == 16 && date_pattern(t.take(10)) && t[10] == 32 && time_pattern_at(t, 11) {
        let y = val4_at(t, 0);
        let mo = val2_at(t, 5);
        let d = val2_at(t, 8);
        let h = val2_at(t, 11);
        let mi = val2_at(t, 14);
        if 1 <= mo <= 12 && 1 <= d <= days_in_month(y, mo) && h <= 23 && mi <= 59 {
            DueForm::DateTimeAt {
                year: y as u16,
                month: mo as u8,
                day: d as u8,
                hour: h as u8,
                minute: mi as u8,
                second: 0,
            }
        } else {
            DueForm::Unrecognized
        }
    } else if t.len() == 19 && date_pattern(t.take(10)) && t[10] == 32 && time_pattern_at(t, 11)
        && t[16] == 58 && digits2_at(t, 17) {
        let y = val4_at(t, 0);
        let mo = val2_at(t, 5);
        let d = val2_at(t, 8);
        let h = val2_at(t, 11);
        let mi = val2_at(t, 14);
        let sec = val2_at(t, 17);
        if 1 <= mo <= 12 && 1 <= d <= days_in_month(y, mo) && h <= 23 && mi <= 59 && sec <= 59 {
            DueForm::DateTimeAt {
                year: y as u16,
                month: mo as u8,
                day: d as u8,
                hour: h as u8,
                minute: mi as u8,
                second: sec as u8,
            }
        } else {
            DueForm::Unrecognized
        }
    } else {
        DueForm::Unrecognized
    }
}

/// Classifies the raw bytes of a due-date string: trim whitespace, lowercase,
/// try the keywords, then (with spaces stripped) the relative forms, then the
/// absolute forms.
pub open spec fn classify_due(raw: Seq<u8>) -> DueForm {
    let t = lower_bytes(trim_bytes(raw));
    if t == today_bytes() {
        DueForm::Today
    } else if t == tomorrow_bytes() {
        DueForm::Tomorrow
    } else {
        let c = strip_spaces(t);
        let p = find_byte(c, 104);
        if p >= 0 && int_form(c.take(p)) && fits_i64(int_val(c.take(p))) {
            let h = int_val(c.take(p));
            let rest = c.skip(p + 1);
            if rest.len() == 0 {
                DueForm::Rel { hours: h as i64, minutes: 0 }
            } else if rest.last() == 109 && int_form(rest.drop_last())
                && fits_i64(int_val(rest.drop_last())) {
                DueForm::Rel { hours: h as i64, minutes: int_val(rest.drop_last()) as i64 }
            } else {
                DueForm::HourSuffixError
            }
        } else if c.len() > 0 && c.last() == 109 && int_form(c.drop_last())
            && fits_i64(int_val(c.drop_last())) {
            DueForm::Rel { hours: 0, minutes: int_val(c.drop_last()) as i64 }
        } else {
            date_form_of(t)
        }
    }
}

/// An input and its canonical form — trimmed of surrounding whitespace and
/// lowercased, as in `"  2h 30m  "` against `"2h 30m"` or `"TODAY"` against
/// `"today"` — classify as the same due-date form, so the parser treats
/// them alike.
pub proof fn lemma_classify_canonical(raw: Seq<u8>)
    ensures
        classify_due(lower_bytes(trim_bytes(raw))) == classify_due(raw),
{
    let s = trim_bytes(raw);
    let t = lower_bytes(s);
    crate::text::lemma_ws_prefix_len_props(raw);
    crate::text::lemma_ws_suffix_len_props(raw);
    crate::text::lemma_lower_bytes_index(s);
    let a = ws_prefix_len(raw) as int;
    let b = ws_suffix_len(raw) as int;
    if a == raw.len() {
        assert(s =~= Seq::<u8>::empty());
        assert(t =~= Seq::<u8>::empty());
        assert(trim_bytes(t) =~= Seq::<u8>::empty());
        assert(lower_bytes(trim_bytes(t)) =~= t);
    } else {
        // The kept range starts and ends on non-whitespace, so it lies
        // wholly before the whitespace suffix.
        assert(!is_ws_byte(raw[a]));
        assert(a < raw.len() - b) by {
            if a >= raw.len() - b {
                assert(is_ws_byte(raw[a]));
            }
        }
        assert(s == raw.subrange(a, raw.len() - b));
        assert(s.len() > 0);
        assert(s[0] == raw[a] && !is_ws_byte(s[0]));
        assert(s.last() == raw[raw.len() - b - 1] && !is_ws_byte(s.last()));
        // Lowercasing maps no byte into or out of whitespace, so the
        // canonical form has nothing left to trim.
        assert(t[0] == lower_byte(s[0]) && !is_ws_byte(t[0]));
        assert(t.last() == lower_byte(s.last()) && !is_ws_byte(t.last()));
        assert(ws_prefix_len(t) == 0);
        assert(ws_suffix_len(t) == 0);
        assert(trim_bytes(t) =~= t);
        // Lowercasing is idempotent.
        crate::text::lemma_lower_bytes_index(t);
        assert(lower_bytes(t).len() == t.len());
        assert(forall|i: int| 0 <= i < t.len() ==> #[trigger] lower_bytes(t)[i] == lower_byte(
            lower_byte(s[i]),
        ));
        assert(lower_bytes(trim_bytes(t)) =~= t);
    }
}

/// Every `<H>h<M>m` input with non-negative `H` and `M` classifies as the
/// relative form carrying exactly those two numbers — so, by the contract
/// of `parse_due_date_from`, parsing it yields now plus `H` hours plus `M`
/// minutes. `hs` and `ms` are the decimal digits of `H` and `M`.
pub proof fn lemma_hours_minutes_form_classifies(hs: Seq<u8>, ms: Seq<u8>)
    requires
        hs.len() > 0,
        ms.len() > 0,
        all_digit_bytes(hs),
        all_digit_bytes(ms),
        digits_val(hs) <= i64::MAX,
        digits_val(ms) <= i64::MAX,
    ensures
        classify_due(hs + seq![104u8] + ms + seq![109u8]) == (DueForm::Rel {
            hours: digits_val(hs) as i64,
            minutes: digits_val(ms) as i64,
        }),
{
    let raw = hs + seq![104u8] + ms + seq![109u8];
    let hn = hs.len() as int;
    crate::text::lemma_digits_val_nonneg(hs);
    crate::text::lemma_digits_val_nonneg(ms);
    assert forall|i: int| 0 <= i < raw.len() implies {
        let b = #[trigger] raw[i];
        b == 104 || b == 109 || (48 <= b <= 57)
    } by {
        if i < hn {
            assert(raw[i] == hs[i]);
        } else if i == hn {
            assert(raw[i] == 104);
        } else if i < hn + 1 + ms.len() {
            assert(raw[i] == ms[i - hn - 1]);
        } else {
            assert(raw[i] == 109);
        }
    }
    // No whitespace to trim, no letters to lowercase, no spaces to strip.
    assert(raw[0] == hs[0]);
    assert(ws_prefix_len(raw) == 0);
    assert(raw.last() == 109);
    assert(ws_suffix_len(raw) == 0);
    assert(trim_bytes(raw) =~= raw);
    crate::text::lemma_lower_bytes_id(raw);
    crate::text::lemma_strip_spaces_id(raw);
    // Not a keyword: both start with a letter, this with a digit.
    assert(raw != today_bytes() && raw != tomorrow_bytes()) by {
        assert(today_bytes()[0] == 116 && tomorrow_bytes()[0] == 116);
    }
    // The hour marker sits right after the hour digits.
    assert(forall|k: int| 0 <= k < hn ==> #[trigger] raw[k] != 104);
    assert(raw[hn] == 104);
    lemma_find_byte_at(raw, 104, hn);
    assert(raw.take(hn) =~= hs);
    assert(int_form(hs) && int_val(hs) == digits_val(hs));
    // The rest is the minute digits with their trailing marker.
    let rest = raw.skip(hn + 1);
    assert(rest =~= ms + seq![109u8]);
    assert(rest.last() == 109);
    assert(rest.drop_last() =~= ms);
    assert(int_form(ms) && int_val(ms) == digits_val(ms));
}

/// Every `YYYY-MM-DD` input naming a real calendar date classifies as the
/// date-only form carrying that date — so, by the contract of
/// `parse_due_date`, it is read as local midnight of that day.
pub proof fn lemma_date_form_classifies(t: Seq<u8>)
    requires
        date_pattern(t),
        1 <= val2_at(t, 5) <= 12,
        1 <= val2_at(t, 8) <= days_in_month(val4_at(t, 0), val2_at(t, 5)),
    ensures
        classify_due(t) == (DueForm::DateOnly {
            year: val4_at(t, 0) as u16,
            month: val2_at(t, 5) as u8,
            day: val2_at(t, 8) as u8,
        }),
{
    assert forall|i: int| 0 <= i < t.len() implies {
        let b = #[trigger] t[i];
        b == 45 || (48 <= b <= 57)
    } by {
        if i == 4 || i == 7 {
        } else if i < 4 {
            assert(is_digit_byte(t[0]) && is_digit_byte(t[1]) && is_digit_byte(t[2])
                && is_digit_byte(t[3]));
        } else if i < 7 {
            assert(is_digit_byte(t[5]) && is_digit_byte(t[6]));
        } else {
            assert(is_digit_byte(t[8]) && is_digit_byte(t[9]));
        }
    }
    assert(ws_prefix_len(t) == 0);
    assert(ws_suffix_len(t) == 0);
    assert(trim_bytes(t) =~= t);
    crate::text::lemma_lower_bytes_id(t);
    crate::text::lemma_strip_spaces_id(t);
    assert(t != today_bytes() && t != tomorrow_bytes());
    assert(forall|k: int| 0 <= k < t.len() ==> #[trigger] t[k] != 104);
    lemma_find_byte_at(t, 104, t.len() as int);
    assert(t.last() != 109);
}

fn is_ws(b: u8) -> (r: bool)
    ensures
        r == is_ws_byte(b),
{
    b == 9 || b == 10 || b == 11 || b == 12 || b == 13 || b == 32
}

fn date_classify(t: &Vec<u8>) -> (r: DueForm)
    ensures
        r == date_form_of(t@),
{
    let n = t.len();
    if n != 10 && n != 16 && n != 19 {
        return DueForm::Unrecognized;
    }
    // The date part, common to all three shapes.
    let date_shape = digit_at(t, 0) && digit_at(t, 1) && digit_at(t, 2) && digit_at(t, 3)
        && t[4] == 45 && digit_at(t, 5) && digit_at(t, 6) && t[7] == 45 && digit_at(t, 8)
        && digit_at(t, 9);
    if !date_shape {
        return DueForm::Unrecognized;
    }
    proof {
        if n != 10 {
            assert(t@.take(10)[4] == t@[4]);
            assert(date_pattern(t@.take(10)));
        }
    }
    let y: u32 = (t[0] - 48) as u32 * 1000 + (t[1] - 48) as u32 * 100 + (t[2] - 48) as u32 * 10
        + (t[3] - 48) as u32;
    let mo: u8 = (t[5] - 48) * 10 + (t[6] - 48);
    let d: u8 = (t[8] - 48) * 10 + (t[9] - 48);
    let date_valid = 1 <= mo && mo <= 12 && 1 <= d && d <= month_length(y as i32, mo);
    if n == 10 {
        if date_valid {
            DueForm::DateOnly { year: y as u16, month: mo, day: d }
        } else {
            DueForm::Unrecognized
        }
    } else {
        let time_shape = t[10] == 32 && digit_at(t, 11) && digit_at(t, 12) && t[13] == 58
            && digit_at(t, 14) && digit_at(t, 15);
        if !time_shape {
            return DueForm::Unrecognized;
        }
        let h: u8 = (t[11] - 48) * 10 + (t[12] - 48);
        let mi: u8 = (t[14] - 48) * 10 + (t[15] - 48);
        if n == 16 {
            if date_valid && h <= 23 && mi <= 59 {
                DueForm::DateTimeAt { year: y as u16, month: mo, day: d, hour: h, minute: mi,
                    second: 0 }
            } else {
                DueForm::Unrecognized
            }
        } else {
            if t[16] != 58 || !digit_at(t, 17) || !digit_at(t, 18) {
                return DueForm::Unrecognized;
            }
            let sec: u8 = (t[17] - 48) * 10 + (t[18] - 48);
            if date_valid && h <= 23 && mi <= 59 && sec <= 59 {
                DueForm::DateTimeAt { year: y as u16, month: mo, day: d, hour: h, minute: mi,
                    second: sec }
            } else {
                DueForm::Unrecognized
            }
        }
    }
}

fn digit_at(t: &Vec<u8>, i: usize) -> (r: bool)
    requires
        i < t@.len(),
    ensures
        r == is_digit_byte(t@[i as int]),
{
    48 <= t[i] && t[i] <= 57
}

/// Recognizes which due-date form the input text takes. This is the whole
/// textual part of due-date parsing; only the time-zone work is left to
/// `parse_due_date`.
pub fn classify_due_date(input: &str) -> (r: DueForm)
    ensures
        r == classify_due(input.spec_bytes()),
{
    let ghost s = input.spec_bytes();
    let bytes = input.as_bytes();
    let n = bytes.len();
    // Trim ASCII whitespace: find the first and last kept indexes.
    let mut i: usize = 0;
    while i < n && is_ws(bytes[i])
        invariant
            i <= n == s.len(),
            bytes@ == s,
            forall|k: int| 0 <= k < i ==> is_ws_byte(#[trigger] s[k]),
        decreases n - i,
    {
        i += 1;
    }
    if i == n {
        proof {
            lemma_ws_prefix_len_at(s, n as int);
            assert(lower_bytes(trim_bytes(s)) =~= Seq::<u8>::empty());
            assert(strip_spaces(lower_bytes(trim_bytes(s))) =~= Seq::<u8>::empty());
        }
        return DueForm::Unrecognized;
    }
    let mut j: usize = n;
    while j > i && is_ws(bytes[j - 1])
        invariant
            i <= j <= n == s.len(),
            bytes@ == s,
            i < n,
            !is_ws_byte(s[i as int]),
            forall|k: int| j <= k < n ==> is_ws_byte(#[trigger] s[k]),
        decreases j,
    {
        j -= 1;
    }
    proof {
        lemma_ws_prefix_len_at(s, i as int);
        lemma_ws_suffix_len_at(s, j as int);
        assert(trim_bytes(s) == s.subrange(i as int, j as int));
    }
    let ghost trimmed = s.subrange(i as int, j as int);
    // Lowercase the kept range.
    let mut t: Vec<u8> = Vec::new();
    let mut k: usize = i;
    while k < j
        invariant
            i <= k <= j <= n == s.len(),
            bytes@ == s,
            trimmed == s.subrange(i as int, j as int),
            t@ == lower_bytes(trimmed.take(k - i)),
        decreases j - k,
    {
        let b = bytes[k];
        proof {
            assert(trimmed.take(k - i + 1) =~= trimmed.take(k - i).push(b));
            lemma_lower_bytes_push(trimmed.take(k - i), b);
        }
        if b >= 65 && b <= 90 {
            t.push(b + 32);
        } else {
            t.push(b);
        }
        k += 1;
    }
    proof {
        assert(trimmed.take(j - i) =~= trimmed);
        assert(t@ == lower_bytes(trim_bytes(s)));
    }
    // The keywords.
    if t.len() == 5 && t[0] == 116 && t[1] == 111 && t[2] == 100 && t[3] == 97 && t[4] == 121 {
        proof {
            assert(t@ =~= today_bytes());
        }
        return DueForm::Today;
    }
    if t.len() == 8 && t[0] == 116 && t[1] == 111 && t[2] == 109 && t[3] == 111 && t[4] == 114
        && t[5] == 114 && t[6] == 111 && t[7] == 119 {
        proof {
            assert(t@ =~= tomorrow_bytes());
        }
        return DueForm::Tomorrow;
    }
    proof {
        if t@ == today_bytes() {
            assert(false);
        }
        if t@ == tomorrow_bytes() {
            assert(false);
        }
    }
    // Strip spaces for the relative forms.
    let tn = t.len();
    let mut c: Vec<u8> = Vec::new();
    let mut k2: usize = 0;
    while k2 < tn
        invariant
            k2 <= tn == t@.len(),
            c@ == strip_spaces(t@.take(k2 as int)),
        decreases tn - k2,
    {
        let b = t[k2];
        proof {
            assert(t@.take(k2 as int + 1) =~= t@.take(k2 as int).push(b));
            lemma_strip_spaces_push(t@.take(k2 as int), b);
        }
        if b != 32 {
            c.push(b);
        }
        k2 += 1;
    }
    proof {
        assert(t@.take(tn as int) =~= t@);
        assert(c@ == strip_spaces(t@));
    }
    // Look for an hour marker.
    let cn = c.len();
    let mut p: usize = 0;
    while p < cn && c[p] != 104
        invariant
            p <= cn == c@.len(),
            forall|k: int| 0 <= k < p ==> #[trigger] c@[k] != 104,
        decreases cn - p,
    {
        p += 1;
    }
    proof {
        lemma_find_byte_at(c@, 104, p as int);
    }
    if p < cn {
        let hours = parse_i64_range(&c, 0, p);
        proof {
            assert(c@.subrange(0, p as int) =~= c@.take(p as int));
        }
        match hours {
            Some(h) => {
                if p + 1 == cn {
                    proof {
                        assert(c@.skip(p as int + 1).len() == 0);
                    }
                    return DueForm::Rel { hours: h, minutes: 0 };
                }
                let ghost rest = c@.skip(p as int + 1);
                proof {
                    assert(rest.last() == c@[cn - 1]);
                    assert(rest.drop_last() =~= c@.subrange(p as int + 1, cn - 1));
                }
                if c[cn - 1] == 109 {
                    let mins = parse_i64_range(&c, p + 1, cn - 1);
                    match mins {
                        Some(m) => {
                            return DueForm::Rel { hours: h, minutes: m };
                        },
                        None => {
                            return DueForm::HourSuffixError;
                        },
                    }
                } else {
                    return DueForm::HourSuffixError;
                }
            },
            None => {},
        }
    }
    // A minutes-only form.
    if cn > 0 && c[cn - 1] == 109 {
        let mins = parse_i64_range(&c, 0, cn - 1);
        proof {
            assert(c@.drop_last() =~= c@.subrange(0, cn - 1));
        }
        match mins {
            Some(m) => {
                return DueForm::Rel { hours: 0, minutes: m };
            },
            None => {},
        }
    }
    // The absolute forms.
    date_classify(&t)
}

/// The instant a relative form names: `now` plus the given hours and
/// minutes.
pub open spec fn rel_target(now: int, hours: int, minutes: int) -> int {
    now + hours * 3600 + minutes * 60
}

/// The message for an hour count with a bad suffix.
pub open spec fn hour_suffix_msg(input: Seq<char>) -> Seq<char> {
    "Unable to parse '"@ + input + "'. Expected minutes after hours, e.g. '4h30m'"@
}

/// The message for text in none of the accepted forms.
pub open spec fn unrecognized_msg(input: Seq<char>) -> Seq<char> {
    "Unable to parse '"@ + input
        + "'. Use natural language like 'today', '2h 30m', or an absolute date 'YYYY-MM-DD [HH:MM[:SS]]'"@
}

/// The message for a local time that does not exist (a clock turned forward).
pub open spec fn dst_gap_msg(input: Seq<char>) -> Seq<char> {
    "Invalid local time '"@ + input + "' (likely during DST transition)"@
}

/// The message for a due date beyond the supported instant range.
pub open spec fn out_of_range_msg(input: Seq<char>) -> Seq<char> {
    "Due date '"@ + input + "' is out of the supported range"@
}

fn quote_msg(prefix: &str, input: &str, suffix: &str) -> (r: String)
    ensures
        r@ == prefix@ + input@ + suffix@,
{
    let mut s = String::from_str(prefix);
    s.append(input);
    s.append(suffix);
    proof {
        assert(s@ =~= prefix@ + input@ + suffix@);
    }
    s
}

/// Turns what the local time zone said about a wall-clock time into the
/// parser's answer: a single instant is taken as is, an ambiguous time
/// (a clock turned back) resolves to the later of the two instants in
/// whichever order they came, and a missing time (a clock turned forward)
/// is an error naming the input.
pub fn resolve_local_outcome(outcome: LocalOutcome, input: &str) -> (r: Result<i64, TaskError>)
    ensures
        outcome matches LocalOutcome::Single(t) ==> (r matches Ok(v) && v == t),
        outcome matches LocalOutcome::Ambiguous(a, b) ==> (r matches Ok(v) && v == (
            if a >= b { a } else { b })),
        outcome is Missing ==> (r matches Err(e) && e matches TaskError::InvalidDate(m)
            && m@ == dst_gap_msg(input@)),
{
    match outcome {
        LocalOutcome::Single(t) => Ok(t),
        LocalOutcome::Ambiguous(a, b) => Ok(if a >= b { a } else { b }),
        LocalOutcome::Missing => Err(TaskError::InvalidDate(quote_msg(
            "Invalid local time '",
            input,
            "' (likely during DST transition)",
        ))),
    }
}

/// What the parser owes for a recognized form against clock reading `now`.
///
/// The relative and failure forms are exact. For the keyword and absolute
/// forms the instant depends on the machine's time zone, which promises
/// only that its offset is under a day; the outcome therefore pins a
/// returned instant to within a day of the wall-clock time asked about —
/// a 23:59:59 civil time of a day at the clock (today) or just past it
/// (tomorrow), or the named date's midnight or date-time — and pins any
/// error to the exact gap message.
pub open spec fn due_outcome(form: DueForm, now: int, input: Seq<char>, r: Result<
    i64,
    TaskError,
>) -> bool {
    match form {
        DueForm::Today => {
            &&& (r matches Ok(v) ==> (exists|c: Civil| {
                &&& valid_civil(c)
                &&& c.hour == 23 && c.minute == 59 && c.second == 59
                &&& now - 86400 < #[trigger] civil_instant(c) < now + 2 * 86400
                &&& -86400 < v - civil_instant(c) < 86400
            }))
            &&& (r matches Err(e) ==> (e matches TaskError::InvalidDate(m)
                && m@ == dst_gap_msg(input)))
        },
        DueForm::Tomorrow => {
            &&& (r matches Ok(v) ==> (exists|c: Civil| {
                &&& valid_civil(c)
                &&& c.hour == 23 && c.minute == 59 && c.second == 59
                &&& now < #[trigger] civil_instant(c) < now + 3 * 86400
                &&& -86400 < v - civil_instant(c) < 86400
            }))
            &&& (r matches Err(e) ==> (e matches TaskError::InvalidDate(m)
                && m@ == dst_gap_msg(input)))
        },
        DueForm::Rel { hours, minutes } => {
            let target = rel_target(now, hours as int, minutes as int);
            if MIN_INSTANT as int <= target <= MAX_INSTANT as int {
                r matches Ok(v) && v == target
            } else {
                r matches Err(e) && e matches TaskError::InvalidDate(m)
                    && m@ == out_of_range_msg(input)
            }
        },
        DueForm::HourSuffixError => r matches Err(e) && e matches TaskError::InvalidDate(m)
            && m@ == hour_suffix_msg(input),
        DueForm::DateOnly { year, month, day } => {
            let midnight = civil_instant(
                Civil { year: year as i32, month, day, hour: 0, minute: 0, second: 0 },
            );
            &&& (r matches Ok(v) ==> midnight - 86400 < v < midnight + 86400)
            &&& (r matches Err(e) ==> (e matches TaskError::InvalidDate(m)
                && m@ == dst_gap_msg(input)))
        },
        DueForm::DateTimeAt { year, month, day, hour, minute, second } => {
            let at = civil_instant(Civil { year: year as i32, month, day, hour, minute, second });
            &&& (r matches Ok(v) ==> at - 86400 < v < at + 86400)
            &&& (r matches Err(e) ==> (e matches TaskError::InvalidDate(m)
                && m@ == dst_gap_msg(input)))
        },
        DueForm::Unrecognized => r matches Err(e) && e matches TaskError::InvalidDate(m)
            && m@ == unrecognized_msg(input),
    }
}

/// Reads a due date against a given current instant `now`: the result is
/// `due_outcome` of the input's form, exactly.
pub fn parse_due_date_from(input: &str, now: i64) -> (r: Result<i64, TaskError>)
    requires
        MIN_INSTANT <= now <= MAX_INSTANT,
    ensures
        due_outcome(classify_due(input.spec_bytes()), now as int, input@, r),
{
    let form = classify_due_date(input);
    match form {
        DueForm::Today => {
            let here = local_civil_of(now);
            let target = Civil { hour: 23, minute: 59, second: 59, ..here };
            let r = resolve_local_outcome(local_instant_of(target), input);
            proof {
                assert(civil_instant(target) == civil_instant(here) - 3600 * here.hour
                    - 60 * here.minute - here.second + 86399);
                if r is Ok {
                    assert(valid_civil(target) && target.hour == 23 && target.minute == 59
                        && target.second == 59
                        && (now as int) - 86400 < civil_instant(target) < (now as int) + 2 * 86400
                        && -86400 < r->Ok_0 - civil_instant(target) < 86400);
                }
            }
            r
        },
        DueForm::Tomorrow => {
            let here = local_civil_of(now + 86400);
            let target = Civil { hour: 23, minute: 59, second: 59, ..here };
            let r = resolve_local_outcome(local_instant_of(target), input);
            proof {
                assert(civil_instant(target) == civil_instant(here) - 3600 * here.hour
                    - 60 * here.minute - here.second + 86399);
                if r is Ok {
                    assert(valid_civil(target) && target.hour == 23 && target.minute == 59
                        && target.second == 59
                        && (now as int) < civil_instant(target) < (now as int) + 3 * 86400
                        && -86400 < r->Ok_0 - civil_instant(target) < 86400);
                }
            }
            r
        },
        DueForm::Rel { hours, minutes } => {
            let total: i128 = now as i128 + hours as i128 * 3600 + minutes as i128 * 60;
            if total < MIN_INSTANT as i128 || total > MAX_INSTANT as i128 {
                Err(TaskError::InvalidDate(quote_msg(
                    "Due date '",
                    input,
                    "' is out of the supported range",
                )))
            } else {
                Ok(total as i64)
            }
        },
        DueForm::HourSuffixError => Err(TaskError::InvalidDate(quote_msg(
            "Unable to parse '",
            input,
            "'. Expected minutes after hours, e.g. '4h30m'",
        ))),
        DueForm::DateOnly { year, month, day } => {
            let target = Civil { year: year as i32, month, day, hour: 0, minute: 0, second: 0 };
            resolve_local_outcome(local_instant_of(target), input)
        },
        DueForm::DateTimeAt { year, month, day, hour, minute, second } => {
            let target = Civil { year: year as i32, month, day, hour, minute, second };
            resolve_local_outcome(local_instant_of(target), input)
        },
        DueForm::Unrecognized => Err(TaskError::InvalidDate(quote_msg(
            "Unable to parse '",
            input,
            "'. Use natural language like 'today', '2h 30m', or an absolute date 'YYYY-MM-DD [HH:MM[:SS]]'",
        ))),
    }
}

/// Reads a due date against the clock: the result is the parsed instant,
/// an absolute point in time. The result is `due_outcome` of the input's
/// form for the clock value that was read; the clauses that do not depend
/// on the clock — both failure forms, and that a relative form can fail
/// only by leaving the supported range — are also stated directly.
pub fn parse_due_date(input: &str) -> (r: Result<i64, TaskError>)
    ensures
        exists|now: int| MIN_INSTANT <= now <= MAX_INSTANT && #[trigger] due_outcome(
            classify_due(input.spec_bytes()),
            now,
            input@,
            r,
        ),
        classify_due(input.spec_bytes()) is Rel ==> (r matches Err(e) ==> (
            e matches TaskError::InvalidDate(m) && m@ == out_of_range_msg(input@))),
        classify_due(input.spec_bytes()) is HourSuffixError ==> (r matches Err(e)
            && e matches TaskError::InvalidDate(m) && m@ == hour_suffix_msg(input@)),
        classify_due(input.spec_bytes()) is Unrecognized ==> (r matches Err(e)
            && e matches TaskError::InvalidDate(m) && m@ == unrecognized_msg(input@)),
{
    // The clock can only leave the supported range on a machine whose time
    // is set hundreds of millennia off; anchor at the nearest supported
    // instant rather than fail text-only inputs on it.
    let now = clamp_instant(now_unix());
    let r = parse_due_date_from(input, now);
    proof {
        assert(MIN_INSTANT <= now as int <= MAX_INSTANT && due_outcome(
            classify_due(input.spec_bytes()),
            now as int,
            input@,
            r,
        ));
    }
    r
}

} // verus!
