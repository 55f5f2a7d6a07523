//! Decimal text: rendering integers as strings and reading integers back
//! from bytes or characters, with exact specifications.

use vstd::prelude::*;
use vstd::string::*;
use vstd::arithmetic::div_mod::lemma_fundamental_div_mod;

verus! {

pub open spec fn dec_digit_char(d: int) -> char {
    if d == 0 { '0' }
    else if d == 1 { '1' }
    else if d == 2 { '2' }
    else if d == 3 { '3' }
    else if d == 4 { '4' }
    else if d == 5 { '5' }
    else if d == 6 { '6' }
    else if d == 7 { '7' }
    else if d == 8 { '8' }
    else { '9' }
}

/// The decimal rendering of `n`, with no leading zeros (`0` renders as "0").
pub open spec fn dec_str(n: nat) -> Seq<char>
    decreases n,
{
    if n < 10 {
        seq![dec_digit_char(n as int)]
    } else {
        dec_str(n / 10).push(dec_digit_char((n % 10) as int))
    }
}

/// The decimal rendering of `n`, zero-padded to at least two digits.
pub open spec fn pad2_str(n: nat) -> Seq<char> {
    if n < 10 {
        seq!['0', dec_digit_char(n as int)]
    } else {
        dec_str(n)
    }
}

/// The decimal rendering of `n`, zero-padded to at least four digits.
pub open spec fn pad4_str(n: nat) -> Seq<char> {
    if n < 10 {
        seq!['0', '0', '0'] + dec_str(n)
    } else if n < 100 {
        seq!['0', '0'] + dec_str(n)
    } else if n < 1000 {
        seq!['0'] + dec_str(n)
    } else {
        dec_str(n)
    }
}

/// A year as rendered in dates: zero-padded to four digits, with a leading
/// minus sign for years before year zero.
pub open spec fn year_str(y: int) -> Seq<char> {
    if y >= 0 {
        pad4_str(y as nat)
    } else {
        seq!['-'] + pad4_str((-y) as nat)
    }
}

fn digit_str(d: u64) -> (s: &'static str)
    requires
        d < 10,
    ensures
        s@ =~= seq![dec_digit_char(d as int)],
{
    let s = match d {
        0 => "0",
        1 => "1",
        2 => "2",
        3 => "3",
        4 => "4",
        5 => "5",
        6 => "6",
        7 => "7",
        8 => "8",
        _ => "9",
    };
    proof {
        reveal_strlit("0");
        reveal_strlit("1");
        reveal_strlit("2");
        reveal_strlit("3");
        reveal_strlit("4");
        reveal_strlit("5");
        reveal_strlit("6");
        reveal_strlit("7");
        reveal_strlit("8");
        reveal_strlit("9");
    }
    s
}

pub fn dec_u64(n: u64) -> (s: String)
    ensures
        s@ == dec_str(n as nat),
    decreases n,
{
    if n < 10 {
        String::from_str(digit_str(n))
    } else {
        let mut s = dec_u64(n / 10);
        s.append(digit_str(n % 10));
        proof {
            assert(s@ =~= dec_str(n as nat));
        }
        s
    }
}

pub fn pad2_u64(n: u64) -> (s: String)
    ensures
        s@ == pad2_str(n as nat),
{
    if n < 10 {
        let mut s = String::from_str(digit_str(0));
        s.append(digit_str(n));
        proof {
            assert(s@ =~= pad2_str(n as nat));
        }
        s
    } else {
        dec_u64(n)
    }
}

pub fn pad4_u64(n: u64) -> (s: String)
    ensures
        s@ == pad4_str(n as nat),
{
    let mut s = String::new();
    if n < 10 {
        s.append(digit_str(0));
        s.append(digit_str(0));
        s.append(digit_str(0));
    } else if n < 100 {
        s.append(digit_str(0));
        s.append(digit_str(0));
    } else if n < 1000 {
        s.append(digit_str(0));
    }
    let tail = dec_u64(n);
    s.append(tail.as_str());
    proof {
        assert(s@ =~= pad4_str(n as nat));
    }
    s
}

pub fn year_string(y: i64) -> (s: String)
    requires
        -400_000 <= y <= 400_000,
    ensures
        s@ == year_str(y as int),
{
    if y >= 0 {
        pad4_u64(y as u64)
    } else {
        let mut s = String::from_str("-");
        let tail = pad4_u64((-y) as u64);
        s.append(tail.as_str());
        proof {
            reveal_strlit("-");
            assert(s@ =~= year_str(y as int));
        }
        s
    }
}

/// Every character of a decimal rendering is a digit.
pub proof fn lemma_dec_str_digits(n: nat)
    ensures
        forall|i: int| 0 <= i < dec_str(n).len() ==> 48 <= (#[trigger] dec_str(n)[i]) as u32 <= 57,
    decreases n,
{
    if n >= 10 {
        lemma_dec_str_digits(n / 10);
        let s = dec_str(n / 10);
        let c = dec_digit_char((n % 10) as int);
        assert(dec_str(n) == s.push(c));
        assert forall|i: int| 0 <= i < dec_str(n).len() implies 48 <= (#[trigger] dec_str(
            n,
        )[i]) as u32 <= 57 by {
            if i < s.len() {
                assert(dec_str(n)[i] == s[i]);
            } else {
                assert(dec_str(n)[i] == c);
            }
        }
    }
}

/// A two-digit padded rendering is digits only, and two characters long
/// for any value below one hundred.
pub proof fn lemma_pad2_str_shape(n: nat)
    ensures
        forall|i: int| 0 <= i < pad2_str(n).len() ==> 48 <= (#[trigger] pad2_str(n)[i]) as u32
            <= 57,
        n < 100 ==> pad2_str(n).len() == 2,
{
    lemma_dec_str_digits(n);
    if 10 <= n < 100 {
        assert(dec_str(n / 10).len() == 1);
        assert(pad2_str(n).len() == 2);
    }
}

/// Every character of a rendered year is a digit or the minus sign.
pub proof fn lemma_year_str_chars(y: int)
    ensures
        forall|i: int| 0 <= i < year_str(y).len() ==> {
            let u = (#[trigger] year_str(y)[i]) as u32;
            u == 45 || (48 <= u <= 57)
        },
{
    if y >= 0 {
        lemma_dec_str_digits(y as nat);
    } else {
        lemma_dec_str_digits((-y) as nat);
    }
}

// ---------------------------------------------------------------------------
// Reading integers back from bytes.

pub open spec fn is_digit_byte(b: u8) -> bool {
    48 <= b <= 57
}

pub open spec fn all_digit_bytes(s: Seq<u8>) -> bool {
    forall|i: int| 0 <= i < s.len() ==> is_digit_byte(#[trigger] s[i])
}

/// Numeric value of a sequence of decimal digit bytes.
pub open spec fn digits_val(s: Seq<u8>) -> int
    decreases s.len(),
{
    if s.len() == 0 {
        0
    } else {
        digits_val(s.drop_last()) * 10 + (s.last() - 48)
    }
}

/// Whether `s` is an optionally signed non-empty run of decimal digits,
/// the shape accepted when text is read as an integer.
pub open spec fn int_form(s: Seq<u8>) -> bool {
    if s.len() == 0 {
        false
    } else if s[0] == 43 || s[0] == 45 {
        s.len() > 1 && all_digit_bytes(s.skip(1))
    } else {
        all_digit_bytes(s)
    }
}

/// Numeric value of an optionally signed run of decimal digits.
pub open spec fn int_val(s: Seq<u8>) -> int
    recommends
        int_form(s),
{
    if s.len() > 0 && s[0] == 45 {
        -digits_val(s.skip(1))
    } else if s.len() > 0 && s[0] == 43 {
        digits_val(s.skip(1))
    } else {
        digits_val(s)
    }
}

proof fn lemma_digits_val_push(s: Seq<u8>, b: u8)
    ensures
        digits_val(s.push(b)) == digits_val(s) * 10 + (b - 48),
{
    assert(s.push(b).drop_last() =~= s);
    assert(s.push(b).last() == b);
}

pub proof fn lemma_digits_val_nonneg(s: Seq<u8>)
    requires
        all_digit_bytes(s),
    ensures
        digits_val(s) >= 0,
    decreases s.len(),
{
    if s.len() > 0 {
        assert(all_digit_bytes(s.drop_last())) by {
            assert(forall|i: int| 0 <= i < s.len() - 1 ==> s.drop_last()[i] == s[i]);
        }
        lemma_digits_val_nonneg(s.drop_last());
    }
}

// ---------------------------------------------------------------------------
// Byte-sequence helpers: ASCII lowercasing, whitespace trimming, space
// stripping and byte search, each with a recursive specification and a
// characterization lemma for the scanning code.

pub open spec fn lower_byte(b: u8) -> u8 {
    if 65 <= b <= 90 { (b + 32) as u8 } else { b }
}

/// `s` with every ASCII upper-case letter replaced by its lower-case form.
pub open spec fn lower_bytes(s: Seq<u8>) -> Seq<u8>
    decreases s.len(),
{
    if s.len() == 0 {
        Seq::empty()
    } else {
        lower_bytes(s.drop_last()).push(lower_byte(s.last()))
    }
}

pub proof fn lemma_lower_bytes_push(s: Seq<u8>, b: u8)
    ensures
        lower_bytes(s.push(b)) == lower_bytes(s).push(lower_byte(b)),
{
    assert(s.push(b).drop_last() =~= s);
}

/// The ASCII whitespace bytes: tab through carriage return, and space.
pub open spec fn is_ws_byte(b: u8) -> bool {
    b == 9 || b == 10 || b == 11 || b == 12 || b == 13 || b == 32
}

/// Length of the longest whitespace prefix of `s`.
pub open spec fn ws_prefix_len(s: Seq<u8>) -> nat
    decreases s.len(),
{
    if s.len() > 0 && is_ws_byte(s[0]) {
        1 + ws_prefix_len(s.drop_first())
    } else {
        0
    }
}

/// Length of the longest whitespace suffix of `s`.
pub open spec fn ws_suffix_len(s: Seq<u8>) -> nat
    decreases s.len(),
{
    if s.len() > 0 && is_ws_byte(s.last()) {
        1 + ws_suffix_len(s.drop_last())
    } else {
        0
    }
}

/// `s` with leading and trailing ASCII whitespace removed. Trimming is
/// ASCII-only throughout the library: a Unicode space is ordinary text.
pub open spec fn trim_bytes(s: Seq<u8>) -> Seq<u8> {
    let a = ws_prefix_len(s);
    if a == s.len() {
        Seq::empty()
    } else {
        s.subrange(a as int, s.len() - ws_suffix_len(s))
    }
}

pub proof fn lemma_ws_prefix_len_at(s: Seq<u8>, i: int)
    requires
        0 <= i <= s.len(),
        forall|k: int| 0 <= k < i ==> is_ws_byte(#[trigger] s[k]),
        i < s.len() ==> !is_ws_byte(s[i]),
    ensures
        ws_prefix_len(s) == i,
    decreases s.len(),
{
    if i == 0 {
    } else {
        let t = s.drop_first();
        assert(forall|k: int| 0 <= k < i - 1 ==> is_ws_byte(#[trigger] t[k]) == is_ws_byte(s[k + 1]));
        lemma_ws_prefix_len_at(t, i - 1);
    }
}

pub proof fn lemma_ws_suffix_len_at(s: Seq<u8>, j: int)
    requires
        0 <= j <= s.len(),
        forall|k: int| j <= k < s.len() ==> is_ws_byte(#[trigger] s[k]),
        j > 0 ==> !is_ws_byte(s[j - 1]),
    ensures
        ws_suffix_len(s) == s.len() - j,
    decreases s.len(),
{
    if j == s.len() {
    } else {
        let t = s.drop_last();
        assert(forall|k: int| 0 <= k < t.len() ==> #[trigger] t[k] == s[k]);
        lemma_ws_suffix_len_at(t, j);
    }
}

/// `s` with every space byte removed.
pub open spec fn strip_spaces(s: Seq<u8>) -> Seq<u8>
    decreases s.len(),
{
    if s.len() == 0 {
        Seq::empty()
    } else if s.last() == 32 {
        strip_spaces(s.drop_last())
    } else {
        strip_spaces(s.drop_last()).push(s.last())
    }
}

pub proof fn lemma_strip_spaces_push(s: Seq<u8>, b: u8)
    ensures
        strip_spaces(s.push(b)) == if b == 32 { strip_spaces(s) } else {
            strip_spaces(s).push(b)
        },
{
    assert(s.push(b).drop_last() =~= s);
}

/// Lowercasing keeps the length and acts on each byte alone.
pub proof fn lemma_lower_bytes_index(s: Seq<u8>)
    ensures
        lower_bytes(s).len() == s.len(),
        forall|i: int| 0 <= i < s.len() ==> lower_bytes(s)[i] == lower_byte(#[trigger] s[i]),
    decreases s.len(),
{
    if s.len() > 0 {
        lemma_lower_bytes_index(s.drop_last());
        assert forall|i: int| 0 <= i < s.len() implies lower_bytes(s)[i] == lower_byte(
            #[trigger] s[i],
        ) by {
            if i < s.len() - 1 {
                assert(lower_bytes(s)[i] == lower_bytes(s.drop_last())[i]);
                assert(s.drop_last()[i] == s[i]);
            }
        }
    }
}

/// The whitespace prefix is whitespace throughout and stops at the first
/// byte that is not.
pub proof fn lemma_ws_prefix_len_props(s: Seq<u8>)
    ensures
        ws_prefix_len(s) <= s.len(),
        forall|k: int| 0 <= k < ws_prefix_len(s) ==> is_ws_byte(#[trigger] s[k]),
        ws_prefix_len(s) < s.len() ==> !is_ws_byte(s[ws_prefix_len(s) as int]),
    decreases s.len(),
{
    if s.len() > 0 && is_ws_byte(s[0]) {
        let t = s.drop_first();
        lemma_ws_prefix_len_props(t);
        assert forall|k: int| 0 <= k < ws_prefix_len(s) implies is_ws_byte(#[trigger] s[k]) by {
            if k >= 1 {
                assert(t[k - 1] == s[k]);
                assert(is_ws_byte(t[k - 1]));
            }
        }
        if ws_prefix_len(s) < s.len() {
            assert(s[ws_prefix_len(s) as int] == t[ws_prefix_len(t) as int]);
        }
    }
}

/// The whitespace suffix is whitespace throughout and stops at the last
/// byte that is not.
pub proof fn lemma_ws_suffix_len_props(s: Seq<u8>)
    ensures
        ws_suffix_len(s) <= s.len(),
        forall|k: int| s.len() - ws_suffix_len(s) <= k < s.len() ==> is_ws_byte(#[trigger] s[k]),
        ws_suffix_len(s) < s.len() ==> !is_ws_byte(s[s.len() - ws_suffix_len(s) - 1]),
    decreases s.len(),
{
    if s.len() > 0 && is_ws_byte(s.last()) {
        let t = s.drop_last();
        lemma_ws_suffix_len_props(t);
        assert forall|k: int| s.len() - ws_suffix_len(s) <= k < s.len() implies is_ws_byte(
            #[trigger] s[k],
        ) by {
            if k < s.len() - 1 {
                assert(t[k] == s[k]);
                assert(is_ws_byte(t[k]));
            }
        }
        if ws_suffix_len(s) < s.len() {
            assert(s[s.len() - ws_suffix_len(s) - 1] == t[t.len() - ws_suffix_len(t) - 1]);
        }
    }
}

/// Lowercasing leaves text without upper-case letters unchanged.
pub proof fn lemma_lower_bytes_id(s: Seq<u8>)
    requires
        forall|i: int| 0 <= i < s.len() ==> !(65 <= #[trigger] s[i] <= 90),
    ensures
        lower_bytes(s) == s,
    decreases s.len(),
{
    if s.len() > 0 {
        assert(forall|i: int| 0 <= i < s.len() - 1 ==> #[trigger] s.drop_last()[i] == s[i]);
        lemma_lower_bytes_id(s.drop_last());
        assert(lower_bytes(s) =~= s);
    }
}

/// Stripping spaces leaves text without spaces unchanged.
pub proof fn lemma_strip_spaces_id(s: Seq<u8>)
    requires
        forall|i: int| 0 <= i < s.len() ==> #[trigger] s[i] != 32,
    ensures
        strip_spaces(s) == s,
    decreases s.len(),
{
    if s.len() > 0 {
        assert(forall|i: int| 0 <= i < s.len() - 1 ==> #[trigger] s.drop_last()[i] == s[i]);
        lemma_strip_spaces_id(s.drop_last());
        assert(strip_spaces(s) =~= s);
    }
}

/// Index of the first occurrence of `b` in `s`, or -1 when absent.
pub open spec fn find_byte(s: Seq<u8>, b: u8) -> int
    decreases s.len(),
{
    if s.len() == 0 {
        -1
    } else if s[0] == b {
        0
    } else {
        let r = find_byte(s.drop_first(), b);
        if r == -1 { -1 } else { r + 1 }
    }
}

pub proof fn lemma_find_byte_at(s: Seq<u8>, b: u8, i: int)
    requires
        0 <= i <= s.len(),
        forall|k: int| 0 <= k < i ==> #[trigger] s[k] != b,
        i < s.len() ==> s[i] == b,
    ensures
        find_byte(s, b) == if i == s.len() { -1 } else { i },
    decreases s.len(),
{
    if i == 0 {
        if s.len() > 0 && s[0] != b {
            let t = s.drop_first();
            lemma_find_byte_at(t, b, 0);
        }
    } else {
        let t = s.drop_first();
        assert(forall|k: int| 0 <= k < i - 1 ==> #[trigger] t[k] == s[k + 1]);
        lemma_find_byte_at(t, b, i - 1);
    }
}

/// Reads `v[start..end]` as a signed 64-bit integer: `Some` exactly when the
/// bytes are an optionally signed run of digits whose value fits in `i64`.
pub fn parse_i64_range(v: &Vec<u8>, start: usize, end: usize) -> (r: Option<i64>)
    requires
        start <= end <= v@.len(),
    ensures
        ({
            let s = v@.subrange(start as int, end as int);
            match r {
                Some(x) => int_form(s) && i64::MIN <= int_val(s) <= i64::MAX && x == int_val(s),
                None => !(int_form(s) && i64::MIN <= int_val(s) <= i64::MAX),
            }
        }),
{
    let ghost s = v@.subrange(start as int, end as int);
    if start == end {
        return None;
    }
    let b0 = v[start];
    let negative = b0 == 45;
    let dstart = if b0 == 45 || b0 == 43 { start + 1 } else { start };
    let ghost digits = v@.subrange(dstart as int, end as int);
    proof {
        assert(digits =~= if b0 == 45 || b0 == 43 { s.skip(1) } else { s });
    }
    if dstart == end {
        // A bare sign has no digits.
        return None;
    }
    proof {
        assert(s[0] == v@[start as int]);
    }
    let mut i = dstart;
    let mut acc: u64 = 0;
    let mut big = false;
    while i < end
        invariant
            dstart <= i <= end <= v@.len(),
            s == v@.subrange(start as int, end as int),
            digits == v@.subrange(dstart as int, end as int),
            all_digit_bytes(digits) ==> int_form(s),
            !all_digit_bytes(digits) ==> !int_form(s),
            all_digit_bytes(digits) ==> int_val(s) == (
                if negative { -digits_val(digits) } else { digits_val(digits) }
            ),
            all_digit_bytes(v@.subrange(dstart as int, i as int)),
            if big {
                digits_val(v@.subrange(dstart as int, i as int)) > u64::MAX
            } else {
                acc == digits_val(v@.subrange(dstart as int, i as int))
            },
        decreases end - i,
    {
        let b = v[i];
        let ghost pre = v@.subrange(dstart as int, i as int);
        if b < 48 || b > 57 {
            proof {
                assert(digits[i - dstart] == v@[i as int]);
                assert(!all_digit_bytes(digits));
            }
            return None;
        }
        let d = (b - 48) as u64;
        proof {
            assert(v@.subrange(dstart as int, i as int + 1) =~= pre.push(b));
            lemma_digits_val_push(pre, b);
        }
        if !big {
            if acc > (u64::MAX - d) / 10 {
                proof {
                    lemma_fundamental_div_mod(u64::MAX - d, 10);
                }
                big = true;
            } else {
                proof {
                    lemma_fundamental_div_mod(u64::MAX - d, 10);
                }
                acc = acc * 10 + d;
            }
        } else {
            proof {
                lemma_digits_val_nonneg(pre);
            }
        }
        i += 1;
    }
    proof {
        assert(v@.subrange(dstart as int, i as int) =~= digits);
        assert(int_form(s));
        lemma_digits_val_nonneg(digits);
    }
    if big {
        return None;
    }
    if negative {
        if acc <= 9_223_372_036_854_775_807u64 {
            Some(-(acc as i64))
        } else if acc == 9_223_372_036_854_775_808u64 {
            Some(i64::MIN)
        } else {
            None
        }
    } else {
        if acc <= 9_223_372_036_854_775_807u64 {
            Some(acc as i64)
        } else {
            None
        }
    }
}

} // verus!
