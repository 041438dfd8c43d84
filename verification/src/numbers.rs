//! Decimal integers as `str::parse` reads them.

use vstd::prelude::*;

verus! {

/// `c` is one of the ASCII digits `0`..`9`.
pub open spec fn is_digit(c: char) -> bool {
    '0' <= c <= '9'
}

/// Every character of `d` is an ASCII digit.
pub open spec fn all_digits(d: Seq<char>) -> bool {
    forall|i: int| 0 <= i < d.len() ==> is_digit(#[trigger] d[i])
}

/// The value of the decimal numeral `d`.
pub open spec fn digits_value(d: Seq<char>) -> nat
    decreases d.len(),
{
    if d.len() == 0 {
        0
    } else {
        digits_value(d.drop_last()) * 10 + ((d.last() as u32) - ('0' as u32)) as nat
    }
}

/// `u32::from_str`: an optional `+`, then one or more ASCII digits, the value
/// in range.
pub open spec fn parse_u32(s: Seq<char>) -> Option<u32> {
    let d = if s.len() > 0 && s[0] == '+' {
        s.drop_first()
    } else {
        s
    };
    if d.len() == 0 || !all_digits(d) || digits_value(d) > u32::MAX {
        None
    } else {
        Some(digits_value(d) as u32)
    }
}

/// `i32::from_str`: an optional `+` or `-`, then one or more ASCII digits,
/// the value in range.
pub open spec fn parse_i32(s: Seq<char>) -> Option<i32> {
    let neg = s.len() > 0 && s[0] == '-';
    let d = if s.len() > 0 && (s[0] == '+' || s[0] == '-') {
        s.drop_first()
    } else {
        s
    };
    if d.len() == 0 || !all_digits(d) {
        None
    } else if neg {
        if digits_value(d) > 0x8000_0000 {
            None
        } else {
            Some((0 - digits_value(d)) as i32)
        }
    } else {
        if digits_value(d) > i32::MAX {
            None
        } else {
            Some(digits_value(d) as i32)
        }
    }
}

proof fn lemma_digits_prefix(d: Seq<char>, i: int)
    requires
        0 <= i <= d.len(),
        all_digits(d),
    ensures
        digits_value(d.take(i)) <= digits_value(d),
    decreases d.len() - i,
{
    if i < d.len() {
        lemma_digits_prefix(d, i + 1);
        assert(d.take(i + 1).drop_last() =~= d.take(i));
        assert(is_digit(d[i]));
    } else {
        assert(d.take(i) =~= d);
    }
}

/// The value of the numeral `s[lo..]`, or `None` when it is empty, holds a
/// character that is no digit, or exceeds `bound`.
fn digits_upto(s: &[char], lo: usize, bound: u64) -> (r: Option<u64>)
    requires
        lo <= s@.len(),
        bound <= 0x1_0000_0000,
    ensures
        ({
            let d = s@.skip(lo as int);
            match r {
                Some(v) => d.len() > 0 && all_digits(d) && v == digits_value(d) && v <= bound,
                None => d.len() == 0 || !all_digits(d) || digits_value(d) > bound,
            }
        }),
{
    let ghost d = s@.skip(lo as int);
    if lo == s.len() {
        return None;
    }
    let mut i = lo;
    while i < s.len()
        invariant
            lo <= i <= s@.len(),
            d == s@.skip(lo as int),
            forall|j: int| 0 <= j < i - lo ==> is_digit(#[trigger] d[j]),
        decreases s.len() - i,
    {
        if !('0' <= s[i] && s[i] <= '9') {
            assert(!is_digit(d[i - lo]));
            return None;
        }
        i += 1;
    }
    assert(all_digits(d));
    let mut acc: u64 = 0;
    let mut k = lo;
    while k < s.len()
        invariant
            lo <= k <= s@.len(),
            d == s@.skip(lo as int),
            all_digits(d),
            bound <= 0x1_0000_0000,
            acc == digits_value(d.take(k - lo)),
            acc <= bound,
        decreases s.len() - k,
    {
        let c = s[k];
        assert(d[k - lo] == c);
        assert(d.take(k - lo + 1).drop_last() =~= d.take(k - lo));
        let next = acc * 10 + ((c as u32) - ('0' as u32)) as u64;
        k += 1;
        if next > bound {
            proof {
                lemma_digits_prefix(d, k - lo);
            }
            return None;
        }
        acc = next;
    }
    assert(d.take(k - lo) =~= d);
    Some(acc)
}

/// `s.parse::<u32>().ok()`.
pub fn parse_u32_exec(s: &[char]) -> (r: Option<u32>)
    ensures
        r == parse_u32(s@),
{
    let lo: usize = if s.len() > 0 && s[0] == '+' {
        1
    } else {
        0
    };
    proof {
        if lo == 1 {
            assert(s@.skip(1) =~= s@.drop_first());
        } else {
            assert(s@.skip(0) =~= s@);
        }
    }
    match digits_upto(s, lo, 0xFFFF_FFFF) {
        Some(v) => Some(v as u32),
        None => None,
    }
}

/// `s.parse::<i32>().ok()`.
pub fn parse_i32_exec(s: &[char]) -> (r: Option<i32>)
    ensures
        r == parse_i32(s@),
{
    let neg = s.len() > 0 && s[0] == '-';
    let lo: usize = if s.len() > 0 && (s[0] == '+' || s[0] == '-') {
        1
    } else {
        0
    };
    proof {
        if lo == 1 {
            assert(s@.skip(1) =~= s@.drop_first());
        } else {
            assert(s@.skip(0) =~= s@);
        }
    }
    let bound: u64 = if neg {
        0x8000_0000
    } else {
        0x7FFF_FFFF
    };
    match digits_upto(s, lo, bound) {
        Some(v) => {
            if neg {
                Some((0 - (v as i64)) as i32)
            } else {
                Some(v as i32)
            }
        },
        None => None,
    }
}

/// The number of leading ASCII digits of `s`.
pub open spec fn digit_run(s: Seq<char>) -> nat
    decreases s.len(),
{
    if s.len() > 0 && is_digit(s[0]) {
        1 + digit_run(s.drop_first())
    } else {
        0
    }
}

pub proof fn lemma_digit_run(s: Seq<char>)
    ensures
        digit_run(s) <= s.len(),
        forall|j: int| 0 <= j < digit_run(s) ==> is_digit(#[trigger] s[j]),
        digit_run(s) < s.len() ==> !is_digit(s[digit_run(s) as int]),
    decreases s.len(),
{
    if s.len() > 0 && is_digit(s[0]) {
        let t = s.drop_first();
        lemma_digit_run(t);
        assert forall|j: int| 0 <= j < digit_run(s) implies is_digit(#[trigger] s[j]) by {
            if j > 0 {
                assert(s[j] == t[j - 1]);
            }
        }
        if digit_run(s) < s.len() {
            assert(s[digit_run(s) as int] == t[digit_run(t) as int]);
        }
    }
}

/// The end of the run of ASCII digits of `s` that starts at `lo`.
pub fn digit_run_exec(s: &[char], lo: usize) -> (k: usize)
    requires
        lo <= s@.len(),
    ensures
        lo <= k <= s@.len(),
        k - lo == digit_run(s@.skip(lo as int)),
{
    let mut k = lo;
    while k < s.len() && '0' <= s[k] && s[k] <= '9'
        invariant
            lo <= k <= s@.len(),
            digit_run(s@.skip(lo as int)) == (k - lo) + digit_run(s@.skip(k as int)),
        decreases s@.len() - k,
    {
        proof {
            let u = s@.skip(k as int);
            assert(u[0] == s@[k as int]);
            assert(u.drop_first() =~= s@.skip(k + 1));
        }
        k += 1;
    }
    proof {
        let u = s@.skip(k as int);
        if k < s@.len() {
            assert(u[0] == s@[k as int]);
        }
    }
    k
}

/// The message of the error that `u32::from_str` gives for `s`, which it
/// does not read: empty input, a value too large for `u32` in the leading
/// digits, or else a character that is no digit (a sign alone included).
pub open spec fn u32_error(s: Seq<char>) -> Seq<char> {
    if s.len() == 0 {
        "cannot parse integer from empty string"@
    } else {
        let d = if s[0] == '+' {
            s.drop_first()
        } else {
            s
        };
        if d.len() > 0 && digits_value(d.take(digit_run(d) as int)) > u32::MAX {
            "number too large to fit in target type"@
        } else {
            "invalid digit found in string"@
        }
    }
}

/// Whether the numeral `s[lo..hi]` (all digits) is larger than `u32::MAX`.
fn run_exceeds_u32(s: &[char], lo: usize, hi: usize) -> (b: bool)
    requires
        lo <= hi <= s@.len(),
        all_digits(s@.subrange(lo as int, hi as int)),
    ensures
        b == (digits_value(s@.subrange(lo as int, hi as int)) > u32::MAX),
{
    let ghost d = s@.subrange(lo as int, hi as int);
    let mut acc: u64 = 0;
    let mut k = lo;
    while k < hi
        invariant
            lo <= k <= hi <= s@.len(),
            d == s@.subrange(lo as int, hi as int),
            all_digits(d),
            acc == digits_value(d.take(k - lo)),
            acc <= u32::MAX,
        decreases hi - k,
    {
        let c = s[k];
        assert(d[k - lo] == c);
        assert(d.take(k - lo + 1).drop_last() =~= d.take(k - lo));
        let next = acc * 10 + ((c as u32) - ('0' as u32)) as u64;
        k += 1;
        if next > 0xFFFF_FFFF {
            proof {
                lemma_digits_prefix(d, k - lo);
            }
            return true;
        }
        acc = next;
    }
    assert(d.take(k - lo) =~= d);
    false
}

/// `u32_error(s)`, for a text that `u32::from_str` does not read.
pub fn u32_error_message(s: &[char]) -> (m: String)
    ensures
        m@ == u32_error(s@),
{
    if s.len() == 0 {
        return String::from_str("cannot parse integer from empty string");
    }
    let lo: usize = if s[0] == '+' {
        1
    } else {
        0
    };
    let ghost d = if s@[0] == '+' {
        s@.drop_first()
    } else {
        s@
    };
    proof {
        assert(s@.skip(lo as int) =~= d);
    }
    let k = digit_run_exec(s, lo);
    proof {
        lemma_digit_run(d);
        assert(s@.subrange(lo as int, k as int) =~= d.take(digit_run(d) as int));
    }
    if lo < s.len() && run_exceeds_u32(s, lo, k) {
        String::from_str("number too large to fit in target type")
    } else {
        String::from_str("invalid digit found in string")
    }
}

/// An optional sign, then one or more ASCII digits.
pub open spec fn signed_digits(e: Seq<char>) -> bool {
    let e2 = if e.len() > 0 && (e[0] == '+' || e[0] == '-') {
        e.drop_first()
    } else {
        e
    };
    e2.len() > 0 && digit_run(e2) == e2.len()
}

/// Nothing, or `e` or `E` and a signed digit string.
pub open spec fn exp_syntax(rest: Seq<char>) -> bool {
    rest.len() == 0 || ((rest[0] == 'e' || rest[0] == 'E') && signed_digits(rest.drop_first()))
}

/// Where the digits and the `.` before any exponent end, and whether there
/// is a digit among them.
pub open spec fn mantissa(b: Seq<char>) -> (int, bool) {
    let i = digit_run(b) as int;
    if i < b.len() && b[i] == '.' {
        let j = digit_run(b.skip(i + 1)) as int;
        (i + 1 + j, i + j > 0)
    } else {
        (i, i > 0)
    }
}

/// A decimal numeral as `f64::from_str` reads it, without the sign: digits
/// with at most one `.` and a digit on some side of it, then optionally
/// `e` or `E`, an optional sign and one or more digits.
pub open spec fn decimal_syntax(b: Seq<char>) -> bool {
    mantissa(b).1 && exp_syntax(b.skip(mantissa(b).0))
}

/// A text that `f64::from_str` reads: an optional sign, then `inf`,
/// `infinity` or `nan` in any case, or a decimal numeral.
pub open spec fn float_syntax(s: Seq<char>) -> bool {
    let b = if s.len() > 0 && (s[0] == '+' || s[0] == '-') {
        s.drop_first()
    } else {
        s
    };
    let l = crate::text::ascii_lower_all(b);
    l == "inf"@ || l == "infinity"@ || l == "nan"@ || decimal_syntax(b)
}

fn signed_digits_exec(s: &[char], lo: usize) -> (r: bool)
    requires
        lo <= s@.len(),
    ensures
        r == signed_digits(s@.skip(lo as int)),
{
    let ghost e = s@.skip(lo as int);
    let e1 = if lo < s.len() && (s[lo] == '+' || s[lo] == '-') {
        lo + 1
    } else {
        lo
    };
    proof {
        if e1 > lo {
            assert(e.drop_first() =~= s@.skip(e1 as int));
        }
    }
    let k = digit_run_exec(s, e1);
    e1 < s.len() && k == s.len()
}

fn mantissa_exec(b: &[char]) -> (r: (usize, bool))
    ensures
        r.0 as int == mantissa(b@).0,
        r.1 == mantissa(b@).1,
        r.0 <= b@.len(),
{
    proof {
        assert(b@.skip(0) =~= b@);
    }
    let i = digit_run_exec(b, 0);
    if i < b.len() && b[i] == '.' {
        let j_end = digit_run_exec(b, i + 1);
        (j_end, i + (j_end - (i + 1)) > 0)
    } else {
        (i, i > 0)
    }
}

fn decimal_syntax_exec(b: &[char]) -> (r: bool)
    ensures
        r == decimal_syntax(b@),
{
    let (mant, some_digit) = mantissa_exec(b);
    if !some_digit {
        return false;
    }
    if mant == b.len() {
        return true;
    }
    proof {
        assert(b@.skip(mant as int)[0] == b@[mant as int]);
        assert(b@.skip(mant as int).drop_first() =~= b@.skip(mant + 1));
    }
    (b[mant] == 'e' || b[mant] == 'E') && signed_digits_exec(b, mant + 1)
}

/// `float_syntax(s@)`.
pub fn is_float_text(s: &[char]) -> (r: bool)
    ensures
        r == float_syntax(s@),
{
    let lo: usize = if s.len() > 0 && (s[0] == '+' || s[0] == '-') {
        1
    } else {
        0
    };
    let body = crate::text::copy_range(s, lo, s.len());
    proof {
        if lo == 1 {
            assert(body@ =~= s@.drop_first());
        } else {
            assert(body@ =~= s@);
        }
    }
    let low = crate::text::ascii_lower_exec(body.as_slice());
    if crate::commands::is_lit(low.as_slice(), "inf") {
        return true;
    }
    if crate::commands::is_lit(low.as_slice(), "infinity") {
        return true;
    }
    if crate::commands::is_lit(low.as_slice(), "nan") {
        return true;
    }
    decimal_syntax_exec(body.as_slice())
}

} // verus!
