//! Calendar dates and decimal numerals as text.

use chrono::{Datelike, TimeZone};
use vstd::prelude::*;

verus! {

/// What chrono's `NaiveDate::parse_from_str(text, "%Y-%m-%d")` reads, as
/// year, month and day.
pub uninterp spec fn chrono_ymd(text: Seq<char>) -> Option<(i32, u32, u32)>;

/// Reads a `YYYY-MM-DD` date with chrono (`NaiveDate::parse_from_str` and
/// its `year`, `month` and `day`). Beside naming the result, the contract
/// states the ranges that chrono documents for a date it holds: month 1 to
/// 12, day 1 to 31, year from -262143 to 262142.
#[verifier::external_body]
pub(crate) fn parse_ymd(text: &str) -> (r: Option<(i32, u32, u32)>)
    ensures
        r == chrono_ymd(text@),
        r matches Some((y, m, d)) ==> -262143 <= y <= 262142 && 1 <= m <= 12 && 1 <= d <= 31,
{
    chrono::NaiveDate::parse_from_str(text, "%Y-%m-%d").ok().map(|d| (d.year(), d.month(), d.day()))
}

/// What chrono gives as the UTC calendar date (`YYYY-MM-DD`) of a time in
/// milliseconds since the Unix epoch, or the empty text when chrono holds
/// no such time.
pub uninterp spec fn utc_date_text(ms: i64) -> Seq<char>;

/// The UTC date of a millisecond timestamp, as chrono writes it
/// (`Utc.timestamp_millis_opt(ms).single()`, `date_naive().to_string()`);
/// empty when out of range. The contract names the result.
#[verifier::external_body]
pub(crate) fn date_of_millis(ms: i64) -> (r: String)
    ensures
        r@ == utc_date_text(ms),
{
    chrono::Utc.timestamp_millis_opt(ms).single().map(|dt| dt.date_naive().to_string()).unwrap_or_default()
}

/// A calendar date.
#[derive(Debug, Clone, Copy, PartialEq, Eq)]
pub struct Ymd {
    pub year: i32,
    pub month: u32,
    pub day: u32,
}

/// The date of a year, month and day.
pub open spec fn ymd_of(d: (i32, u32, u32)) -> Ymd {
    Ymd { year: d.0, month: d.1, day: d.2 }
}

/// An integer that orders dates as the calendar does.
pub open spec fn date_key(d: Ymd) -> int {
    d.year * 512 + d.month * 32 + d.day
}

/// `date_key` of a date that chrono holds.
pub fn date_key_exec(d: Ymd) -> (k: i64)
    requires
        -262143 <= d.year <= 262142,
        1 <= d.month <= 12,
        1 <= d.day <= 31,
    ensures
        k == date_key(d),
{
    (d.year as i64) * 512 + (d.month as i64) * 32 + (d.day as i64)
}

/// Dates within chrono's range and with month and day in range order by
/// their keys as by year, then month, then day.
pub proof fn lemma_date_key_order(a: Ymd, b: Ymd)
    requires
        1 <= a.month <= 12,
        1 <= a.day <= 31,
        1 <= b.month <= 12,
        1 <= b.day <= 31,
    ensures
        (date_key(a) < date_key(b)) <==> (a.year < b.year || (a.year == b.year && (a.month
            < b.month || (a.month == b.month && a.day < b.day)))),
        (date_key(a) == date_key(b)) <==> a == b,
{
}

/// The decimal numeral of `n`.
pub open spec fn decimal(n: nat) -> Seq<char>
    decreases n,
{
    if n < 10 {
        seq![digit_char(n)]
    } else {
        decimal(n / 10) + seq![digit_char(n % 10)]
    }
}

/// The ASCII digit of `d`, below ten.
pub open spec fn digit_char(d: nat) -> char {
    if d == 0 {
        '0'
    } else if d == 1 {
        '1'
    } else if d == 2 {
        '2'
    } else if d == 3 {
        '3'
    } else if d == 4 {
        '4'
    } else if d == 5 {
        '5'
    } else if d == 6 {
        '6'
    } else if d == 7 {
        '7'
    } else if d == 8 {
        '8'
    } else {
        '9'
    }
}

fn digit_char_exec(d: u64) -> (c: char)
    requires
        d < 10,
    ensures
        c == digit_char(d as nat),
{
    if d == 0 {
        '0'
    } else if d == 1 {
        '1'
    } else if d == 2 {
        '2'
    } else if d == 3 {
        '3'
    } else if d == 4 {
        '4'
    } else if d == 5 {
        '5'
    } else if d == 6 {
        '6'
    } else if d == 7 {
        '7'
    } else if d == 8 {
        '8'
    } else {
        '9'
    }
}

/// The text of an integer, with a `-` before a negative one (`Display`).
pub open spec fn int_text(n: int) -> Seq<char> {
    if n < 0 {
        seq!['-'] + decimal((-n) as nat)
    } else {
        decimal(n as nat)
    }
}

fn decimal_exec(n: u64) -> (v: Vec<char>)
    ensures
        v@ == decimal(n as nat),
    decreases n,
{
    if n < 10 {
        let mut v: Vec<char> = Vec::new();
        v.push(digit_char_exec(n));
        proof {
            assert(v@ =~= seq![digit_char(n as nat)]);
        }
        v
    } else {
        let mut v = decimal_exec(n / 10);
        v.push(digit_char_exec(n % 10));
        v
    }
}

/// `n.to_string()` for a `u64`.
pub fn u64_text(n: u64) -> (s: String)
    ensures
        s@ == decimal(n as nat),
{
    let v = decimal_exec(n);
    crate::text::string_of(v.as_slice())
}

/// `n.to_string()` for an `i64`.
pub fn i64_text(n: i64) -> (s: String)
    ensures
        s@ == int_text(n as int),
{
    if n < 0 {
        let m: u64 = if n == i64::MIN {
            0x8000_0000_0000_0000
        } else {
            (-n) as u64
        };
        let mut v: Vec<char> = Vec::new();
        v.push('-');
        let d = decimal_exec(m);
        let mut i: usize = 0;
        while i < d.len()
            invariant
                i <= d@.len(),
                v@ == seq!['-'] + d@.take(i as int),
            decreases d@.len() - i,
        {
            v.push(d[i]);
            i += 1;
            assert(v@ =~= seq!['-'] + d@.take(i as int));
        }
        assert(d@.take(i as int) =~= d@);
        crate::text::string_of(v.as_slice())
    } else {
        u64_text(n as u64)
    }
}

} // verus!
