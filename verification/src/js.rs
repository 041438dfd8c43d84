//! Values read out of the `pingzhongdata` script that the fund pages serve.

use crate::numbers::{parse_i32, parse_i32_exec};
use crate::text::{
    chars_of, concat3, copy_range, find, find_from_exec, opt_view, lemma_find_from, lemma_find_skip,
    starts_with_exec, string_of, trim, trim_bounds, trimmed, without_prefix,
};
use vstd::prelude::*;

verus! {

/// The text after `pat` up to the first `;` (or the end), trimmed.
pub open spec fn value_after(js: Seq<char>, start: int) -> Seq<char> {
    let rem = js.skip(start);
    let end = match find(rem, seq![';']) {
        Some(e) => e,
        None => rem.len() as int,
    };
    trim(rem.take(end))
}

/// What `extract_js_variable` gives: the value of `var <name> =` or, when
/// that form does not occur, of `var <name>=`.
pub open spec fn js_variable(js: Seq<char>, name: Seq<char>) -> Option<Seq<char>> {
    let p1 = "var "@ + name + " ="@;
    let p2 = "var "@ + name + "="@;
    match find(js, p1) {
        Some(i) => Some(value_after(js, i + p1.len())),
        None => match find(js, p2) {
            Some(i) => Some(value_after(js, i + p2.len())),
            None => None,
        },
    }
}

/// The value of a script variable as the manager and profile readers take
/// it: only the `var <name> =` form is looked for.
pub open spec fn js_variable_spaced(js: Seq<char>, name: Seq<char>) -> Option<Seq<char>> {
    let p1 = "var "@ + name + " ="@;
    match find(js, p1) {
        Some(i) => Some(value_after(js, i + p1.len())),
        None => None,
    }
}

fn value_after_exec(js: &[char], start: usize) -> (v: String)
    requires
        start <= js@.len(),
    ensures
        v@ == value_after(js@, start as int),
{
    let semi = [';'];
    let r = find_from_exec(js, &semi, start);
    proof {
        assert(semi@ =~= seq![';']);
        lemma_find_skip(js@, seq![';'], start as int);
        lemma_find_from(js@, seq![';'], start as int);
    }
    let end = match r {
        Some(e) => e,
        None => js.len(),
    };
    let (lo, hi) = trim_bounds(&js[start..end]);
    let piece = copy_range(&js[start..end], lo, hi);
    proof {
        let rem = js@.skip(start as int);
        assert(js@.subrange(start as int, end as int) =~= rem.take(end - start));
    }
    string_of(piece.as_slice())
}

/// The value of `var <var_name> =` (or `var <var_name>=`) in `js_content`:
/// the text after it up to the first `;`, trimmed.
pub fn extract_js_variable(js_content: &str, var_name: &str) -> (r: Option<String>)
    ensures
        opt_view(r) == js_variable(js_content@, var_name@),
{
    let js = chars_of(js_content);
    let p1 = concat3("var ", var_name, " =");
    let p2 = concat3("var ", var_name, "=");
    let r1 = find_from_exec(js.as_slice(), p1.as_slice(), 0);
    match r1 {
        Some(i) => {
            proof {
                lemma_find_from(js@, p1@, 0);
            }
            {
                let start = i + p1.len();
                Some(value_after_exec(js.as_slice(), start))
            }
        },
        None => {
            let r2 = find_from_exec(js.as_slice(), p2.as_slice(), 0);
            match r2 {
            Some(i) => {
                proof {
                    lemma_find_from(js@, p2@, 0);
                }
                {
                let start = i + p2.len();
                Some(value_after_exec(js.as_slice(), start))
            }
            },
            None => None,
            }
        },
    }
}

/// The value of `var <var_name> =` in `js_content`; the form without the
/// space is not looked for.
pub fn extract_js_variable_spaced(js_content: &str, var_name: &str) -> (r: Option<String>)
    ensures
        opt_view(r) == js_variable_spaced(js_content@, var_name@),
{
    let js = chars_of(js_content);
    let p1 = concat3("var ", var_name, " =");
    let r1 = find_from_exec(js.as_slice(), p1.as_slice(), 0);
    match r1 {
        Some(i) => {
            proof {
                lemma_find_from(js@, p1@, 0);
            }
            {
                let start = i + p1.len();
                Some(value_after_exec(js.as_slice(), start))
            }
        },
        None => None,
    }
}

/// What `extract_js_string_value` gives: the text between `var <name>="` and
/// the next `"`, after one leading byte-order mark is dropped.
pub open spec fn js_string_value(js: Seq<char>, name: Seq<char>) -> Option<Seq<char>> {
    let content = without_prefix(js, seq!['\u{feff}']);
    let p = "var "@ + name + "=\""@;
    match find(content, p) {
        None => None,
        Some(i) => {
            let rem = content.skip(i + p.len());
            match find(rem, seq!['"']) {
                None => None,
                Some(e) => Some(rem.take(e)),
            }
        },
    }
}

/// The string value of `var <var_name>="..."` in `js_content`.
pub fn extract_js_string_value(js_content: &str, var_name: &str) -> (r: Option<String>)
    ensures
        opt_view(r) == js_string_value(js_content@, var_name@),
{
    let all = chars_of(js_content);
    let bom = ['\u{feff}'];
    proof {
        assert(bom@ =~= seq!['\u{feff}']);
    }
    let lo: usize = if starts_with_exec(all.as_slice(), &bom) {
        1
    } else {
        0
    };
    let content = copy_range(all.as_slice(), lo, all.len());
    proof {
        assert(content@ =~= without_prefix(all@, seq!['\u{feff}']));
    }
    let p = concat3("var ", var_name, "=\"");
    match find_from_exec(content.as_slice(), p.as_slice(), 0) {
        None => None,
        Some(i) => {
            proof {
                lemma_find_from(content@, p@, 0);
            }
            let start = i + p.len();
            let quote = ['"'];
            let r = find_from_exec(content.as_slice(), &quote, start);
            proof {
                assert(quote@ =~= seq!['"']);
                lemma_find_skip(content@, seq!['"'], start as int);
                lemma_find_from(content@, seq!['"'], start as int);
            }
            match r {
                None => None,
                Some(e) => {
                    let v = copy_range(content.as_slice(), start, e);
                    proof {
                        assert(v@ =~= content@.skip(start as int).take(e - start));
                    }
                    Some(string_of(v.as_slice()))
                },
            }
        },
    }
}

/// The years of a tenure text such as `14年又138天`, times 365; 0 when
/// there is no `年` or what stands before it is no integer.
pub open spec fn work_time_year_days(s: Seq<char>) -> int {
    match find(s, "年"@) {
        Some(y) => match parse_i32(trim(s.take(y))) {
            Some(v) => v * 365,
            None => 0,
        },
        None => 0,
    }
}

/// The extra days of a tenure text: the integer between `又` and `天`;
/// 0 when either is missing or what stands between is no integer.
pub open spec fn work_time_extra_days(s: Seq<char>) -> int {
    match (find(s, "又"@), find(s, "天"@)) {
        (Some(a), Some(b)) => if a + 1 <= b {
            match parse_i32(trim(s.subrange(a + 1, b))) {
                Some(d) => d as int,
                None => 0,
            }
        } else {
            0
        },
        _ => 0,
    }
}

/// The tenure text can be read without overflow and without `天` standing
/// before `又` (where the text between them cannot be taken).
pub open spec fn work_time_readable(s: Seq<char>) -> bool {
    &&& i32::MIN <= work_time_year_days(s) <= i32::MAX
    &&& i32::MIN <= work_time_year_days(s) + work_time_extra_days(s) <= i32::MAX
    &&& match (find(s, "又"@), find(s, "天"@)) {
        (Some(a), Some(b)) => a + 1 <= b,
        _ => true,
    }
}

/// Days of a tenure written as `14年又138天`: years times 365 plus days.
pub fn parse_work_time(work_time: &str) -> (days: i32)
    requires
        work_time_readable(work_time@),
    ensures
        days == work_time_year_days(work_time@) + work_time_extra_days(work_time@),
{
    let s = chars_of(work_time);
    let nian = chars_of("年");
    let you = chars_of("又");
    let tian = chars_of("天");
    let mut days: i32 = 0;
    if let Some(y) = find_from_exec(s.as_slice(), nian.as_slice(), 0) {
        proof {
            lemma_find_from(s@, nian@, 0);
        }
        let head = trimmed(&s.as_slice()[0..y]);
        proof {
            assert(s@.subrange(0, y as int) =~= s@.take(y as int));
        }
        if let Some(years) = parse_i32_exec(head.as_slice()) {
            days = years * 365;
        }
    }
    let a = find_from_exec(s.as_slice(), you.as_slice(), 0);
    let b = find_from_exec(s.as_slice(), tian.as_slice(), 0);
    if let Some(a) = a {
        if let Some(b) = b {
            proof {
                lemma_find_from(s@, you@, 0);
                lemma_find_from(s@, tian@, 0);
            }
            let mid = trimmed(&s.as_slice()[a + 1..b]);
            if let Some(d) = parse_i32_exec(mid.as_slice()) {
                days = days + d;
            }
        }
    }
    days
}

/// The days of a tenure text when it is readable (see
/// `work_time_readable`), else `None`.
pub fn parse_work_time_checked(work_time: &str) -> (r: Option<i32>)
    ensures
        match r {
            Some(d) => work_time_readable(work_time@) && d == work_time_year_days(work_time@)
                + work_time_extra_days(work_time@),
            None => !work_time_readable(work_time@),
        },
{
    let s = chars_of(work_time);
    let nian = chars_of("年");
    let you = chars_of("又");
    let tian = chars_of("天");
    proof {
        assert(s@.skip(0) =~= s@);
    }
    let mut years: i64 = 0;
    let y = find_from_exec(s.as_slice(), nian.as_slice(), 0);
    proof {
        lemma_find_skip(s@, nian@, 0);
    }
    if let Some(y) = y {
        proof {
            lemma_find_from(s@, nian@, 0);
        }
        let head = trimmed(&s.as_slice()[0..y]);
        proof {
            assert(s@.subrange(0, y as int) =~= s@.take(y as int));
        }
        if let Some(v) = parse_i32_exec(head.as_slice()) {
            years = (v as i64) * 365;
        }
    }
    let mut extra: i64 = 0;
    let a = find_from_exec(s.as_slice(), you.as_slice(), 0);
    let b = find_from_exec(s.as_slice(), tian.as_slice(), 0);
    proof {
        lemma_find_skip(s@, you@, 0);
        lemma_find_skip(s@, tian@, 0);
    }
    if let Some(a) = a {
        if let Some(b) = b {
            proof {
                lemma_find_from(s@, you@, 0);
                lemma_find_from(s@, tian@, 0);
            }
            if a >= b {
                return None;
            }
            let mid = trimmed(&s.as_slice()[a + 1..b]);
            if let Some(d) = parse_i32_exec(mid.as_slice()) {
                extra = d as i64;
            }
        }
    }
    if years < -2147483648 || years > 2147483647 {
        return None;
    }
    let total = years + extra;
    if total < -2147483648 || total > 2147483647 {
        return None;
    }
    Some(total as i32)
}

} // verus!
