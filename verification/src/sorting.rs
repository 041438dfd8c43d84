//! Ordering fund analyses by one of their metrics.

use crate::commands::is_lit;
use crate::text::{ascii_lower_all, ascii_lower_exec, chars_of, join3, trim, trimmed};
use vstd::prelude::*;

verus! {

/// The rolling window, in trading days, that an analysis uses by default.
pub const DEFAULT_ROLLING_WINDOW: u32 = 60;

/// What results are ordered by: each metric of an analysis, held as an
/// integer that orders as the metric does, and the fund code.
#[derive(Debug, Clone)]
pub struct AnalysisKeys {
    pub code: String,
    pub total_return: i64,
    pub volatility: i64,
    pub max_drawdown: i64,
    pub sharpe_ratio: i64,
    pub sortino_ratio: i64,
    pub calmar_ratio: i64,
    pub alpha: i64,
}

/// The field that results are ordered by.
#[derive(Debug, Clone, Copy)]
pub enum AnalysisSortKey {
    Code,
    Sharpe,
    Sortino,
    Calmar,
    TotalReturn,
    MaxDrawdown,
    Alpha,
    Volatility,
}

/// The metric of `k` that `key` names (the code has none).
pub open spec fn metric(k: AnalysisKeys, key: AnalysisSortKey) -> int {
    match key {
        AnalysisSortKey::Code => 0,
        AnalysisSortKey::Sharpe => k.sharpe_ratio as int,
        AnalysisSortKey::Sortino => k.sortino_ratio as int,
        AnalysisSortKey::Calmar => k.calmar_ratio as int,
        AnalysisSortKey::TotalReturn => k.total_return as int,
        AnalysisSortKey::MaxDrawdown => k.max_drawdown as int,
        AnalysisSortKey::Alpha => k.alpha as int,
        AnalysisSortKey::Volatility => k.volatility as int,
    }
}

/// Lexicographic order of character sequences, by code point; for text
/// this is also the order of its UTF-8 bytes, the order of `str`.
pub open spec fn lex_lt(a: Seq<char>, b: Seq<char>) -> bool
    decreases a.len(),
{
    if a.len() == 0 {
        b.len() > 0
    } else if b.len() == 0 {
        false
    } else if a[0] != b[0] {
        (a[0] as u32) < (b[0] as u32)
    } else {
        lex_lt(a.drop_first(), b.drop_first())
    }
}

/// `a` comes strictly before `b` when ordering by `key`, descending when
/// `desc`.
pub open spec fn precedes(a: AnalysisKeys, b: AnalysisKeys, key: AnalysisSortKey, desc: bool) -> bool {
    match key {
        AnalysisSortKey::Code => if desc {
            lex_lt(b.code@, a.code@)
        } else {
            lex_lt(a.code@, b.code@)
        },
        _ => if desc {
            metric(a, key) > metric(b, key)
        } else {
            metric(a, key) < metric(b, key)
        },
    }
}

/// Where a stable insertion puts `x` in `t`: after every leading item that
/// comes strictly before it.
pub open spec fn insert_pos<T>(
    t: Seq<(AnalysisKeys, T)>,
    x: (AnalysisKeys, T),
    key: AnalysisSortKey,
    desc: bool,
) -> nat
    decreases t.len(),
{
    if t.len() == 0 {
        0
    } else if precedes(t[0].0, x.0, key, desc) {
        1 + insert_pos(t.drop_first(), x, key, desc)
    } else {
        0
    }
}

/// The stable sort of `s` by `key`: the first item is inserted into the
/// sorted rest before every item it does not come after.
pub open spec fn sorted_by<T>(s: Seq<(AnalysisKeys, T)>, key: AnalysisSortKey, desc: bool) -> Seq<
    (AnalysisKeys, T),
>
    decreases s.len(),
{
    if s.len() == 0 {
        s
    } else {
        let t = sorted_by(s.drop_first(), key, desc);
        t.insert(insert_pos(t, s[0], key, desc) as int, s[0])
    }
}

/// No item comes strictly before an item ahead of it.
pub open spec fn is_ordered<T>(s: Seq<(AnalysisKeys, T)>, key: AnalysisSortKey, desc: bool) -> bool {
    forall|i: int, j: int|
        0 <= i < j < s.len() ==> !precedes(#[trigger] s[j].0, #[trigger] s[i].0, key, desc)
}

proof fn lemma_lex_irreflexive(a: Seq<char>)
    ensures
        !lex_lt(a, a),
    decreases a.len(),
{
    if a.len() > 0 {
        lemma_lex_irreflexive(a.drop_first());
    }
}

proof fn lemma_lex_transitive(a: Seq<char>, b: Seq<char>, c: Seq<char>)
    requires
        lex_lt(a, b),
        lex_lt(b, c),
    ensures
        lex_lt(a, c),
    decreases a.len(),
{
    if a.len() > 0 && b.len() > 0 && c.len() > 0 && a[0] == b[0] && b[0] == c[0] {
        lemma_lex_transitive(a.drop_first(), b.drop_first(), c.drop_first());
    }
}

proof fn lemma_lex_total(a: Seq<char>, b: Seq<char>)
    ensures
        a =~= b || lex_lt(a, b) || lex_lt(b, a),
    decreases a.len(),
{
    if a.len() == 0 && b.len() == 0 {
        assert(a =~= b);
    } else if a.len() > 0 && b.len() > 0 && a[0] == b[0] {
        lemma_lex_total(a.drop_first(), b.drop_first());
        if a.drop_first() =~= b.drop_first() {
            assert(a =~= seq![a[0]] + a.drop_first());
            assert(b =~= seq![b[0]] + b.drop_first());
        }
    } else if a.len() > 0 && b.len() > 0 {
        vstd::utf8::char_u32_cast(a[0], a[0] as u32);
        vstd::utf8::char_u32_cast(b[0], b[0] as u32);
    }
}

proof fn lemma_lex_asymmetric(a: Seq<char>, b: Seq<char>)
    requires
        lex_lt(a, b),
    ensures
        !lex_lt(b, a),
{
    if lex_lt(b, a) {
        lemma_lex_transitive(a, b, a);
        lemma_lex_irreflexive(a);
    }
}

/// `precedes` is a strict weak order: irreflexive, transitive, and so is
/// the relation of not coming after.
proof fn lemma_precedes_order(
    a: AnalysisKeys,
    b: AnalysisKeys,
    c: AnalysisKeys,
    key: AnalysisSortKey,
    desc: bool,
)
    ensures
        !precedes(a, a, key, desc),
        precedes(a, b, key, desc) ==> !precedes(b, a, key, desc),
        precedes(a, b, key, desc) && precedes(b, c, key, desc) ==> precedes(a, c, key, desc),
        !precedes(a, b, key, desc) && !precedes(b, c, key, desc) ==> !precedes(a, c, key, desc),
{
    if key is Code {
        lemma_lex_irreflexive(a.code@);
        if lex_lt(a.code@, b.code@) {
            lemma_lex_asymmetric(a.code@, b.code@);
        }
        if lex_lt(b.code@, a.code@) {
            lemma_lex_asymmetric(b.code@, a.code@);
        }
        if lex_lt(a.code@, b.code@) && lex_lt(b.code@, c.code@) {
            lemma_lex_transitive(a.code@, b.code@, c.code@);
        }
        if lex_lt(c.code@, b.code@) && lex_lt(b.code@, a.code@) {
            lemma_lex_transitive(c.code@, b.code@, a.code@);
        }
        lemma_lex_total(a.code@, b.code@);
        lemma_lex_total(b.code@, c.code@);
        if !precedes(a, b, key, desc) && !precedes(b, c, key, desc) {
            if desc {
                // b <= a and c <= b in code order, read backwards
                if lex_lt(a.code@, b.code@) && lex_lt(b.code@, c.code@) {
                    lemma_lex_transitive(a.code@, b.code@, c.code@);
                }
                if lex_lt(c.code@, a.code@) {
                    if a.code@ =~= b.code@ {
                        if lex_lt(b.code@, c.code@) {
                            lemma_lex_asymmetric(c.code@, a.code@);
                        }
                    } else if b.code@ =~= c.code@ {
                        lemma_lex_asymmetric(c.code@, a.code@);
                    } else {
                        lemma_lex_transitive(a.code@, b.code@, c.code@);
                        lemma_lex_asymmetric(c.code@, a.code@);
                    }
                }
            } else {
                if lex_lt(a.code@, c.code@) {
                    if a.code@ =~= b.code@ {
                        if lex_lt(c.code@, b.code@) {
                            lemma_lex_asymmetric(a.code@, c.code@);
                        }
                    } else if b.code@ =~= c.code@ {
                        lemma_lex_asymmetric(a.code@, c.code@);
                    } else {
                        lemma_lex_transitive(c.code@, b.code@, a.code@);
                        lemma_lex_asymmetric(a.code@, c.code@);
                    }
                }
            }
        }
    }
}

/// `lex_lt(a@, b@)`.
fn lex_lt_exec(a: &str, b: &str) -> (r: bool)
    ensures
        r == lex_lt(a@, b@),
{
    let x = chars_of(a);
    let y = chars_of(b);
    let mut i: usize = 0;
    assert(x@.skip(0) =~= x@ && y@.skip(0) =~= y@);
    loop
        invariant
            i <= x@.len(),
            i <= y@.len(),
            x@ == a@,
            y@ == b@,
            lex_lt(a@, b@) == lex_lt(x@.skip(i as int), y@.skip(i as int)),
        decreases x@.len() - i,
    {
        if i == x.len() {
            proof {
                assert(x@.skip(i as int).len() == 0);
            }
            return i < y.len();
        }
        if i == y.len() {
            return false;
        }
        let (c, d) = (x[i], y[i]);
        proof {
            let (sa, sb) = (x@.skip(i as int), y@.skip(i as int));
            assert(sa[0] == c && sb[0] == d);
            assert(sa.drop_first() =~= x@.skip(i + 1));
            assert(sb.drop_first() =~= y@.skip(i + 1));
        }
        if c != d {
            return (c as u32) < (d as u32);
        }
        i += 1;
    }
}

/// `precedes(*a, *b, key, desc)`.
pub fn precedes_exec(a: &AnalysisKeys, b: &AnalysisKeys, key: AnalysisSortKey, desc: bool) -> (r:
    bool)
    ensures
        r == precedes(*a, *b, key, desc),
{
    let (x, y): (i64, i64) = match key {
        AnalysisSortKey::Code => {
            return if desc {
                lex_lt_exec(b.code.as_str(), a.code.as_str())
            } else {
                lex_lt_exec(a.code.as_str(), b.code.as_str())
            };
        },
        AnalysisSortKey::Sharpe => (a.sharpe_ratio, b.sharpe_ratio),
        AnalysisSortKey::Sortino => (a.sortino_ratio, b.sortino_ratio),
        AnalysisSortKey::Calmar => (a.calmar_ratio, b.calmar_ratio),
        AnalysisSortKey::TotalReturn => (a.total_return, b.total_return),
        AnalysisSortKey::MaxDrawdown => (a.max_drawdown, b.max_drawdown),
        AnalysisSortKey::Alpha => (a.alpha, b.alpha),
        AnalysisSortKey::Volatility => (a.volatility, b.volatility),
    };
    if desc {
        x > y
    } else {
        x < y
    }
}

proof fn lemma_insert_pos<T>(
    t: Seq<(AnalysisKeys, T)>,
    x: (AnalysisKeys, T),
    key: AnalysisSortKey,
    desc: bool,
)
    ensures
        insert_pos(t, x, key, desc) <= t.len(),
        forall|j: int|
            0 <= j < insert_pos(t, x, key, desc) ==> precedes(#[trigger] t[j].0, x.0, key, desc),
        insert_pos(t, x, key, desc) < t.len() ==> !precedes(
            t[insert_pos(t, x, key, desc) as int].0,
            x.0,
            key,
            desc,
        ),
    decreases t.len(),
{
    if t.len() > 0 && precedes(t[0].0, x.0, key, desc) {
        let r = t.drop_first();
        lemma_insert_pos(r, x, key, desc);
        assert forall|j: int| 0 <= j < insert_pos(t, x, key, desc) implies precedes(
            #[trigger] t[j].0,
            x.0,
            key,
            desc,
        ) by {
            if j > 0 {
                assert(t[j] == r[j - 1]);
            }
        }
        if insert_pos(t, x, key, desc) < t.len() {
            assert(t[insert_pos(t, x, key, desc) as int] == r[insert_pos(r, x, key, desc) as int]);
        }
    }
}

/// Inserting at `insert_pos` keeps an ordered sequence ordered.
proof fn lemma_insert_keeps_order<T>(
    t: Seq<(AnalysisKeys, T)>,
    x: (AnalysisKeys, T),
    key: AnalysisSortKey,
    desc: bool,
)
    requires
        is_ordered(t, key, desc),
    ensures
        is_ordered(t.insert(insert_pos(t, x, key, desc) as int, x), key, desc),
{
    let p = insert_pos(t, x, key, desc) as int;
    lemma_insert_pos(t, x, key, desc);
    let r = t.insert(p, x);
    t.insert_ensures(p, x);
    assert forall|i: int, j: int| 0 <= i < j < r.len() implies !precedes(
        #[trigger] r[j].0,
        #[trigger] r[i].0,
        key,
        desc,
    ) by {
        if j < p {
            assert(r[i] == t[i] && r[j] == t[j]);
        } else if j == p {
            assert(r[i] == t[i]);
            lemma_precedes_order(t[i].0, x.0, x.0, key, desc);
        } else if i < p {
            assert(r[i] == t[i] && r[j] == t[j - 1]);
        } else if i == p {
            assert(r[j] == t[j - 1]);
            if j - 1 > p {
                assert(!precedes(t[j - 1].0, t[p].0, key, desc));
            }
            lemma_precedes_order(t[j - 1].0, t[p].0, x.0, key, desc);
        } else {
            assert(r[i] == t[i - 1] && r[j] == t[j - 1]);
        }
    }
}

/// The stable sort is ordered by its key.
pub proof fn lemma_sorted_by_is_ordered<T>(
    s: Seq<(AnalysisKeys, T)>,
    key: AnalysisSortKey,
    desc: bool,
)
    ensures
        is_ordered(sorted_by(s, key, desc), key, desc),
    decreases s.len(),
{
    if s.len() > 0 {
        lemma_sorted_by_is_ordered(s.drop_first(), key, desc);
        lemma_insert_keeps_order(sorted_by(s.drop_first(), key, desc), s[0], key, desc);
    }
}

/// The stable sort keeps every item, as often as it occurs.
pub proof fn lemma_sorted_by_keeps_items<T>(
    s: Seq<(AnalysisKeys, T)>,
    key: AnalysisSortKey,
    desc: bool,
)
    ensures
        sorted_by(s, key, desc).to_multiset() =~= s.to_multiset(),
        sorted_by(s, key, desc).len() == s.len(),
    decreases s.len(),
{
    if s.len() > 0 {
        let r = s.drop_first();
        let t = sorted_by(r, key, desc);
        lemma_sorted_by_keeps_items(r, key, desc);
        lemma_insert_pos(t, s[0], key, desc);
        vstd::seq_lib::to_multiset_insert(t, insert_pos(t, s[0], key, desc) as int, s[0]);
        assert(r.insert(0, s[0]) =~= s);
        vstd::seq_lib::to_multiset_insert(r, 0, s[0]);
    }
}

/// The first index at which a stable insertion puts `x` into `t`.
fn find_insert_pos<T>(
    t: &Vec<(AnalysisKeys, T)>,
    x: &(AnalysisKeys, T),
    key: AnalysisSortKey,
    desc: bool,
) -> (p: usize)
    ensures
        p == insert_pos(t@, *x, key, desc),
{
    let mut i: usize = 0;
    assert(t@.skip(0) =~= t@);
    while i < t.len() && precedes_exec(&t[i].0, &x.0, key, desc)
        invariant
            i <= t@.len(),
            insert_pos(t@, *x, key, desc) == i + insert_pos(t@.skip(i as int), *x, key, desc),
        decreases t@.len() - i,
    {
        proof {
            let u = t@.skip(i as int);
            assert(u[0] == t@[i as int]);
            assert(u.drop_first() =~= t@.skip(i + 1));
        }
        i += 1;
    }
    proof {
        let u = t@.skip(i as int);
        if i < t@.len() {
            assert(u[0] == t@[i as int]);
        }
    }
    i
}

/// Stable sort of `items` by `key`, descending when `desc`: items that
/// tie keep their order.
pub fn sort_analyses<T>(items: &mut Vec<(AnalysisKeys, T)>, key: AnalysisSortKey, desc: bool)
    ensures
        final(items)@ == sorted_by(old(items)@, key, desc),
{
    let mut input: Vec<(AnalysisKeys, T)> = Vec::new();
    std::mem::swap(&mut input, items);
    let ghost orig = input@;
    let mut out: Vec<(AnalysisKeys, T)> = Vec::new();
    assert(orig.skip(orig.len() as int) =~= Seq::<(AnalysisKeys, T)>::empty());
    assert(orig.take(orig.len() as int) =~= orig);
    while input.len() > 0
        invariant
            input@.len() <= orig.len(),
            input@ == orig.take(input@.len() as int),
            out@ == sorted_by(orig.skip(input@.len() as int), key, desc),
        decreases input@.len(),
    {
        let ghost k = input@.len() as int;
        let x = input.pop().unwrap();
        proof {
            assert(x == orig[k - 1]);
            assert(input@ =~= orig.take(k - 1));
            let u = orig.skip(k - 1);
            assert(u[0] == x);
            assert(u.drop_first() =~= orig.skip(k));
        }
        let p = find_insert_pos(&out, &x, key, desc);
        proof {
            lemma_insert_pos(out@, x, key, desc);
        }
        out.insert(p, x);
    }
    assert(orig.skip(0) =~= orig);
    *items = out;
}

/// The field a `--sort` value names, read after trimming and ASCII
/// lower-casing.
pub open spec fn sort_key_named(raw: Seq<char>) -> Option<AnalysisSortKey> {
    let k = ascii_lower_all(trim(raw));
    if k == "sharpe"@ {
        Some(AnalysisSortKey::Sharpe)
    } else if k == "sortino"@ {
        Some(AnalysisSortKey::Sortino)
    } else if k == "calmar"@ {
        Some(AnalysisSortKey::Calmar)
    } else if k == "total-return"@ {
        Some(AnalysisSortKey::TotalReturn)
    } else if k == "max-drawdown"@ {
        Some(AnalysisSortKey::MaxDrawdown)
    } else if k == "alpha"@ {
        Some(AnalysisSortKey::Alpha)
    } else if k == "volatility"@ {
        Some(AnalysisSortKey::Volatility)
    } else {
        None
    }
}

/// The message for a `--sort` value that names no field.
pub open spec fn sort_key_error(raw: Seq<char>) -> Seq<char> {
    "无效排序字段："@ + raw + "，可选 sharpe/sortino/calmar/total-return/max-drawdown/alpha/volatility"@
}

/// Reads a `--sort` value.
pub fn parse_sort_key(raw: &str) -> (r: Result<AnalysisSortKey, String>)
    ensures
        match sort_key_named(raw@) {
            Some(k) => r == Ok::<AnalysisSortKey, String>(k),
            None => r matches Err(e) && e@ == sort_key_error(raw@),
        },
{
    let cs = chars_of(raw);
    let t = trimmed(cs.as_slice());
    let k = ascii_lower_exec(t.as_slice());
    let k = k.as_slice();
    if is_lit(k, "sharpe") {
        Ok(AnalysisSortKey::Sharpe)
    } else if is_lit(k, "sortino") {
        Ok(AnalysisSortKey::Sortino)
    } else if is_lit(k, "calmar") {
        Ok(AnalysisSortKey::Calmar)
    } else if is_lit(k, "total-return") {
        Ok(AnalysisSortKey::TotalReturn)
    } else if is_lit(k, "max-drawdown") {
        Ok(AnalysisSortKey::MaxDrawdown)
    } else if is_lit(k, "alpha") {
        Ok(AnalysisSortKey::Alpha)
    } else if is_lit(k, "volatility") {
        Ok(AnalysisSortKey::Volatility)
    } else {
        Err(
            join3(
                "无效排序字段：",
                raw,
                "，可选 sharpe/sortino/calmar/total-return/max-drawdown/alpha/volatility",
            ),
        )
    }
}

impl AnalysisSortKey {
    /// Whether higher comes first: for every metric but the drawdown and
    /// the volatility, where lower is better, and the code.
    pub open spec fn desc_spec(self) -> bool {
        !(self is Code || self is MaxDrawdown || self is Volatility)
    }

    pub fn default_desc(self) -> (b: bool)
        ensures
            b == self.desc_spec(),
    {
        !matches!(
            self,
            AnalysisSortKey::Code | AnalysisSortKey::MaxDrawdown | AnalysisSortKey::Volatility
        )
    }
}

/// Orders compared funds by the field that `--sort` names, in that field's
/// own direction; without one (or with an empty one) by code, ascending.
/// A value that names no field is an error and leaves the list as it was.
pub fn sort_compare_analyses<T>(analyses: &mut Vec<(AnalysisKeys, T)>, sort: Option<&str>) -> (r:
    Result<(), String>)
    ensures
        match sort {
            Some(raw) => if raw@.len() > 0 {
                match sort_key_named(raw@) {
                    Some(k) => r is Ok && final(analyses)@ == sorted_by(
                        old(analyses)@,
                        k,
                        k.desc_spec(),
                    ),
                    None => (r matches Err(e) && e@ == sort_key_error(raw@)) && final(analyses)@
                        == old(analyses)@,
                }
            } else {
                r is Ok && final(analyses)@ == sorted_by(
                    old(analyses)@,
                    AnalysisSortKey::Code,
                    false,
                )
            },
            None => r is Ok && final(analyses)@ == sorted_by(
                old(analyses)@,
                AnalysisSortKey::Code,
                false,
            ),
        },
{
    match sort {
        Some(raw) => {
            if raw.unicode_len() > 0 {
                let key = parse_sort_key(raw)?;
                sort_analyses(analyses, key, key.default_desc());
                return Ok(());
            }
        },
        None => {},
    }
    sort_analyses(analyses, AnalysisSortKey::Code, false);
    Ok(())
}

/// Orders screened funds by the field that `--sort` names (an empty value
/// names none and is an error); without `--sort` by Sharpe ratio, highest
/// first.
pub fn sort_passed<T>(analyses: &mut Vec<(AnalysisKeys, T)>, sort_by: Option<&str>) -> (r: Result<
    (),
    String,
>)
    ensures
        match sort_by {
            Some(raw) => match sort_key_named(raw@) {
                Some(k) => r is Ok && final(analyses)@ == sorted_by(
                    old(analyses)@,
                    k,
                    k.desc_spec(),
                ),
                None => (r matches Err(e) && e@ == sort_key_error(raw@)) && final(analyses)@
                    == old(analyses)@,
            },
            None => r is Ok && final(analyses)@ == sorted_by(
                old(analyses)@,
                AnalysisSortKey::Sharpe,
                true,
            ),
        },
{
    match sort_by {
        Some(raw) => {
            let key = parse_sort_key(raw)?;
            sort_analyses(analyses, key, key.default_desc());
        },
        None => sort_analyses(analyses, AnalysisSortKey::Sharpe, true),
    }
    Ok(())
}

} // verus!
