//! Merging net-value series that overlap: one point per date, in date order.

use vstd::prelude::*;

verus! {

/// The point of each date, where the last point of a date wins: the
/// points after the first decide, and the first fills in its date only
/// when none of them has it.
pub open spec fn date_map<T>(s: Seq<(i64, T)>) -> Map<i64, T>
    decreases s.len(),
{
    if s.len() == 0 {
        Map::empty()
    } else {
        let m = date_map(s.drop_first());
        if m.contains_key(s[0].0) {
            m
        } else {
            m.insert(s[0].0, s[0].1)
        }
    }
}

/// Dates strictly increase along `s`.
pub open spec fn dates_increasing<T>(s: Seq<(i64, T)>) -> bool {
    forall|i: int, j: int| 0 <= i < j < s.len() ==> #[trigger] s[i].0 < #[trigger] s[j].0
}

/// A date has a point exactly when some entry carries it.
pub proof fn lemma_date_map_dom<T>(s: Seq<(i64, T)>, d: i64)
    ensures
        date_map(s).contains_key(d) <==> exists|i: int| 0 <= i < s.len() && #[trigger] s[i].0 == d,
    decreases s.len(),
{
    if s.len() > 0 {
        let r = s.drop_first();
        lemma_date_map_dom(r, d);
        if date_map(s).contains_key(d) && s[0].0 != d {
            let i = choose|i: int| 0 <= i < r.len() && #[trigger] r[i].0 == d;
            assert(s[i + 1].0 == d);
        }
        if exists|i: int| 0 <= i < s.len() && #[trigger] s[i].0 == d {
            let i = choose|i: int| 0 <= i < s.len() && #[trigger] s[i].0 == d;
            if i > 0 {
                assert(r[i - 1].0 == d);
            }
        }
    }
}

/// The point that wins a date is the last entry of that date.
pub proof fn lemma_date_map_last<T>(s: Seq<(i64, T)>, j: int)
    requires
        0 <= j < s.len(),
        forall|k: int| j < k < s.len() ==> #[trigger] s[k].0 != s[j].0,
    ensures
        date_map(s).contains_key(s[j].0),
        date_map(s)[s[j].0] == s[j].1,
    decreases s.len(),
{
    let r = s.drop_first();
    if j == 0 {
        lemma_date_map_dom(r, s[0].0);
        if date_map(r).contains_key(s[0].0) {
            let i = choose|i: int| 0 <= i < r.len() && #[trigger] r[i].0 == s[0].0;
            assert(s[i + 1].0 == s[0].0);
        }
    } else {
        assert forall|k: int| j - 1 < k < r.len() implies #[trigger] r[k].0 != r[j - 1].0 by {
            assert(r[k] == s[k + 1]);
        }
        lemma_date_map_last(r, j - 1);
    }
}

/// Inserting an entry of a new date into a series of distinct dates adds
/// that date's point and changes no other.
proof fn lemma_date_map_insert<T>(v: Seq<(i64, T)>, i: int, x: (i64, T))
    requires
        0 <= i <= v.len(),
        dates_increasing(v),
        forall|k: int| 0 <= k < v.len() ==> #[trigger] v[k].0 != x.0,
    ensures
        date_map(v.insert(i, x)) =~= date_map(v).insert(x.0, x.1),
    decreases v.len(),
{
    let w = v.insert(i, x);
    if i == 0 {
        assert(w.drop_first() =~= v);
        lemma_date_map_dom(v, x.0);
    } else {
        let r = v.drop_first();
        assert(w.drop_first() =~= r.insert(i - 1, x));
        assert(w[0] == v[0]);
        lemma_date_map_insert(r, i - 1, x);
        lemma_date_map_dom(r, v[0].0);
        lemma_date_map_dom(r.insert(i - 1, x), v[0].0);
        if exists|k: int| 0 <= k < r.len() && #[trigger] r[k].0 == v[0].0 {
            let k = choose|k: int| 0 <= k < r.len() && #[trigger] r[k].0 == v[0].0;
            assert(v[k + 1].0 == v[0].0);
        }
        if exists|k: int| 0 <= k < r.insert(i - 1, x).len() && #[trigger] r.insert(i - 1, x)[k].0
            == v[0].0 {
            let k = choose|k: int|
                0 <= k < r.insert(i - 1, x).len() && #[trigger] r.insert(i - 1, x)[k].0 == v[0].0;
            r.insert_ensures(i - 1, x);
            if k < i - 1 {
                assert(v[k + 1].0 == v[0].0);
            } else if k > i - 1 {
                assert(v[k].0 == v[0].0);
            }
        }
    }
}

/// The first index of `v` (dates increasing) whose date is not before `d`.
fn lower_bound<T>(v: &Vec<(i64, T)>, d: i64) -> (p: usize)
    requires
        dates_increasing(v@),
    ensures
        p <= v@.len(),
        forall|k: int| 0 <= k < p ==> #[trigger] v@[k].0 < d,
        forall|k: int| p <= k < v@.len() ==> #[trigger] v@[k].0 >= d,
{
    let mut lo: usize = 0;
    let mut hi: usize = v.len();
    while lo < hi
        invariant
            lo <= hi <= v@.len(),
            dates_increasing(v@),
            forall|k: int| 0 <= k < lo ==> #[trigger] v@[k].0 < d,
            forall|k: int| hi <= k < v@.len() ==> #[trigger] v@[k].0 >= d,
        decreases hi - lo,
    {
        let mid = lo + (hi - lo) / 2;
        if v[mid].0 < d {
            assert forall|k: int| 0 <= k < mid + 1 implies #[trigger] v@[k].0 < d by {
                if k < mid {
                    assert(v@[k].0 < v@[mid as int].0);
                }
            }
            lo = mid + 1;
        } else {
            assert forall|k: int| mid <= k < v@.len() implies #[trigger] v@[k].0 >= d by {
                if k > mid {
                    assert(v@[mid as int].0 < v@[k].0);
                }
            }
            hi = mid;
        }
    }
    lo
}

/// Merges net-value points keyed by date (a day number): one point per
/// date, dates ascending, and of several points with one date the last.
pub fn merge_navs_by_date<T>(navs: Vec<(i64, T)>) -> (out: Vec<(i64, T)>)
    ensures
        dates_increasing(out@),
        date_map(out@) == date_map(navs@),
{
    let mut input = navs;
    let ghost orig = input@;
    let mut out: Vec<(i64, T)> = Vec::new();
    assert(orig.skip(orig.len() as int) =~= Seq::<(i64, T)>::empty());
    assert(orig.take(orig.len() as int) =~= orig);
    while input.len() > 0
        invariant
            input@.len() <= orig.len(),
            input@ == orig.take(input@.len() as int),
            dates_increasing(out@),
            date_map(out@) == date_map(orig.skip(input@.len() as int)),
        decreases input@.len(),
    {
        let ghost k = input@.len() as int;
        let x = input.pop().unwrap();
        proof {
            assert(x == orig[k - 1]);
            assert(input@ =~= orig.take(k - 1));
            let u = orig.skip(k - 1);
            assert(u[0] == x);
            assert(u.drop_first() =~= orig.skip(k));
        }
        let p = lower_bound(&out, x.0);
        if p < out.len() && out[p].0 == x.0 {
            proof {
                lemma_date_map_dom(out@, x.0);
            }
        } else {
            proof {
                lemma_date_map_dom(out@, x.0);
                assert forall|q: int| 0 <= q < out@.len() implies #[trigger] out@[q].0 != x.0 by {
                    if q > p {
                        assert(out@[p as int].0 < out@[q].0);
                    }
                }
                lemma_date_map_insert(out@, p as int, x);
                out@.insert_ensures(p as int, x);
            }
            let ghost before = out@;
            out.insert(p, x);
            proof {
                assert forall|i: int, j: int| 0 <= i < j < out@.len() implies #[trigger] out@[i].0
                    < #[trigger] out@[j].0 by {
                    if j < p {
                        assert(out@[i] == before[i] && out@[j] == before[j]);
                    } else if j == p {
                        assert(out@[i] == before[i]);
                    } else if i < p {
                        assert(out@[i] == before[i] && out@[j] == before[j - 1]);
                    } else if i == p {
                        assert(out@[j] == before[j - 1]);
                    } else {
                        assert(out@[i] == before[i - 1] && out@[j] == before[j - 1]);
                    }
                }
            }
        }
    }
    assert(orig.skip(0) =~= orig);
    out
}

} // verus!
