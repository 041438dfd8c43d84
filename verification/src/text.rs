//! Character-sequence helpers that the parsers are written with.
//!
//! Every text operation of the library is stated over `Seq<char>`, the view
//! of a `str` or `String`: a search gives the index of a character, not of a
//! byte.

use vstd::prelude::*;

verus! {

/// `p` occurs in `s` starting at character `i`.
pub open spec fn matches_at(s: Seq<char>, p: Seq<char>, i: int) -> bool {
    0 <= i && i + p.len() <= s.len() && s.subrange(i, i + p.len()) == p
}

/// The first position at or after `i` where `p` occurs in `s`.
pub open spec fn find_from(s: Seq<char>, p: Seq<char>, i: int) -> Option<int>
    decreases s.len() + 1 - i,
{
    if i < 0 || i + p.len() > s.len() {
        None
    } else if matches_at(s, p, i) {
        Some(i)
    } else {
        find_from(s, p, i + 1)
    }
}

/// The first position where `p` occurs in `s` (`str::find`).
pub open spec fn find(s: Seq<char>, p: Seq<char>) -> Option<int> {
    find_from(s, p, 0)
}

/// `s` contains `p` (`str::contains`).
pub open spec fn contains(s: Seq<char>, p: Seq<char>) -> bool {
    find(s, p) is Some
}

/// What `find_from` answers, in terms of occurrences.
pub proof fn lemma_find_from(s: Seq<char>, p: Seq<char>, i: int)
    requires
        0 <= i,
    ensures
        match find_from(s, p, i) {
            Some(k) => i <= k && matches_at(s, p, k) && forall|j: int|
                i <= j < k ==> !matches_at(s, p, j),
            None => forall|j: int| i <= j ==> !matches_at(s, p, j),
        },
    decreases s.len() + 1 - i,
{
    if i + p.len() > s.len() {
    } else if matches_at(s, p, i) {
    } else {
        lemma_find_from(s, p, i + 1);
    }
}

/// `find_from` is the least occurrence at or after `i`.
pub proof fn lemma_find_from_least(s: Seq<char>, p: Seq<char>, i: int, k: int)
    requires
        0 <= i <= k,
        matches_at(s, p, k),
        forall|j: int| i <= j < k ==> !matches_at(s, p, j),
    ensures
        find_from(s, p, i) == Some(k),
    decreases k - i,
{
    if i < k {
        lemma_find_from_least(s, p, i + 1, k);
    }
}

/// `find_from` gives `None` when nothing occurs at or after `i`.
pub proof fn lemma_find_from_none(s: Seq<char>, p: Seq<char>, i: int)
    requires
        0 <= i,
        forall|j: int| i <= j ==> !matches_at(s, p, j),
    ensures
        find_from(s, p, i) is None,
    decreases s.len() + 1 - i,
{
    if i + p.len() <= s.len() {
        lemma_find_from_none(s, p, i + 1);
    }
}

/// Searching a suffix is searching the whole from the suffix's start.
pub proof fn lemma_find_skip(s: Seq<char>, p: Seq<char>, k: int)
    requires
        0 <= k <= s.len(),
    ensures
        find(s.skip(k), p) == match find_from(s, p, k) {
            Some(j) => Some(j - k),
            None => None::<int>,
        },
{
    let t = s.skip(k);
    assert forall|j: int| 0 <= j implies (matches_at(t, p, j) <==> matches_at(s, p, j + k)) by {
        if 0 <= j && j + p.len() <= t.len() {
            assert(t.subrange(j, j + p.len()) =~= s.subrange(j + k, j + k + p.len()));
        }
    }
    lemma_find_from(s, p, k);
    match find_from(s, p, k) {
        Some(m) => {
            assert forall|j: int| 0 <= j < m - k implies !matches_at(t, p, j) by {
                assert(!matches_at(s, p, j + k));
            }
            lemma_find_from_least(t, p, 0, m - k);
        },
        None => {
            assert forall|j: int| 0 <= j implies !matches_at(t, p, j) by {
                assert(!matches_at(s, p, j + k));
            }
            lemma_find_from_none(t, p, 0);
        },
    }
}

/// The characters of `s`, in order.
pub fn chars_of(s: &str) -> (v: Vec<char>)
    ensures
        v@ == s@,
{
    let mut v: Vec<char> = Vec::new();
    for c in it: s.chars()
        invariant
            v@ == it.seq().take(it.index() as int),
    {
        v.push(c);
    }
    v
}

/// The string whose characters are `v`.
#[verifier::external_body]
pub fn string_of(v: &[char]) -> (s: String)
    ensures
        s@ == v@,
{
    v.iter().collect()
}

/// Whether `p` occurs in `s` at character `i`.
pub fn matches_at_exec(s: &[char], p: &[char], i: usize) -> (b: bool)
    ensures
        b == matches_at(s@, p@, i as int),
{
    if i > s.len() || p.len() > s.len() - i {
        return false;
    }
    let mut j: usize = 0;
    while j < p.len()
        invariant
            i + p.len() <= s.len(),
            j <= p.len(),
            forall|t: int| 0 <= t < j ==> s@[i + t] == p@[t],
        decreases p.len() - j,
    {
        if s[i + j] != p[j] {
            assert(s@.subrange(i as int, i + p.len())[j as int] != p@[j as int]);
            return false;
        }
        j += 1;
    }
    assert(s@.subrange(i as int, i + p.len()) =~= p@);
    true
}

/// The first position at or after `start` where `p` occurs in `s`.
pub fn find_from_exec(s: &[char], p: &[char], start: usize) -> (r: Option<usize>)
    ensures
        match find_from(s@, p@, start as int) {
            Some(k) => start <= k <= s@.len() && r == Some(k as usize),
            None => r is None,
        },
        s@.len() <= usize::MAX,
        r matches Some(k) ==> start <= k && k + p@.len() <= s@.len() && matches_at(
            s@,
            p@,
            k as int,
        ),
{
    proof {
        lemma_find_from(s@, p@, start as int);
    }
    if start > s.len() || p.len() > s.len() - start {
        proof {
            assert forall|j: int| start <= j implies !matches_at(s@, p@, j) by {}
            lemma_find_from_none(s@, p@, start as int);
        }
        return None;
    }
    let last = s.len() - p.len();
    let mut i = start;
    loop
        invariant
            start <= i <= last,
            last == s.len() - p.len(),
            p.len() <= s.len(),
            forall|j: int| start <= j < i ==> !matches_at(s@, p@, j),
        decreases last - i,
    {
        if matches_at_exec(s, p, i) {
            proof {
                lemma_find_from_least(s@, p@, start as int, i as int);
            }
            return Some(i);
        }
        if i == last {
            proof {
                assert forall|j: int| start <= j implies !matches_at(s@, p@, j) by {}
                lemma_find_from_none(s@, p@, start as int);
            }
            return None;
        }
        i += 1;
    }
}

/// `c` is white space in the sense of `char::is_whitespace` (the Unicode
/// `White_Space` property).
pub open spec fn is_ws(c: char) -> bool {
    let u = c as u32;
    ||| 0x9 <= u <= 0xD
    ||| u == 0x20
    ||| u == 0x85
    ||| u == 0xA0
    ||| u == 0x1680
    ||| 0x2000 <= u <= 0x200A
    ||| u == 0x2028
    ||| u == 0x2029
    ||| u == 0x202F
    ||| u == 0x205F
    ||| u == 0x3000
}

/// `char::is_whitespace`.
pub fn is_ws_exec(c: char) -> (b: bool)
    ensures
        b == is_ws(c),
{
    let u = c as u32;
    (0x9 <= u && u <= 0xD) || u == 0x20 || u == 0x85 || u == 0xA0 || u == 0x1680 || (0x2000 <= u
        && u <= 0x200A) || u == 0x2028 || u == 0x2029 || u == 0x202F || u == 0x205F || u == 0x3000
}

/// `s` without its leading white space (`str::trim_start`).
pub open spec fn trim_start(s: Seq<char>) -> Seq<char>
    decreases s.len(),
{
    if s.len() > 0 && is_ws(s[0]) {
        trim_start(s.drop_first())
    } else {
        s
    }
}

/// `s` without its trailing white space (`str::trim_end`).
pub open spec fn trim_end(s: Seq<char>) -> Seq<char>
    decreases s.len(),
{
    if s.len() > 0 && is_ws(s.last()) {
        trim_end(s.drop_last())
    } else {
        s
    }
}

/// `s` without white space at either end (`str::trim`).
pub open spec fn trim(s: Seq<char>) -> Seq<char> {
    trim_end(trim_start(s))
}

proof fn lemma_trim_start_skip(s: Seq<char>, lo: int)
    requires
        0 <= lo <= s.len(),
        forall|j: int| 0 <= j < lo ==> is_ws(#[trigger] s[j]),
        lo == s.len() || !is_ws(s[lo]),
    ensures
        trim_start(s) == s.skip(lo),
    decreases lo,
{
    if lo == 0 {
        assert(s.skip(0) =~= s);
    } else {
        let t = s.drop_first();
        assert forall|j: int| 0 <= j < lo - 1 implies is_ws(#[trigger] t[j]) by {
            assert(t[j] == s[j + 1]);
        }
        lemma_trim_start_skip(t, lo - 1);
        assert(t.skip(lo - 1) =~= s.skip(lo));
    }
}

proof fn lemma_trim_end_take(s: Seq<char>, hi: int)
    requires
        0 <= hi <= s.len(),
        forall|j: int| hi <= j < s.len() ==> is_ws(#[trigger] s[j]),
        hi == 0 || !is_ws(s[hi - 1]),
    ensures
        trim_end(s) == s.take(hi),
    decreases s.len() - hi,
{
    if hi == s.len() {
        assert(s.take(hi) =~= s);
    } else {
        let t = s.drop_last();
        assert forall|j: int| hi <= j < t.len() implies is_ws(#[trigger] t[j]) by {
            assert(t[j] == s[j]);
        }
        lemma_trim_end_take(t, hi);
        assert(t.take(hi) =~= s.take(hi));
    }
}

/// The bounds of `trim(s)` inside `s`.
pub fn trim_bounds(s: &[char]) -> (r: (usize, usize))
    ensures
        r.0 <= r.1 <= s@.len(),
        s@.subrange(r.0 as int, r.1 as int) == trim(s@),
{
    let mut lo: usize = 0;
    while lo < s.len() && is_ws_exec(s[lo])
        invariant
            lo <= s.len(),
            forall|j: int| 0 <= j < lo ==> is_ws(#[trigger] s@[j]),
        decreases s.len() - lo,
    {
        lo += 1;
    }
    proof {
        lemma_trim_start_skip(s@, lo as int);
    }
    let mut hi: usize = s.len();
    while hi > lo && is_ws_exec(s[hi - 1])
        invariant
            lo <= hi <= s.len(),
            forall|j: int| hi <= j < s.len() ==> is_ws(#[trigger] s@[j]),
        decreases hi,
    {
        hi -= 1;
    }
    proof {
        let t = s@.skip(lo as int);
        assert forall|j: int| hi - lo <= j < t.len() implies is_ws(#[trigger] t[j]) by {
            assert(t[j] == s@[j + lo]);
        }
        if hi > lo {
            assert(t[hi - lo - 1] == s@[hi - 1]);
        }
        lemma_trim_end_take(t, hi - lo);
        assert(t.take(hi - lo) =~= s@.subrange(lo as int, hi as int));
    }
    (lo, hi)
}

/// A copy of `s[lo..hi]`.
pub fn copy_range(s: &[char], lo: usize, hi: usize) -> (v: Vec<char>)
    requires
        lo <= hi <= s@.len(),
    ensures
        v@ == s@.subrange(lo as int, hi as int),
{
    let mut v: Vec<char> = Vec::new();
    let mut i = lo;
    while i < hi
        invariant
            lo <= i <= hi <= s@.len(),
            v@ == s@.subrange(lo as int, i as int),
        decreases hi - i,
    {
        v.push(s[i]);
        i += 1;
        assert(v@ =~= s@.subrange(lo as int, i as int));
    }
    v
}

/// Appends `s[lo..hi]` to `out`.
pub fn push_range(out: &mut Vec<char>, s: &[char], lo: usize, hi: usize)
    requires
        lo <= hi <= s@.len(),
    ensures
        final(out)@ == old(out)@ + s@.subrange(lo as int, hi as int),
{
    let mut i = lo;
    while i < hi
        invariant
            lo <= i <= hi <= s@.len(),
            out@ == old(out)@ + s@.subrange(lo as int, i as int),
        decreases hi - i,
    {
        out.push(s[i]);
        i += 1;
        assert(out@ =~= old(out)@ + s@.subrange(lo as int, i as int));
    }
}

/// `trim(s)`, copied.
pub fn trimmed(s: &[char]) -> (v: Vec<char>)
    ensures
        v@ == trim(s@),
{
    let (lo, hi) = trim_bounds(s);
    copy_range(s, lo, hi)
}

/// How many characters lead `s` before its first white space.
pub open spec fn word_len(s: Seq<char>) -> nat
    decreases s.len(),
{
    if s.len() > 0 && !is_ws(s[0]) {
        1 + word_len(s.drop_first())
    } else {
        0
    }
}

pub proof fn lemma_word_len(s: Seq<char>)
    ensures
        word_len(s) <= s.len(),
        s.len() > 0 && !is_ws(s[0]) ==> word_len(s) >= 1,
    decreases s.len(),
{
    if s.len() > 0 && !is_ws(s[0]) {
        lemma_word_len(s.drop_first());
    }
}

proof fn lemma_word_len_is(s: Seq<char>, k: int)
    requires
        0 <= k <= s.len(),
        forall|j: int| 0 <= j < k ==> !is_ws(#[trigger] s[j]),
        k == s.len() || is_ws(s[k]),
    ensures
        word_len(s) == k,
    decreases k,
{
    if k > 0 {
        let t = s.drop_first();
        assert forall|j: int| 0 <= j < k - 1 implies !is_ws(#[trigger] t[j]) by {
            assert(t[j] == s[j + 1]);
        }
        lemma_word_len_is(t, k - 1);
    }
}

/// The white-space separated words of `s` (`str::split_whitespace`).
pub open spec fn words(s: Seq<char>) -> Seq<Seq<char>>
    decreases s.len(),
{
    if s.len() == 0 {
        seq![]
    } else if is_ws(s[0]) {
        words(s.drop_first())
    } else {
        proof {
            lemma_word_len(s);
        }
        seq![s.take(word_len(s) as int)] + words(s.skip(word_len(s) as int))
    }
}

/// The words joined by single spaces (`.join(" ")`).
pub open spec fn join_space(ws: Seq<Seq<char>>) -> Seq<char>
    decreases ws.len(),
{
    if ws.len() == 0 {
        seq![]
    } else if ws.len() == 1 {
        ws[0]
    } else {
        ws[0] + seq![' '] + join_space(ws.drop_first())
    }
}

/// Runs of white space collapsed to one space, none at either end
/// (`s.split_whitespace().collect::<Vec<_>>().join(" ")`).
pub open spec fn collapse_ws(s: Seq<char>) -> Seq<char> {
    join_space(words(s))
}

/// Two non-empty pieces joined by a space, or the one that is not empty.
pub open spec fn glue(a: Seq<char>, b: Seq<char>) -> Seq<char> {
    if a.len() == 0 {
        b
    } else if b.len() == 0 {
        a
    } else {
        a + seq![' '] + b
    }
}

proof fn lemma_words_nonempty(s: Seq<char>)
    ensures
        forall|i: int| 0 <= i < words(s).len() ==> (#[trigger] words(s)[i]).len() > 0,
        (join_space(words(s)).len() == 0) <==> (words(s).len() == 0),
    decreases s.len(),
{
    if s.len() == 0 {
    } else if is_ws(s[0]) {
        lemma_words_nonempty(s.drop_first());
    } else {
        lemma_word_len(s);
        let k = word_len(s) as int;
        lemma_words_nonempty(s.skip(k));
        let ws = words(s);
        assert(ws =~= seq![s.take(k)] + words(s.skip(k)));
        assert forall|i: int| 0 <= i < ws.len() implies (#[trigger] ws[i]).len() > 0 by {
            if i > 0 {
                assert(ws[i] == words(s.skip(k))[i - 1]);
            }
        }
        if ws.len() > 1 {
            assert(ws.drop_first() =~= words(s.skip(k)));
        }
    }
}

/// `collapse_ws(s)`.
pub fn collapse_ws_exec(s: &[char]) -> (v: Vec<char>)
    ensures
        v@ == collapse_ws(s@),
{
    let mut out: Vec<char> = Vec::new();
    let mut i: usize = 0;
    proof {
        assert(s@.skip(0) =~= s@);
    }
    while i < s.len()
        invariant
            i <= s.len(),
            collapse_ws(s@) == glue(out@, collapse_ws(s@.skip(i as int))),
        decreases s.len() - i,
    {
        let ghost t = s@.skip(i as int);
        if is_ws_exec(s[i]) {
            proof {
                assert(t.drop_first() =~= s@.skip(i + 1));
            }
            i += 1;
        } else {
            let mut k = i;
            while k < s.len() && !is_ws_exec(s[k])
                invariant
                    i <= k <= s.len(),
                    forall|j: int| i <= j < k ==> !is_ws(#[trigger] s@[j]),
                decreases s.len() - k,
            {
                k += 1;
            }
            proof {
                assert forall|j: int| 0 <= j < k - i implies !is_ws(#[trigger] t[j]) by {
                    assert(t[j] == s@[j + i]);
                }
                if k < s.len() {
                    assert(t[k - i] == s@[k as int]);
                }
                lemma_word_len_is(t, k - i);
                let w = t.take(k - i);
                assert(w =~= s@.subrange(i as int, k as int));
                assert(t.skip(k - i) =~= s@.skip(k as int));
                let rest = words(s@.skip(k as int));
                assert(words(t) =~= seq![w] + rest);
                lemma_words_nonempty(s@.skip(k as int));
                if rest.len() > 0 {
                    assert((seq![w] + rest).drop_first() =~= rest);
                }
            }
            let ghost before = out@;
            if out.len() > 0 {
                out.push(' ');
            }
            push_range(&mut out, s, i, k);
            proof {
                let w = s@.subrange(i as int, k as int);
                let r = collapse_ws(s@.skip(k as int));
                assert(glue(before, w) == out@);
                assert(glue(before, glue(w, r)) =~= glue(glue(before, w), r));
            }
            i = k;
        }
    }
    proof {
        assert(s@.skip(i as int) =~= Seq::<char>::empty());
        assert(out@ =~= glue(out@, Seq::<char>::empty()));
    }
    out
}

/// `s` with every occurrence of `from`, left to right and not overlapping,
/// replaced by `to` (`str::replace`).
pub open spec fn replace_all(s: Seq<char>, from: Seq<char>, to: Seq<char>) -> Seq<char>
    decreases s.len(),
{
    if from.len() == 0 {
        s
    } else {
        match find(s, from) {
            None => s,
            Some(i) => {
                proof {
                    lemma_find_from(s, from, 0);
                }
                s.take(i) + to + replace_all(s.skip(i + from.len()), from, to)
            },
        }
    }
}

/// `replace_all(s, from, to)` for a non-empty `from`.
pub fn replace_all_exec(s: &[char], from: &[char], to: &[char]) -> (v: Vec<char>)
    requires
        from@.len() > 0,
    ensures
        v@ == replace_all(s@, from@, to@),
{
    let mut out: Vec<char> = Vec::new();
    let mut pos: usize = 0;
    proof {
        assert(s@.skip(0) =~= s@);
    }
    loop
        invariant
            pos <= s.len(),
            from@.len() > 0,
            replace_all(s@, from@, to@) == out@ + replace_all(s@.skip(pos as int), from@, to@),
        decreases s.len() - pos,
    {
        let r = find_from_exec(s, from, pos);
        proof {
            lemma_find_skip(s@, from@, pos as int);
            lemma_find_from(s@, from@, pos as int);
        }
        match r {
            None => {
                push_range(&mut out, s, pos, s.len());
                proof {
                    assert(s@.subrange(pos as int, s.len() as int) =~= s@.skip(pos as int));
                }
                return out;
            },
            Some(k) => {
                let ghost t = s@.skip(pos as int);
                let ghost before = out@;
                push_range(&mut out, s, pos, k);
                push_range(&mut out, to, 0, to.len());
                proof {
                    assert(t.take(k - pos) =~= s@.subrange(pos as int, k as int));
                    assert(t.skip(k - pos + from@.len()) =~= s@.skip(k + from@.len()));
                    assert(to@.subrange(0, to@.len() as int) =~= to@);
                    assert(out@ =~= before + t.take(k - pos) + to@);
                }
                pos = k + from.len();
            },
        }
    }
}

/// `s` with each `<...>` tag removed: at the first `<` that a `>` follows,
/// the characters from that `<` through the first `>` after it are dropped,
/// and the removal repeats on the rest; from a `<` that no `>` follows on,
/// `s` is kept as it stands.
pub open spec fn strip_tags(s: Seq<char>) -> Seq<char>
    decreases s.len(),
{
    match find(s, seq!['<']) {
        None => s,
        Some(i) => match find_from(s, seq!['>'], i) {
            None => s,
            Some(j) => {
                proof {
                    lemma_find_from(s, seq!['>'], i);
                }
                s.take(i) + strip_tags(s.skip(j + 1))
            },
        },
    }
}

/// `strip_tags(s)`.
pub fn strip_tags_exec(s: &[char]) -> (v: Vec<char>)
    ensures
        v@ == strip_tags(s@),
{
    let lt = ['<'];
    let gt = ['>'];
    let mut out: Vec<char> = Vec::new();
    let mut pos: usize = 0;
    proof {
        assert(s@.skip(0) =~= s@);
        assert(lt@ =~= seq!['<']);
        assert(gt@ =~= seq!['>']);
    }
    loop
        invariant
            pos <= s.len(),
            lt@ == seq!['<'],
            gt@ == seq!['>'],
            strip_tags(s@) == out@ + strip_tags(s@.skip(pos as int)),
        decreases s.len() - pos,
    {
        let ghost t = s@.skip(pos as int);
        let r = find_from_exec(s, &lt, pos);
        proof {
            lemma_find_skip(s@, seq!['<'], pos as int);
            lemma_find_from(s@, seq!['<'], pos as int);
        }
        match r {
            None => {
                push_range(&mut out, s, pos, s.len());
                proof {
                    assert(s@.subrange(pos as int, s.len() as int) =~= t);
                }
                return out;
            },
            Some(i) => {
                let r2 = find_from_exec(s, &gt, i);
                proof {
                    lemma_find_from(s@, seq!['>'], i as int);
                    lemma_find_from(t, seq!['>'], i - pos);
                    let a = find_from(s@, seq!['>'], i as int);
                    let b = find_from(t, seq!['>'], i - pos);
                    assert forall|j: int| 0 <= j implies (matches_at(t, seq!['>'], j)
                        <==> matches_at(s@, seq!['>'], j + pos)) by {
                        if 0 <= j && j + 1 <= t.len() {
                            assert(t.subrange(j, j + 1) =~= s@.subrange(j + pos, j + pos + 1));
                        }
                    }
                    match a {
                        Some(m) => {
                            assert forall|j: int| i - pos <= j < m - pos implies !matches_at(
                                t,
                                seq!['>'],
                                j,
                            ) by {
                                assert(!matches_at(s@, seq!['>'], j + pos));
                            }
                            lemma_find_from_least(t, seq!['>'], i - pos, m - pos);
                        },
                        None => {
                            assert forall|j: int| i - pos <= j implies !matches_at(
                                t,
                                seq!['>'],
                                j,
                            ) by {
                                assert(!matches_at(s@, seq!['>'], j + pos));
                            }
                            lemma_find_from_none(t, seq!['>'], i - pos);
                        },
                    }
                }
                match r2 {
                    None => {
                        push_range(&mut out, s, pos, s.len());
                        proof {
                            assert(s@.subrange(pos as int, s.len() as int) =~= t);
                        }
                        return out;
                    },
                    Some(j) => {
                        push_range(&mut out, s, pos, i);
                        proof {
                            assert(t.take(i - pos) =~= s@.subrange(pos as int, i as int));
                            assert(t.skip(j - pos + 1) =~= s@.skip(j + 1));
                        }
                        pos = j + 1;
                    },
                }
            },
        }
    }
}

/// `str::split` by a non-empty pattern: the pieces between occurrences,
/// empty pieces included; there is always at least one.
pub open spec fn split(s: Seq<char>, p: Seq<char>) -> Seq<Seq<char>>
    decreases s.len(),
{
    if p.len() == 0 {
        seq![s]
    } else {
        match find(s, p) {
            None => seq![s],
            Some(i) => {
                proof {
                    lemma_find_from(s, p, 0);
                }
                seq![s.take(i)] + split(s.skip(i + p.len()), p)
            },
        }
    }
}

/// `split(s, p)` for a non-empty `p`, each piece copied.
pub fn split_exec(s: &[char], p: &[char]) -> (v: Vec<Vec<char>>)
    requires
        p@.len() > 0,
    ensures
        v@.len() == split(s@, p@).len(),
        forall|i: int| 0 <= i < v@.len() ==> (#[trigger] v@[i])@ == split(s@, p@)[i],
{
    let mut out: Vec<Vec<char>> = Vec::new();
    let mut pos: usize = 0;
    proof {
        assert(s@.skip(0) =~= s@);
    }
    loop
        invariant
            pos <= s.len(),
            p@.len() > 0,
            split(s@, p@) =~= out@.map_values(|x: Vec<char>| x@) + split(
                s@.skip(pos as int),
                p@,
            ),
        decreases s.len() - pos,
    {
        let ghost t = s@.skip(pos as int);
        let r = find_from_exec(s, p, pos);
        proof {
            lemma_find_skip(s@, p@, pos as int);
            lemma_find_from(s@, p@, pos as int);
        }
        match r {
            None => {
                let piece = copy_range(s, pos, s.len());
                let ghost before = out@.map_values(|x: Vec<char>| x@);
                out.push(piece);
                proof {
                    assert(piece@ =~= t);
                    assert(out@.map_values(|x: Vec<char>| x@) =~= before + seq![t]);
                }
                return out;
            },
            Some(k) => {
                let piece = copy_range(s, pos, k);
                let ghost before = out@.map_values(|x: Vec<char>| x@);
                out.push(piece);
                proof {
                    assert(t.take(k - pos) =~= piece@);
                    assert(t.skip(k - pos + p@.len()) =~= s@.skip(k + p@.len()));
                    assert(out@.map_values(|x: Vec<char>| x@) =~= before + seq![piece@]);
                }
                pos = k + p.len();
            },
        }
    }
}

/// `s` without one leading `p`, if it starts with `p` (`str::strip_prefix`).
pub open spec fn strip_prefix(s: Seq<char>, p: Seq<char>) -> Option<Seq<char>> {
    if p.len() <= s.len() && s.take(p.len() as int) == p {
        Some(s.skip(p.len() as int))
    } else {
        None
    }
}

/// `s` without one trailing `p`, if it ends with `p` (`str::strip_suffix`).
pub open spec fn strip_suffix(s: Seq<char>, p: Seq<char>) -> Option<Seq<char>> {
    if p.len() <= s.len() && s.skip(s.len() - p.len()) == p {
        Some(s.take(s.len() - p.len()))
    } else {
        None
    }
}

/// `strip_prefix(s, p).unwrap_or(s)`.
pub open spec fn without_prefix(s: Seq<char>, p: Seq<char>) -> Seq<char> {
    match strip_prefix(s, p) {
        Some(t) => t,
        None => s,
    }
}

/// `strip_suffix(s, p).unwrap_or(s)`.
pub open spec fn without_suffix(s: Seq<char>, p: Seq<char>) -> Seq<char> {
    match strip_suffix(s, p) {
        Some(t) => t,
        None => s,
    }
}

/// Whether `s` starts with `p`.
pub fn starts_with_exec(s: &[char], p: &[char]) -> (b: bool)
    ensures
        b == (p@.len() <= s@.len() && s@.take(p@.len() as int) == p@),
{
    let r = matches_at_exec(s, p, 0);
    proof {
        if p@.len() <= s@.len() {
            assert(s@.subrange(0, p@.len() as int) =~= s@.take(p@.len() as int));
        }
    }
    r
}

/// Whether `s` ends with `p`.
pub fn ends_with_exec(s: &[char], p: &[char]) -> (b: bool)
    ensures
        b == (p@.len() <= s@.len() && s@.skip(s@.len() - p@.len()) == p@),
{
    if p.len() > s.len() {
        return false;
    }
    let r = matches_at_exec(s, p, s.len() - p.len());
    proof {
        assert(s@.subrange(s@.len() - p@.len(), s@.len() as int) =~= s@.skip(
            s@.len() - p@.len(),
        ));
    }
    r
}

/// The number of bytes that `c` takes in UTF-8.
pub open spec fn utf8_width(c: char) -> nat {
    let u = c as u32;
    if u < 0x80 {
        1
    } else if u < 0x800 {
        2
    } else if u < 0x10000 {
        3
    } else {
        4
    }
}

/// The number of bytes that `s` takes in UTF-8 (`str::len`).
pub open spec fn utf8_len(s: Seq<char>) -> nat
    decreases s.len(),
{
    if s.len() == 0 {
        0
    } else {
        utf8_len(s.drop_last()) + utf8_width(s.last())
    }
}

proof fn lemma_utf8_len_prefix(s: Seq<char>, k: int)
    requires
        0 <= k <= s.len(),
    ensures
        utf8_len(s.take(k)) <= utf8_len(s),
    decreases s.len() - k,
{
    if k < s.len() {
        lemma_utf8_len_prefix(s, k + 1);
        assert(s.take(k + 1).drop_last() =~= s.take(k));
    } else {
        assert(s.take(k) =~= s);
    }
}

/// Whether `s` takes more than `n` bytes in UTF-8.
pub fn utf8_len_exceeds(s: &[char], n: usize) -> (b: bool)
    ensures
        b == (utf8_len(s@) > n),
{
    let mut total: usize = 0;
    let mut i: usize = 0;
    assert(s@.take(0) =~= Seq::<char>::empty());
    while i < s.len()
        invariant
            i <= s@.len(),
            total == utf8_len(s@.take(i as int)),
            total <= n,
        decreases s@.len() - i,
    {
        let w = utf8_width_exec(s[i]);
        assert(s@.take(i + 1).drop_last() =~= s@.take(i as int));
        if w > n - total {
            proof {
                lemma_utf8_len_prefix(s@, i + 1);
            }
            return true;
        }
        total = total + w;
        i += 1;
    }
    assert(s@.take(i as int) =~= s@);
    false
}

/// `utf8_width(c)`.
pub fn utf8_width_exec(c: char) -> (w: usize)
    ensures
        w == utf8_width(c),
{
    let u = c as u32;
    if u < 0x80 {
        1
    } else if u < 0x800 {
        2
    } else if u < 0x10000 {
        3
    } else {
        4
    }
}

/// The longest prefix of `s`, in characters, whose UTF-8 form takes at most
/// `n` bytes.
pub open spec fn prefix_within_bytes(s: Seq<char>, n: nat) -> nat
    decreases s.len(),
{
    if s.len() == 0 || utf8_width(s[0]) > n {
        0
    } else {
        1 + prefix_within_bytes(s.drop_first(), (n - utf8_width(s[0])) as nat)
    }
}

proof fn lemma_prefix_within_bytes_le(s: Seq<char>, n: nat)
    ensures
        prefix_within_bytes(s, n) <= s.len(),
    decreases s.len(),
{
    if s.len() > 0 && utf8_width(s[0]) <= n {
        lemma_prefix_within_bytes_le(s.drop_first(), (n - utf8_width(s[0])) as nat);
    }
}

/// `prefix_within_bytes(s[lo..], n)`.
pub fn prefix_within_bytes_exec(s: &[char], lo: usize, n: usize) -> (k: usize)
    requires
        lo <= s@.len(),
    ensures
        k == prefix_within_bytes(s@.skip(lo as int), n as nat),
        lo + k <= s@.len(),
{
    let mut i = lo;
    let mut left = n;
    while i < s.len() && utf8_width_exec(s[i]) <= left
        invariant
            lo <= i <= s@.len(),
            left <= n,
            prefix_within_bytes(s@.skip(lo as int), n as nat) == (i - lo)
                + prefix_within_bytes(s@.skip(i as int), left as nat),
        decreases s.len() - i,
    {
        let w = utf8_width_exec(s[i]);
        proof {
            let t = s@.skip(i as int);
            assert(t[0] == s@[i as int]);
            assert(t.drop_first() =~= s@.skip(i + 1));
        }
        left = left - w;
        i += 1;
    }
    proof {
        let t = s@.skip(i as int);
        if i < s.len() {
            assert(t[0] == s@[i as int]);
        }
    }
    i - lo
}

/// `c.to_ascii_lowercase()`.
pub open spec fn ascii_lower(c: char) -> char {
    if 'A' <= c <= 'Z' {
        ((c as u32) + 32) as char
    } else {
        c
    }
}

/// `str::to_ascii_lowercase`.
pub open spec fn ascii_lower_all(s: Seq<char>) -> Seq<char> {
    s.map_values(|c: char| ascii_lower(c))
}

/// `ascii_lower_all(s)`.
pub fn ascii_lower_exec(s: &[char]) -> (v: Vec<char>)
    ensures
        v@ == ascii_lower_all(s@),
{
    let mut v: Vec<char> = Vec::new();
    let mut i: usize = 0;
    while i < s.len()
        invariant
            i <= s@.len(),
            v@ == ascii_lower_all(s@.take(i as int)),
        decreases s.len() - i,
    {
        let c = s[i];
        let l = if 'A' <= c && c <= 'Z' {
            ((c as u8) + 32) as char
        } else {
            c
        };
        proof {
            if 'A' <= c && c <= 'Z' {
                assert((c as u8) as u32 == c as u32);
            }
        }
        v.push(l);
        i += 1;
        assert(v@ =~= ascii_lower_all(s@.take(i as int)));
    }
    assert(s@.take(i as int) =~= s@);
    v
}

/// Whether two character sequences are equal.
pub fn chars_eq(a: &[char], b: &[char]) -> (r: bool)
    ensures
        r == (a@ == b@),
{
    if a.len() != b.len() {
        return false;
    }
    let r = matches_at_exec(a, b, 0);
    proof {
        assert(a@.subrange(0, a@.len() as int) =~= a@);
    }
    r
}

/// Whether `a` and `b` hold the same characters.
pub fn str_eq(a: &str, b: &str) -> (r: bool)
    ensures
        r == (a@ == b@),
{
    let x = chars_of(a);
    let y = chars_of(b);
    chars_eq(x.as_slice(), y.as_slice())
}

/// `s@ + t@`, as a new string.
pub fn concat_str(s: &str, t: &str) -> (r: String)
    ensures
        r@ == s@ + t@,
{
    let a = String::from_str(s);
    a.concat(t)
}

/// The characters of `a`, `b` and `c` in a row.
pub fn concat3(a: &str, b: &str, c: &str) -> (r: Vec<char>)
    ensures
        r@ == a@ + b@ + c@,
{
    let mut v = chars_of(a);
    let y = chars_of(b);
    let z = chars_of(c);
    push_range(&mut v, y.as_slice(), 0, y.len());
    push_range(&mut v, z.as_slice(), 0, z.len());
    proof {
        assert(y@.subrange(0, y@.len() as int) =~= y@);
        assert(z@.subrange(0, z@.len() as int) =~= z@);
    }
    v
}

/// The view of an optional string.
pub open spec fn opt_view(o: Option<String>) -> Option<Seq<char>> {
    match o {
        Some(s) => Some(s@),
        None => None,
    }
}

/// The first occurrence of `p` in `s[lo..]`, as a position in `s`.
pub fn find_in_suffix(s: &[char], lo: usize, p: &[char]) -> (r: Option<usize>)
    requires
        lo <= s@.len(),
    ensures
        s@.len() <= usize::MAX,
        match find(s@.skip(lo as int), p@) {
            Some(k) => 0 <= k && lo + k + p@.len() <= s@.len() && r == Some((lo + k) as usize)
                && matches_at(s@, p@, lo + k),
            None => r is None,
        },
{
    let r = find_from_exec(s, p, lo);
    proof {
        lemma_find_skip(s@, p@, lo as int);
        lemma_find_from(s@, p@, lo as int);
    }
    r
}

/// `s` contains the literal `p`.
pub fn contains_lit(s: &[char], p: &str) -> (b: bool)
    ensures
        b == contains(s@, p@),
{
    let pv = chars_of(p);
    let r = find_from_exec(s, pv.as_slice(), 0);
    r.is_some()
}

/// `a@ + b@ + c@`, as a new string (the messages of the library are built
/// this way).
pub fn join3(a: &str, b: &str, c: &str) -> (r: String)
    ensures
        r@ == a@ + b@ + c@,
{
    String::from_str(a).concat(b).concat(c)
}

/// `a@ + b@ + c@ + d@ + e@`, as a new string.
pub fn join5(a: &str, b: &str, c: &str, d: &str, e: &str) -> (r: String)
    ensures
        r@ == a@ + b@ + c@ + d@ + e@,
{
    String::from_str(a).concat(b).concat(c).concat(d).concat(e)
}

} // verus!
