//! The two-way cache between fund codes and fund names.

use vstd::prelude::*;

verus! {

/// The text of each pair of strings.
pub open spec fn pairs_view(v: Seq<(String, String)>) -> Seq<(Seq<char>, Seq<char>)> {
    v.map_values(|p: (String, String)| (p.0@, p.1@))
}

/// The map that a list of `(key, value)` pairs stands for: a later pair
/// with the same key wins.
pub open spec fn pairs_map(v: Seq<(Seq<char>, Seq<char>)>) -> Map<Seq<char>, Seq<char>>
    decreases v.len(),
{
    if v.len() == 0 {
        Map::empty()
    } else {
        pairs_map(v.drop_last()).insert(v.last().0, v.last().1)
    }
}

/// The pairs with key and value swapped.
pub open spec fn swapped(v: Seq<(Seq<char>, Seq<char>)>) -> Seq<(Seq<char>, Seq<char>)> {
    v.map_values(|p: (Seq<char>, Seq<char>)| (p.1, p.0))
}

/// What serde_json reads from the text of a JSON object whose values are
/// all strings: its members in key order, or `None` for any other text.
pub uninterp spec fn json_string_object(text: Seq<char>) -> Option<Seq<(Seq<char>, Seq<char>)>>;

/// The text of an optional list of pairs.
pub open spec fn opt_pairs_view(r: Option<Vec<(String, String)>>) -> Option<
    Seq<(Seq<char>, Seq<char>)>,
> {
    match r {
        Some(v) => Some(pairs_view(v@)),
        None => None,
    }
}

/// Reads a saved name table with `serde_json::from_str` into a
/// `BTreeMap<String, String>` and lists its members; the contract names the
/// result and claims nothing more of it.
#[verifier::external_body]
fn read_name_table(text: &str) -> (r: Option<Vec<(String, String)>>)
    ensures
        opt_pairs_view(r) == json_string_object(text@),
{
    serde_json::from_str::<std::collections::BTreeMap<String, String>>(text).ok().map(
        |m| m.into_iter().collect(),
    )
}

/// Fund names by code and codes by name.
pub struct FundCache {
    code_to_name: Vec<(String, String)>,
    name_to_code: Vec<(String, String)>,
}

impl View for FundCache {
    type V = (Map<Seq<char>, Seq<char>>, Map<Seq<char>, Seq<char>>);

    /// The name of each code, and the code of each name.
    closed spec fn view(&self) -> (Map<Seq<char>, Seq<char>>, Map<Seq<char>, Seq<char>>) {
        (pairs_map(pairs_view(self.code_to_name@)), pairs_map(pairs_view(self.name_to_code@)))
    }
}

/// The value of the last pair of `v` whose key is `k`.
fn lookup(v: &Vec<(String, String)>, k: &str) -> (r: Option<String>)
    ensures
        match r {
            Some(x) => pairs_map(pairs_view(v@)).contains_key(k@) && pairs_map(pairs_view(v@))[k@]
                == x@,
            None => !pairs_map(pairs_view(v@)).contains_key(k@),
        },
{
    let key = String::from_str(k);
    let ghost w = pairs_view(v@);
    let mut n = v.len();
    assert(w.take(n as int) =~= w);
    while n > 0
        invariant
            n <= v@.len(),
            w == pairs_view(v@),
            key@ == k@,
            pairs_map(w).contains_key(k@) == pairs_map(w.take(n as int)).contains_key(k@),
            pairs_map(w).contains_key(k@) ==> pairs_map(w)[k@] == pairs_map(w.take(n as int))[k@],
        decreases n,
    {
        let ghost t = w.take(n as int);
        assert(t.drop_last() =~= w.take(n - 1));
        assert(t.last() == (v@[n - 1].0@, v@[n - 1].1@));
        if v[n - 1].0 == key {
            return Some(v[n - 1].1.clone());
        }
        n -= 1;
    }
    assert(w.take(0) =~= Seq::<(Seq<char>, Seq<char>)>::empty());
    None
}

impl FundCache {
    /// An empty cache.
    pub fn new() -> (c: FundCache)
        ensures
            c@.0 == Map::<Seq<char>, Seq<char>>::empty(),
            c@.1 == Map::<Seq<char>, Seq<char>>::empty(),
    {
        FundCache { code_to_name: Vec::new(), name_to_code: Vec::new() }
    }

    /// The cache that a saved code-to-name table stands for; the name index
    /// is built from it, a later pair winning where two codes share a name.
    pub fn from_names(code_to_name: Vec<(String, String)>) -> (c: FundCache)
        ensures
            c@.0 == pairs_map(pairs_view(code_to_name@)),
            c@.1 == pairs_map(swapped(pairs_view(code_to_name@))),
    {
        let mut name_to_code: Vec<(String, String)> = Vec::new();
        let ghost w = pairs_view(code_to_name@);
        let mut i: usize = 0;
        while i < code_to_name.len()
            invariant
                i <= code_to_name@.len(),
                w == pairs_view(code_to_name@),
                pairs_view(name_to_code@) == swapped(w.take(i as int)),
            decreases code_to_name@.len() - i,
        {
            let (c, n) = (code_to_name[i].0.clone(), code_to_name[i].1.clone());
            let ghost before = name_to_code@;
            name_to_code.push((n, c));
            proof {
                assert(w[i as int] == (code_to_name@[i as int].0@, code_to_name@[i as int].1@));
                assert(w.take(i + 1) =~= w.take(i as int).push(w[i as int]));
                assert(name_to_code@ =~= before.push((n, c)));
                assert(pairs_view(name_to_code@) =~= pairs_view(before).push((n@, c@)));
            }
            i += 1;
            assert(pairs_view(name_to_code@) =~= swapped(w.take(i as int)));
        }
        assert(w.take(i as int) =~= w);
        FundCache { code_to_name, name_to_code }
    }

    /// The cache at start-up: empty when no table was saved (`None`), the
    /// saved table when serde_json reads it, and empty when it does not.
    pub fn from_saved(content: Option<&str>) -> (c: FundCache)
        ensures
            match content {
                Some(text) => match json_string_object(text@) {
                    Some(ps) => c@.0 == pairs_map(ps) && c@.1 == pairs_map(swapped(ps)),
                    None => c@.0 == Map::<Seq<char>, Seq<char>>::empty() && c@.1 == Map::<
                        Seq<char>,
                        Seq<char>,
                    >::empty(),
                },
                None => c@.0 == Map::<Seq<char>, Seq<char>>::empty() && c@.1 == Map::<
                    Seq<char>,
                    Seq<char>,
                >::empty(),
            },
    {
        match content {
            Some(text) => match read_name_table(text) {
                Some(v) => FundCache::from_names(v),
                None => FundCache::new(),
            },
            None => FundCache::new(),
        }
    }

    /// The code-to-name pairs, the later of two with the same code winning;
    /// what is saved to disk.
    pub fn code_to_name_pairs(&self) -> (v: &Vec<(String, String)>)
        ensures
            pairs_map(pairs_view(v@)) == self@.0,
    {
        &self.code_to_name
    }

    /// The cached name of a code.
    pub fn get_name(&self, code: &str) -> (r: Option<String>)
        ensures
            match r {
                Some(n) => self@.0.contains_key(code@) && self@.0[code@] == n@,
                None => !self@.0.contains_key(code@),
            },
    {
        lookup(&self.code_to_name, code)
    }

    /// The cached code of a name.
    pub fn get_code(&self, name: &str) -> (r: Option<String>)
        ensures
            match r {
                Some(c) => self@.1.contains_key(name@) && self@.1[name@] == c@,
                None => !self@.1.contains_key(name@),
            },
    {
        lookup(&self.name_to_code, name)
    }

    /// Records that `code` is named `name`, in both directions.
    pub fn set_mapping(&mut self, code: &str, name: &str)
        ensures
            final(self)@.0 == old(self)@.0.insert(code@, name@),
            final(self)@.1 == old(self)@.1.insert(name@, code@),
    {
        self.code_to_name.push((String::from_str(code), String::from_str(name)));
        self.name_to_code.push((String::from_str(name), String::from_str(code)));
        proof {
            assert(pairs_view(self.code_to_name@).drop_last() =~= pairs_view(
                old(self).code_to_name@,
            ));
            assert(pairs_view(self.name_to_code@).drop_last() =~= pairs_view(
                old(self).name_to_code@,
            ));
        }
    }
}

/// What one `set_mapping` makes of later lookups: the code's name and the
/// name's code are the ones just set, and every other entry is as before.
pub proof fn lemma_set_mapping_reads_back(
    before: FundCache,
    after: FundCache,
    code: Seq<char>,
    name: Seq<char>,
    other: Seq<char>,
)
    requires
        after@.0 == before@.0.insert(code, name),
        after@.1 == before@.1.insert(name, code),
    ensures
        after@.0.contains_key(code) && after@.0[code] == name,
        after@.1.contains_key(name) && after@.1[name] == code,
        other != code ==> (after@.0.contains_key(other) == before@.0.contains_key(other) && (
        before@.0.contains_key(other) ==> after@.0[other] == before@.0[other])),
        other != name ==> (after@.1.contains_key(other) == before@.1.contains_key(other) && (
        before@.1.contains_key(other) ==> after@.1[other] == before@.1[other])),
{
}

} // verus!
