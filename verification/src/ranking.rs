//! The open-end fund ranking answer (`var rankData = {datas:[...],
//! allRecords:N, ...}`): one comma-separated record per fund.

use crate::commands::is_lit;
use crate::numbers::{digit_run, digit_run_exec, parse_u32, parse_u32_exec};
use crate::text::{
    chars_of, copy_range, ends_with_exec, find, find_from_exec, is_ws, lemma_find_from,
    lemma_find_from_least, lemma_find_from_none, lemma_find_skip, matches_at, split, split_exec,
    string_of, strip_suffix, trim, trim_end, trim_start, trimmed, without_prefix, without_suffix,
};
use vstd::prelude::*;

verus! {

/// One ranking row as text. The numeric cells hold the text that is read
/// as a number (`None` for an absent, empty or `--` cell); the percentages
/// are in percentage points, `9.45` standing for 9.45%.
#[derive(Debug, Clone)]
pub struct FundRankEntry {
    pub code: String,
    pub name: String,
    pub nav_date: String,
    pub unit_nav: Option<String>,
    pub acc_nav: Option<String>,
    /// The returns over a day, a week, a month, three months, six months,
    /// one, two and three years, this year and since inception, in order.
    pub pcts: Vec<Option<String>>,
}

/// The text of a ranking row.
pub struct RankRowView {
    pub code: Seq<char>,
    pub name: Seq<char>,
    pub nav_date: Seq<char>,
    pub unit_nav: Option<Seq<char>>,
    pub acc_nav: Option<Seq<char>>,
    pub pcts: Seq<Option<Seq<char>>>,
}

/// The text of an optional string.
pub open spec fn opt_text(o: Option<String>) -> Option<Seq<char>> {
    match o {
        Some(s) => Some(s@),
        None => None,
    }
}

impl View for FundRankEntry {
    type V = RankRowView;

    open spec fn view(&self) -> RankRowView {
        RankRowView {
            code: self.code@,
            name: self.name@,
            nav_date: self.nav_date@,
            unit_nav: opt_text(self.unit_nav),
            acc_nav: opt_text(self.acc_nav),
            pcts: self.pcts@.map_values(|p: Option<String>| opt_text(p)),
        }
    }
}

/// One page of the ranking.
#[derive(Debug, Clone)]
pub struct FundRankingPage {
    pub rows: Vec<FundRankEntry>,
    pub total_records: u32,
}

/// The number of return columns after the net values.
pub const RANK_PCT_COLUMNS: usize = 10;

/// A net-value cell: its trimmed text, unless empty or `--`.
pub open spec fn nav_cell(raw: Seq<char>) -> Option<Seq<char>> {
    let t = trim(raw);
    if t.len() == 0 || t == "--"@ {
        None
    } else {
        Some(t)
    }
}

/// A return cell: as a net-value cell, and a trailing `%` with the blanks
/// before it taken off.
pub open spec fn pct_cell(raw: Seq<char>) -> Option<Seq<char>> {
    let t = trim(raw);
    if t.len() == 0 || t == "--"@ {
        None
    } else {
        match strip_suffix(t, "%"@) {
            Some(v) => Some(trim(v)),
            None => Some(t),
        }
    }
}

/// The return cell at column `i`, if the record has one.
pub open spec fn pct_at(cols: Seq<Seq<char>>, i: int) -> Option<Seq<char>> {
    if i < cols.len() {
        pct_cell(cols[i])
    } else {
        None
    }
}

/// A record read as a row: at least six comma-separated columns (code,
/// name, abbreviation, date, unit and accumulated net value), then the
/// return columns.
pub open spec fn rank_row(line: Seq<char>) -> Option<RankRowView> {
    let cols = split(line, ","@);
    if cols.len() < 6 {
        None
    } else {
        Some(
            RankRowView {
                code: trim(cols[0]),
                name: trim(cols[1]),
                nav_date: trim(cols[3]),
                unit_nav: nav_cell(cols[4]),
                acc_nav: nav_cell(cols[5]),
                pcts: Seq::new(10, |k: int| pct_at(cols, 6 + k)),
            },
        )
    }
}

fn nav_cell_exec(raw: &[char]) -> (r: Option<String>)
    ensures
        opt_text(r) == nav_cell(raw@),
{
    let t = trimmed(raw);
    if t.len() == 0 || is_lit(t.as_slice(), "--") {
        None
    } else {
        Some(string_of(t.as_slice()))
    }
}

fn pct_cell_exec(raw: &[char]) -> (r: Option<String>)
    ensures
        opt_text(r) == pct_cell(raw@),
{
    let t = trimmed(raw);
    if t.len() == 0 || is_lit(t.as_slice(), "--") {
        return None;
    }
    let pct = chars_of("%");
    proof {
        reveal_strlit("%");
    }
    if ends_with_exec(t.as_slice(), pct.as_slice()) {
        let v = copy_range(t.as_slice(), 0, t.len() - 1);
        proof {
            assert(v@ =~= t@.take(t@.len() - 1));
        }
        let w = trimmed(v.as_slice());
        Some(string_of(w.as_slice()))
    } else {
        Some(string_of(t.as_slice()))
    }
}

/// Reads one ranking record; `None` when it has fewer than six columns.
pub fn parse_rank_row(csv_line: &str) -> (r: Option<FundRankEntry>)
    ensures
        match r {
            Some(e) => rank_row(csv_line@) == Some(e@),
            None => rank_row(csv_line@) is None,
        },
{
    let line = chars_of(csv_line);
    let comma = chars_of(",");
    proof {
        reveal_strlit(",");
    }
    let cols = split_exec(line.as_slice(), comma.as_slice());
    let ghost sc = split(csv_line@, ","@);
    if cols.len() < 6 {
        return None;
    }
    let mut pcts: Vec<Option<String>> = Vec::new();
    let mut k: usize = 0;
    while k < RANK_PCT_COLUMNS
        invariant
            k <= 10,
            cols@.len() == sc.len(),
            forall|i: int| 0 <= i < cols@.len() ==> (#[trigger] cols@[i])@ == sc[i],
            pcts@.len() == k,
            forall|i: int| 0 <= i < k ==> opt_text(#[trigger] pcts@[i]) == pct_at(sc, 6 + i),
        decreases 10 - k,
    {
        let c = if 6 + k < cols.len() {
            pct_cell_exec(cols[6 + k].as_slice())
        } else {
            None
        };
        pcts.push(c);
        k += 1;
    }
    let e = FundRankEntry {
        code: string_of(trimmed(cols[0].as_slice()).as_slice()),
        name: string_of(trimmed(cols[1].as_slice()).as_slice()),
        nav_date: string_of(trimmed(cols[3].as_slice()).as_slice()),
        unit_nav: nav_cell_exec(cols[4].as_slice()),
        acc_nav: nav_cell_exec(cols[5].as_slice()),
        pcts,
    };
    proof {
        let want = rank_row(csv_line@).unwrap();
        assert(e@.pcts =~= want.pcts);
    }
    Some(e)
}

/// The records between `datas:[` and `]`: the trimmed text without one
/// leading and one trailing `"`, split at `","`; none when that is empty.
pub open spec fn datas_records(array_inner: Seq<char>) -> Seq<Seq<char>> {
    let s = without_suffix(without_prefix(trim(array_inner), "\""@), "\""@);
    if s.len() == 0 {
        Seq::empty()
    } else {
        split(s, "\",\""@)
    }
}

/// Splits the inside of `datas:[...]` into its quoted records (a record
/// holds commas, so the text is split at `","` only).
pub fn split_datas_records(array_inner: &str) -> (v: Vec<String>)
    ensures
        v@.len() == datas_records(array_inner@).len(),
        forall|i: int| 0 <= i < v@.len() ==> (#[trigger] v@[i])@ == datas_records(array_inner@)[i],
{
    let raw = chars_of(array_inner);
    let t = trimmed(raw.as_slice());
    let q = chars_of("\"");
    let sep = chars_of("\",\"");
    proof {
        reveal_strlit("\"");
        reveal_strlit("\",\"");
    }
    let lo: usize = if starts_with_quote(t.as_slice()) {
        1
    } else {
        0
    };
    let ghost a = without_prefix(t@, "\""@);
    proof {
        assert(t@.skip(lo as int) =~= a);
    }
    let hi: usize = if t.len() > lo && ends_with_exec(t.as_slice(), q.as_slice()) {
        t.len() - 1
    } else {
        t.len()
    };
    let body = copy_range(t.as_slice(), lo, hi);
    proof {
        let b = without_suffix(a, "\""@);
        if t@.len() > lo && t@.skip(t@.len() - 1) == q@ {
            assert(a.skip(a.len() - 1) =~= t@.skip(t@.len() - 1));
        } else if a.len() >= 1 && a.skip(a.len() - 1) == "\""@ {
            assert(a.skip(a.len() - 1) =~= t@.skip(t@.len() - 1));
        }
        assert(body@ =~= b);
    }
    let mut out: Vec<String> = Vec::new();
    if body.len() == 0 {
        return out;
    }
    let pieces = split_exec(body.as_slice(), sep.as_slice());
    let mut i: usize = 0;
    while i < pieces.len()
        invariant
            i <= pieces@.len(),
            out@.len() == i,
            forall|j: int| 0 <= j < i ==> (#[trigger] out@[j])@ == (pieces@[j])@,
        decreases pieces@.len() - i,
    {
        out.push(string_of(pieces[i].as_slice()));
        i += 1;
    }
    out
}

/// The records joined with `sep` between each two.
pub open spec fn join_with(recs: Seq<Seq<char>>, sep: Seq<char>) -> Seq<char>
    decreases recs.len(),
{
    if recs.len() == 0 {
        Seq::empty()
    } else if recs.len() == 1 {
        recs[0]
    } else {
        recs[0] + sep + join_with(recs.drop_first(), sep)
    }
}

/// The inside of `datas:[...]` as the service writes it: each record in
/// double quotes, the quoted records separated by commas.
pub open spec fn datas_text(recs: Seq<Seq<char>>) -> Seq<char> {
    "\""@ + join_with(recs, "\",\""@) + "\""@
}

/// `r` holds no double quote.
pub open spec fn quote_free(r: Seq<char>) -> bool {
    forall|i: int| 0 <= i < r.len() ==> r[i] != '"'
}

/// `r` holds no `c`.
pub open spec fn free_of(r: Seq<char>, c: char) -> bool {
    forall|i: int| 0 <= i < r.len() ==> r[i] != c
}

/// Splitting pieces joined with `sep` gives the pieces back when none of
/// them holds the first character of `sep`.
pub proof fn lemma_split_join_with(recs: Seq<Seq<char>>, sep: Seq<char>)
    requires
        recs.len() >= 1,
        sep.len() >= 1,
        forall|k: int| 0 <= k < recs.len() ==> free_of(#[trigger] recs[k], sep[0]),
    ensures
        split(join_with(recs, sep), sep) == recs,
    decreases recs.len(),
{
    let s = join_with(recs, sep);
    let r0 = recs[0];
    let m = sep.len() as int;
    assert(free_of(r0, sep[0]));
    if recs.len() == 1 {
        assert forall|j: int| 0 <= j implies !matches_at(s, sep, j) by {
            if matches_at(s, sep, j) {
                assert(s.subrange(j, j + m)[0] == s[j]);
            }
        }
        lemma_find_from_none(s, sep, 0);
        assert(split(s, sep) =~= seq![s]);
        assert(seq![s] =~= recs);
    } else {
        let rest = recs.drop_first();
        assert forall|k: int| 0 <= k < rest.len() implies free_of(#[trigger] rest[k], sep[0]) by {
            assert(rest[k] == recs[k + 1]);
        }
        lemma_split_join_with(rest, sep);
        let n = r0.len() as int;
        assert(s.subrange(n, n + m) =~= sep);
        assert forall|j: int| 0 <= j < n implies !matches_at(s, sep, j) by {
            if matches_at(s, sep, j) {
                assert(s.subrange(j, j + m)[0] == s[j]);
                assert(s[j] == r0[j]);
            }
        }
        lemma_find_from_least(s, sep, 0, n);
        lemma_find_from(s, sep, 0);
        assert(s.take(n) =~= r0);
        assert(s.skip(n + m) =~= join_with(rest, sep));
        assert(split(s, sep) =~= seq![r0] + split(join_with(rest, sep), sep));
        assert(seq![r0] + rest =~= recs);
    }
}

/// A record made of comma-free columns reads as its columns: none with
/// fewer than six; else the code is the first column trimmed, the name
/// the second, the net-value date the fourth, the unit and accumulated
/// net values the fifth and sixth (none when blank or `--`), and the `k`-th
/// return the return cell of column `6 + k` where the record has one.
pub proof fn lemma_rank_row_columns(cols: Seq<Seq<char>>)
    requires
        cols.len() >= 1,
        forall|k: int| 0 <= k < cols.len() ==> free_of(#[trigger] cols[k], ','),
    ensures
        cols.len() < 6 ==> rank_row(join_with(cols, ","@)) is None,
        cols.len() >= 6 ==> (rank_row(join_with(cols, ","@)) matches Some(e) && {
            &&& e.code == trim(cols[0])
            &&& e.name == trim(cols[1])
            &&& e.nav_date == trim(cols[3])
            &&& e.unit_nav == (if trim(cols[4]).len() == 0 || trim(cols[4]) == "--"@ {
                None
            } else {
                Some(trim(cols[4]))
            })
            &&& e.acc_nav == (if trim(cols[5]).len() == 0 || trim(cols[5]) == "--"@ {
                None
            } else {
                Some(trim(cols[5]))
            })
            &&& e.pcts.len() == 10
            &&& forall|k: int| 0 <= k < 10 ==> (#[trigger] e.pcts[k]) == if 6 + k < cols.len() {
                pct_cell(cols[6 + k])
            } else {
                None
            }
        }),
{
    reveal_strlit(",");
    assert(","@.len() == 1 && ","@[0] == ',');
    lemma_split_join_with(cols, ","@);
}

/// Splitting the quoted, comma-separated records gives the records back,
/// whenever there is at least one, none holds a double quote, and they are
/// not a single empty record (whose text `""` reads as no record); an
/// empty inside gives no records.
pub proof fn lemma_datas_records_round_trip(recs: Seq<Seq<char>>)
    requires
        recs.len() >= 1,
        forall|k: int| 0 <= k < recs.len() ==> quote_free(#[trigger] recs[k]),
        !(recs.len() == 1 && recs[0].len() == 0),
    ensures
        datas_records(datas_text(recs)) == recs,
        datas_records(Seq::empty()) == Seq::<Seq<char>>::empty(),
{
    let q = "\""@;
    let sep = "\",\""@;
    reveal_strlit("\"");
    reveal_strlit("\",\"");
    assert(q.len() == 1 && q[0] == '"');
    let j = join_with(recs, sep);
    if recs.len() > 1 {
        assert(j.len() >= 3);
    } else {
        assert(j == recs[0]);
    }
    let x = datas_text(recs);
    assert(x.len() == j.len() + 2);
    assert(x[0] == '"');
    assert(x[x.len() - 1] == '"');
    assert(!is_ws(x[0]));
    assert(!is_ws(x.last()));
    assert(trim_start(x) == x);
    assert(trim_end(x) == x);
    assert(trim(x) == x);
    assert(x.take(1) =~= q);
    let a = x.skip(1);
    assert(without_prefix(x, q) == a);
    assert(a =~= j + q);
    assert(a.skip(a.len() - 1) =~= q);
    assert(a.take(a.len() - 1) =~= j);
    assert(without_suffix(a, q) == j);
    assert(sep.len() == 3 && sep[0] == '"');
    assert forall|k: int| 0 <= k < recs.len() implies free_of(#[trigger] recs[k], sep[0]) by {
        assert(quote_free(recs[k]));
    }
    lemma_split_join_with(recs, sep);
    let e = Seq::<char>::empty();
    assert(trim_start(e) == e);
    assert(trim_end(e) == e);
    assert(without_prefix(e, q) == e);
    assert(without_suffix(e, q) == e);
}

fn starts_with_quote(t: &[char]) -> (b: bool)
    ensures
        b == (t@.len() >= 1 && t@[0] == '"'),
        b == (strip_prefix_quote(t@) is Some),
{
    proof {
        reveal_strlit("\"");
        assert("\""@.len() == 1 && "\""@[0] == '"');
        if t@.len() >= 1 {
            assert(t@.take(1) =~= seq![t@[0]]);
            if t@[0] == '"' {
                assert(t@.take(1) =~= "\""@);
            }
        }
    }
    t.len() >= 1 && t[0] == '"'
}

/// `strip_prefix(t, "\"")`.
pub open spec fn strip_prefix_quote(t: Seq<char>) -> Option<Seq<char>> {
    crate::text::strip_prefix(t, "\""@)
}

/// The record count after `],allRecords:`: its leading digits read as a
/// `u32`; `None` without the marker, without digits, or out of range.
pub open spec fn all_records(body: Seq<char>) -> Option<u32> {
    match find(body, "],allRecords:"@) {
        None => None,
        Some(i) => {
            let rest = body.skip(i + 13);
            parse_u32(rest.take(digit_run(rest) as int))
        },
    }
}

/// Reads the record count of a ranking answer.
pub fn extract_all_records(body: &str) -> (r: Option<u32>)
    ensures
        r == all_records(body@),
{
    let b = chars_of(body);
    let key = chars_of("],allRecords:");
    proof {
        reveal_strlit("],allRecords:");
        assert(b@.skip(0) =~= b@);
    }
    let found = find_from_exec(b.as_slice(), key.as_slice(), 0);
    proof {
        lemma_find_skip(b@, key@, 0);
    }
    match found {
        None => None,
        Some(i) => {
            proof {
                lemma_find_from(b@, key@, 0);
            }
            let start = i + 13;
            let end = digit_run_exec(b.as_slice(), start);
            let digits = copy_range(b.as_slice(), start, end);
            proof {
                assert(digits@ =~= b@.skip(start as int).take(end - start));
            }
            parse_u32_exec(digits.as_slice())
        },
    }
}

/// The text of each row that a record gives; records of fewer than six
/// columns give none.
pub open spec fn rank_rows(records: Seq<Seq<char>>) -> Seq<RankRowView>
    decreases records.len(),
{
    if records.len() == 0 {
        Seq::empty()
    } else {
        let rest = rank_rows(records.drop_last());
        match rank_row(records.last()) {
            Some(e) => rest.push(e),
            None => rest,
        }
    }
}

/// The inside of `datas:[...]`: from after the first `datas:[` to the
/// first `],allRecords` after it.
pub open spec fn datas_inner(body: Seq<char>) -> Result<Seq<char>, Seq<char>> {
    match find(body, "datas:["@) {
        None => Err("rankhandler: missing datas:["@),
        Some(d) => {
            let rel = body.skip(d + 7);
            match find(rel, "],allRecords"@) {
                None => Err("rankhandler: missing ],allRecords"@),
                Some(e) => Ok(rel.take(e)),
            }
        },
    }
}

/// Reads a ranking answer: its rows and its record count (0 when that
/// cannot be read).
pub fn parse_rankhandler_body(body: &str) -> (r: Result<FundRankingPage, String>)
    ensures
        match datas_inner(body@) {
            Err(msg) => r matches Err(e) && e@ == msg,
            Ok(inner) => r matches Ok(page) && page.rows@.map_values(|e: FundRankEntry| e@)
                == rank_rows(datas_records(inner)) && page.total_records == match all_records(
                body@,
            ) {
                Some(n) => n,
                None => 0,
            },
        },
{
    let b = chars_of(body);
    let open = chars_of("datas:[");
    let close = chars_of("],allRecords");
    proof {
        reveal_strlit("datas:[");
        reveal_strlit("],allRecords");
        assert(b@.skip(0) =~= b@);
    }
    let d = find_from_exec(b.as_slice(), open.as_slice(), 0);
    proof {
        lemma_find_skip(b@, open@, 0);
    }
    let d = match d {
        None => {
            return Err(String::from_str("rankhandler: missing datas:["));
        },
        Some(d) => d,
    };
    proof {
        lemma_find_from(b@, open@, 0);
    }
    let arr_start = d + 7;
    let e = find_from_exec(b.as_slice(), close.as_slice(), arr_start);
    proof {
        lemma_find_skip(b@, close@, arr_start as int);
    }
    let e = match e {
        None => {
            return Err(String::from_str("rankhandler: missing ],allRecords"));
        },
        Some(e) => e,
    };
    let inner = string_of(copy_range(b.as_slice(), arr_start, e).as_slice());
    proof {
        assert(inner@ =~= b@.skip(arr_start as int).take(e - arr_start));
    }
    let total_records = match extract_all_records(body) {
        Some(n) => n,
        None => 0,
    };
    let records = split_datas_records(inner.as_str());
    let ghost recs = datas_records(inner@);
    let mut rows: Vec<FundRankEntry> = Vec::new();
    let mut i: usize = 0;
    while i < records.len()
        invariant
            i <= records@.len(),
            records@.len() == recs.len(),
            forall|j: int| 0 <= j < records@.len() ==> (#[trigger] records@[j])@ == recs[j],
            rows@.map_values(|x: FundRankEntry| x@) == rank_rows(recs.take(i as int)),
        decreases records@.len() - i,
    {
        let row = parse_rank_row(records[i].as_str());
        proof {
            assert(recs.take(i + 1).drop_last() =~= recs.take(i as int));
            assert(recs.take(i + 1).last() == recs[i as int]);
        }
        match row {
            Some(x) => {
                let ghost before = rows@;
                rows.push(x);
                proof {
                    assert(rows@.map_values(|y: FundRankEntry| y@) =~= before.map_values(
                        |y: FundRankEntry| y@,
                    ).push(x@));
                }
            },
            None => {},
        }
        i += 1;
    }
    proof {
        assert(recs.take(i as int) =~= recs);
    }
    Ok(FundRankingPage { rows, total_records })
}

} // verus!
