//! The F10 tables read by regular expression: industry allocation
//! (`hypz`), stock holdings (`jjcc`) and asset allocation (`zcpz`).

use crate::commands::is_lit;
use crate::f10::{apidata_bounds, extract_apidata_content, extract_apidata_html, hypz_bounds};
use crate::numbers::{float_syntax, is_digit, is_float_text, parse_u32, parse_u32_exec, u32_error, u32_error_message};
use crate::text::{chars_of, copy_range, string_of, strip_tags, strip_tags_exec, collapse_ws, collapse_ws_exec, trim, trimmed};
use vstd::prelude::*;

verus! {

/// What `regex::Regex::new(pattern)` and then `captures_iter(haystack)`
/// give: for each successive match, the text of each group (group 0 the
/// whole match), `None` for a group that took no part; `None` when the
/// pattern does not compile.
pub uninterp spec fn regex_captures(pattern: Seq<char>, haystack: Seq<char>) -> Option<
    Seq<Seq<Option<Seq<char>>>>,
>;

/// The text of the captures of each match.
pub open spec fn captures_view(r: Option<Vec<Vec<Option<String>>>>) -> Option<
    Seq<Seq<Option<Seq<char>>>>,
> {
    match r {
        Some(v) => Some(v@.map_values(|m: Vec<Option<String>>| match_view(m))),
        None => None,
    }
}

/// The text of the groups of one match.
pub open spec fn match_view(m: Vec<Option<String>>) -> Seq<Option<Seq<char>>> {
    m@.map_values(
        |g: Option<String>|
            match g {
                Some(t) => Some(t@),
                None => None,
            },
    )
}

/// Compiles `pattern` with `regex::Regex::new` and lists the groups of
/// every match of `captures_iter` in `haystack`; the contract names the
/// result and claims nothing more of it.
#[verifier::external_body]
fn captures_all(pattern: &str, haystack: &str) -> (r: Option<Vec<Vec<Option<String>>>>)
    ensures
        captures_view(r) == regex_captures(pattern@, haystack@),
{
    let re = regex::Regex::new(pattern).ok()?;
    Some(
        re.captures_iter(haystack).map(
            |c| c.iter().map(|m| m.map(|m| m.as_str().to_string())).collect(),
        ).collect(),
    )
}

/// The text that `format!("{:?}", s)` gives for a string `s`: quoted, with
/// std's escapes.
pub uninterp spec fn debug_quoted(s: Seq<char>) -> Seq<char>;

/// Formats a string with `{:?}`; the contract names the result.
#[verifier::external_body]
fn quoted(s: &str) -> (r: String)
    ensures
        r@ == debug_quoted(s@),
{
    format!("{s:?}")
}

/// Group `i` of one match, the empty text when it took no part.
pub open spec fn group(m: Seq<Option<Seq<char>>>, i: int) -> Seq<char> {
    if 0 <= i < m.len() {
        match m[i] {
            Some(t) => t,
            None => Seq::empty(),
        }
    } else {
        Seq::empty()
    }
}

fn group_exec(m: &Vec<Option<String>>, i: usize) -> (r: Vec<char>)
    ensures
        r@ == group(match_view(*m), i as int),
{
    if i < m.len() {
        match &m[i] {
            Some(t) => chars_of(t.as_str()),
            None => Vec::new(),
        }
    } else {
        Vec::new()
    }
}

/// `s` without every trailing `c` (`str::trim_end_matches`).
pub open spec fn trim_end_char(s: Seq<char>, c: char) -> Seq<char>
    decreases s.len(),
{
    if s.len() > 0 && s.last() == c {
        trim_end_char(s.drop_last(), c)
    } else {
        s
    }
}

fn trim_end_char_exec(s: &[char], c: char) -> (v: Vec<char>)
    ensures
        v@ == trim_end_char(s@, c),
{
    let mut n = s.len();
    assert(s@.take(n as int) =~= s@);
    while n > 0 && s[n - 1] == c
        invariant
            n <= s@.len(),
            trim_end_char(s@, c) == trim_end_char(s@.take(n as int), c),
        decreases n,
    {
        assert(s@.take(n as int).drop_last() =~= s@.take(n - 1));
        n -= 1;
    }
    copy_range(s, 0, n)
}

/// The number text of a percentage cell: trimmed, trailing `%` signs
/// dropped, trimmed again.
pub open spec fn pct_text(raw: Seq<char>) -> Seq<char> {
    trim(trim_end_char(trim(raw), '%'))
}

/// A percentage cell: its number text, or the error of a cell that
/// `f64::from_str` does not read.
pub open spec fn pct_cell(raw: Seq<char>) -> Result<Seq<char>, Seq<char>> {
    if float_syntax(pct_text(raw)) {
        Ok(pct_text(raw))
    } else {
        Err("invalid percent: "@ + debug_quoted(raw))
    }
}

fn pct_cell_exec(raw: &[char]) -> (r: Result<String, String>)
    ensures
        match r {
            Ok(t) => pct_cell(raw@) == Ok::<Seq<char>, Seq<char>>(t@),
            Err(e) => pct_cell(raw@) == Err::<Seq<char>, Seq<char>>(e@),
        },
{
    let a = trimmed(raw);
    let b = trim_end_char_exec(a.as_slice(), '%');
    let t = trimmed(b.as_slice());
    if is_float_text(t.as_slice()) {
        Ok(string_of(t.as_slice()))
    } else {
        let s = string_of(raw);
        let q = quoted(s.as_str());
        Err(String::from_str("invalid percent: ").concat(q.as_str()))
    }
}

/// A number cell that may be blank (`-`, `--` or nothing): the digits and
/// dots of its trimmed text, the rest dropped.
pub open spec fn flat_cell(raw: Seq<char>) -> Option<Seq<char>> {
    let t = trim(raw);
    if t.len() == 0 || t == "--"@ || t == "-"@ {
        None
    } else {
        Some(t.filter(|c: char| c == '.' || is_digit(c)))
    }
}

fn flat_cell_exec(raw: &[char]) -> (r: Option<String>)
    ensures
        match r {
            Some(t) => flat_cell(raw@) == Some(t@),
            None => flat_cell(raw@) is None,
        },
{
    let t = trimmed(raw);
    if t.len() == 0 || is_lit(t.as_slice(), "--") || is_lit(t.as_slice(), "-") {
        return None;
    }
    let mut out: Vec<char> = Vec::new();
    let mut i: usize = 0;
    while i < t.len()
        invariant
            i <= t@.len(),
            out@ == t@.take(i as int).filter(|c: char| c == '.' || is_digit(c)),
        decreases t@.len() - i,
    {
        proof {
            reveal(Seq::filter);
            assert(t@.take(i + 1).drop_last() =~= t@.take(i as int));
        }
        let c = t[i];
        if c == '.' || ('0' <= c && c <= '9') {
            out.push(c);
        }
        i += 1;
    }
    assert(t@.take(i as int) =~= t@);
    Some(string_of(out.as_slice()))
}

/// The rank cell: a `u32`, or the error naming why it is not one.
pub open spec fn rank_cell(raw: Seq<char>) -> Result<u32, Seq<char>> {
    match parse_u32(raw) {
        Some(n) => Ok(n),
        None => Err("rank parse: "@ + u32_error(raw)),
    }
}

fn rank_cell_exec(raw: &[char]) -> (r: Result<u32, String>)
    ensures
        match r {
            Ok(n) => rank_cell(raw@) == Ok::<u32, Seq<char>>(n),
            Err(e) => rank_cell(raw@) == Err::<u32, Seq<char>>(e@),
        },
{
    match parse_u32_exec(raw) {
        Some(n) => Ok(n),
        None => {
            let m = u32_error_message(raw);
            Err(String::from_str("rank parse: ").concat(m.as_str()))
        },
    }
}

/// The report date pattern: `截止至：<font ...>date</font>`.
pub open spec fn as_of_pattern() -> Seq<char> {
    "截止至：<font[^>]*>([^<]+)</font>"@
}

/// The trimmed first group of the first match, if any.
pub open spec fn first_group_trimmed(caps: Option<Seq<Seq<Option<Seq<char>>>>>) -> Option<
    Seq<char>,
> {
    match caps {
        Some(c) => if c.len() > 0 {
            Some(trim(group(c[0], 1)))
        } else {
            None
        },
        None => None,
    }
}

fn as_of_date(html: &str) -> (r: Option<String>)
    ensures
        match r {
            Some(t) => first_group_trimmed(regex_captures(as_of_pattern(), html@)) == Some(t@),
            None => first_group_trimmed(regex_captures(as_of_pattern(), html@)) is None,
        },
{
    let caps = captures_all("截止至：<font[^>]*>([^<]+)</font>", html);
    match caps {
        Some(c) => {
            if c.len() > 0 {
                let g = group_exec(&c[0], 1);
                Some(string_of(trimmed(g.as_slice()).as_slice()))
            } else {
                None
            }
        },
        None => None,
    }
}

/// The rows of a table, one per match, read by `f` in order; the first
/// match that `f` refuses gives the error.
pub open spec fn rows_of<R>(
    ms: Seq<Seq<Option<Seq<char>>>>,
    f: spec_fn(Seq<Option<Seq<char>>>) -> Result<R, Seq<char>>,
) -> Result<Seq<R>, Seq<char>>
    decreases ms.len(),
{
    if ms.len() == 0 {
        Ok(Seq::empty())
    } else {
        match rows_of(ms.drop_last(), f) {
            Err(e) => Err(e),
            Ok(prefix) => match f(ms.last()) {
                Ok(r) => Ok(prefix.push(r)),
                Err(e) => Err(e),
            },
        }
    }
}

/// One row of the industry table, its numbers as text (see `pct_cell` and
/// `flat_cell`).
#[derive(Debug, Clone)]
pub struct FundIndustryRow {
    pub rank: u32,
    pub industry: String,
    /// Share of net assets, in percentage points.
    pub pct_nav: String,
    /// Market value, in units of ten thousand yuan.
    pub market_value_wan: Option<String>,
}

pub struct IndustryRowView {
    pub rank: u32,
    pub industry: Seq<char>,
    pub pct_nav: Seq<char>,
    pub market_value_wan: Option<Seq<char>>,
}

impl View for FundIndustryRow {
    type V = IndustryRowView;

    open spec fn view(&self) -> IndustryRowView {
        IndustryRowView {
            rank: self.rank,
            industry: self.industry@,
            pct_nav: self.pct_nav@,
            market_value_wan: crate::ranking::opt_text(self.market_value_wan),
        }
    }
}

/// The industry table and its report date.
#[derive(Debug, Clone, Default)]
pub struct FundIndustryReport {
    pub as_of: Option<String>,
    pub rows: Vec<FundIndustryRow>,
}

/// A row of the industry table: rank, industry, a linked cell, share of
/// net value, market value.
pub open spec fn hypz_row_pattern() -> Seq<char> {
    "<tr><td>(\\d+)</td><td class='tol'>([^<]+)</td><td><a[^>]*>[^<]*</a></td><td class='tor'>([^<]+)</td><td class='tor'>([^<]+)</td>"@
}

/// One industry row from the groups of its match.
pub open spec fn industry_row(m: Seq<Option<Seq<char>>>) -> Result<IndustryRowView, Seq<char>> {
    match rank_cell(group(m, 1)) {
        Err(e) => Err(e),
        Ok(rank) => match pct_cell(group(m, 3)) {
            Err(e) => Err(e),
            Ok(p) => Ok(
                IndustryRowView {
                    rank,
                    industry: trim(group(m, 2)),
                    pct_nav: p,
                    market_value_wan: flat_cell(group(m, 4)),
                },
            ),
        },
    }
}

/// `industry_row` as a value.
pub open spec fn industry_reader() -> spec_fn(Seq<Option<Seq<char>>>) -> Result<
    IndustryRowView,
    Seq<char>,
> {
    |m: Seq<Option<Seq<char>>>| industry_row(m)
}

/// The rows of every match of `pattern` in `html`, none when it does not
/// compile.
pub open spec fn table_rows<R>(
    pattern: Seq<char>,
    html: Seq<char>,
    f: spec_fn(Seq<Option<Seq<char>>>) -> Result<R, Seq<char>>,
) -> Result<Seq<R>, Seq<char>> {
    match regex_captures(pattern, html) {
        Some(ms) => rows_of(ms, f),
        None => Ok(Seq::empty()),
    }
}

fn industry_row_exec(m: &Vec<Option<String>>) -> (r: Result<FundIndustryRow, String>)
    ensures
        match r {
            Ok(x) => industry_row(match_view(*m)) == Ok::<IndustryRowView, Seq<char>>(x@),
            Err(e) => industry_row(match_view(*m)) == Err::<IndustryRowView, Seq<char>>(e@),
        },
{
    let g1 = group_exec(m, 1);
    let rank = rank_cell_exec(g1.as_slice())?;
    let g2 = group_exec(m, 2);
    let g3 = group_exec(m, 3);
    let g4 = group_exec(m, 4);
    let pct_nav = pct_cell_exec(g3.as_slice())?;
    Ok(
        FundIndustryRow {
            rank,
            industry: string_of(trimmed(g2.as_slice()).as_slice()),
            pct_nav,
            market_value_wan: flat_cell_exec(g4.as_slice()),
        },
    )
}

/// The industry rows of `html`.
fn industry_rows(html: &str) -> (r: Result<Vec<FundIndustryRow>, String>)
    ensures
        match r {
            Ok(v) => table_rows(hypz_row_pattern(), html@, industry_reader()) == Ok::<
                Seq<IndustryRowView>,
                Seq<char>,
            >(v@.map_values(|x: FundIndustryRow| x@)),
            Err(e) => table_rows(hypz_row_pattern(), html@, industry_reader()) == Err::<
                Seq<IndustryRowView>,
                Seq<char>,
            >(e@),
        },
{
    let caps = captures_all(
        "<tr><td>(\\d+)</td><td class='tol'>([^<]+)</td><td><a[^>]*>[^<]*</a></td><td class='tor'>([^<]+)</td><td class='tor'>([^<]+)</td>",
        html,
    );
    let mut rows: Vec<FundIndustryRow> = Vec::new();
    let c = match caps {
        Some(c) => c,
        None => {
            assert(rows@.map_values(|y: FundIndustryRow| y@) =~= Seq::<IndustryRowView>::empty());
            return Ok(rows);
        },
    };
    let ghost ms = captures_view(Some(c)).unwrap();
    let ghost f = industry_reader();
    assert(ms.take(0) =~= Seq::<Seq<Option<Seq<char>>>>::empty());
    assert(rows@.map_values(|y: FundIndustryRow| y@) =~= Seq::<IndustryRowView>::empty());
    let mut i: usize = 0;
    while i < c.len()
        invariant
            i <= c@.len(),
            ms == c@.map_values(|m: Vec<Option<String>>| match_view(m)),
            f == industry_reader(),
            regex_captures(hypz_row_pattern(), html@) == Some(ms),
            rows_of(ms.take(i as int), f) == Ok::<Seq<IndustryRowView>, Seq<char>>(
                rows@.map_values(|x: FundIndustryRow| x@),
            ),
        decreases c@.len() - i,
    {
        proof {
            assert(ms.take(i + 1).drop_last() =~= ms.take(i as int));
            assert(ms.take(i + 1).last() == match_view(c@[i as int]));
        }
        let row = industry_row_exec(&c[i]);
        match row {
            Ok(x) => {
                let ghost before = rows@;
                rows.push(x);
                proof {
                    assert(rows@.map_values(|y: FundIndustryRow| y@) =~= before.map_values(
                        |y: FundIndustryRow| y@,
                    ).push(x@));
                }
            },
            Err(e) => {
                proof {
                    assert(ms[i as int] == match_view(c@[i as int]));
                    assert(f(ms[i as int]) == industry_row(ms[i as int]));
                    lemma_rows_of_error(ms, f, i as int);
                }
                return Err(e);
            },
        }
        i += 1;
    }
    assert(ms.take(i as int) =~= ms);
    Ok(rows)
}

/// A refused match stops the table: its error is the table's.
proof fn lemma_rows_of_error<R>(
    ms: Seq<Seq<Option<Seq<char>>>>,
    f: spec_fn(Seq<Option<Seq<char>>>) -> Result<R, Seq<char>>,
    i: int,
)
    requires
        0 <= i < ms.len(),
        rows_of(ms.take(i), f) is Ok,
        f(ms[i]) is Err,
    ensures
        rows_of(ms, f) == Err::<Seq<R>, Seq<char>>(f(ms[i])->Err_0),
    decreases ms.len() - i,
{
    assert(ms.take(i + 1).drop_last() =~= ms.take(i));
    if i + 1 == ms.len() {
        assert(ms.take(i + 1) =~= ms);
    } else {
        lemma_rows_of_error_extend(ms, f, i + 1);
    }
}

proof fn lemma_rows_of_error_extend<R>(
    ms: Seq<Seq<Option<Seq<char>>>>,
    f: spec_fn(Seq<Option<Seq<char>>>) -> Result<R, Seq<char>>,
    k: int,
)
    requires
        0 < k <= ms.len(),
        rows_of(ms.take(k), f) is Err,
    ensures
        rows_of(ms, f) == rows_of(ms.take(k), f),
    decreases ms.len() - k,
{
    if k == ms.len() {
        assert(ms.take(k) =~= ms);
    } else {
        assert(ms.take(k + 1).drop_last() =~= ms.take(k));
        lemma_rows_of_error_extend(ms, f, k + 1);
    }
}

/// What the industry script holds: the report date and the rows, or the
/// first error.
pub open spec fn hypz_report(body: Seq<char>) -> Result<
    (Option<Seq<char>>, Seq<IndustryRowView>),
    Seq<char>,
> {
    let t = trim(body);
    match hypz_bounds(t) {
        Err(m) => Err(m),
        Ok((a, b)) => {
            let html = t.subrange(a, b);
            match table_rows(hypz_row_pattern(), html, industry_reader()) {
                Err(e) => Err(e),
                Ok(rows) => Ok((first_group_trimmed(regex_captures(as_of_pattern(), html)), rows)),
            }
        },
    }
}

/// Reads the industry allocation script `var apidata={ content:"..." }`.
pub fn parse_hypz_apidata(body: &str) -> (r: Result<FundIndustryReport, String>)
    ensures
        match hypz_report(body@) {
            Err(m) => r matches Err(e) && e@ == m,
            Ok((as_of, rows)) => r matches Ok(rep) && crate::ranking::opt_text(rep.as_of) == as_of
                && rep.rows@.map_values(|x: FundIndustryRow| x@) == rows,
        },
{
    let t = string_of(trimmed(chars_of(body).as_slice()).as_slice());
    let html = extract_apidata_html(t.as_str())?;
    let as_of = as_of_date(html);
    let rows = industry_rows(html)?;
    Ok(FundIndustryReport { as_of, rows })
}

/// One row of the stock holdings table, its numbers as text.
#[derive(Debug, Clone)]
pub struct FundStockHoldingRow {
    pub rank: u32,
    pub stock_code: String,
    pub stock_name: String,
    /// Share of net assets, in percentage points.
    pub pct_nav: String,
    /// Shares held, in units of ten thousand.
    pub shares_wan: Option<String>,
    /// Market value, in units of ten thousand yuan.
    pub market_value_wan: Option<String>,
}

pub struct HoldingRowView {
    pub rank: u32,
    pub stock_code: Seq<char>,
    pub stock_name: Seq<char>,
    pub pct_nav: Seq<char>,
    pub shares_wan: Option<Seq<char>>,
    pub market_value_wan: Option<Seq<char>>,
}

impl View for FundStockHoldingRow {
    type V = HoldingRowView;

    open spec fn view(&self) -> HoldingRowView {
        HoldingRowView {
            rank: self.rank,
            stock_code: self.stock_code@,
            stock_name: self.stock_name@,
            pct_nav: self.pct_nav@,
            shares_wan: crate::ranking::opt_text(self.shares_wan),
            market_value_wan: crate::ranking::opt_text(self.market_value_wan),
        }
    }
}

/// The holdings table and its report date.
#[derive(Debug, Clone, Default)]
pub struct FundStockHoldingsReport {
    pub as_of: Option<String>,
    pub rows: Vec<FundStockHoldingRow>,
}

/// A row of the stock holdings table (old and current layouts; codes of
/// four to eight letters or digits).
pub open spec fn jjcc_row_pattern() -> Seq<char> {
    "<tr><td>(\\d+)</td><td(?: class='toc')?><a[^>]*>([0-9A-Za-z]{4,8})</a></td><td class='t(?:ol|oc)'[^>]*><a[^>]*>([^<]+)</a></td>[\\s\\S]*?<td class='xglj'>[\\s\\S]*?</td><td class='t(?:or|oc)'>([^<]+)</td><td class='t(?:or|oc)'>([^<]+)</td><td class='t(?:or|oc)'>([^<]+)</td></tr>"@
}

/// One holding row from the groups of its match.
pub open spec fn holding_row(m: Seq<Option<Seq<char>>>) -> Result<HoldingRowView, Seq<char>> {
    match rank_cell(group(m, 1)) {
        Err(e) => Err(e),
        Ok(rank) => match pct_cell(group(m, 4)) {
            Err(e) => Err(e),
            Ok(p) => Ok(
                HoldingRowView {
                    rank,
                    stock_code: group(m, 2),
                    stock_name: trim(group(m, 3)),
                    pct_nav: p,
                    shares_wan: flat_cell(group(m, 5)),
                    market_value_wan: flat_cell(group(m, 6)),
                },
            ),
        },
    }
}

/// `holding_row` as a value.
pub open spec fn holding_reader() -> spec_fn(Seq<Option<Seq<char>>>) -> Result<
    HoldingRowView,
    Seq<char>,
> {
    |m: Seq<Option<Seq<char>>>| holding_row(m)
}

fn holding_row_exec(m: &Vec<Option<String>>) -> (r: Result<FundStockHoldingRow, String>)
    ensures
        match r {
            Ok(x) => holding_row(match_view(*m)) == Ok::<HoldingRowView, Seq<char>>(x@),
            Err(e) => holding_row(match_view(*m)) == Err::<HoldingRowView, Seq<char>>(e@),
        },
{
    let g1 = group_exec(m, 1);
    let rank = rank_cell_exec(g1.as_slice())?;
    let g2 = group_exec(m, 2);
    let g3 = group_exec(m, 3);
    let g4 = group_exec(m, 4);
    let g5 = group_exec(m, 5);
    let g6 = group_exec(m, 6);
    let pct_nav = pct_cell_exec(g4.as_slice())?;
    Ok(
        FundStockHoldingRow {
            rank,
            stock_code: string_of(g2.as_slice()),
            stock_name: string_of(trimmed(g3.as_slice()).as_slice()),
            pct_nav,
            shares_wan: flat_cell_exec(g5.as_slice()),
            market_value_wan: flat_cell_exec(g6.as_slice()),
        },
    )
}

fn holding_rows(html: &str) -> (r: Result<Vec<FundStockHoldingRow>, String>)
    ensures
        match r {
            Ok(v) => table_rows(jjcc_row_pattern(), html@, holding_reader()) == Ok::<
                Seq<HoldingRowView>,
                Seq<char>,
            >(v@.map_values(|x: FundStockHoldingRow| x@)),
            Err(e) => table_rows(jjcc_row_pattern(), html@, holding_reader()) == Err::<
                Seq<HoldingRowView>,
                Seq<char>,
            >(e@),
        },
{
    let caps = captures_all(
        "<tr><td>(\\d+)</td><td(?: class='toc')?><a[^>]*>([0-9A-Za-z]{4,8})</a></td><td class='t(?:ol|oc)'[^>]*><a[^>]*>([^<]+)</a></td>[\\s\\S]*?<td class='xglj'>[\\s\\S]*?</td><td class='t(?:or|oc)'>([^<]+)</td><td class='t(?:or|oc)'>([^<]+)</td><td class='t(?:or|oc)'>([^<]+)</td></tr>",
        html,
    );
    let mut rows: Vec<FundStockHoldingRow> = Vec::new();
    let c = match caps {
        Some(c) => c,
        None => {
            assert(rows@.map_values(|y: FundStockHoldingRow| y@) =~= Seq::<HoldingRowView>::empty());
            return Ok(rows);
        },
    };
    let ghost ms = captures_view(Some(c)).unwrap();
    let ghost f = holding_reader();
    assert(ms.take(0) =~= Seq::<Seq<Option<Seq<char>>>>::empty());
    assert(rows@.map_values(|y: FundStockHoldingRow| y@) =~= Seq::<HoldingRowView>::empty());
    let mut i: usize = 0;
    while i < c.len()
        invariant
            i <= c@.len(),
            ms == c@.map_values(|m: Vec<Option<String>>| match_view(m)),
            f == holding_reader(),
            regex_captures(jjcc_row_pattern(), html@) == Some(ms),
            rows_of(ms.take(i as int), f) == Ok::<Seq<HoldingRowView>, Seq<char>>(
                rows@.map_values(|x: FundStockHoldingRow| x@),
            ),
        decreases c@.len() - i,
    {
        proof {
            assert(ms.take(i + 1).drop_last() =~= ms.take(i as int));
            assert(ms.take(i + 1).last() == match_view(c@[i as int]));
        }
        let row = holding_row_exec(&c[i]);
        match row {
            Ok(x) => {
                let ghost before = rows@;
                rows.push(x);
                proof {
                    assert(rows@.map_values(|y: FundStockHoldingRow| y@) =~= before.map_values(
                        |y: FundStockHoldingRow| y@,
                    ).push(x@));
                }
            },
            Err(e) => {
                proof {
                    assert(ms[i as int] == match_view(c@[i as int]));
                    assert(f(ms[i as int]) == holding_row(ms[i as int]));
                    lemma_rows_of_error(ms, f, i as int);
                }
                return Err(e);
            },
        }
        i += 1;
    }
    assert(ms.take(i as int) =~= ms);
    Ok(rows)
}

/// What the holdings script holds: the report date and the rows, or the
/// first error.
pub open spec fn jjcc_report(body: Seq<char>) -> Result<
    (Option<Seq<char>>, Seq<HoldingRowView>),
    Seq<char>,
> {
    match apidata_bounds(body) {
        Err(m) => Err(m),
        Ok((a, b)) => {
            let html = trim(body).subrange(a, b);
            match table_rows(jjcc_row_pattern(), html, holding_reader()) {
                Err(e) => Err(e),
                Ok(rows) => Ok((first_group_trimmed(regex_captures(as_of_pattern(), html)), rows)),
            }
        },
    }
}

/// Reads the stock holdings script (`FundArchivesDatas.aspx?type=jjcc`).
pub fn parse_jjcc_apidata(body: &str) -> (r: Result<FundStockHoldingsReport, String>)
    ensures
        match jjcc_report(body@) {
            Err(m) => r matches Err(e) && e@ == m,
            Ok((as_of, rows)) => r matches Ok(rep) && crate::ranking::opt_text(rep.as_of) == as_of
                && rep.rows@.map_values(|x: FundStockHoldingRow| x@) == rows,
        },
{
    let html = extract_apidata_content(body)?;
    let as_of = as_of_date(html);
    let rows = holding_rows(html)?;
    Ok(FundStockHoldingsReport { as_of, rows })
}

fn last_with_code(prev: &Vec<FundStockHoldingRow>, code: &str) -> (r: Option<usize>)
    ensures
        match r {
            Some(j) => j < prev@.len() && prev@[j as int].stock_code@ == code@ && forall|k: int|
                j < k < prev@.len() ==> (#[trigger] prev@[k]).stock_code@ != code@,
            None => forall|k: int| 0 <= k < prev@.len() ==> (#[trigger] prev@[k]).stock_code@ != code@,
        },
{
    let mut n = prev.len();
    while n > 0
        invariant
            n <= prev@.len(),
            forall|k: int| n <= k < prev@.len() ==> (#[trigger] prev@[k]).stock_code@ != code@,
        decreases n,
    {
        if crate::text::str_eq(prev[n - 1].stock_code.as_str(), code) {
            return Some(n - 1);
        }
        n -= 1;
    }
    None
}

/// For each holding, the last row of the previous report with the same
/// stock code, if any: the row its change in share of net value is taken
/// against.
pub fn previous_rows(
    rows: &Vec<FundStockHoldingRow>,
    prev: &Vec<FundStockHoldingRow>,
) -> (r: Vec<Option<usize>>)
    ensures
        r@.len() == rows@.len(),
        forall|i: int|
            0 <= i < rows@.len() ==> match #[trigger] r@[i] {
                Some(j) => j < prev@.len() && prev@[j as int].stock_code@ == rows@[i].stock_code@
                    && forall|k: int|
                    j < k < prev@.len() ==> (#[trigger] prev@[k]).stock_code@
                        != rows@[i].stock_code@,
                None => forall|k: int|
                    0 <= k < prev@.len() ==> (#[trigger] prev@[k]).stock_code@
                        != rows@[i].stock_code@,
            },
{
    let mut r: Vec<Option<usize>> = Vec::new();
    let mut i: usize = 0;
    while i < rows.len()
        invariant
            i <= rows@.len(),
            r@.len() == i,
            forall|a: int|
                0 <= a < i ==> match #[trigger] r@[a] {
                    Some(j) => j < prev@.len() && prev@[j as int].stock_code@
                        == rows@[a].stock_code@ && forall|k: int|
                        j < k < prev@.len() ==> (#[trigger] prev@[k]).stock_code@
                            != rows@[a].stock_code@,
                    None => forall|k: int|
                        0 <= k < prev@.len() ==> (#[trigger] prev@[k]).stock_code@
                            != rows@[a].stock_code@,
                },
        decreases rows@.len() - i,
    {
        let found = last_with_code(prev, rows[i].stock_code.as_str());
        r.push(found);
        i += 1;
    }
    r
}

/// One row of the asset allocation table: shares of net value as text, net
/// assets as text.
#[derive(Debug, Clone)]
pub struct FundAllocationRow {
    pub as_of: String,
    /// Stocks, in percentage points of net value.
    pub stock_pct: String,
    /// Bonds, in percentage points of net value.
    pub bond_pct: String,
    /// Cash, in percentage points of net value.
    pub cash_pct: String,
    /// Net assets, in hundreds of millions of yuan.
    pub net_asset_yi: Option<String>,
}

pub struct AllocationRowView {
    pub as_of: Seq<char>,
    pub stock_pct: Seq<char>,
    pub bond_pct: Seq<char>,
    pub cash_pct: Seq<char>,
    pub net_asset_yi: Option<Seq<char>>,
}

impl View for FundAllocationRow {
    type V = AllocationRowView;

    open spec fn view(&self) -> AllocationRowView {
        AllocationRowView {
            as_of: self.as_of@,
            stock_pct: self.stock_pct@,
            bond_pct: self.bond_pct@,
            cash_pct: self.cash_pct@,
            net_asset_yi: crate::ranking::opt_text(self.net_asset_yi),
        }
    }
}

/// The asset allocation history, latest report first, and the page's
/// summary line.
#[derive(Debug, Clone, Default)]
pub struct FundAllocationReport {
    pub summary: Option<String>,
    pub rows: Vec<FundAllocationRow>,
}

/// A row of the asset allocation table.
pub open spec fn zcpz_row_pattern() -> Seq<char> {
    "<tr><td>(\\d{4}-\\d{2}-\\d{2})</td><td class=\"tor\">([^<]+)</td><td class=\"tor\">([^<]+)</td><td class=\"tor\">([^<]+)</td><td class=\"tor\">([^<]+)</td></tr>"@
}

/// The summary line of the asset allocation page.
pub open spec fn zcpz_summary_pattern() -> Seq<char> {
    "<label class=\"left\">(截至[^<]+)</label>"@
}

/// One allocation row from the groups of its match.
pub open spec fn allocation_row(m: Seq<Option<Seq<char>>>) -> Result<AllocationRowView, Seq<char>> {
    match pct_cell(group(m, 2)) {
        Err(e) => Err(e),
        Ok(stock) => match pct_cell(group(m, 3)) {
            Err(e) => Err(e),
            Ok(bond) => match pct_cell(group(m, 4)) {
                Err(e) => Err(e),
                Ok(cash) => Ok(
                    AllocationRowView {
                        as_of: group(m, 1),
                        stock_pct: stock,
                        bond_pct: bond,
                        cash_pct: cash,
                        net_asset_yi: flat_cell(group(m, 5)),
                    },
                ),
            },
        },
    }
}

/// `allocation_row` as a value.
pub open spec fn allocation_reader() -> spec_fn(Seq<Option<Seq<char>>>) -> Result<
    AllocationRowView,
    Seq<char>,
> {
    |m: Seq<Option<Seq<char>>>| allocation_row(m)
}

fn allocation_row_exec(m: &Vec<Option<String>>) -> (r: Result<FundAllocationRow, String>)
    ensures
        match r {
            Ok(x) => allocation_row(match_view(*m)) == Ok::<AllocationRowView, Seq<char>>(x@),
            Err(e) => allocation_row(match_view(*m)) == Err::<AllocationRowView, Seq<char>>(e@),
        },
{
    let g1 = group_exec(m, 1);
    let g2 = group_exec(m, 2);
    let g3 = group_exec(m, 3);
    let g4 = group_exec(m, 4);
    let g5 = group_exec(m, 5);
    let stock_pct = pct_cell_exec(g2.as_slice())?;
    let bond_pct = pct_cell_exec(g3.as_slice())?;
    let cash_pct = pct_cell_exec(g4.as_slice())?;
    Ok(
        FundAllocationRow {
            as_of: string_of(g1.as_slice()),
            stock_pct,
            bond_pct,
            cash_pct,
            net_asset_yi: flat_cell_exec(g5.as_slice()),
        },
    )
}

fn allocation_rows(html: &str) -> (r: Result<Vec<FundAllocationRow>, String>)
    ensures
        match r {
            Ok(v) => table_rows(zcpz_row_pattern(), html@, allocation_reader()) == Ok::<
                Seq<AllocationRowView>,
                Seq<char>,
            >(v@.map_values(|x: FundAllocationRow| x@)),
            Err(e) => table_rows(zcpz_row_pattern(), html@, allocation_reader()) == Err::<
                Seq<AllocationRowView>,
                Seq<char>,
            >(e@),
        },
{
    let caps = captures_all(
        "<tr><td>(\\d{4}-\\d{2}-\\d{2})</td><td class=\"tor\">([^<]+)</td><td class=\"tor\">([^<]+)</td><td class=\"tor\">([^<]+)</td><td class=\"tor\">([^<]+)</td></tr>",
        html,
    );
    let mut rows: Vec<FundAllocationRow> = Vec::new();
    let c = match caps {
        Some(c) => c,
        None => {
            assert(rows@.map_values(|y: FundAllocationRow| y@) =~= Seq::<AllocationRowView>::empty());
            return Ok(rows);
        },
    };
    let ghost ms = captures_view(Some(c)).unwrap();
    let ghost f = allocation_reader();
    assert(ms.take(0) =~= Seq::<Seq<Option<Seq<char>>>>::empty());
    assert(rows@.map_values(|y: FundAllocationRow| y@) =~= Seq::<AllocationRowView>::empty());
    let mut i: usize = 0;
    while i < c.len()
        invariant
            i <= c@.len(),
            ms == c@.map_values(|m: Vec<Option<String>>| match_view(m)),
            f == allocation_reader(),
            regex_captures(zcpz_row_pattern(), html@) == Some(ms),
            rows_of(ms.take(i as int), f) == Ok::<Seq<AllocationRowView>, Seq<char>>(
                rows@.map_values(|x: FundAllocationRow| x@),
            ),
        decreases c@.len() - i,
    {
        proof {
            assert(ms.take(i + 1).drop_last() =~= ms.take(i as int));
            assert(ms.take(i + 1).last() == match_view(c@[i as int]));
        }
        let row = allocation_row_exec(&c[i]);
        match row {
            Ok(x) => {
                let ghost before = rows@;
                rows.push(x);
                proof {
                    assert(rows@.map_values(|y: FundAllocationRow| y@) =~= before.map_values(
                        |y: FundAllocationRow| y@,
                    ).push(x@));
                }
            },
            Err(e) => {
                proof {
                    assert(ms[i as int] == match_view(c@[i as int]));
                    assert(f(ms[i as int]) == allocation_row(ms[i as int]));
                    lemma_rows_of_error(ms, f, i as int);
                }
                return Err(e);
            },
        }
        i += 1;
    }
    assert(ms.take(i as int) =~= ms);
    Ok(rows)
}

/// Tags dropped and white space collapsed.
pub open spec fn clean_text(s: Seq<char>) -> Seq<char> {
    collapse_ws(strip_tags(s))
}

fn clean_text_exec(s: &[char]) -> (v: Vec<char>)
    ensures
        v@ == clean_text(s@),
{
    let a = strip_tags_exec(s);
    collapse_ws_exec(a.as_slice())
}

/// The summary of the first summary match, cleaned.
pub open spec fn zcpz_summary(html: Seq<char>) -> Option<Seq<char>> {
    match regex_captures(zcpz_summary_pattern(), html) {
        Some(c) => if c.len() > 0 {
            Some(clean_text(group(c[0], 1)))
        } else {
            None
        },
        None => None,
    }
}

/// What the asset allocation page holds: its summary and rows; an error
/// for the first unreadable row, or when there is none.
pub open spec fn zcpz_report(html: Seq<char>) -> Result<
    (Option<Seq<char>>, Seq<AllocationRowView>),
    Seq<char>,
> {
    match table_rows(zcpz_row_pattern(), html, allocation_reader()) {
        Err(e) => Err(e),
        Ok(rows) => if rows.len() == 0 {
            Err("no asset allocation rows found"@)
        } else {
            Ok((zcpz_summary(html), rows))
        },
    }
}

/// Reads the asset allocation page (`zcpz_{code}.html`).
pub fn parse_zcpz_html(html: &str) -> (r: Result<FundAllocationReport, String>)
    ensures
        match zcpz_report(html@) {
            Err(m) => r matches Err(e) && e@ == m,
            Ok((summary, rows)) => r matches Ok(rep) && crate::ranking::opt_text(rep.summary)
                == summary && rep.rows@.map_values(|x: FundAllocationRow| x@) == rows,
        },
{
    let caps = captures_all("<label class=\"left\">(截至[^<]+)</label>", html);
    let summary = match caps {
        Some(c) => {
            if c.len() > 0 {
                let g = group_exec(&c[0], 1);
                Some(string_of(clean_text_exec(g.as_slice()).as_slice()))
            } else {
                None
            }
        },
        None => None,
    };
    let rows = allocation_rows(html)?;
    if rows.len() == 0 {
        return Err(String::from_str("no asset allocation rows found"));
    }
    Ok(FundAllocationReport { summary, rows })
}

/// Rows read without error come one per match, the `i`-th from the `i`-th.
pub proof fn lemma_rows_of_pointwise<R>(
    ms: Seq<Seq<Option<Seq<char>>>>,
    f: spec_fn(Seq<Option<Seq<char>>>) -> Result<R, Seq<char>>,
)
    ensures
        rows_of(ms, f) matches Ok(rows) ==> rows.len() == ms.len() && forall|i: int|
            0 <= i < ms.len() ==> f(#[trigger] ms[i]) == Ok::<R, Seq<char>>(rows[i]),
    decreases ms.len(),
{
    if ms.len() > 0 {
        let p = ms.drop_last();
        lemma_rows_of_pointwise(p, f);
        if let Ok(rows) = rows_of(ms, f) {
            assert forall|i: int| 0 <= i < ms.len() implies f(#[trigger] ms[i]) == Ok::<R, Seq<char>>(
                rows[i],
            ) by {
                if i < p.len() {
                    assert(ms[i] == p[i]);
                }
            }
        }
    }
}

/// An asset allocation row read from a match: the date is the first
/// group, the stock, bond and cash shares the number texts of the second,
/// third and fourth groups (each read by `f64::from_str`), the net assets
/// the digits of the fifth; a share that does not read is the error.
pub proof fn lemma_allocation_row_cells(m: Seq<Option<Seq<char>>>)
    ensures
        allocation_row(m) is Ok <==> (float_syntax(pct_text(group(m, 2))) && float_syntax(
            pct_text(group(m, 3)),
        ) && float_syntax(pct_text(group(m, 4)))),
        allocation_row(m) matches Ok(r) ==> {
            &&& r.as_of == group(m, 1)
            &&& r.stock_pct == pct_text(group(m, 2))
            &&& r.bond_pct == pct_text(group(m, 3))
            &&& r.cash_pct == pct_text(group(m, 4))
            &&& r.net_asset_yi == flat_cell(group(m, 5))
        },
{
}

/// An asset allocation page read without error has one row per table
/// match, in order: the `i`-th row's date, stock, bond and cash shares and
/// net assets come from groups 1 to 5 of the `i`-th match.
pub proof fn lemma_zcpz_rows(html: Seq<char>)
    ensures
        zcpz_report(html) matches Ok((_, rows)) ==> regex_captures(zcpz_row_pattern(), html) matches Some(
            ms,
        ) && rows.len() == ms.len() && rows.len() > 0 && forall|i: int|
            0 <= i < rows.len() ==> {
                &&& (#[trigger] rows[i]).as_of == group(ms[i], 1)
                &&& rows[i].stock_pct == pct_text(group(ms[i], 2))
                &&& rows[i].bond_pct == pct_text(group(ms[i], 3))
                &&& rows[i].cash_pct == pct_text(group(ms[i], 4))
                &&& rows[i].net_asset_yi == flat_cell(group(ms[i], 5))
            },
{
    if let Ok((_, rows)) = zcpz_report(html) {
        let f = allocation_reader();
        if let Some(ms) = regex_captures(zcpz_row_pattern(), html) {
            lemma_rows_of_pointwise(ms, f);
            assert forall|i: int| 0 <= i < rows.len() implies {
                &&& (#[trigger] rows[i]).as_of == group(ms[i], 1)
                &&& rows[i].stock_pct == pct_text(group(ms[i], 2))
                &&& rows[i].bond_pct == pct_text(group(ms[i], 3))
                &&& rows[i].cash_pct == pct_text(group(ms[i], 4))
                &&& rows[i].net_asset_yi == flat_cell(group(ms[i], 5))
            } by {
                assert(f(ms[i]) == allocation_row(ms[i]));
                lemma_allocation_row_cells(ms[i]);
            }
        }
    }
}

/// An industry row read from a match: the rank is the first group read as
/// a number, the industry the second trimmed, the share of net value the
/// number text of the third, the market value the digits of the fourth.
pub proof fn lemma_industry_row_cells(m: Seq<Option<Seq<char>>>)
    ensures
        industry_row(m) matches Ok(r) ==> {
            &&& parse_u32(group(m, 1)) == Some(r.rank)
            &&& r.industry == trim(group(m, 2))
            &&& r.pct_nav == pct_text(group(m, 3))
            &&& float_syntax(r.pct_nav)
            &&& r.market_value_wan == flat_cell(group(m, 4))
        },
{
}

/// A stock holding row read from a match: the rank is the first group
/// read as a number, the stock code the second, the stock name the third
/// trimmed, the share of net value the number text of the fourth, the
/// shares and market value the digits of the fifth and sixth.
pub proof fn lemma_holding_row_cells(m: Seq<Option<Seq<char>>>)
    ensures
        holding_row(m) matches Ok(r) ==> {
            &&& parse_u32(group(m, 1)) == Some(r.rank)
            &&& r.stock_code == group(m, 2)
            &&& r.stock_name == trim(group(m, 3))
            &&& r.pct_nav == pct_text(group(m, 4))
            &&& float_syntax(r.pct_nav)
            &&& r.shares_wan == flat_cell(group(m, 5))
            &&& r.market_value_wan == flat_cell(group(m, 6))
        },
{
}

} // verus!
