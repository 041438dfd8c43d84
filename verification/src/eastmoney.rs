//! What the fund data client makes of the services' answers: net-value
//! history pages, index quotes, fund names, manager data, fees and the
//! fund profile.

use crate::dates::{chrono_ymd, parse_ymd, ymd_of, Ymd};
use crate::json::{
    as_array, as_i64, as_str, at, get, json_array, json_at, json_get, json_i64, json_str, Json,
};
use crate::numbers::{float_syntax, is_float_text, parse_u32, parse_u32_exec};
use crate::js::{
    extract_js_string_value, extract_js_variable, js_variable, extract_js_variable_spaced, js_string_value, js_variable_spaced,
    parse_work_time, parse_work_time_checked, work_time_extra_days, work_time_readable,
    work_time_year_days,
};
use crate::jbgk::{or_empty, td_after_keyword, tditem_after_keyword};
use crate::text::{chars_of, string_of};
use vstd::prelude::*;

verus! {

/// Why the client could not give an answer it was asked for (transport
/// failures aside).
#[derive(Debug, Clone)]
pub enum EastMoneyError {
    /// The service answered with this error code.
    ApiError(i32),
    /// The answer could not be read; the text says what.
    ParseFailed(String),
    /// The HTTP client could not be built.
    ClientBuildFailed(String),
}

/// The text of an error, for contracts.
pub enum ErrorView {
    ApiError(i32),
    ParseFailed(Seq<char>),
    ClientBuildFailed(Seq<char>),
}

impl View for EastMoneyError {
    type V = ErrorView;

    open spec fn view(&self) -> ErrorView {
        match self {
            EastMoneyError::ApiError(c) => ErrorView::ApiError(*c),
            EastMoneyError::ParseFailed(s) => ErrorView::ParseFailed(s@),
            EastMoneyError::ClientBuildFailed(s) => ErrorView::ClientBuildFailed(s@),
        }
    }
}

/// One point of net-value history: the fund it belongs to, its date, and
/// the texts of its unit and accumulated net values and of its daily change
/// in percent.
#[derive(Debug, Clone)]
pub struct NavRow {
    /// The code of the fund that was asked for.
    pub code: String,
    pub date: Ymd,
    /// Unit net value; `f64::from_str` reads it.
    pub nav: String,
    /// Accumulated net value; `f64::from_str` reads it.
    pub acc_nav: String,
    /// Daily change in percent, where given and readable.
    pub daily_return_pct: Option<String>,
}

pub struct NavRowView {
    pub code: Seq<char>,
    pub date: Ymd,
    pub nav: Seq<char>,
    pub acc_nav: Seq<char>,
    pub daily_return_pct: Option<Seq<char>>,
}

impl View for NavRow {
    type V = NavRowView;

    open spec fn view(&self) -> NavRowView {
        NavRowView {
            code: self.code@,
            date: self.date,
            nav: self.nav@,
            acc_nav: self.acc_nav@,
            daily_return_pct: crate::ranking::opt_text(self.daily_return_pct),
        }
    }
}

/// A text member of an item, the empty text when absent or not a text.
pub open spec fn text_member(item: Json, key: Seq<char>) -> Seq<char> {
    match as_str(get(Some(item), key)) {
        Some(t) => t,
        None => Seq::empty(),
    }
}

/// One item of `LSJZList`: the date (`FSRQ`), unit (`DWJZ`) and
/// accumulated (`LJJZ`) net values must read, else the unreadable text is
/// the error; the daily change (`JZZZL`) is kept where it reads and is not
/// empty or `--`. The point belongs to the fund `code`.
pub open spec fn nav_item(item: Json, code: Seq<char>) -> Result<NavRowView, Seq<char>> {
    let date = text_member(item, "FSRQ"@);
    let nav = text_member(item, "DWJZ"@);
    let acc = text_member(item, "LJJZ"@);
    let daily = text_member(item, "JZZZL"@);
    match chrono_ymd(date) {
        None => Err(date),
        Some(ymd) => if !float_syntax(nav) {
            Err(nav)
        } else if !float_syntax(acc) {
            Err(acc)
        } else {
            Ok(
                NavRowView {
                    code,
                    date: ymd_of(ymd),
                    nav,
                    acc_nav: acc,
                    daily_return_pct: if daily.len() == 0 || daily == "--"@ || !float_syntax(daily) {
                        None
                    } else {
                        Some(daily)
                    },
                },
            )
        },
    }
}

/// The items read in order; the first unreadable one gives the error.
pub open spec fn nav_items(items: Seq<Json>, code: Seq<char>) -> Result<Seq<NavRowView>, Seq<char>>
    decreases items.len(),
{
    if items.len() == 0 {
        Ok(Seq::empty())
    } else {
        match nav_items(items.drop_last(), code) {
            Err(e) => Err(e),
            Ok(prefix) => match nav_item(items.last(), code) {
                Ok(r) => Ok(prefix.push(r)),
                Err(e) => Err(e),
            },
        }
    }
}

/// A page of net-value history (`f10/lsjz`): an error code other than 0
/// is the service's error; else the points of `Data.LSJZList` and
/// `TotalCount` (0 when absent, cut to 32 bits as given), each point
/// marked with the code of the fund that was asked for.
pub open spec fn nav_page(parsed: Json, fund: Seq<char>) -> Result<(Seq<NavRowView>, u32), ErrorView> {
    let code = match as_i64(get(Some(parsed), "ErrCode"@)) {
        Some(c) => c,
        None => 0,
    };
    if code != 0 {
        Err(ErrorView::ApiError(code as i32))
    } else {
        let total = match as_i64(get(Some(parsed), "TotalCount"@)) {
            Some(t) => t,
            None => 0,
        };
        let items = match as_array(get(get(Some(parsed), "Data"@), "LSJZList"@)) {
            Some(a) => a,
            None => Seq::empty(),
        };
        match nav_items(items, fund) {
            Err(e) => Err(ErrorView::ParseFailed(e)),
            Ok(rows) => Ok((rows, total as u32)),
        }
    }
}

/// What one history item reads as: a point exactly when its `FSRQ` date,
/// `DWJZ` unit value and `LJJZ` accumulated value all read; the point's
/// date is the `FSRQ` date, its unit value the `DWJZ` text, its
/// accumulated value the `LJJZ` text, its daily change (where kept) the
/// `JZZZL` text, and it belongs to `code`; else the first unreadable of
/// those three texts is the error.
pub proof fn lemma_nav_item_fields(item: Json, code: Seq<char>)
    ensures
        nav_item(item, code) is Ok <==> (chrono_ymd(text_member(item, "FSRQ"@)) is Some
            && float_syntax(text_member(item, "DWJZ"@)) && float_syntax(text_member(item, "LJJZ"@))),
        nav_item(item, code) matches Ok(r) ==> {
            &&& r.code == code
            &&& r.date == ymd_of(chrono_ymd(text_member(item, "FSRQ"@))->Some_0)
            &&& r.nav == text_member(item, "DWJZ"@)
            &&& r.acc_nav == text_member(item, "LJJZ"@)
            &&& (r.daily_return_pct matches Some(d) ==> d == text_member(item, "JZZZL"@) && float_syntax(d))
            &&& (r.daily_return_pct is None <==> (text_member(item, "JZZZL"@).len() == 0
                || text_member(item, "JZZZL"@) == "--"@ || !float_syntax(text_member(item, "JZZZL"@))))
        },
        nav_item(item, code) matches Err(e) ==> {
            ||| chrono_ymd(text_member(item, "FSRQ"@)) is None && e == text_member(item, "FSRQ"@)
            ||| chrono_ymd(text_member(item, "FSRQ"@)) is Some && !float_syntax(text_member(item, "DWJZ"@))
                && e == text_member(item, "DWJZ"@)
            ||| chrono_ymd(text_member(item, "FSRQ"@)) is Some && float_syntax(text_member(item, "DWJZ"@))
                && !float_syntax(text_member(item, "LJJZ"@)) && e == text_member(item, "LJJZ"@)
        },
{
}

/// Items that all read give one point each, the `i`-th from the `i`-th item.
pub proof fn lemma_nav_items_pointwise(items: Seq<Json>, code: Seq<char>)
    ensures
        nav_items(items, code) matches Ok(rows) ==> rows.len() == items.len() && forall|i: int|
            0 <= i < items.len() ==> nav_item(#[trigger] items[i], code) == Ok::<NavRowView, Seq<char>>(rows[i]),
    decreases items.len(),
{
    if items.len() > 0 {
        let p = items.drop_last();
        lemma_nav_items_pointwise(p, code);
        if let Ok(rows) = nav_items(items, code) {
            let prefix = nav_items(p, code)->Ok_0;
            assert forall|i: int| 0 <= i < items.len() implies nav_item(#[trigger] items[i], code)
                == Ok::<NavRowView, Seq<char>>(rows[i]) by {
                if i < p.len() {
                    assert(items[i] == p[i]);
                }
            }
        }
    }
}

/// The items of a history page: `Data.LSJZList`, none when absent.
pub open spec fn page_items(parsed: Json) -> Seq<Json> {
    match as_array(get(get(Some(parsed), "Data"@), "LSJZList"@)) {
        Some(a) => a,
        None => Seq::empty(),
    }
}

/// A history page read without error gives one point per item of
/// `Data.LSJZList`, in order: the `i`-th point has the `i`-th item's
/// `FSRQ` date, `DWJZ` unit value and `LJJZ` accumulated value, and the
/// requested fund's code.
pub proof fn lemma_nav_page_rows(parsed: Json, code: Seq<char>)
    ensures
        nav_page(parsed, code) matches Ok((rows, _)) ==> {
            &&& rows.len() == page_items(parsed).len()
            &&& forall|i: int| 0 <= i < rows.len() ==> {
                let item = #[trigger] page_items(parsed)[i];
                &&& rows[i].code == code
                &&& rows[i].nav == text_member(item, "DWJZ"@)
                &&& rows[i].acc_nav == text_member(item, "LJJZ"@)
                &&& chrono_ymd(text_member(item, "FSRQ"@)) is Some
                &&& rows[i].date == ymd_of(chrono_ymd(text_member(item, "FSRQ"@))->Some_0)
            }
        },
{
    let items = page_items(parsed);
    lemma_nav_items_pointwise(items, code);
    if let Ok((rows, _)) = nav_page(parsed, code) {
        assert forall|i: int| 0 <= i < rows.len() implies {
            let item = #[trigger] page_items(parsed)[i];
            &&& rows[i].code == code
            &&& rows[i].nav == text_member(item, "DWJZ"@)
            &&& rows[i].acc_nav == text_member(item, "LJJZ"@)
            &&& chrono_ymd(text_member(item, "FSRQ"@)) is Some
            &&& rows[i].date == ymd_of(chrono_ymd(text_member(item, "FSRQ"@))->Some_0)
        } by {
            assert(nav_item(items[i], code) == Ok::<NavRowView, Seq<char>>(rows[i]));
            lemma_nav_item_fields(items[i], code);
        }
    }
}

fn text_member_exec(item: &Json, key: &str) -> (r: String)
    ensures
        r@ == text_member(*item, key@),
{
    match json_str(json_get(Some(item), key)) {
        Some(t) => String::from_str(t),
        None => String::new(),
    }
}

fn nav_item_exec(item: &Json, code: &str) -> (r: Result<NavRow, String>)
    ensures
        match r {
            Ok(x) => nav_item(*item, code@) == Ok::<NavRowView, Seq<char>>(x@),
            Err(e) => nav_item(*item, code@) == Err::<NavRowView, Seq<char>>(e@),
        },
{
    let date = text_member_exec(item, "FSRQ");
    let nav = text_member_exec(item, "DWJZ");
    let acc = text_member_exec(item, "LJJZ");
    let daily = text_member_exec(item, "JZZZL");
    let ymd = match parse_ymd(date.as_str()) {
        Some(d) => d,
        None => {
            return Err(date);
        },
    };
    if !is_float_text(chars_of(nav.as_str()).as_slice()) {
        return Err(nav);
    }
    if !is_float_text(chars_of(acc.as_str()).as_slice()) {
        return Err(acc);
    }
    let dc = chars_of(daily.as_str());
    let daily_return_pct = if dc.len() == 0 || crate::commands::is_lit(dc.as_slice(), "--")
        || !is_float_text(dc.as_slice()) {
        None
    } else {
        Some(daily)
    };
    Ok(NavRow { code: String::from_str(code), date: Ymd { year: ymd.0, month: ymd.1, day: ymd.2 }, nav, acc_nav: acc, daily_return_pct })
}

/// Reads one page of net-value history of the fund `fund_code` from the
/// parsed answer.
pub fn parse_nav_page(parsed: &Json, fund_code: &str) -> (r: Result<(Vec<NavRow>, u32), EastMoneyError>)
    ensures
        match nav_page(*parsed, fund_code@) {
            Ok((rows, total)) => r matches Ok((v, t)) && t == total && v@.map_values(
                |x: NavRow| x@,
            ) == rows,
            Err(e) => r matches Err(x) && x@ == e,
        },
        r matches Ok((v, _)) ==> forall|i: int| 0 <= i < v@.len() ==> (#[trigger] v@[i]).code@ == fund_code@,
{
    let code = match json_i64(json_get(Some(parsed), "ErrCode")) {
        Some(c) => c,
        None => 0,
    };
    if code != 0 {
        return Err(EastMoneyError::ApiError(code as i32));
    }
    let total = match json_i64(json_get(Some(parsed), "TotalCount")) {
        Some(t) => t,
        None => 0,
    };
    let empty: Vec<Json> = Vec::new();
    let items = match json_array(json_get(json_get(Some(parsed), "Data"), "LSJZList")) {
        Some(a) => a,
        None => &empty,
    };
    let mut rows: Vec<NavRow> = Vec::new();
    let mut i: usize = 0;
    assert(items@.take(0) =~= Seq::<Json>::empty());
    assert(rows@.map_values(|x: NavRow| x@) =~= Seq::<NavRowView>::empty());
    while i < items.len()
        invariant
            i <= items@.len(),
            nav_page(*parsed, fund_code@) == match nav_items(items@, fund_code@) {
                Err(e) => Err(ErrorView::ParseFailed(e)),
                Ok(rows) => Ok((rows, total as u32)),
            },
            nav_items(items@.take(i as int), fund_code@) == Ok::<Seq<NavRowView>, Seq<char>>(
                rows@.map_values(|x: NavRow| x@),
            ),
            forall|j: int| 0 <= j < rows@.len() ==> (#[trigger] rows@[j]).code@ == fund_code@,
        decreases items@.len() - i,
    {
        proof {
            assert(items@.take(i + 1).drop_last() =~= items@.take(i as int));
            assert(items@.take(i + 1).last() == items@[i as int]);
        }
        match nav_item_exec(&items[i], fund_code) {
            Ok(x) => {
                let ghost before = rows@;
                rows.push(x);
                proof {
                    assert(rows@.map_values(|y: NavRow| y@) =~= before.map_values(|y: NavRow| y@).push(
                        x@,
                    ));
                }
            },
            Err(e) => {
                proof {
                    lemma_nav_items_error(items@, fund_code@, i as int);
                }
                return Err(EastMoneyError::ParseFailed(e));
            },
        }
        i += 1;
    }
    assert(items@.take(i as int) =~= items@);
    Ok((rows, total as u32))
}

proof fn lemma_nav_items_error(items: Seq<Json>, code: Seq<char>, i: int)
    requires
        0 <= i < items.len(),
        nav_items(items.take(i), code) is Ok,
        nav_item(items[i], code) is Err,
    ensures
        nav_items(items, code) == Err::<Seq<NavRowView>, Seq<char>>(nav_item(items[i], code)->Err_0),
    decreases items.len() - i,
{
    assert(items.take(i + 1).drop_last() =~= items.take(i));
    lemma_nav_items_error_extend(items, code, i + 1);
}

proof fn lemma_nav_items_error_extend(items: Seq<Json>, code: Seq<char>, k: int)
    requires
        0 < k <= items.len(),
        nav_items(items.take(k), code) is Err,
    ensures
        nav_items(items, code) == nav_items(items.take(k), code),
    decreases items.len() - k,
{
    if k == items.len() {
        assert(items.take(k) =~= items);
    } else {
        assert(items.take(k + 1).drop_last() =~= items.take(k));
        lemma_nav_items_error_extend(items, code, k + 1);
    }
}

/// One daily close of an index.
#[derive(Debug, Clone)]
pub struct IndexData {
    pub date: Ymd,
    /// The close; `f64::from_str` reads it.
    pub close: String,
}

pub struct IndexDataView {
    pub date: Ymd,
    pub close: Seq<char>,
}

impl View for IndexData {
    type V = IndexDataView;

    open spec fn view(&self) -> IndexDataView {
        IndexDataView { date: self.date, close: self.close@ }
    }
}

/// One kline (`date,open,close,high,low,...`): a text of at least five
/// fields whose close reads as a number and whose date chrono reads.
pub open spec fn kline_row(v: Json) -> Option<IndexDataView> {
    match as_str(Some(v)) {
        None => None,
        Some(line) => {
            let parts = crate::text::split(line, ","@);
            if parts.len() >= 5 && float_syntax(parts[2]) {
                match chrono_ymd(parts[0]) {
                    Some(d) => Some(IndexDataView { date: ymd_of(d), close: parts[2] }),
                    None => None,
                }
            } else {
                None
            }
        },
    }
}

/// The klines that read, in order.
pub open spec fn kline_rows(items: Seq<Json>) -> Seq<IndexDataView>
    decreases items.len(),
{
    if items.len() == 0 {
        Seq::empty()
    } else {
        let rest = kline_rows(items.drop_last());
        match kline_row(items.last()) {
            Some(r) => rest.push(r),
            None => rest,
        }
    }
}

/// A page of index history (`qt/stock/kline/get`): the klines of page
/// `page_index` (from 1) of `page_size`, latest first, and `data.total`
/// (the number of klines when absent, cut to 32 bits as given).
pub open spec fn index_page(resp: Json, page_index: u32, page_size: u32) -> Result<
    (Seq<IndexDataView>, u32),
    ErrorView,
> {
    match get(Some(resp), "data"@) {
        None => Err(ErrorView::ParseFailed("Missing data field"@)),
        Some(data) => match as_array(get(Some(data), "klines"@)) {
            None => Err(ErrorView::ParseFailed("Missing klines field"@)),
            Some(klines) => {
                let total = match crate::json::as_u64(get(Some(data), "total"@)) {
                    Some(t) => t as int,
                    None => klines.len() as int,
                };
                let start = (page_index - 1) * page_size;
                let end = if start + page_size < klines.len() {
                    start + page_size
                } else {
                    klines.len() as int
                };
                let rows = if start < end {
                    kline_rows(klines.subrange(start, end))
                } else {
                    Seq::empty()
                };
                Ok((rows.reverse(), total as u32))
            },
        },
    }
}

fn kline_row_exec(v: &Json) -> (r: Option<IndexData>)
    ensures
        match r {
            Some(x) => kline_row(*v) == Some(x@),
            None => kline_row(*v) is None,
        },
{
    let line = match json_str(Some(v)) {
        Some(l) => l,
        None => {
            return None;
        },
    };
    let lc = chars_of(line);
    let comma = chars_of(",");
    proof {
        reveal_strlit(",");
    }
    let parts = crate::text::split_exec(lc.as_slice(), comma.as_slice());
    if parts.len() >= 5 && is_float_text(parts[2].as_slice()) {
        let date_text = string_of(parts[0].as_slice());
        match parse_ymd(date_text.as_str()) {
            Some(d) => Some(
                IndexData {
                    date: Ymd { year: d.0, month: d.1, day: d.2 },
                    close: string_of(parts[2].as_slice()),
                },
            ),
            None => None,
        }
    } else {
        None
    }
}

/// Reads one page of index history from the parsed answer.
pub fn parse_index_page(resp: &Json, page_index: u32, page_size: u32) -> (r: Result<
    (Vec<IndexData>, u32),
    EastMoneyError,
>)
    requires
        page_index >= 1,
        (page_index - 1) * page_size <= u32::MAX,
    ensures
        match index_page(*resp, page_index, page_size) {
            Ok((rows, total)) => r matches Ok((v, t)) && t == total && v@.map_values(
                |x: IndexData| x@,
            ) == rows,
            Err(e) => r matches Err(x) && x@ == e,
        },
{
    let data = match json_get(Some(resp), "data") {
        Some(d) => d,
        None => {
            return Err(EastMoneyError::ParseFailed(String::from_str("Missing data field")));
        },
    };
    let klines = match json_array(json_get(Some(data), "klines")) {
        Some(k) => k,
        None => {
            return Err(EastMoneyError::ParseFailed(String::from_str("Missing klines field")));
        },
    };
    let total: u64 = match crate::json::json_u64(json_get(Some(data), "total")) {
        Some(t) => t,
        None => klines.len() as u64,
    };
    let start64: u64 = ((page_index - 1) * page_size) as u64;
    let end64: u64 = if start64 + (page_size as u64) < (klines.len() as u64) {
        start64 + page_size as u64
    } else {
        klines.len() as u64
    };
    let (start, end): (usize, usize) = if start64 < end64 {
        (start64 as usize, end64 as usize)
    } else {
        (0, 0)
    };
    let mut rows: Vec<IndexData> = Vec::new();
    let ghost sub = if start64 < end64 {
        klines@.subrange(start as int, end as int)
    } else {
        Seq::empty()
    };
    if start64 < end64 {
        let mut i = start;
        assert(sub.take(0) =~= Seq::<Json>::empty());
        assert(rows@.map_values(|x: IndexData| x@) =~= Seq::<IndexDataView>::empty());
        while i < end
            invariant
                start <= i <= end <= klines@.len(),
                sub == klines@.subrange(start as int, end as int),
                kline_rows(sub.take(i - start)) == rows@.map_values(|x: IndexData| x@),
            decreases end - i,
        {
            proof {
                assert(sub.take(i - start + 1).drop_last() =~= sub.take(i - start));
                assert(sub.take(i - start + 1).last() == klines@[i as int]);
            }
            match kline_row_exec(&klines[i]) {
                Some(x) => {
                    let ghost before = rows@;
                    rows.push(x);
                    proof {
                        assert(rows@.map_values(|y: IndexData| y@) =~= before.map_values(
                            |y: IndexData| y@,
                        ).push(x@));
                    }
                },
                None => {},
            }
            i += 1;
        }
        assert(sub.take(i - start) =~= sub);
    } else {
        assert(rows@.map_values(|x: IndexData| x@) =~= Seq::<IndexDataView>::empty());
    }
    let ghost fwd = rows@.map_values(|x: IndexData| x@);
    let rev = reversed(rows);
    proof {
        assert(rev@.map_values(|x: IndexData| x@) =~= fwd.reverse());
    }
    Ok((rev, total as u32))
}

fn reversed<T>(v: Vec<T>) -> (r: Vec<T>)
    ensures
        r@ == v@.reverse(),
{
    let mut input = v;
    let ghost orig = input@;
    let mut out: Vec<T> = Vec::new();
    while input.len() > 0
        invariant
            input@.len() <= orig.len(),
            input@ == orig.take(input@.len() as int),
            out@ == orig.skip(input@.len() as int).reverse(),
        decreases input@.len(),
    {
        let ghost k = input@.len() as int;
        let x = input.pop().unwrap();
        proof {
            assert(input@ =~= orig.take(k - 1));
            assert(out@.push(x) =~= orig.skip(k - 1).reverse());
        }
        out.push(x);
    }
    assert(orig.skip(0) =~= orig);
    out
}

/// `s` without every leading `p` (`str::trim_start_matches`).
pub open spec fn strip_all_prefix(s: Seq<char>, p: Seq<char>) -> Seq<char>
    decreases s.len(),
{
    if p.len() > 0 && p.len() <= s.len() && s.take(p.len() as int) == p {
        strip_all_prefix(s.skip(p.len() as int), p)
    } else {
        s
    }
}

/// `s` without every trailing `p` (`str::trim_end_matches`).
pub open spec fn strip_all_suffix(s: Seq<char>, p: Seq<char>) -> Seq<char>
    decreases s.len(),
{
    if p.len() > 0 && p.len() <= s.len() && s.skip(s.len() - p.len()) == p {
        strip_all_suffix(s.take(s.len() - p.len()), p)
    } else {
        s
    }
}

fn strip_all_prefix_exec(s: &[char], p: &[char]) -> (r: (usize, usize))
    ensures
        r.0 <= r.1 == s@.len(),
        s@.subrange(r.0 as int, r.1 as int) == strip_all_prefix(s@, p@),
{
    let mut lo: usize = 0;
    assert(s@.subrange(0, s@.len() as int) =~= s@);
    while p.len() > 0 && p.len() <= s.len() - lo && crate::text::matches_at_exec(s, p, lo)
        invariant
            lo <= s@.len(),
            strip_all_prefix(s@, p@) == strip_all_prefix(s@.subrange(lo as int, s@.len() as int), p@),
        decreases s@.len() - lo,
    {
        proof {
            let t = s@.subrange(lo as int, s@.len() as int);
            assert(t.take(p@.len() as int) =~= s@.subrange(lo as int, lo + p@.len()));
            assert(t.skip(p@.len() as int) =~= s@.subrange(lo + p@.len(), s@.len() as int));
        }
        lo = lo + p.len();
    }
    proof {
        let t = s@.subrange(lo as int, s@.len() as int);
        if p@.len() > 0 && p@.len() <= t.len() {
            assert(t.take(p@.len() as int) =~= s@.subrange(lo as int, lo + p@.len()));
        }
    }
    (lo, s.len())
}

fn strip_all_suffix_exec(s: &[char], lo: usize, p: &[char]) -> (hi: usize)
    requires
        lo <= s@.len(),
    ensures
        lo <= hi <= s@.len(),
        s@.subrange(lo as int, hi as int) == strip_all_suffix(
            s@.subrange(lo as int, s@.len() as int),
            p@,
        ),
{
    let mut hi: usize = s.len();
    while p.len() > 0 && p.len() <= hi - lo && crate::text::matches_at_exec(s, p, hi - p.len())
        invariant
            lo <= hi <= s@.len(),
            strip_all_suffix(s@.subrange(lo as int, s@.len() as int), p@) == strip_all_suffix(
                s@.subrange(lo as int, hi as int),
                p@,
            ),
        decreases hi - lo,
    {
        proof {
            let t = s@.subrange(lo as int, hi as int);
            assert(t.skip(t.len() - p@.len()) =~= s@.subrange(hi - p@.len(), hi as int));
            assert(t.take(t.len() - p@.len()) =~= s@.subrange(lo as int, hi - p@.len()));
        }
        hi = hi - p.len();
    }
    proof {
        let t = s@.subrange(lo as int, hi as int);
        if p@.len() > 0 && p@.len() <= t.len() {
            assert(t.skip(t.len() - p@.len()) =~= s@.subrange(hi - p@.len(), hi as int));
        }
    }
    hi
}

/// The payload of a JSONP-style answer: every leading `prefix` and every
/// trailing `suffix` taken off, then white space trimmed.
pub open spec fn unwrapped(resp: Seq<char>, prefix: Seq<char>, suffix: Seq<char>) -> Seq<char> {
    crate::text::trim(strip_all_suffix(strip_all_prefix(resp, prefix), suffix))
}

/// `unwrapped(resp@, prefix@, suffix@)`.
pub fn unwrap_payload(resp: &str, prefix: &str, suffix: &str) -> (r: String)
    ensures
        r@ == unwrapped(resp@, prefix@, suffix@),
{
    let s = chars_of(resp);
    let p = chars_of(prefix);
    let q = chars_of(suffix);
    let (lo, _) = strip_all_prefix_exec(s.as_slice(), p.as_slice());
    let hi = strip_all_suffix_exec(s.as_slice(), lo, q.as_slice());
    let mid = crate::text::copy_range(s.as_slice(), lo, hi);
    let t = crate::text::trimmed(mid.as_slice());
    string_of(t.as_slice())
}

/// The JSON text of a real-time estimate answer `jsonpgz({...});`.
pub fn fund_name_payload(resp: &str) -> (r: String)
    ensures
        r@ == unwrapped(resp@, "jsonpgz("@, ");"@),
{
    unwrap_payload(resp, "jsonpgz(", ");")
}

/// The fund name of a parsed estimate answer: its `name`, or the code when
/// there is none.
pub fn fund_name_of(parsed: &Json, fund_code: &str) -> (r: String)
    ensures
        r@ == match as_str(get(Some(*parsed), "name"@)) {
            Some(n) => n,
            None => fund_code@,
        },
{
    match json_str(json_get(Some(parsed), "name")) {
        Some(n) => String::from_str(n),
        None => String::from_str(fund_code),
    }
}

/// The current manager as the data script gives it.
#[derive(Debug, Clone)]
pub struct FundManagerInfo {
    pub name: String,
    /// Not given by the script; always empty.
    pub start_date: String,
    pub tenure_days: i32,
    /// The return over the tenure in percent (the text of the first point
    /// of the first profit series), where given; 0 is taken without one.
    pub total_return_pct: Option<String>,
}

/// The `Data_currentFundManager` array of a data script.
pub fn manager_json_text(js: &str) -> (r: Result<String, EastMoneyError>)
    ensures
        match js_variable_spaced(js@, "Data_currentFundManager"@) {
            Some(t) => r matches Ok(x) && x@ == t,
            None => r matches Err(e) && e@ == ErrorView::ParseFailed("Manager data not found"@),
        },
{
    match extract_js_variable_spaced(js, "Data_currentFundManager") {
        Some(t) => Ok(t),
        None => Err(EastMoneyError::ParseFailed(String::from_str("Manager data not found"))),
    }
}

/// The tenure return of a manager: `profit.series[0].data[0].y`, where it
/// is a number.
pub open spec fn manager_return(m: Json) -> Option<Seq<char>> {
    crate::json::number_text(
        get(
            at(get(at(get(get(Some(m), "profit"@), "series"@), 0), "data"@), 0),
            "y"@,
        ),
    )
}

/// The first manager's `workTime` (empty when absent).
pub open spec fn first_work_time(managers: Seq<Json>) -> Seq<char> {
    if managers.len() > 0 {
        text_member(managers[0], "workTime"@)
    } else {
        Seq::empty()
    }
}

/// What reading the first manager of a parsed `Data_currentFundManager`
/// array gives: an error for an empty array; else `name` (`未知` without
/// one), the days of `workTime` and the tenure return.
pub open spec fn manager_outcome(ms: Seq<Json>, r: Result<FundManagerInfo, EastMoneyError>) -> bool {
    if ms.len() == 0 {
        r matches Err(e) && e@ == ErrorView::ParseFailed("No manager data"@)
    } else {
        r matches Ok(info) && info.name@ == match as_str(get(Some(ms[0]), "name"@)) {
            Some(n) => n,
            None => "未知"@,
        } && info.start_date@.len() == 0 && info.tenure_days == work_time_year_days(
            first_work_time(ms),
        ) + work_time_extra_days(first_work_time(ms)) && crate::ranking::opt_text(
            info.total_return_pct,
        ) == manager_return(ms[0])
    }
}

/// Reads the first manager of the parsed `Data_currentFundManager` array.
pub fn manager_info(managers: &Vec<Json>) -> (r: Result<FundManagerInfo, EastMoneyError>)
    requires
        work_time_readable(first_work_time(managers@)),
    ensures
        manager_outcome(managers@, r),
{
    if managers.len() == 0 {
        return Err(EastMoneyError::ParseFailed(String::from_str("No manager data")));
    }
    let m = &managers[0];
    let name = match json_str(json_get(Some(m), "name")) {
        Some(n) => String::from_str(n),
        None => String::from_str("未知"),
    };
    let work_time = text_member_exec(m, "workTime");
    let tenure_days = parse_work_time(work_time.as_str());
    let y = crate::json::json_number_text(
        json_get(
            json_at(json_get(json_at(json_get(json_get(Some(m), "profit"), "series"), 0), "data"), 0),
            "y",
        ),
    );
    Ok(FundManagerInfo { name, start_date: String::new(), tenure_days, total_return_pct: y })
}

/// `manager_info`, or `None` where the first manager's `workTime` cannot
/// be read as a number of days.
pub fn manager_info_checked(managers: &Vec<Json>) -> (r: Option<Result<FundManagerInfo, EastMoneyError>>)
    ensures
        r is None <==> !work_time_readable(first_work_time(managers@)),
        r matches Some(res) ==> manager_outcome(managers@, res),
{
    let work_time = if managers.len() > 0 {
        text_member_exec(&managers[0], "workTime")
    } else {
        String::new()
    };
    match parse_work_time_checked(work_time.as_str()) {
        Some(_) => Some(manager_info(managers)),
        None => None,
    }
}

/// A `u32` read from a JSON value, or a number
/// whose rounded value is meant.
#[derive(Debug, Clone)]
pub enum U32Field {
    /// The value, or none.
    Exact(Option<u32>),
    /// A number that is no `u64`: its text, to be read and rounded.
    Rounded(String),
}

pub enum U32FieldView {
    Exact(Option<u32>),
    Rounded(Seq<char>),
}

impl View for U32Field {
    type V = U32FieldView;

    open spec fn view(&self) -> U32FieldView {
        match self {
            U32Field::Exact(v) => U32FieldView::Exact(*v),
            U32Field::Rounded(t) => U32FieldView::Rounded(t@),
        }
    }
}

/// A `u32` from a JSON value: a `u64` that fits (none when it does not), a
/// rounded other number, or the digits of a text.
pub open spec fn json_u32(j: Option<Json>) -> U32FieldView {
    match j {
        Some(Json::Number(n)) => match n.as_u64 {
            Some(u) => U32FieldView::Exact(
                if u <= u32::MAX {
                    Some(u as u32)
                } else {
                    None
                },
            ),
            None => U32FieldView::Rounded(n.text@),
        },
        Some(Json::Str(t)) => U32FieldView::Exact(parse_u32(t@)),
        _ => U32FieldView::Exact(None),
    }
}

fn json_u32_exec(j: Option<&Json>) -> (r: U32Field)
    ensures
        match j {
            Some(v) => r@ == json_u32(Some(*v)),
            None => r@ == U32FieldView::Exact(None),
        },
{
    match j {
        Some(Json::Number(n)) => match n.as_u64 {
            Some(u) => U32Field::Exact(
                if u <= 0xFFFF_FFFF {
                    Some(u as u32)
                } else {
                    None
                },
            ),
            None => U32Field::Rounded(n.text.clone()),
        },
        Some(Json::Str(t)) => U32Field::Exact(parse_u32_exec(chars_of(t.as_str()).as_slice())),
        _ => U32Field::Exact(None),
    }
}

/// The latest peer ranking of the last three months.
#[derive(Debug, Clone)]
pub struct PeerRankSnapshot {
    /// The date of the ranking (`YYYY-MM-DD`).
    pub as_of: Option<String>,
    /// The place, 1 being the best.
    pub rank: U32Field,
    /// How many peers were ranked.
    pub peer_count: U32Field,
    /// The percentile (0 to 100, higher is better), as number text.
    pub percentile: Option<String>,
}

/// The snapshot read from the parsed `Data_rateInSimilarType` and
/// `Data_rateInSimilarPersent` arrays (`None` where a variable is missing
/// or no JSON array): the last point of each decides.
pub open spec fn peer_rank(types: Option<Seq<Json>>, pcts: Option<Seq<Json>>) -> (
    Option<Seq<char>>,
    U32FieldView,
    U32FieldView,
    Option<Seq<char>>,
) {
    let (rank, peers, as_of1) = match types {
        Some(a) => if a.len() > 0 {
            let last = a.last();
            (
                json_u32(get(Some(last), "y"@)),
                json_u32(get(Some(last), "sc"@)),
                match as_i64(get(Some(last), "x"@)) {
                    Some(ms) => Some(crate::dates::utc_date_text(ms)),
                    None => None,
                },
            )
        } else {
            (U32FieldView::Exact(None), U32FieldView::Exact(None), None)
        },
        None => (U32FieldView::Exact(None), U32FieldView::Exact(None), None),
    };
    match pcts {
        Some(a) => if a.len() > 0 && as_array(Some(a.last())) is Some {
            let last = a.last();
            let as_of = if as_of1 is Some {
                as_of1
            } else {
                match as_i64(at(Some(last), 0)) {
                    Some(ms) => Some(crate::dates::utc_date_text(ms)),
                    None => None,
                }
            };
            (as_of, rank, peers, crate::json::number_text(at(Some(last), 1)))
        } else {
            (as_of1, rank, peers, None)
        },
        None => (as_of1, rank, peers, None),
    }
}

/// Reads the peer ranking snapshot.
pub fn parse_peer_rank_snapshot(types: Option<&Vec<Json>>, pcts: Option<&Vec<Json>>) -> (r:
    PeerRankSnapshot)
    ensures
        peer_rank(
            match types {
                Some(a) => Some(a@),
                None => None,
            },
            match pcts {
                Some(a) => Some(a@),
                None => None,
            },
        ) == (crate::ranking::opt_text(r.as_of), r.rank@, r.peer_count@, crate::ranking::opt_text(
            r.percentile,
        )),
{
    let mut out = PeerRankSnapshot {
        as_of: None,
        rank: U32Field::Exact(None),
        peer_count: U32Field::Exact(None),
        percentile: None,
    };
    match types {
        Some(a) => {
            if a.len() > 0 {
                let last = &a[a.len() - 1];
                out.rank = json_u32_exec(json_get(Some(last), "y"));
                out.peer_count = json_u32_exec(json_get(Some(last), "sc"));
                match json_i64(json_get(Some(last), "x")) {
                    Some(ms) => {
                        out.as_of = Some(crate::dates::date_of_millis(ms));
                    },
                    None => {},
                }
            }
        },
        None => {},
    }
    match pcts {
        Some(a) => {
            if a.len() > 0 {
                let last = &a[a.len() - 1];
                if json_array(Some(last)).is_some() {
                    out.percentile = crate::json::json_number_text(json_at(Some(last), 1));
                    if out.as_of.is_none() {
                        match json_i64(json_at(Some(last), 0)) {
                            Some(ms) => {
                                out.as_of = Some(crate::dates::date_of_millis(ms));
                            },
                            None => {},
                        }
                    }
                }
            }
        },
        None => {},
    }
    out
}

/// The fee texts of a data script: the list rate (`fund_sourceRate`) is
/// the management fee, the current rate (`fund_Rate`) the purchase fee;
/// `0` for a rate that is missing. The script gives no custody or
/// redemption fee; both are taken as 0.
#[derive(Debug, Clone)]
pub struct FundFeeInfo {
    pub management_fee: String,
    pub purchase_fee: String,
}

/// A text variable of the script, or `0`.
pub open spec fn rate_text(js: Seq<char>, name: Seq<char>) -> Seq<char> {
    match js_string_value(js, name) {
        Some(t) => t,
        None => "0"@,
    }
}

fn rate_text_exec(js: &str, name: &str) -> (r: String)
    ensures
        r@ == rate_text(js@, name@),
{
    match extract_js_string_value(js, name) {
        Some(t) => t,
        None => String::from_str("0"),
    }
}

/// Reads the fee rates of a data script.
pub fn fund_fee_texts(js: &str) -> (r: FundFeeInfo)
    ensures
        r.management_fee@ == rate_text(js@, "fund_sourceRate"@),
        r.purchase_fee@ == rate_text(js@, "fund_Rate"@),
{
    FundFeeInfo {
        management_fee: rate_text_exec(js, "fund_sourceRate"),
        purchase_fee: rate_text_exec(js, "fund_Rate"),
    }
}

/// The short name of a data script (`fS_name`), or `未知`.
pub fn profile_name(js: &str) -> (r: String)
    ensures
        r@ == match js_string_value(js@, "fS_name"@) {
            Some(n) => n,
            None => "未知"@,
        },
{
    match extract_js_string_value(js, "fS_name") {
        Some(n) => n,
        None => String::from_str("未知"),
    }
}

/// A fund's profile: the data script's name, manager and management fee,
/// and the fact sheet's fields.
#[derive(Debug, Clone)]
pub struct FundProfile {
    pub code: String,
    pub name: String,
    pub full_name: String,
    pub fund_type: String,
    pub establishment_date: String,
    pub asset_size: String,
    pub company: String,
    pub manager_name: String,
    pub manager_tenure_days: i32,
    pub manager_total_return_pct: Option<String>,
    /// The management fee text; `f64::from_str` may refuse it, 0 is then
    /// taken.
    pub management_fee: String,
    /// The custody fee text; the data script gives none, so it is `0`.
    pub custody_fee: String,
    pub investment_target: String,
    pub investment_scope: String,
    pub investment_strategy: String,
    pub benchmark: String,
}

/// The profile of fund `code`: the fact sheet's full name where it has
/// one, else the short name.
pub fn assemble_profile(
    code: &str,
    name: String,
    manager: FundManagerInfo,
    management_fee: String,
    detail: crate::jbgk::FundDetailBasic,
) -> (p: FundProfile)
    ensures
        p.code@ == code@,
        p.name@ == name@,
        p.full_name@ == match detail.full_name {
            Some(f) => f@,
            None => name@,
        },
        p.fund_type == detail.fund_type,
        p.establishment_date == detail.establishment_date,
        p.asset_size == detail.asset_size,
        p.company == detail.company,
        p.manager_name == manager.name,
        p.manager_tenure_days == manager.tenure_days,
        p.manager_total_return_pct == manager.total_return_pct,
        p.management_fee == management_fee,
        p.custody_fee@ == "0"@,
        p.investment_target == detail.investment_target,
        p.investment_scope == detail.investment_scope,
        p.investment_strategy == detail.investment_strategy,
        p.benchmark == detail.benchmark,
{
    let full_name = match detail.full_name {
        Some(f) => f,
        None => name.clone(),
    };
    FundProfile {
        code: String::from_str(code),
        name,
        full_name,
        fund_type: detail.fund_type,
        establishment_date: detail.establishment_date,
        asset_size: detail.asset_size,
        company: detail.company,
        manager_name: manager.name,
        manager_tenure_days: manager.tenure_days,
        manager_total_return_pct: manager.total_return_pct,
        management_fee,
        custody_fee: String::from_str("0"),
        investment_target: detail.investment_target,
        investment_scope: detail.investment_scope,
        investment_strategy: detail.investment_strategy,
        benchmark: detail.benchmark,
    }
}

/// `p` is the profile of fund `code` read from its data script `js`, its
/// fact sheet `html` and the script's parsed manager list `ms`: the short
/// name (or `未知`), the fact sheet's full name (or the short name), the
/// fact-sheet fields, the first manager, the management fee text and a
/// custody fee of `0`.
pub open spec fn is_profile(p: FundProfile, code: Seq<char>, js: Seq<char>, html: Seq<char>, ms: Seq<Json>) -> bool {
    let name = match js_string_value(js, "fS_name"@) {
        Some(n) => n,
        None => "未知"@,
    };
    &&& p.code@ == code
    &&& p.name@ == name
    &&& p.full_name@ == match td_after_keyword(html, "基金全称"@) {
        Some(f) => f,
        None => name,
    }
    &&& p.fund_type@ == or_empty(td_after_keyword(html, "基金类型"@))
    &&& p.establishment_date@ == or_empty(td_after_keyword(html, "成立日期"@))
    &&& p.asset_size@ == or_empty(td_after_keyword(html, "资产规模"@))
    &&& p.company@ == or_empty(td_after_keyword(html, "基金管理人"@))
    &&& p.investment_target@ == or_empty(tditem_after_keyword(html, "投资目标"@))
    &&& p.investment_scope@ == or_empty(tditem_after_keyword(html, "投资范围"@))
    &&& p.investment_strategy@ == or_empty(tditem_after_keyword(html, "投资策略"@))
    &&& p.benchmark@ == or_empty(td_after_keyword(html, "业绩比较基准"@))
    &&& p.manager_name@ == match as_str(get(Some(ms[0]), "name"@)) {
        Some(n) => n,
        None => "未知"@,
    }
    &&& p.manager_tenure_days == work_time_year_days(first_work_time(ms)) + work_time_extra_days(
        first_work_time(ms),
    )
    &&& crate::ranking::opt_text(p.manager_total_return_pct) == manager_return(ms[0])
    &&& p.management_fee@ == rate_text(js, "fund_sourceRate"@)
    &&& p.custody_fee@ == "0"@
}

/// The profile of fund `code` from its data script and its fact sheet.
/// The manager list decides the errors: missing, unreadable or empty.
/// `None` where the first manager's `workTime` cannot be read (the text
/// on which the tenure reading gives out).
pub fn parse_fund_profile(code: &str, js: &str, html: &str) -> (r: Option<Result<FundProfile, EastMoneyError>>)
    ensures
        match js_variable_spaced(js@, "Data_currentFundManager"@) {
            None => r matches Some(Err(e)) && e@ == ErrorView::ParseFailed("Manager data not found"@),
            Some(t) => match crate::json::json_array_value(t) {
                Err(m) => r matches Some(Err(e)) && e@ == ErrorView::ParseFailed(
                    "Failed to parse manager data: "@ + m,
                ),
                Ok(ms) => if !work_time_readable(first_work_time(ms)) {
                    r is None
                } else if ms.len() == 0 {
                    r matches Some(Err(e)) && e@ == ErrorView::ParseFailed("No manager data"@)
                } else {
                    r matches Some(Ok(p)) && is_profile(p, code@, js@, html@, ms)
                },
            },
        },
{
    let name = profile_name(js);
    let manager = match fund_manager_from_script(js) {
        None => {
            return None;
        },
        Some(Err(e)) => {
            return Some(Err(e));
        },
        Some(Ok(m)) => m,
    };
    let fee = fund_fee_texts(js).management_fee;
    let detail = crate::jbgk::parse_fund_detail_basic(html);
    Some(Ok(assemble_profile(code, name, manager, fee, detail)))
}

/// What `serde_json::from_str::<Vec<Vec<String>>>` gives for a text: the
/// rows, or the text of its error.
pub uninterp spec fn json_string_rows(text: Seq<char>) -> Result<Seq<Seq<Seq<char>>>, Seq<char>>;

/// The text of a list of string rows.
pub open spec fn rows_view(v: Vec<Vec<String>>) -> Seq<Seq<Seq<char>>> {
    v@.map_values(|r: Vec<String>| r@.map_values(|c: String| c@))
}

/// Reads a JSON array of string arrays with serde_json; the contract names
/// the result, error text included.
#[verifier::external_body]
fn read_string_rows(text: &str) -> (r: Result<Vec<Vec<String>>, String>)
    ensures
        match r {
            Ok(v) => json_string_rows(text@) == Ok::<Seq<Seq<Seq<char>>>, Seq<char>>(rows_view(v)),
            Err(e) => json_string_rows(text@) == Err::<Seq<Seq<Seq<char>>>, Seq<char>>(e@),
        },
{
    serde_json::from_str::<Vec<Vec<String>>>(text).map_err(|e| e.to_string())
}

/// What `str::to_lowercase` gives: the Unicode lower case of each
/// character.
pub uninterp spec fn unicode_lower(s: Seq<char>) -> Seq<char>;

/// `s.to_lowercase()`; the contract names the result.
#[verifier::external_body]
fn lowercase(s: &str) -> (r: String)
    ensures
        r@ == unicode_lower(s@),
{
    s.to_lowercase()
}

/// The search results among the fund list rows `[code, abbreviation,
/// name, ...]`: the code and name of each row whose lower-cased code or
/// name holds the lower-cased keyword, ten at most, in order. Rows of fewer
/// than two fields are passed over; `None` where a row of exactly two
/// fields is reached before ten results (the list cannot be read there).
pub open spec fn search_scan(rows: Seq<Seq<Seq<char>>>, kw: Seq<char>, need: nat) -> Option<
    Seq<(Seq<char>, Seq<char>)>,
>
    decreases rows.len(),
{
    if need == 0 || rows.len() == 0 {
        Some(Seq::empty())
    } else {
        let r = rows[0];
        if r.len() < 2 {
            search_scan(rows.drop_first(), kw, need)
        } else if r.len() < 3 {
            None
        } else if crate::text::contains(unicode_lower(r[0]), kw) || crate::text::contains(
            unicode_lower(r[2]),
            kw,
        ) {
            match search_scan(rows.drop_first(), kw, (need - 1) as nat) {
                Some(t) => Some(seq![(r[0], r[2])] + t),
                None => None,
            }
        } else {
            search_scan(rows.drop_first(), kw, need)
        }
    }
}

/// The text of a list of pairs.
pub open spec fn pairs_text(v: Seq<(String, String)>) -> Seq<(Seq<char>, Seq<char>)> {
    v.map_values(|p: (String, String)| (p.0@, p.1@))
}

fn row_matches(r: &Vec<String>, kw: &str) -> (b: bool)
    requires
        r@.len() >= 3,
    ensures
        b == (crate::text::contains(unicode_lower(r@[0]@), kw@) || crate::text::contains(
            unicode_lower(r@[2]@),
            kw@,
        )),
{
    let c = lowercase(r[0].as_str());
    if crate::text::contains_lit(chars_of(c.as_str()).as_slice(), kw) {
        return true;
    }
    let n = lowercase(r[2].as_str());
    crate::text::contains_lit(chars_of(n.as_str()).as_slice(), kw)
}

/// The search results for the lower-cased keyword `kw`, or `None` where the
/// list cannot be read (see `search_scan`).
pub fn search_rows(rows: &Vec<Vec<String>>, kw: &str) -> (r: Option<Vec<(String, String)>>)
    ensures
        match r {
            Some(v) => search_scan(rows_view(*rows), kw@, 10) == Some(pairs_text(v@)),
            None => search_scan(rows_view(*rows), kw@, 10) is None,
        },
{
    let ghost all = rows_view(*rows);
    let mut out: Vec<(String, String)> = Vec::new();
    let mut i: usize = 0;
    assert(all.skip(0) =~= all);
    assert(pairs_text(out@) =~= Seq::<(Seq<char>, Seq<char>)>::empty());
    while i < rows.len() && out.len() < 10
        invariant
            i <= rows@.len(),
            out@.len() <= 10,
            all == rows_view(*rows),
            search_scan(all, kw@, 10) == match search_scan(
                all.skip(i as int),
                kw@,
                (10 - out@.len()) as nat,
            ) {
                Some(t) => Some(pairs_text(out@) + t),
                None => None,
            },
        decreases rows@.len() - i,
    {
        let r = &rows[i];
        let ghost u = all.skip(i as int);
        proof {
            assert(u[0] == r@.map_values(|c: String| c@));
            assert(u.drop_first() =~= all.skip(i + 1));
        }
        if r.len() >= 2 {
            if r.len() < 3 {
                return None;
            }
            if row_matches(r, kw) {
                let ghost before = pairs_text(out@);
                out.push((r[0].clone(), r[2].clone()));
                proof {
                    assert(pairs_text(out@) =~= before.push((r@[0]@, r@[2]@)));
                    let need = (10 - (out@.len() - 1)) as nat;
                    match search_scan(all.skip(i + 1), kw@, (need - 1) as nat) {
                        Some(t) => {
                            assert(before + (seq![(r@[0]@, r@[2]@)] + t) =~= pairs_text(out@) + t);
                        },
                        None => {},
                    }
                }
            }
        }
        i += 1;
    }
    proof {
        let need = (10 - out@.len()) as nat;
        if need == 0 {
        } else {
            assert(all.skip(i as int).len() == 0);
        }
        assert(pairs_text(out@) + Seq::<(Seq<char>, Seq<char>)>::empty() =~= pairs_text(out@));
    }
    Some(out)
}

/// The search payload of the fund list script `var r = [...];`.
pub fn search_payload(resp: &str) -> (r: String)
    ensures
        r@ == unwrapped(resp@, "var r = "@, ";"@),
{
    unwrap_payload(resp, "var r = ", ";")
}

/// Searches the fund list script for a keyword: the read error of the
/// list, or the results (`None` where the list cannot be read, see
/// `search_scan`).
pub fn search_fund_list(resp: &str, keyword: &str) -> (r: Result<Option<Vec<(String, String)>>, EastMoneyError>)
    ensures
        match json_string_rows(unwrapped(resp@, "var r = "@, ";"@)) {
            Err(msg) => r matches Err(e) && e@ == ErrorView::ParseFailed(msg),
            Ok(rows) => r matches Ok(found) && match found {
                Some(v) => search_scan(rows, unicode_lower(keyword@), 10) == Some(pairs_text(v@)),
                None => search_scan(rows, unicode_lower(keyword@), 10) is None,
            },
        },
{
    let payload = search_payload(resp);
    let rows = match read_string_rows(payload.as_str()) {
        Ok(r) => r,
        Err(e) => {
            return Err(EastMoneyError::ParseFailed(e));
        },
    };
    let kw = lowercase(keyword);
    Ok(search_rows(&rows, kw.as_str()))
}

/// Reads a page of net-value history of the fund `fund_code` from the
/// service's answer text.
pub fn parse_nav_history(text: &str, fund_code: &str) -> (r: Result<(Vec<NavRow>, u32), EastMoneyError>)
    ensures
        match crate::json::json_value(text@) {
            Err(m) => r matches Err(e) && e@ == ErrorView::ParseFailed(m),
            Ok(parsed) => match nav_page(parsed, fund_code@) {
                Ok((rows, total)) => r matches Ok((v, t)) && t == total && v@.map_values(
                    |x: NavRow| x@,
                ) == rows,
                Err(e) => r matches Err(x) && x@ == e,
            },
        },
        r matches Ok((v, _)) ==> forall|i: int| 0 <= i < v@.len() ==> (#[trigger] v@[i]).code@ == fund_code@,
{
    match crate::json::read_json(text) {
        Err(m) => Err(EastMoneyError::ParseFailed(m)),
        Ok(parsed) => parse_nav_page(&parsed, fund_code),
    }
}

/// The fund name of a real-time estimate answer `jsonpgz({...});`: its
/// `name`, the code without one, or the reading error.
pub fn fund_name_from_answer(resp: &str, fund_code: &str) -> (r: Result<String, EastMoneyError>)
    ensures
        match crate::json::json_value(unwrapped(resp@, "jsonpgz("@, ");"@)) {
            Err(m) => r matches Err(e) && e@ == ErrorView::ParseFailed(m),
            Ok(parsed) => r matches Ok(n) && n@ == match as_str(get(Some(parsed), "name"@)) {
                Some(x) => x,
                None => fund_code@,
            },
        },
{
    let payload = fund_name_payload(resp);
    match crate::json::read_json(payload.as_str()) {
        Err(m) => Err(EastMoneyError::ParseFailed(m)),
        Ok(parsed) => Ok(fund_name_of(&parsed, fund_code)),
    }
}

/// The current manager of a data script: the errors of a missing or
/// unreadable `Data_currentFundManager` array or of an empty one, else the
/// first manager; `None` where that manager's `workTime` cannot be read as
/// a number of days.
pub fn fund_manager_from_script(js: &str) -> (r: Option<Result<FundManagerInfo, EastMoneyError>>)
    ensures
        match js_variable_spaced(js@, "Data_currentFundManager"@) {
            None => r matches Some(Err(e)) && e@ == ErrorView::ParseFailed(
                "Manager data not found"@,
            ),
            Some(t) => match crate::json::json_array_value(t) {
                Err(m) => r matches Some(Err(e)) && e@ == ErrorView::ParseFailed(
                    "Failed to parse manager data: "@ + m,
                ),
                Ok(ms) => if !work_time_readable(first_work_time(ms)) {
                    r is None
                } else {
                    r matches Some(res) && manager_outcome(ms, res)
                },
            },
        },
{
    let text = match manager_json_text(js) {
        Ok(t) => t,
        Err(e) => {
            return Some(Err(e));
        },
    };
    let managers = match crate::json::read_json_array(text.as_str()) {
        Ok(ms) => ms,
        Err(m) => {
            return Some(
                Err(EastMoneyError::ParseFailed(String::from_str("Failed to parse manager data: ").concat(m.as_str()))),
            );
        },
    };
    manager_info_checked(&managers)
}

/// The text of an array variable of a script read as a JSON array; `None`
/// where the variable is missing or serde_json does not read it.
pub open spec fn script_array(js: Seq<char>, name: Seq<char>) -> Option<Seq<Json>> {
    match js_variable(js, name) {
        None => None,
        Some(t) => match crate::json::json_array_value(t) {
            Ok(a) => Some(a),
            Err(_) => None,
        },
    }
}

fn script_array_exec(js: &str, name: &str) -> (r: Option<Vec<Json>>)
    ensures
        match r {
            Some(a) => script_array(js@, name@) == Some(a@),
            None => script_array(js@, name@) is None,
        },
{
    match extract_js_variable(js, name) {
        None => None,
        Some(t) => match crate::json::read_json_array(t.as_str()) {
            Ok(a) => Some(a),
            Err(_) => None,
        },
    }
}

/// The peer ranking snapshot of a data script.
pub fn peer_rank_from_script(js: &str) -> (r: PeerRankSnapshot)
    ensures
        peer_rank(
            script_array(js@, "Data_rateInSimilarType"@),
            script_array(js@, "Data_rateInSimilarPersent"@),
        ) == (crate::ranking::opt_text(r.as_of), r.rank@, r.peer_count@, crate::ranking::opt_text(
            r.percentile,
        )),
{
    let types = script_array_exec(js, "Data_rateInSimilarType");
    let pcts = script_array_exec(js, "Data_rateInSimilarPersent");
    parse_peer_rank_snapshot(types.as_ref(), pcts.as_ref())
}

} // verus!
