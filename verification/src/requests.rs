//! What the client asks the services for: the addresses of its requests,
//! and the decisions of the paged downloads (which page to fetch next,
//! when to stop, what to keep).

use crate::dates::{decimal, int_text, i64_text, u64_text, Ymd};
use crate::navs::{date_map, dates_increasing, merge_navs_by_date};
use crate::ranking::{FundRankEntry, FundRankingPage};
use vstd::prelude::*;

verus! {

/// The referer of the net-value history pages.
pub fn nav_history_referer(fund_code: &str) -> (r: String)
    ensures
        r@ == "https://fundf10.eastmoney.com/jjjz_"@ + fund_code@ + ".html"@,
{
    crate::text::join3("https://fundf10.eastmoney.com/jjjz_", fund_code, ".html")
}

/// The net-value history page `page_index` of `page_size` points.
pub fn nav_history_url(fund_code: &str, page_index: u32, page_size: u32) -> (r: String)
    ensures
        r@ == "https://api.fund.eastmoney.com/f10/lsjz?fundCode="@ + fund_code@ + "&pageIndex="@
            + decimal(page_index as nat) + "&pageSize="@ + decimal(page_size as nat),
{
    let pi = u64_text(page_index as u64);
    let ps = u64_text(page_size as u64);
    let a = crate::text::join3("https://api.fund.eastmoney.com/f10/lsjz?fundCode=", fund_code, "&pageIndex=");
    a.concat(pi.as_str()).concat("&pageSize=").concat(ps.as_str())
}

/// The real-time estimate script of a fund, `rt` being the time of the
/// request in milliseconds.
pub fn fund_name_url(fund_code: &str, rt_millis: i64) -> (r: String)
    ensures
        r@ == "https://fundgz.1234567.com.cn/js/"@ + fund_code@ + ".js?rt="@ + int_text(
            rt_millis as int,
        ),
{
    let rt = i64_text(rt_millis);
    crate::text::join3("https://fundgz.1234567.com.cn/js/", fund_code, ".js?rt=").concat(rt.as_str())
}

/// The daily klines of an index (`secid` such as `1.000300`).
pub fn index_history_url(index_code: &str) -> (r: String)
    ensures
        r@ == "https://push2his.eastmoney.com/api/qt/stock/kline/get?secid="@ + index_code@
            + "&fields1=f1,f2,f3,f4,f5,f6,f7,f8,f9,f10,f11,f12,f13&fields2=f51,f52,f53,f54,f55,f56,f57,f58,f59,f60,f61&klt=101&fqt=0&beg=0&end=20500101&smplmt=460&lmt=1000000&_=1704067200000"@,
{
    crate::text::join3(
        "https://push2his.eastmoney.com/api/qt/stock/kline/get?secid=",
        index_code,
        "&fields1=f1,f2,f3,f4,f5,f6,f7,f8,f9,f10,f11,f12,f13&fields2=f51,f52,f53,f54,f55,f56,f57,f58,f59,f60,f61&klt=101&fqt=0&beg=0&end=20500101&smplmt=460&lmt=1000000&_=1704067200000",
    )
}

/// The data script (`pingzhongdata`) of a fund.
pub fn pingzhongdata_url(fund_code: &str) -> (r: String)
    ensures
        r@ == "https://fund.eastmoney.com/pingzhongdata/"@ + fund_code@ + ".js"@,
{
    crate::text::join3("https://fund.eastmoney.com/pingzhongdata/", fund_code, ".js")
}

/// The fact sheet (`jbgk`) of a fund.
pub fn fact_sheet_url(fund_code: &str) -> (r: String)
    ensures
        r@ == "https://fundf10.eastmoney.com/jbgk_"@ + fund_code@ + ".html"@,
{
    crate::text::join3("https://fundf10.eastmoney.com/jbgk_", fund_code, ".html")
}

/// One page of the open-end fund ranking of type `ft`, ordered by column
/// `sc`, descending.
pub fn ranking_url(fund_type: &str, sort_code: &str, page_index: u32, page_size: u32) -> (r:
    String)
    ensures
        r@ == "https://fund.eastmoney.com/data/rankhandler.aspx?op=ph&dt=kf&ft="@ + fund_type@
            + "&rs=&gs=0&sc="@ + sort_code@ + "&st=desc&pi="@ + decimal(page_index as nat)
            + "&pn="@ + decimal(page_size as nat),
{
    let pi = u64_text(page_index as u64);
    let pn = u64_text(page_size as u64);
    crate::text::join3(
        "https://fund.eastmoney.com/data/rankhandler.aspx?op=ph&dt=kf&ft=",
        fund_type,
        "&rs=&gs=0&sc=",
    ).concat(sort_code).concat("&st=desc&pi=").concat(pi.as_str()).concat("&pn=").concat(
        pn.as_str(),
    )
}

/// The industry allocation script of a fund.
pub fn industry_url(fund_code: &str) -> (r: String)
    ensures
        r@ == "https://fundf10.eastmoney.com/F10DataApi.aspx?type=hypz&code="@ + fund_code@
            + "&topline=500&company=&sector=&reportName="@,
{
    crate::text::join3(
        "https://fundf10.eastmoney.com/F10DataApi.aspx?type=hypz&code=",
        fund_code,
        "&topline=500&company=&sector=&reportName=",
    )
}

/// The referer of the industry allocation script.
pub fn industry_referer(fund_code: &str) -> (r: String)
    ensures
        r@ == "https://fundf10.eastmoney.com/"@ + fund_code@ + ".html"@,
{
    crate::text::join3("https://fundf10.eastmoney.com/", fund_code, ".html")
}

/// The asset allocation page of a fund.
pub fn allocation_url(fund_code: &str) -> (r: String)
    ensures
        r@ == "https://fundf10.eastmoney.com/zcpz_"@ + fund_code@ + ".html"@,
{
    crate::text::join3("https://fundf10.eastmoney.com/zcpz_", fund_code, ".html")
}

/// The referer of the holdings scripts.
pub fn holdings_referer(fund_code: &str) -> (r: String)
    ensures
        r@ == "https://fundf10.eastmoney.com/ccmx_"@ + fund_code@ + ".html"@,
{
    crate::text::join3("https://fundf10.eastmoney.com/ccmx_", fund_code, ".html")
}

/// How many holdings are asked for: `topline` brought into 1 to 50.
pub open spec fn holdings_top(topline: u32) -> u32 {
    if topline < 1 {
        1
    } else if topline > 50 {
        50
    } else {
        topline
    }
}

/// `holdings_top(topline)`.
pub fn holdings_top_exec(topline: u32) -> (r: u32)
    ensures
        r == holdings_top(topline),
{
    if topline < 1 {
        1
    } else if topline > 50 {
        50
    } else {
        topline
    }
}

/// The holdings script of the latest report, `top` rows at most.
pub fn holdings_url(fund_code: &str, top: u32) -> (r: String)
    ensures
        r@ == "https://fundf10.eastmoney.com/FundArchivesDatas.aspx?type=jjcc&code="@ + fund_code@
            + "&topline="@ + decimal(top as nat) + "&year=&month="@,
{
    let t = u64_text(top as u64);
    crate::text::join3(
        "https://fundf10.eastmoney.com/FundArchivesDatas.aspx?type=jjcc&code=",
        fund_code,
        "&topline=",
    ).concat(t.as_str()).concat("&year=&month=")
}

/// The holdings script of the report of `year` and `month`.
pub fn holdings_report_url(fund_code: &str, top: u32, year: u32, month: u32) -> (r: String)
    ensures
        r@ == "https://fundf10.eastmoney.com/FundArchivesDatas.aspx?type=jjcc&code="@ + fund_code@
            + "&topline="@ + decimal(top as nat) + "&year="@ + decimal(year as nat) + "&month="@
            + decimal(month as nat),
{
    let t = u64_text(top as u64);
    let y = u64_text(year as u64);
    let m = u64_text(month as u64);
    crate::text::join3(
        "https://fundf10.eastmoney.com/FundArchivesDatas.aspx?type=jjcc&code=",
        fund_code,
        "&topline=",
    ).concat(t.as_str()).concat("&year=").concat(y.as_str()).concat("&month=").concat(m.as_str())
}

/// The report three months before a report date: its year (as chrono's
/// year cut to 32 unsigned bits) and month; none before chrono's first
/// year.
pub open spec fn prior_report(d: Ymd) -> Option<(u32, u32)> {
    let months = d.year * 12 + d.month - 1 - 3;
    let year = months / 12;
    let month = months % 12 + 1;
    if year < -262143 {
        None
    } else {
        Some((year as u32, month as u32))
    }
}

/// The year and month of the report before `as_of` (`YYYY-MM-DD`), if
/// chrono reads the date.
pub fn prior_report_year_month(as_of: &str) -> (r: Option<(u32, u32)>)
    ensures
        r == match crate::dates::chrono_ymd(crate::text::trim(as_of@)) {
            Some(d) => prior_report(crate::dates::ymd_of(d)),
            None => None,
        },
{
    let t = crate::text::string_of(crate::text::trimmed(crate::text::chars_of(as_of).as_slice()).as_slice());
    let d = match crate::dates::parse_ymd(t.as_str()) {
        Some(d) => d,
        None => {
            return None;
        },
    };
    let months: i64 = (d.0 as i64) * 12 + (d.1 as i64) - 1 - 3;
    let year: i64 = if months >= 0 {
        months / 12
    } else {
        -((-months + 11) / 12)
    };
    let month: i64 = months - year * 12 + 1;
    proof {
        assert(year == months / 12 && month == months % 12 + 1) by (nonlinear_arith)
            requires
                months >= 0 ==> year == months / 12,
                months < 0 ==> year == -((-months + 11) / 12),
                month == months - year * 12 + 1,
        ;
    }
    if year < -262143 {
        return None;
    }
    Some((year as u32, month as u32))
}

/// The page size of the ranking download for `top` rows: `top`, at least
/// 1 and at most 100.
pub open spec fn ranking_page_size(top: u32) -> u32 {
    if top < 1 {
        1
    } else if top > 100 {
        100
    } else {
        top
    }
}

/// `ranking_page_size(top)`.
pub fn ranking_page_size_exec(top: u32) -> (r: u32)
    ensures
        r == ranking_page_size(top),
{
    if top < 1 {
        1
    } else if top > 100 {
        100
    } else {
        top
    }
}

/// The download of the first `top` rows of a ranking, page after page:
/// it asks for the next page while it holds fewer than `top` rows, and
/// stops at an empty page or one shorter than the page size.
pub struct RankingCollector {
    top: u32,
    page_size: u32,
    total_records: u32,
    rows: Vec<FundRankEntry>,
    next_page: u32,
    done: bool,
}

/// The state of a ranking download.
pub struct RankingCollectorView {
    pub top: u32,
    pub page_size: u32,
    pub total_records: u32,
    pub rows: Seq<crate::ranking::RankRowView>,
    pub next_page: u32,
    pub done: bool,
}

impl View for RankingCollector {
    type V = RankingCollectorView;

    closed spec fn view(&self) -> RankingCollectorView {
        RankingCollectorView {
            top: self.top,
            page_size: self.page_size,
            total_records: self.total_records,
            rows: self.rows@.map_values(|e: FundRankEntry| e@),
            next_page: self.next_page,
            done: self.done,
        }
    }
}

/// The text of a page's rows.
pub open spec fn page_rows(p: FundRankingPage) -> Seq<crate::ranking::RankRowView> {
    p.rows@.map_values(|e: FundRankEntry| e@)
}

impl RankingCollector {
    /// The download after its first page (page 1, of
    /// `ranking_page_size(top)` rows), which gives the record count.
    pub fn new(top: u32, first: FundRankingPage) -> (c: RankingCollector)
        ensures
            c@.top == top,
            c@.page_size == ranking_page_size(top),
            c@.total_records == first.total_records,
            c@.rows == page_rows(first),
            c@.next_page == 2,
            !c@.done,
    {
        RankingCollector {
            top,
            page_size: ranking_page_size_exec(top),
            total_records: first.total_records,
            rows: first.rows,
            next_page: 2,
            done: false,
        }
    }

    /// The page to ask for next and its size, or `None` when the download
    /// is over: it is done, or it holds `top` rows.
    pub fn next_request(&self) -> (r: Option<(u32, u32)>)
        ensures
            r == if !self@.done && (self@.rows.len() as u32) < self@.top {
                Some((self@.next_page, self@.page_size))
            } else {
                None::<(u32, u32)>
            },
    {
        if !self.done && (self.rows.len() as u32) < self.top {
            Some((self.next_page, self.page_size))
        } else {
            None
        }
    }

    /// Takes in the page just fetched: an empty page ends the download; the
    /// rows of another are appended, and a page shorter than the page size
    /// ends it too.
    pub fn add_page(&mut self, page: FundRankingPage)
        requires
            old(self)@.next_page < u32::MAX,
        ensures
            final(self)@.top == old(self)@.top,
            final(self)@.page_size == old(self)@.page_size,
            final(self)@.total_records == old(self)@.total_records,
            page_rows(page).len() == 0 ==> final(self)@.done && final(self)@.rows
                == old(self)@.rows && final(self)@.next_page == old(self)@.next_page,
            page_rows(page).len() > 0 ==> final(self)@.rows == old(self)@.rows + page_rows(page),
            page_rows(page).len() > 0 && page_rows(page).len() < old(self)@.page_size
                ==> final(self)@.done && final(self)@.next_page == old(self)@.next_page,
            page_rows(page).len() > 0 && page_rows(page).len() >= old(self)@.page_size
                ==> final(self)@.done
                == old(self)@.done && final(self)@.next_page == old(self)@.next_page + 1,
    {
        let got = page.rows.len();
        if got == 0 {
            self.done = true;
            return;
        }
        let mut more = page.rows;
        let ghost before = self.rows@;
        let ghost added = more@;
        self.rows.append(&mut more);
        proof {
            assert(self.rows@.map_values(|e: FundRankEntry| e@) =~= before.map_values(
                |e: FundRankEntry| e@,
            ) + added.map_values(|e: FundRankEntry| e@));
        }
        if got < self.page_size as usize {
            self.done = true;
            return;
        }
        self.next_page = self.next_page + 1;
    }

    /// The ranking page collected: at most `top` rows, in the order
    /// fetched, and the record count of the first page.
    pub fn finish(self) -> (p: FundRankingPage)
        ensures
            p.total_records == self@.total_records,
            page_rows(p) == if self@.rows.len() > self@.top {
                self@.rows.take(self@.top as int)
            } else {
                self@.rows
            },
    {
        let mut rows = self.rows;
        let ghost before = rows@;
        rows.truncate(self.top as usize);
        proof {
            if before.len() > self.top {
                assert(rows@.map_values(|e: FundRankEntry| e@) =~= before.map_values(
                    |e: FundRankEntry| e@,
                ).take(self.top as int));
            } else {
                assert(rows@ =~= before);
            }
        }
        FundRankingPage { rows, total_records: self.total_records }
    }
}

/// The page after `page_index` of a full net-value download, or `None`
/// when the pages fetched, of `page_size` points each, cover the `total`.
pub fn nav_all_next_page(page_index: u32, page_size: u32, total: u32) -> (r: Option<u32>)
    requires
        page_index * page_size <= u32::MAX,
        page_index < u32::MAX,
    ensures
        r == if page_index * page_size >= total {
            None::<u32>
        } else {
            Some((page_index + 1) as u32)
        },
{
    if page_index * page_size >= total {
        None
    } else {
        Some(page_index + 1)
    }
}

/// Whether a download of the last `days` days asks for anything.
pub fn nav_days_requested(days: u32) -> (b: bool)
    ensures
        b == (days > 0),
{
    days > 0
}

/// The page after `page` of a download back to a cutoff date, pages of
/// 100 points: none after an empty page, once the oldest point of the page
/// is on or before the cutoff, or once the pages cover the `total` (a
/// total of 0 counting as covered).
pub open spec fn nav_days_next(page: u32, batch: Seq<i64>, cutoff: i64, total: u32) -> Option<u32> {
    if batch.len() == 0 {
        None
    } else {
        let fetched_all = total == 0 || (if page * 100 > u32::MAX {
            u32::MAX as int
        } else {
            page * 100
        }) >= total;
        if (exists|i: int| 0 <= i < batch.len() && batch[i] <= cutoff) || fetched_all {
            None
        } else {
            Some((page + 1) as u32)
        }
    }
}

/// `nav_days_next` for the date keys of the page just fetched.
pub fn nav_days_next_page(page: u32, batch: &Vec<i64>, cutoff: i64, total: u32) -> (r: Option<u32>)
    requires
        page < u32::MAX,
    ensures
        r == nav_days_next(page, batch@, cutoff, total),
{
    if batch.len() == 0 {
        return None;
    }
    let mut reaches = false;
    let mut i: usize = 0;
    while i < batch.len()
        invariant
            i <= batch@.len(),
            reaches == exists|j: int| 0 <= j < i && batch@[j] <= cutoff,
        decreases batch@.len() - i,
    {
        if batch[i] <= cutoff {
            reaches = true;
        }
        i += 1;
    }
    let prod: u64 = (page as u64) * 100;
    let covered: u64 = if prod > 0xFFFF_FFFF {
        0xFFFF_FFFF
    } else {
        prod
    };
    let fetched_all = total == 0 || covered >= total as u64;
    if reaches || fetched_all {
        None
    } else {
        Some(page + 1)
    }
}

/// The points from the cutoff on, one per date, in date order, each date
/// keeping its last point.
pub fn nav_window<T>(collected: Vec<(i64, T)>, cutoff: i64) -> (out: Vec<(i64, T)>)
    ensures
        dates_increasing(out@),
        forall|d: i64|
            #![trigger date_map(out@).contains_key(d)]
            date_map(out@).contains_key(d) <==> (d >= cutoff && date_map(collected@).contains_key(d)),
        forall|d: i64|
            #![trigger date_map(out@)[d]]
            date_map(out@).contains_key(d) ==> date_map(out@)[d] == date_map(collected@)[d],
{
    let merged = merge_navs_by_date(collected);
    let ghost m = merged@;
    let mut input = merged;
    let mut kept: Vec<(i64, T)> = Vec::new();
    while input.len() > 0
        invariant
            dates_increasing(m),
            input@.len() <= m.len(),
            input@ == m.take(input@.len() as int),
            kept@ == filtered_suffix(m.skip(input@.len() as int), cutoff),
        decreases input@.len(),
    {
        let ghost k = input@.len() as int;
        let x = input.pop().unwrap();
        proof {
            assert(input@ =~= m.take(k - 1));
            assert(m.skip(k - 1).drop_first() =~= m.skip(k));
            assert(m.skip(k - 1)[0] == x);
        }
        if x.0 >= cutoff {
            kept.insert(0, x);
            proof {
                assert(kept@ =~= seq![x] + filtered_suffix(m.skip(k), cutoff));
            }
        }
    }
    assert(m.skip(0) =~= m);
    proof {
        lemma_filtered_suffix(m, cutoff);
    }
    kept
}

/// The entries of `s` dated on or after the cutoff, in order.
pub open spec fn filtered_suffix<T>(s: Seq<(i64, T)>, cutoff: i64) -> Seq<(i64, T)>
    decreases s.len(),
{
    if s.len() == 0 {
        s
    } else if s[0].0 >= cutoff {
        seq![s[0]] + filtered_suffix(s.drop_first(), cutoff)
    } else {
        filtered_suffix(s.drop_first(), cutoff)
    }
}

proof fn lemma_filtered_suffix<T>(s: Seq<(i64, T)>, cutoff: i64)
    requires
        dates_increasing(s),
    ensures
        dates_increasing(filtered_suffix(s, cutoff)),
        forall|k: int|
            0 <= k < filtered_suffix(s, cutoff).len() ==> exists|j: int|
                0 <= j < s.len() && s[j] == #[trigger] filtered_suffix(s, cutoff)[k] && s[j].0
                    >= cutoff,
        forall|d: i64|
            #![trigger date_map(filtered_suffix(s, cutoff)).contains_key(d)]
            date_map(filtered_suffix(s, cutoff)).contains_key(d) <==> (d >= cutoff && date_map(
                s,
            ).contains_key(d)),
        forall|d: i64|
            #![trigger date_map(filtered_suffix(s, cutoff))[d]]
            date_map(filtered_suffix(s, cutoff)).contains_key(d) ==> date_map(
                filtered_suffix(s, cutoff),
            )[d] == date_map(s)[d],
    decreases s.len(),
{
    if s.len() > 0 {
        let r = s.drop_first();
        assert(dates_increasing(r)) by {
            assert forall|i: int, j: int| 0 <= i < j < r.len() implies #[trigger] r[i].0
                < #[trigger] r[j].0 by {
                assert(r[i] == s[i + 1] && r[j] == s[j + 1]);
            }
        }
        lemma_filtered_suffix(r, cutoff);
        let fr = filtered_suffix(r, cutoff);
        let f = filtered_suffix(s, cutoff);
        assert forall|k: int| 0 <= k < fr.len() implies exists|j: int|
            0 <= j < s.len() && s[j] == #[trigger] fr[k] && s[j].0 >= cutoff by {
            let j = choose|j: int| 0 <= j < r.len() && r[j] == fr[k] && r[j].0 >= cutoff;
            assert(s[j + 1] == r[j]);
        }
        // s[0] is earlier than everything after it
        crate::navs::lemma_date_map_dom(r, s[0].0);
        if exists|i: int| 0 <= i < r.len() && #[trigger] r[i].0 == s[0].0 {
            let i = choose|i: int| 0 <= i < r.len() && #[trigger] r[i].0 == s[0].0;
            assert(s[i + 1].0 == s[0].0);
        }
        if s[0].0 >= cutoff {
            assert(f =~= seq![s[0]] + fr);
            assert(f.drop_first() =~= fr);
            assert(f[0] == s[0]);
            crate::navs::lemma_date_map_dom(fr, s[0].0);
            if exists|i: int| 0 <= i < fr.len() && #[trigger] fr[i].0 == s[0].0 {
                let i = choose|i: int| 0 <= i < fr.len() && #[trigger] fr[i].0 == s[0].0;
                let j = choose|j: int| 0 <= j < s.len() && s[j] == fr[i] && s[j].0 >= cutoff;
                if j == 0 {
                    assert(f[i + 1] == fr[i]);
                }
            }
            assert forall|i: int, j: int| 0 <= i < j < f.len() implies #[trigger] f[i].0
                < #[trigger] f[j].0 by {
                if i == 0 {
                    let jj = choose|jj: int| 0 <= jj < s.len() && s[jj] == fr[j - 1] && s[jj].0 >= cutoff;
                    assert(f[j] == fr[j - 1]);
                    if jj == 0 {
                        let q = choose|q: int| 0 <= q < r.len() && r[q] == fr[j - 1] && r[q].0 >= cutoff;
                        assert(s[q + 1] == r[q]);
                    }
                } else {
                    assert(f[i] == fr[i - 1] && f[j] == fr[j - 1]);
                }
            }
        }
    }
}

} // verus!
