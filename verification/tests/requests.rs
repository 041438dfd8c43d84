use fanalyzer::dates::{date_key_exec, i64_text, u64_text, Ymd};
use fanalyzer::ranking::{parse_rank_row, FundRankingPage};
use fanalyzer::requests::{
    fund_name_url, holdings_report_url, holdings_top_exec, holdings_url, nav_all_next_page,
    nav_days_next_page, nav_history_url, nav_window, prior_report_year_month, ranking_page_size_exec,
    ranking_url, RankingCollector,
};

fn page(n: usize, total: u32) -> FundRankingPage {
    let rows = (0..n)
        .map(|i| parse_rank_row(&format!("{i:06},名{i},X,2026-01-01,1,1")).unwrap())
        .collect();
    FundRankingPage { rows, total_records: total }
}

#[test]
fn urls_carry_their_parameters() {
    assert_eq!(
        nav_history_url("000001", 2, 40),
        "https://api.fund.eastmoney.com/f10/lsjz?fundCode=000001&pageIndex=2&pageSize=40"
    );
    assert_eq!(
        ranking_url("gp", "1nzf", 1, 100),
        "https://fund.eastmoney.com/data/rankhandler.aspx?op=ph&dt=kf&ft=gp&rs=&gs=0&sc=1nzf&st=desc&pi=1&pn=100"
    );
    assert_eq!(
        fund_name_url("000001", 1704067200000),
        "https://fundgz.1234567.com.cn/js/000001.js?rt=1704067200000"
    );
    assert_eq!(
        holdings_url("000001", 10),
        "https://fundf10.eastmoney.com/FundArchivesDatas.aspx?type=jjcc&code=000001&topline=10&year=&month="
    );
    assert_eq!(
        holdings_report_url("000001", 10, 2025, 12),
        "https://fundf10.eastmoney.com/FundArchivesDatas.aspx?type=jjcc&code=000001&topline=10&year=2025&month=12"
    );
}

#[test]
fn numbers_as_text() {
    assert_eq!(u64_text(0), "0");
    assert_eq!(u64_text(u64::MAX), u64::MAX.to_string());
    assert_eq!(i64_text(i64::MIN), i64::MIN.to_string());
    assert_eq!(i64_text(-42), "-42");
}

#[test]
fn holdings_top_is_clamped() {
    assert_eq!(holdings_top_exec(0), 1);
    assert_eq!(holdings_top_exec(10), 10);
    assert_eq!(holdings_top_exec(500), 50);
}

#[test]
fn prior_report_goes_back_a_quarter() {
    assert_eq!(prior_report_year_month("2026-03-31"), Some((2025, 12)));
    assert_eq!(prior_report_year_month(" 2026-06-30 "), Some((2026, 3)));
    assert_eq!(prior_report_year_month("2026-01-15"), Some((2025, 10)));
    assert_eq!(prior_report_year_month("not a date"), None);
}

#[test]
fn ranking_collector_stops_on_short_page_and_truncates() {
    assert_eq!(ranking_page_size_exec(0), 1);
    assert_eq!(ranking_page_size_exec(250), 100);
    let mut c = RankingCollector::new(250, page(100, 9130));
    assert_eq!(c.next_request(), Some((2, 100)));
    c.add_page(page(100, 9130));
    assert_eq!(c.next_request(), Some((3, 100)));
    c.add_page(page(100, 9130));
    assert_eq!(c.next_request(), None);
    let p = c.finish();
    assert_eq!(p.rows.len(), 250);
    assert_eq!(p.total_records, 9130);

    let mut c = RankingCollector::new(50, page(20, 20));
    assert_eq!(c.next_request(), Some((2, 50)));
    c.add_page(page(0, 20));
    assert_eq!(c.next_request(), None);
    assert_eq!(c.finish().rows.len(), 20);
}

#[test]
fn nav_paging_decisions() {
    assert_eq!(nav_all_next_page(1, 40, 100), Some(2));
    assert_eq!(nav_all_next_page(3, 40, 100), None);
    let cutoff = date_key_exec(Ymd { year: 2026, month: 1, day: 1 });
    let newer = date_key_exec(Ymd { year: 2026, month: 2, day: 1 });
    let older = date_key_exec(Ymd { year: 2025, month: 12, day: 31 });
    assert_eq!(nav_days_next_page(1, &vec![newer], cutoff, 1000), Some(2));
    assert_eq!(nav_days_next_page(1, &vec![newer, older], cutoff, 1000), None);
    assert_eq!(nav_days_next_page(1, &vec![], cutoff, 1000), None);
    assert_eq!(nav_days_next_page(10, &vec![newer], cutoff, 1000), None);
    assert_eq!(nav_days_next_page(1, &vec![newer], cutoff, 0), None);
}

#[test]
fn nav_window_keeps_recent_points_once() {
    let d = |m: u32, day: u32| date_key_exec(Ymd { year: 2026, month: m, day });
    let v = nav_window(
        vec![(d(1, 3), "c"), (d(1, 1), "a"), (d(1, 3), "c2"), (d(1, 2), "b"), (d(1, 4), "d")],
        d(1, 2),
    );
    let got: Vec<&str> = v.iter().map(|p| p.1).collect();
    assert_eq!(got, vec!["b", "c2", "d"]);
}
