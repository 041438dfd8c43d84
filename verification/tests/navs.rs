use chrono::{Datelike, NaiveDate};
use fanalyzer::navs::merge_navs_by_date;

struct FundNav {
    nav: f64,
}

fn day(y: i32, m: u32, d: u32) -> i64 {
    NaiveDate::from_ymd_opt(y, m, d).unwrap().num_days_from_ce() as i64
}

#[test]
fn merge_navs_same_date_keeps_last() {
    let a = (day(2026, 1, 1), FundNav { nav: 1.0 });
    let b = (day(2026, 1, 1), FundNav { nav: 2.0 });
    let v = merge_navs_by_date(vec![a, b]);
    assert_eq!(v.len(), 1);
    assert!((v[0].1.nav - 2.0).abs() < 1e-9);
}

#[test]
fn merge_navs_orders_by_date() {
    let v = merge_navs_by_date(vec![
        (day(2026, 3, 1), "c"),
        (day(2026, 1, 1), "a"),
        (day(2026, 2, 1), "b"),
        (day(2026, 1, 1), "a2"),
        (day(2025, 12, 31), "z"),
    ]);
    let got: Vec<&str> = v.iter().map(|p| p.1).collect();
    assert_eq!(got, vec!["z", "a2", "b", "c"]);
    assert!(merge_navs_by_date(Vec::<(i64, u8)>::new()).is_empty());
}
