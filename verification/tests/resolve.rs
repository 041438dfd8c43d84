use fanalyzer::cache::FundCache;
use fanalyzer::commands::RankRequest;
use fanalyzer::resolve::{
    fund_name_fetched, identifier_searched, is_likely_code, resolve_identifier_step,
    IdentifierStep,
};

#[test]
fn codes_are_six_ascii_digits() {
    assert!(is_likely_code("000001"));
    assert!(!is_likely_code("00001"));
    assert!(!is_likely_code("00000a"));
    assert!(!is_likely_code("０００００１"));
}

#[test]
fn code_steps() {
    let mut cache = FundCache::new();
    match resolve_identifier_step(&cache, "000001", true) {
        IdentifierStep::Resolved(c, n) => assert_eq!((c.as_str(), n.as_str()), ("000001", "000001")),
        other => panic!("unexpected {other:?}"),
    }
    assert!(matches!(
        resolve_identifier_step(&cache, "000001", false),
        IdentifierStep::FetchName(c) if c == "000001"
    ));
    assert_eq!(fund_name_fetched(&mut cache, "000001", None), "000001");
    assert_eq!(fund_name_fetched(&mut cache, "000001", Some("华夏成长".into())), "华夏成长");
    match resolve_identifier_step(&cache, "000001", false) {
        IdentifierStep::Resolved(_, n) => assert_eq!(n, "华夏成长"),
        other => panic!("unexpected {other:?}"),
    }
}

#[test]
fn name_steps_and_search() {
    let mut cache = FundCache::new();
    match resolve_identifier_step(&cache, "易方达", true) {
        IdentifierStep::Failed(m) => assert!(m.contains("易方达") && m.contains("--offline")),
        other => panic!("unexpected {other:?}"),
    }
    assert!(matches!(resolve_identifier_step(&cache, "易方达", false), IdentifierStep::Search));
    let err = identifier_searched(&mut cache, "易方达", Ok(vec![])).unwrap_err();
    assert_eq!(err, "未找到与 `易方达` 匹配的基金");
    let err = identifier_searched(&mut cache, "易方达", Err("timeout".into())).unwrap_err();
    assert_eq!(err, "基金搜索失败：timeout");
    let found = identifier_searched(
        &mut cache,
        "易方达",
        Ok(vec![("110011".into(), "易方达中小盘".into()), ("x".into(), "y".into())]),
    )
    .unwrap();
    assert_eq!(found, ("110011".to_string(), "易方达中小盘".to_string()));
    match resolve_identifier_step(&cache, "易方达中小盘", true) {
        IdentifierStep::Resolved(c, _) => assert_eq!(c, "110011"),
        other => panic!("unexpected {other:?}"),
    }
}

#[test]
fn rank_plan_checks_in_order() {
    let req = |kind: &str, top: u32, sort: &str| RankRequest {
        kind: kind.into(),
        top,
        sort: sort.into(),
    };
    assert!(req("gp", 10, "1n").plan(true).unwrap_err().contains("--offline"));
    assert_eq!(req("gp", 0, "1n").plan(false).unwrap_err(), "`--top` 须 ≥ 1");
    assert_eq!(req("gp", 501, "1n").plan(false).unwrap_err(), "`--top` 上限为 500");
    assert!(req("xyz", 10, "1n").plan(false).is_err());
    assert!(req("gp", 10, "  ").plan(false).is_err());
    assert_eq!(req("混合", 10, " 1nzf ").plan(false).unwrap(), ("hh", "1nzf".to_string()));
}
