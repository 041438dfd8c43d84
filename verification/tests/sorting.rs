use fanalyzer::sorting::{
    parse_sort_key, sort_analyses, sort_compare_analyses, sort_passed, AnalysisKeys,
    AnalysisSortKey, DEFAULT_ROLLING_WINDOW,
};

/// An integer that orders as `x` does under `f64::total_cmp`.
fn order_key(x: f64) -> i64 {
    let b = x.to_bits() as i64;
    b ^ ((((b >> 63) as u64) >> 1) as i64)
}

fn keys(code: &str, sharpe: f64) -> AnalysisKeys {
    AnalysisKeys {
        code: code.to_string(),
        total_return: order_key(0.0),
        volatility: order_key(0.0),
        max_drawdown: order_key(0.0),
        sharpe_ratio: order_key(sharpe),
        sortino_ratio: order_key(0.0),
        calmar_ratio: order_key(0.0),
        alpha: order_key(0.0),
    }
}

fn sample_analysis(code: &str, sharpe: f64) -> (AnalysisKeys, String) {
    (keys(code, sharpe), code.to_string())
}

fn codes(v: &[(AnalysisKeys, String)]) -> Vec<String> {
    v.iter().map(|p| p.1.clone()).collect()
}

#[test]
fn sort_compare_analyses_by_sharpe_desc() {
    let mut analyses = vec![
        sample_analysis("000001", 1.0),
        sample_analysis("110011", 2.5),
    ];
    sort_compare_analyses(&mut analyses, Some("sharpe")).unwrap();
    assert_eq!(analyses[0].0.code, "110011");
}

#[test]
fn sort_compare_analyses_default_by_code() {
    let mut analyses = vec![
        sample_analysis("110011", 1.0),
        sample_analysis("000001", 2.0),
    ];
    sort_compare_analyses(&mut analyses, None).unwrap();
    assert_eq!(analyses[0].0.code, "000001");
}

#[test]
fn default_rolling_window_matches_domain() {
    assert_eq!(DEFAULT_ROLLING_WINDOW, 60);
}

#[test]
fn default_rolling_window_constant() {
    assert_eq!(DEFAULT_ROLLING_WINDOW, 60);
}

#[test]
fn sort_compare_rejects_unknown_key_and_keeps_order() {
    let mut analyses = vec![sample_analysis("110011", 1.0), sample_analysis("000001", 2.0)];
    let err = sort_compare_analyses(&mut analyses, Some("speed")).unwrap_err();
    assert!(err.contains("speed"));
    assert_eq!(codes(&analyses), vec!["110011", "000001"]);
}

#[test]
fn sort_compare_empty_key_sorts_by_code() {
    let mut analyses = vec![sample_analysis("2", 1.0), sample_analysis("1", 2.0)];
    sort_compare_analyses(&mut analyses, Some("")).unwrap();
    assert_eq!(codes(&analyses), vec!["1", "2"]);
}

#[test]
fn sort_is_stable_on_ties() {
    let mut v = vec![
        sample_analysis("a", 1.0),
        sample_analysis("b", 3.0),
        sample_analysis("c", 1.0),
        sample_analysis("d", 3.0),
        sample_analysis("e", -2.0),
    ];
    sort_analyses(&mut v, AnalysisSortKey::Sharpe, true);
    assert_eq!(codes(&v), vec!["b", "d", "a", "c", "e"]);
    sort_analyses(&mut v, AnalysisSortKey::Sharpe, false);
    assert_eq!(codes(&v), vec!["e", "a", "c", "b", "d"]);
}

#[test]
fn sort_by_code_is_lexicographic() {
    let mut v = vec![
        sample_analysis("110", 0.0),
        sample_analysis("11", 0.0),
        sample_analysis("012", 0.0),
        sample_analysis("基金", 0.0),
    ];
    sort_analyses(&mut v, AnalysisSortKey::Code, false);
    assert_eq!(codes(&v), vec!["012", "11", "110", "基金"]);
}

#[test]
fn sort_passed_defaults_to_sharpe_desc() {
    let mut v = vec![sample_analysis("a", -1.0), sample_analysis("b", 0.5)];
    sort_passed(&mut v, None).unwrap();
    assert_eq!(codes(&v), vec!["b", "a"]);
    assert!(sort_passed(&mut v, Some("")).is_err());
}

#[test]
fn parse_sort_key_directions() {
    assert!(parse_sort_key(" Sharpe ").unwrap().default_desc());
    assert!(!parse_sort_key("max-drawdown").unwrap().default_desc());
    assert!(!parse_sort_key("volatility").unwrap().default_desc());
    assert!(parse_sort_key("total-return").unwrap().default_desc());
    assert!(parse_sort_key("code").is_err());
}
