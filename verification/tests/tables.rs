use fanalyzer::tables::{
    parse_hypz_apidata, parse_jjcc_apidata, parse_zcpz_html, previous_rows, FundStockHoldingRow,
};

fn f(t: &str) -> f64 {
    t.parse::<f64>().unwrap()
}

fn fo(t: &Option<String>) -> Option<f64> {
    t.as_deref().and_then(|x| x.parse::<f64>().ok())
}

#[test]
fn parse_sample_hypz() {
    let js = r#"var apidata={ content:"<div class='box'><h4><label class='right'>截止至：<font class='px12'>2026-03-31</font></label></h4><table class='hypz'><tbody><tr><td>1</td><td class='tol'>制造业</td><td><a href='#'>变动详情</a></td><td class='tor'>61.14%</td><td class='tor'>161,661.79</td><td></td></tr><tr><td>2</td><td class='tol'>信息传输</td><td><a href='#'>变动详情</a></td><td class='tor'>7.18%</td><td class='tor'>18,987.58</td><td></td></tr></tbody></table></div>",arryear:[2026],curyear:2026};"#;
    let r = parse_hypz_apidata(js).unwrap();
    assert_eq!(r.as_of.as_deref(), Some("2026-03-31"));
    assert_eq!(r.rows.len(), 2);
    assert_eq!(r.rows[0].industry, "制造业");
    assert!((f(&r.rows[0].pct_nav) - 61.14).abs() < 1e-6);
    assert_eq!(fo(&r.rows[0].market_value_wan), Some(161661.79));
}

#[test]
fn missing_content_err() {
    assert!(parse_hypz_apidata("var x=1;").is_err());
}

#[test]
fn hypz_bad_percent_and_bad_rank() {
    let row = |rank: &str, pct: &str| {
        format!(
            "var apidata={{ content:\"<tr><td>{rank}</td><td class='tol'>制造业</td><td><a href='#'>x</a></td><td class='tor'>{pct}</td><td class='tor'>-</td>\",arryear:[2026]}};"
        )
    };
    let e = parse_hypz_apidata(&row("1", "abc%")).unwrap_err();
    assert_eq!(e, "invalid percent: \"abc%\"");
    let e = parse_hypz_apidata(&row("99999999999", "1%")).unwrap_err();
    assert_eq!(e, "rank parse: number too large to fit in target type");
    let ok = parse_hypz_apidata(&row("3", " 1.5%% ")).unwrap();
    assert_eq!(ok.rows[0].pct_nav, "1.5");
    assert_eq!(ok.rows[0].market_value_wan, None);
    assert_eq!(ok.as_of, None);
}

#[test]
fn parse_sample_zcpz_rows() {
    let html = r#"
<label class="left">截至2026-06-30，华夏成长混合 净资产规模39.38亿元，比上一期增加了48.93%</label>
<table class="w782 comm tzxq"><thead></thead><tbody>
<tr><td>2026-06-30</td><td class="tor">79.98%</td><td class="tor">20.19%</td><td class="tor">0.79%</td><td class="tor">39.38</td></tr>
<tr><td>2026-03-31</td><td class="tor">72.51%</td><td class="tor">20.63%</td><td class="tor">2.39%</td><td class="tor">26.44</td></tr>
</tbody></table>
"#;
    let r = parse_zcpz_html(html).unwrap();
    assert!(r.summary.as_ref().unwrap().contains("39.38"));
    assert_eq!(r.rows.len(), 2);
    assert_eq!(r.rows[0].as_of, "2026-06-30");
    assert!((f(&r.rows[0].stock_pct) - 79.98).abs() < 1e-6);
    assert_eq!(fo(&r.rows[0].net_asset_yi), Some(39.38));
}

#[test]
fn zcpz_without_rows_is_an_error() {
    assert_eq!(
        parse_zcpz_html("<table></table>").unwrap_err(),
        "no asset allocation rows found"
    );
}

#[test]
fn parse_inline_jjcc_rows() {
    let body = r#"var apidata={ content:"<div>截止至：<font class='px12'> 2026-03-31 </font></div><table><tr><td>1</td><td class='toc'><a href='x'>300308</a></td><td class='tol'><a href='y'>中际旭创</a></td><td class='xglj'><a>变动</a></td><td class='tor'>9.50%</td><td class='tor'>1,138.80</td><td class='tor'>20,123.45</td></tr></table>",arryear:[2026],curyear:2026};"#;
    let r = parse_jjcc_apidata(body).unwrap();
    assert_eq!(r.as_of.as_deref(), Some("2026-03-31"));
    assert_eq!(r.rows.len(), 1);
    assert_eq!(r.rows[0].rank, 1);
    assert_eq!(r.rows[0].stock_code, "300308");
    assert_eq!(r.rows[0].stock_name, "中际旭创");
    assert_eq!(r.rows[0].pct_nav, "9.50");
    assert_eq!(fo(&r.rows[0].shares_wan), Some(1138.80));
    assert_eq!(fo(&r.rows[0].market_value_wan), Some(20123.45));
}

fn holding(code: &str) -> FundStockHoldingRow {
    FundStockHoldingRow {
        rank: 1,
        stock_code: code.into(),
        stock_name: String::new(),
        pct_nav: "1".into(),
        shares_wan: None,
        market_value_wan: None,
    }
}

#[test]
fn previous_rows_take_last_same_code() {
    let rows = vec![holding("a"), holding("b"), holding("c")];
    let prev = vec![holding("b"), holding("a"), holding("b")];
    assert_eq!(previous_rows(&rows, &prev), vec![Some(1), Some(2), None]);
}
