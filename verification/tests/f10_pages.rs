use fanalyzer::f10::{clean_html_str, extract_apidata_content, extract_apidata_html};
use fanalyzer::jbgk::{parse_fund_detail, percent_texts, purchase_fee_index};
use fanalyzer::managers::{parse_current_managers, ManagerAppointment};

fn readable(texts: &[String]) -> Vec<bool> {
    texts.iter().map(|t| t.parse::<f64>().is_ok()).collect()
}

fn first_pct(text: &str) -> Option<f64> {
    percent_texts(text)
        .iter()
        .filter_map(|t| t.parse::<f64>().ok())
        .next()
}

fn parse_purchase_fee_pct(text: &str) -> Option<f64> {
    let texts = percent_texts(text);
    let ok = readable(&texts);
    purchase_fee_index(text, &ok).map(|i| texts[i].parse::<f64>().unwrap())
}

#[test]
fn extract_content_ok() {
    let js = r#"var apidata={ content:"<p>hi</p>",arryear:[2026]};"#;
    assert_eq!(extract_apidata_content(js).unwrap(), "<p>hi</p>");
}

#[test]
fn extract_content_errors() {
    assert_eq!(
        extract_apidata_content("var x=1;").unwrap_err(),
        "F10 apidata: missing content:\""
    );
    assert_eq!(
        extract_apidata_content("content:\"abc").unwrap_err(),
        "F10 apidata: missing \",arryear:\""
    );
    assert!(extract_apidata_html("var x=1;").unwrap_err().contains("hypz"));
    assert_eq!(
        extract_apidata_html("content:\"<b>x</b>\",arryear:[]").unwrap(),
        "<b>x</b>"
    );
}

#[test]
fn clean_html_strips_tags_and_entities() {
    assert_eq!(clean_html_str("<b> a&amp;b </b>\n<i>c&nbsp;d</i>"), "a&b c d");
    assert_eq!(clean_html_str("x < y"), "x < y");
    assert_eq!(clean_html_str("&lt;p&gt; &quot;q&quot;"), "<p> \"q\"");
}

#[test]
fn parse_inline_snippet() {
    let html = r#"
<div class="jl_intro"><p><strong>姓名：</strong><a href="x">甲</a></p><p><strong>上任日期：</strong>2020-01-01</p></div>
<div class="jl_intro"><p><strong>姓名：</strong><a href="y">乙</a></p><p><strong>上任日期：</strong>2021-06-15</p></div>
"#;
    let managers = parse_current_managers(html);
    assert_eq!(
        managers,
        vec![
            ManagerAppointment {
                name: "甲".into(),
                start_date: "2020-01-01".into(),
            },
            ManagerAppointment {
                name: "乙".into(),
                start_date: "2021-06-15".into(),
            },
        ]
    );
}

#[test]
fn managers_plain_name_and_bad_date() {
    let html = "<strong>姓名：</strong>张坤<br><strong>上任日期：</strong>2012-09-28";
    let m = parse_current_managers(html);
    assert_eq!(m.len(), 1);
    assert_eq!(m[0].name, "张坤");
    assert_eq!(m[0].start_date, "2012-09-28");
    let bad = "<strong>姓名：</strong>张坤<br><strong>上任日期：</strong>20120928xx";
    assert!(parse_current_managers(bad).is_empty());
    assert!(parse_current_managers("no managers here").is_empty());
}

const SAMPLE_JBGK: &str = r#"
        <label>
            净资产规模：<span>
                26.44亿元
                （截止至：2026-03-31）</span></label>
        <p class="row">
            <label>
                交易状态：<span>限大额 </span>
                <span>（<span>单日累计购买上限5.00万元</span>）</span>
                <span>开放赎回</span>
            </label>
        </p>
        <table class="info w790">
            <tr><th>基金全称</th><td style='width:300px;'>华夏成长证券投资基金</td>
                <th>基金简称</th><td>华夏成长混合</td></tr>
            <tr><th>净资产规模</th><td>26.44亿元（截止至：2026年03月31日）
                <th>份额规模</th><td>25.9234亿份</td></tr>
            <tr><th>管理费率</th><td>1.20%（每年）</td><th>托管费率</th><td>0.20%（每年）</td></tr>
            <tr><th>最高申购费率</th><td><span style="text-decoration:line-through;color:#666666">1.50%（前端）</span><br><span>天天基金优惠费率：<span style="Color:#ff0000">0.15%（前端）</span></span></td><th>最高赎回费率</th><td>1.50%（前端）</td></tr>
        </table>
    "#;

#[test]
fn parse_fund_detail_reads_net_asset_size_from_table_th() {
    let detail = parse_fund_detail(SAMPLE_JBGK);
    assert!(
        detail.asset_size.contains("26.44亿元"),
        "unexpected asset_size: {}",
        detail.asset_size
    );
    assert!(
        !detail.asset_size.contains("华夏成长"),
        "asset_size must not pick fund name td: {}",
        detail.asset_size
    );
}

#[test]
fn parse_fund_detail_reads_fees_and_trade_status() {
    let detail = parse_fund_detail(SAMPLE_JBGK);
    assert_eq!(detail.management_fee.as_deref().and_then(first_pct), Some(1.20));
    assert_eq!(detail.custody_fee.as_deref().and_then(first_pct), Some(0.20));
    assert_eq!(
        detail.purchase_fee.as_deref().and_then(parse_purchase_fee_pct),
        Some(0.15)
    );
    assert_eq!(detail.redemption_fee.as_deref().and_then(first_pct), Some(1.50));
    assert_eq!(detail.subscribe_status, "限大额");
    assert_eq!(detail.redeem_status, "开放赎回");
    assert_eq!(detail.full_name.as_deref(), Some("华夏成长证券投资基金"));
}

#[test]
fn purchase_fee_prefers_discount_tier() {
    assert_eq!(
        parse_purchase_fee_pct("1.50%（前端）天天基金优惠费率：0.15%（前端）"),
        Some(0.15)
    );
    assert_eq!(first_pct("1.20%（每年）"), Some(1.20));
}

#[test]
fn percent_texts_scan() {
    assert_eq!(percent_texts("a 1.5% b .5% c 3 d 1.2.3%"), vec!["1.5", ".5", "1.2.3"]);
    assert!(percent_texts("no figures").is_empty());
    assert_eq!(purchase_fee_index("x", &[false, true, true]), Some(1));
    assert_eq!(purchase_fee_index("优惠", &[true, false, true]), Some(2));
    assert_eq!(purchase_fee_index("优惠", &[false, true]), Some(1));
    assert_eq!(purchase_fee_index("优惠", &[false]), None);
}

#[test]
fn extract_content_skips_leading_space() {
    let js = r#" var apidata={ content:"<p>hi</p>",arryear:[2026]};"#;
    assert_eq!(extract_apidata_content(js).unwrap(), "<p>hi</p>");
    let padded = "\n\t content:\"<b>a</b>\",arryear:[] ";
    assert_eq!(extract_apidata_content(padded).unwrap(), "<b>a</b>");
}
