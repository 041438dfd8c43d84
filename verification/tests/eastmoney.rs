use fanalyzer::eastmoney::{
    assemble_profile, parse_fund_profile, fund_fee_texts, fund_manager_from_script, fund_name_from_answer,
    fund_name_of, fund_name_payload, manager_info, manager_info_checked, manager_json_text,
    parse_index_page, parse_nav_history, parse_nav_page, parse_peer_rank_snapshot,
    peer_rank_from_script, profile_name, search_fund_list, search_rows, EastMoneyError, U32Field,
};
use fanalyzer::jbgk::parse_fund_detail_basic;
use fanalyzer::json::{Json, JsonNumber};

fn to_json(v: serde_json::Value) -> Json {
    match v {
        serde_json::Value::Null => Json::Null,
        serde_json::Value::Bool(b) => Json::Bool(b),
        serde_json::Value::Number(n) => Json::Number(JsonNumber {
            as_u64: n.as_u64(),
            as_i64: n.as_i64(),
            text: n.to_string(),
        }),
        serde_json::Value::String(s) => Json::Str(s),
        serde_json::Value::Array(a) => Json::Array(a.into_iter().map(to_json).collect()),
        serde_json::Value::Object(m) => {
            Json::Object(m.into_iter().map(|(k, v)| (k, to_json(v))).collect())
        }
    }
}

fn parse(text: &str) -> Json {
    to_json(serde_json::from_str(text).unwrap())
}

fn array(text: &str) -> Option<Vec<Json>> {
    serde_json::from_str::<Vec<serde_json::Value>>(text)
        .ok()
        .map(|a| a.into_iter().map(to_json).collect())
}

fn peer(js: &str) -> fanalyzer::eastmoney::PeerRankSnapshot {
    peer_rank_from_script(js)
}

fn exact(f: &U32Field) -> Option<u32> {
    match f {
        U32Field::Exact(v) => *v,
        U32Field::Rounded(t) => Some(t.parse::<f64>().unwrap().round() as u32),
    }
}

#[test]
fn parse_peer_rank_takes_latest_point() {
    let js = r#"
var Data_rateInSimilarType = [{"x":1357228800000,"y":27,"sc":"59"},{"x":1784476800000,"y":75,"sc":"92"}];
var Data_rateInSimilarPersent = [[1357228800000,54.24],[1784476800000,18.48]];
"#;
    let snap = peer(js);
    assert_eq!(exact(&snap.rank), Some(75));
    assert_eq!(exact(&snap.peer_count), Some(92));
    assert_eq!(snap.percentile.as_deref().map(|t| t.parse::<f64>().unwrap()), Some(18.48));
    assert_eq!(snap.as_of.as_deref(), Some("2026-07-19"));
}

#[test]
fn parse_peer_rank_accepts_var_without_space_before_eq() {
    let js = r#"
var Data_rateInSimilarType =[{"x":1,"y":2,"sc":"3"}];
var Data_rateInSimilarPersent=[[1,88.5]];
"#;
    let snap = peer(js);
    assert_eq!(exact(&snap.rank), Some(2));
    assert_eq!(exact(&snap.peer_count), Some(3));
    assert_eq!(snap.percentile.as_deref().map(|t| t.parse::<f64>().unwrap()), Some(88.5));
}

#[test]
fn parse_peer_rank_missing_is_default() {
    let snap = peer("var fS_name=\"x\";");
    assert!(exact(&snap.rank).is_none());
    assert!(exact(&snap.peer_count).is_none());
    assert!(snap.percentile.is_none());
}

#[test]
fn nav_page_reads_rows_and_total() {
    let j = parse(
        r#"{"Data":{"LSJZList":[{"FSRQ":"2026-01-05","DWJZ":"1.2345","LJJZ":"2.5","JZZZL":"-0.52"},{"FSRQ":"2026-01-02","DWJZ":"1.24","LJJZ":"2.51","JZZZL":"--"}]},"ErrCode":0,"TotalCount":321}"#,
    );
    let (rows, total) = parse_nav_page(&j, "000001").unwrap();
    assert_eq!(total, 321);
    assert_eq!(rows.len(), 2);
    assert_eq!(rows[0].code, "000001");
    assert_eq!(rows[1].code, "000001");
    assert_eq!((rows[0].date.year, rows[0].date.month, rows[0].date.day), (2026, 1, 5));
    assert_eq!(rows[0].nav, "1.2345");
    assert_eq!(rows[0].daily_return_pct.as_deref(), Some("-0.52"));
    assert_eq!(rows[1].daily_return_pct, None);
}

#[test]
fn nav_page_errors() {
    match parse_nav_page(&parse(r#"{"ErrCode":7}"#), "000001") {
        Err(EastMoneyError::ApiError(7)) => {}
        other => panic!("unexpected {other:?}"),
    }
    match parse_nav_page(&parse(r#"{"Data":{"LSJZList":[{"FSRQ":"x","DWJZ":"1","LJJZ":"1"}]}}"#), "000001") {
        Err(EastMoneyError::ParseFailed(t)) => assert_eq!(t, "x"),
        other => panic!("unexpected {other:?}"),
    }
    match parse_nav_page(&parse(r#"{"Data":{"LSJZList":[{"FSRQ":"2026-01-02","DWJZ":"abc","LJJZ":"1"}]}}"#), "000001") {
        Err(EastMoneyError::ParseFailed(t)) => assert_eq!(t, "abc"),
        other => panic!("unexpected {other:?}"),
    }
    let (rows, total) = parse_nav_page(&parse("{}"), "000001").unwrap();
    assert!(rows.is_empty());
    assert_eq!(total, 0);
}

#[test]
fn index_page_slices_and_reverses() {
    let j = parse(
        r#"{"data":{"klines":["2026-01-02,1,10.5,1,1","2026-01-03,1,11.5,1,1","bad","2026-01-05,1,12.5,1,1"],"total":4}}"#,
    );
    let (rows, total) = parse_index_page(&j, 1, 10).unwrap();
    assert_eq!(total, 4);
    let closes: Vec<&str> = rows.iter().map(|r| r.close.as_str()).collect();
    assert_eq!(closes, vec!["12.5", "11.5", "10.5"]);
    let (rows, _) = parse_index_page(&j, 2, 2).unwrap();
    assert_eq!(rows.len(), 1);
    assert_eq!(rows[0].date.day, 5);
    let (rows, _) = parse_index_page(&j, 5, 2).unwrap();
    assert!(rows.is_empty());
    assert!(parse_index_page(&parse(r#"{"x":1}"#), 1, 1).is_err());
    assert!(parse_index_page(&parse(r#"{"data":{}}"#), 1, 1).is_err());
}

#[test]
fn fund_name_from_estimate_answer() {
    let payload = fund_name_payload(r#"jsonpgz({"fundcode":"000001","name":"华夏成长混合"});"#);
    assert_eq!(payload, r#"{"fundcode":"000001","name":"华夏成长混合"}"#);
    assert_eq!(fund_name_of(&parse(&payload), "000001"), "华夏成长混合");
    assert_eq!(fund_name_of(&parse(r#"{"x":1}"#), "000001"), "000001");
}

#[test]
fn manager_from_data_script() {
    let js = r#"var Data_currentFundManager = [{"name":"张三","workTime":"3年又120天","profit":{"series":[{"data":[{"y":12.5}]}]}}];"#;
    let text = manager_json_text(js).unwrap();
    let managers = array(&text).unwrap();
    let info = manager_info(&managers).unwrap();
    assert_eq!(info.name, "张三");
    assert_eq!(info.tenure_days, 3 * 365 + 120);
    assert_eq!(info.total_return_pct.as_deref(), Some("12.5"));
    assert!(manager_info(&Vec::new()).is_err());
    assert!(manager_json_text("var x = 1;").is_err());
    let odd = array(r#"[{"workTime":"1天又2"}]"#).unwrap();
    assert!(manager_info_checked(&odd).is_none());
}

#[test]
fn fees_and_profile() {
    let js = "var fS_name=\"华夏成长\";var fund_sourceRate=\"1.50\";var fund_Rate=\"0.15\";";
    let fees = fund_fee_texts(js);
    assert_eq!(fees.management_fee, "1.50");
    assert_eq!(fees.purchase_fee, "0.15");
    assert_eq!(fund_fee_texts("").management_fee, "0");
    let name = profile_name(js);
    assert_eq!(name, "华夏成长");
    let managers = array(r#"[{"name":"李四","workTime":"2年"}]"#).unwrap();
    let manager = manager_info(&managers).unwrap();
    let detail = parse_fund_detail_basic("<th>基金类型</th><td>混合型</td>");
    let p = assemble_profile("000001", name, manager, fees.management_fee.clone(), detail);
    assert_eq!(p.full_name, "华夏成长");
    assert_eq!(p.fund_type, "混合型");
    assert_eq!(p.manager_tenure_days, 730);
}

#[test]
fn search_in_fund_list() {
    let resp = r#"var r = [["000001","HXCZ","华夏成长混合","混合型","HUAXIACHENGZHANG"],["110011","YFD","易方达中小盘","混合型","X"],["1"]];"#;
    let found = search_fund_list(resp, "华夏").unwrap().unwrap();
    assert_eq!(found, vec![("000001".to_string(), "华夏成长混合".to_string())]);
    let found = search_fund_list(resp, "11001").unwrap().unwrap();
    assert_eq!(found.len(), 1);
    assert!(search_fund_list("var r = nope;", "x").is_err());
    let rows = vec![vec!["a".to_string(), "b".to_string()]];
    assert_eq!(search_rows(&rows, "a"), None);
}

#[test]
fn profile_report_layout() {
    let js = "var fS_name=\"华夏成长\";";
    let managers = array(r#"[{"name":"李四","workTime":"2年"}]"#).unwrap();
    let manager = manager_info(&managers).unwrap();
    let html = "<th>基金全称</th><td>华夏成长混合型证券投资基金</td><th>业绩比较基准</th><td>沪深300</td><td class=\"tditem\">x</td>投资范围<td class=\"tditem\">本基金投资于股票。也投资于债券。还有一些别的内容用来把这段话写得足够长足够长足够长。</td>";
    let detail = parse_fund_detail_basic(html);
    let p = assemble_profile("000001", profile_name(js), manager, "1.50".into(), detail);
    let lines = fanalyzer::report::profile_report_lines(&p, "2.0", "0.00", "1.50", None);
    assert_eq!(lines[0], "基金概况");
    assert_eq!(lines[1], "=".repeat(60));
    assert_eq!(lines[2], "基金全称: 华夏成长混合型证券投资基金");
    assert_eq!(lines[3], "基金简称: 华夏成长");
    assert_eq!(lines[4], "基金代码: 000001");
    assert!(lines.contains(&"业绩比较基准".to_string()));
    assert!(lines.contains(&"沪深300".to_string()));
    assert!(lines.contains(&"任期: 2.0 年".to_string()));
    assert!(lines.contains(&"管理费率: 1.50%".to_string()));
    let n = lines.len();
    assert_eq!(lines[n - 3], "本基金投资于股票");
    assert_eq!(lines[n - 2], "也投资于债券");
    assert!(lines[n - 1].starts_with("还有一些"));
}

#[test]
fn search_is_case_insensitive() {
    let resp = r#"var r = [["519001","YHDLD","AbC精选混合","混合型","X"]];"#;
    let found = search_fund_list(resp, "ABC").unwrap().unwrap();
    assert_eq!(found, vec![("519001".to_string(), "AbC精选混合".to_string())]);
}

#[test]
fn answers_read_from_text() {
    let (rows, total) = parse_nav_history(
        r#"{"Data":{"LSJZList":[{"FSRQ":"2026-01-05","DWJZ":"1.1","LJJZ":"2.2","JZZZL":""}]},"ErrCode":0,"TotalCount":1}"#,
        "161725",
    )
    .unwrap();
    assert_eq!((rows.len(), total), (1, 1));
    assert_eq!(rows[0].code, "161725");
    assert!(matches!(parse_nav_history("not json", "161725"), Err(EastMoneyError::ParseFailed(_))));
    assert_eq!(
        fund_name_from_answer(r#"jsonpgz({"name":"华夏成长"});"#, "000001").unwrap(),
        "华夏成长"
    );
    assert!(fund_name_from_answer("jsonpgz(oops);", "000001").is_err());
    let js = r#"var Data_currentFundManager = [{"name":"王五","workTime":"1年又2天"}];"#;
    let m = fund_manager_from_script(js).unwrap().unwrap();
    assert_eq!((m.name.as_str(), m.tenure_days), ("王五", 367));
    match fund_manager_from_script("var Data_currentFundManager = {};") {
        Some(Err(EastMoneyError::ParseFailed(t))) => assert!(t.starts_with("Failed to parse manager data: ")),
        other => panic!("unexpected {other:?}"),
    }
    match fund_manager_from_script("var Data_currentFundManager = [];") {
        Some(Err(EastMoneyError::ParseFailed(t))) => assert_eq!(t, "No manager data"),
        other => panic!("unexpected {other:?}"),
    }
    match fund_manager_from_script("var x = 1;") {
        Some(Err(EastMoneyError::ParseFailed(t))) => assert_eq!(t, "Manager data not found"),
        other => panic!("unexpected {other:?}"),
    }
}

#[test]
fn profile_from_script_and_fact_sheet() {
    let js = r#"var fS_name="华夏成长";var fund_sourceRate="1.50";var Data_currentFundManager = [{"name":"李四","workTime":"2年又3天"}];"#;
    let html = "<th>基金全称</th><td>华夏成长混合型证券投资基金</td><th>基金类型</th><td>混合型</td>";
    let p = parse_fund_profile("000001", js, html).unwrap().unwrap();
    assert_eq!(p.code, "000001");
    assert_eq!(p.name, "华夏成长");
    assert_eq!(p.full_name, "华夏成长混合型证券投资基金");
    assert_eq!(p.fund_type, "混合型");
    assert_eq!(p.manager_name, "李四");
    assert_eq!(p.manager_tenure_days, 733);
    assert_eq!(p.management_fee, "1.50");
    assert_eq!(p.custody_fee, "0");
    let bare = parse_fund_profile("000002", r#"var Data_currentFundManager = [{"workTime":"1年"}];"#, "").unwrap().unwrap();
    assert_eq!((bare.name.as_str(), bare.full_name.as_str(), bare.manager_name.as_str()), ("未知", "未知", "未知"));
    assert_eq!(bare.management_fee, "0");
    match parse_fund_profile("000001", "var x = 1;", html) {
        Some(Err(EastMoneyError::ParseFailed(m))) => assert_eq!(m, "Manager data not found"),
        other => panic!("unexpected {other:?}"),
    }
    match parse_fund_profile("000001", "var Data_currentFundManager = [];", html) {
        Some(Err(EastMoneyError::ParseFailed(m))) => assert_eq!(m, "No manager data"),
        other => panic!("unexpected {other:?}"),
    }
}
