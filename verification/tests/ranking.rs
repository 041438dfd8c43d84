use fanalyzer::ranking::{
    extract_all_records, parse_rank_row, parse_rankhandler_body, split_datas_records,
};

fn num(o: &Option<String>) -> Option<f64> {
    o.as_deref().and_then(|t| t.parse::<f64>().ok())
}

#[test]
fn parse_sample_rankhandler() {
    let js = r#"var rankData = {datas:["001761,广发安宏回报混合A,GFAHHBHHA,2026-05-06,1.1233,1.4782,9.45,14.39,19.18,13.05,16.36,46.99,32.68,10.88,15.91,48.04,2015-12-30,1,48.036048,1.20%,0.12%,1,0.12%,1,-1.96"],allRecords:9130,pageIndex:1};"#;
    let page = parse_rankhandler_body(js).unwrap();
    assert_eq!(page.total_records, 9130);
    assert_eq!(page.rows.len(), 1);
    let r = &page.rows[0];
    assert_eq!(r.code, "001761");
    assert_eq!(r.name, "广发安宏回报混合A");
    assert!((num(&r.pcts[1]).unwrap() - 14.39).abs() < 1e-6);
    assert!((num(&r.pcts[5]).unwrap() - 46.99).abs() < 1e-6);
}

#[test]
fn rankhandler_missing_markers() {
    assert_eq!(
        parse_rankhandler_body("var x = 1;").unwrap_err(),
        "rankhandler: missing datas:["
    );
    assert_eq!(
        parse_rankhandler_body("{datas:[\"a\"]}").unwrap_err(),
        "rankhandler: missing ],allRecords"
    );
}

#[test]
fn rankhandler_empty_page_and_bad_count() {
    let page = parse_rankhandler_body("{datas:[],allRecords:x}").unwrap();
    assert!(page.rows.is_empty());
    assert_eq!(page.total_records, 0);
}

#[test]
fn rank_row_cells() {
    let r = parse_rank_row(" 000001 ,华夏成长,HXCZ,2026-01-02,--, 1.5 ,3.2%,,-1.1 % ").unwrap();
    assert_eq!(r.code, "000001");
    assert_eq!(r.unit_nav, None);
    assert_eq!(r.acc_nav.as_deref(), Some("1.5"));
    assert_eq!(r.pcts.len(), 10);
    assert_eq!(r.pcts[0].as_deref(), Some("3.2"));
    assert_eq!(r.pcts[1], None);
    assert_eq!(r.pcts[2].as_deref(), Some("-1.1"));
    assert_eq!(r.pcts[3], None);
    assert!(parse_rank_row("a,b,c,d,e").is_none());
}

#[test]
fn datas_records_split_at_quoted_commas() {
    assert_eq!(
        split_datas_records(r#" "a,1","b,2" "#),
        vec!["a,1".to_string(), "b,2".to_string()]
    );
    assert!(split_datas_records(r#""""#).is_empty());
    assert!(split_datas_records("  ").is_empty());
}

#[test]
fn all_records_reads_leading_digits() {
    assert_eq!(extract_all_records("x],allRecords:42,y"), Some(42));
    assert_eq!(extract_all_records("x],allRecords:,y"), None);
    assert_eq!(extract_all_records("x],allRecords:99999999999"), None);
    assert_eq!(extract_all_records("allRecords:5"), None);
}

#[test]
fn datas_records_round_trip() {
    let recs = vec!["000001,华夏成长,HXCZ".to_string(), "".to_string(), "110011, x ".to_string()];
    let text = format!(r#""{}""#, recs.join(r#"",""#));
    assert_eq!(split_datas_records(&text), recs);
    let one = vec!["519001,A".to_string()];
    assert_eq!(split_datas_records(&format!(r#""{}""#, one.join(r#"",""#))), one);
    assert!(split_datas_records("").is_empty());
}
