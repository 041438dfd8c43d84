use fanalyzer::js::{
    extract_js_string_value, extract_js_variable, extract_js_variable_spaced, parse_work_time,
};

#[test]
fn test_parse_work_time_years_only() {
    assert_eq!(parse_work_time("5年"), 5 * 365);
}

#[test]
fn test_parse_work_time_years_and_days() {
    assert_eq!(parse_work_time("3年又120天"), 3 * 365 + 120);
}

#[test]
fn test_parse_work_time_empty() {
    assert_eq!(parse_work_time(""), 0);
}

#[test]
fn parse_work_time_long_tenure() {
    assert_eq!(parse_work_time("14年又138天"), 14 * 365 + 138);
    assert_eq!(parse_work_time(" 2 年又 5 天"), 2 * 365 + 5);
    assert_eq!(parse_work_time("又7天"), 7);
    assert_eq!(parse_work_time("x年"), 0);
}

#[test]
fn test_extract_js_string_value_basic() {
    let js = "var fS_name=\"测试基金\";";
    assert_eq!(
        extract_js_string_value(js, "fS_name"),
        Some("测试基金".into())
    );
}

#[test]
fn test_extract_js_string_value_with_bom() {
    let js = "\u{feff}var fS_name=\"测试基金\";";
    assert_eq!(
        extract_js_string_value(js, "fS_name"),
        Some("测试基金".into())
    );
}

#[test]
fn test_extract_js_string_value_not_found() {
    let js = "var other=\"value\";";
    assert_eq!(extract_js_string_value(js, "fS_name"), None);
}

#[test]
fn extract_js_string_value_unclosed_quote() {
    assert_eq!(extract_js_string_value("var a=\"open", "a"), None);
}

#[test]
fn test_extract_js_variable() {
    let js = "var Data_currentFundManager = [{\"name\":\"张三\"}];";
    let result = extract_js_variable(js, "Data_currentFundManager");
    assert!(result.is_some());
    assert!(result.unwrap().contains("张三"));
}

#[test]
fn extract_js_variable_forms() {
    assert_eq!(extract_js_variable("var a =  [1] ;x", "a"), Some("[1]".into()));
    assert_eq!(extract_js_variable("var a=[2]", "a"), Some("[2]".into()));
    assert_eq!(extract_js_variable("var b=1;", "a"), None);
    assert_eq!(extract_js_variable_spaced("var a=[2];", "a"), None);
    assert_eq!(extract_js_variable_spaced("var a = [2];", "a"), Some("[2]".into()));
}
