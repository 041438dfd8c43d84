use fanalyzer::workflow::{
    batch_outcome, brief_outcome, collect_batch, compare_insufficient, comparison_rows,
    gather_outcomes, manager_compare_rows, screen_insufficient, screen_plan, AnalysisFigures,
};

fn figures(code: &str, name: &str, manager: &str, fee: Option<&str>) -> AnalysisFigures {
    AnalysisFigures {
        code: code.to_string(),
        name: name.to_string(),
        total_return: "1.00".to_string(),
        annualized_return: "2.00".to_string(),
        volatility: "3.00".to_string(),
        max_drawdown: "-4.00".to_string(),
        sharpe_ratio: "1.50".to_string(),
        sortino_ratio: "1.60".to_string(),
        calmar_ratio: "1.40".to_string(),
        alpha: "0.10".to_string(),
        beta: "0.90".to_string(),
        management_fee: fee.map(|f| f.to_string()),
        custody_fee: Some("0.20".to_string()),
        manager_name: manager.to_string(),
        tenure_years: "1.0".to_string(),
        manager_total_return: "5.00".to_string(),
    }
}

#[test]
fn comparison_rows_formats_percent_columns() {
    let sample = figures("000001", "测试", "张三", Some("1.20"));
    let rows = comparison_rows(&[sample]);
    assert_eq!(rows.len(), 1);
    assert!(rows[0].total_return.ends_with('%'));
    let sample = figures("000001", "测试", "张三", Some("1.20"));
    assert_eq!(manager_compare_rows(&[sample]).len(), 1);
}

#[test]
fn comparison_row_cells() {
    let rows = comparison_rows(&[figures("000001", "一二三四五六七八九十一二三四五", "", None)]);
    let r = &rows[0];
    assert_eq!(r.code, "000001");
    assert_eq!(r.name, "一二三四五六七八九十一二三四..");
    assert_eq!(r.total_return, "1.00%");
    assert_eq!(r.max_drawdown, "-4.00%");
    assert_eq!(r.alpha, "0.10%");
    assert_eq!(r.sharpe_ratio, "1.50");
    assert_eq!(r.beta, "0.90");
    assert_eq!(r.management_fee, "-");
    assert_eq!(r.custody_fee, "0.20%");
}

#[test]
fn manager_rows_skip_funds_without_manager() {
    let all = [
        figures("000001", "A", "张三", None),
        figures("000002", "B", "", None),
        figures("000003", "C", "李四", None),
    ];
    let rows = manager_compare_rows(&all);
    assert_eq!(rows.len(), 2);
    assert_eq!((rows[0].code.as_str(), rows[0].manager_name.as_str()), ("000001", "张三"));
    assert_eq!(rows[1].code, "000003");
    assert_eq!(rows[1].tenure_years, "1.0");
    assert_eq!(rows[1].tenure_return, "5.00%");
}

#[test]
fn gather_keeps_order_on_both_sides() {
    let g = gather_outcomes(vec![
        Ok(1),
        Err("a".to_string()),
        Ok(2),
        Err("b".to_string()),
    ]);
    assert_eq!(g.items, vec![1, 2]);
    assert_eq!(g.errors, vec!["a".to_string(), "b".to_string()]);
}

#[test]
fn batch_fails_only_when_nothing_succeeded() {
    let r = batch_outcome(2, vec![Err::<u32, String>("x".into()), Err("y".into())]);
    assert_eq!(r.unwrap_err(), "无有效分析结果（数据不足或全部失败）");
    let (items, errors, n) = batch_outcome(3, vec![Err("x".into()), Ok(7u32), Ok(9)]).unwrap();
    assert_eq!((items, errors, n), (vec![7, 9], vec!["x".to_string()], 2));
    assert!(batch_outcome::<u32>(0, vec![]).is_err());
    assert_eq!(brief_outcome(vec![Err::<u8, String>("e".into())]).unwrap_err(), "无有效简报结果");
    assert_eq!(collect_batch(vec![Err::<u8, String>("e".into())]).unwrap_err(), "全部条目处理失败");
    assert_eq!(collect_batch(vec![Ok(1u8)]).unwrap().2, 1);
}

#[test]
fn screen_plan_clamps() {
    assert_eq!(screen_plan(200, 1, 1, false, 50), (100, 2, 3));
    assert_eq!(screen_plan(1, 99, 80, false, 50), (5, 30, 5));
    assert_eq!(screen_plan(60, 10, 20, false, 12), (60, 10, 12));
    assert_eq!(screen_plan(60, 10, 20, false, 50), (60, 10, 20));
    assert_eq!(screen_plan(60, 10, 20, true, 50), (60, 10, 50));
    assert!(screen_insufficient(1));
    assert!(!screen_insufficient(2));
    assert!(compare_insufficient(0));
    assert!(!compare_insufficient(3));
}
