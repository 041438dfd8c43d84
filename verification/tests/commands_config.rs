use fanalyzer::cache::FundCache;
use fanalyzer::commands::{
    json_structured_output, rank_ft_code, require_online, resolve_fund_ids,
    resolve_many_fund_ids, truncate_string, FundCodeArg, OutputProfile,
};
use fanalyzer::config::{config_source, AppConfig, ConfigSource, EastMoneyClientOptions};

#[test]
fn require_online_blocks_offline() {
    assert!(require_online(true, "rank").is_err());
    assert!(require_online(false, "rank").is_ok());
}

#[test]
fn resolve_fund_ids_needs_code() {
    let err = resolve_fund_ids(None, false, "/tmp/x", vec![], "--code").unwrap_err();
    assert!(err.to_string().contains("--code"));
}

#[test]
fn resolve_many_needs_codes() {
    assert!(resolve_many_fund_ids(vec![], false, "/tmp/x", vec![]).is_err());
}

#[test]
fn resolve_uses_watchlist_and_refuses_empty_one() {
    let ids = resolve_fund_ids(None, true, "w.toml", vec!["000001".into()], "--code").unwrap();
    assert_eq!(ids, vec!["000001".to_string()]);
    let err = resolve_many_fund_ids(vec!["1".into()], true, "w.toml", vec![]).unwrap_err();
    assert_eq!(err, "自选列表为空或无有效项：w.toml");
}

#[test]
fn profile_parse_and_flags() {
    assert!(OutputProfile::Summary.compact_series());
    assert!(OutputProfile::Summary.summary_mode());
    assert!(!OutputProfile::Full.compact_series());
    assert!(OutputProfile::parse("standard").is_ok());
    assert!(OutputProfile::parse("invalid").is_err());
}

#[test]
fn json_output_follows_profile() {
    let s = json_structured_output(false, false, Some("summary".into())).unwrap();
    assert!(s.enabled && s.json_compact && s.compact_series);
    let s = json_structured_output(true, false, None).unwrap();
    assert!(s.enabled && s.json_compact && !s.compact_series);
    assert!(json_structured_output(true, true, Some("x".into())).is_err());
}

#[test]
fn test_cache_operations() {
    let mut cache = FundCache::new();
    cache.set_mapping("000001", "测试基金");
    assert_eq!(cache.get_name("000001"), Some("测试基金".to_string()));
    assert_eq!(cache.get_code("测试基金"), Some("000001".to_string()));
}

#[test]
fn cache_later_mapping_wins() {
    let mut cache = FundCache::new();
    cache.set_mapping("000001", "甲");
    cache.set_mapping("000001", "乙");
    assert_eq!(cache.get_name("000001"), Some("乙".to_string()));
    assert_eq!(cache.get_code("甲"), Some("000001".to_string()));
    assert_eq!(cache.get_name("000002"), None);
}

#[test]
fn cache_from_saved_names() {
    let cache = FundCache::from_names(vec![
        ("000001".into(), "华夏成长".into()),
        ("110011".into(), "易方达".into()),
    ]);
    assert_eq!(cache.get_code("易方达"), Some("110011".to_string()));
    assert_eq!(cache.get_name("000001"), Some("华夏成长".to_string()));
}

#[test]
fn resolve_prefers_positional_when_only_one() {
    let arg = FundCodeArg { positional: Some("110011".into()), flag: None };
    assert_eq!(arg.resolve().unwrap(), Some("110011".into()));
}

#[test]
fn resolve_uses_flag_when_positional_missing() {
    let arg = FundCodeArg { positional: None, flag: Some("110011".into()) };
    assert_eq!(arg.resolve().unwrap(), Some("110011".into()));
}

#[test]
fn resolve_errors_on_mismatch() {
    let arg = FundCodeArg { positional: Some("110011".into()), flag: Some("000001".into()) };
    assert!(arg.resolve().is_err());
}

#[test]
fn rank_ft_accepts_codes_and_aliases() {
    assert_eq!(rank_ft_code("gp").unwrap(), "gp");
    assert_eq!(rank_ft_code("混合").unwrap(), "hh");
}

#[test]
fn rank_ft_rejects_unknown() {
    assert!(rank_ft_code("xyz").is_err());
}

#[test]
fn rank_ft_trims_and_lowercases() {
    assert_eq!(rank_ft_code("  QDII ").unwrap(), "qdii");
    assert_eq!(rank_ft_code("FOF型").unwrap(), "fof");
}

#[test]
fn truncate_string_cuts_by_chars() {
    assert_eq!(truncate_string("易方达蓝筹精选混合", 4), "易方达蓝..");
    assert_eq!(truncate_string("abc", 3), "abc");
}

#[test]
fn test_default_config() {
    let config = AppConfig::default();
    assert!(!config.api.base_url.is_empty());
    assert_eq!(config.log.level, "info");
}

#[test]
fn load_falls_back_to_defaults() {
    assert_eq!(AppConfig::load(None).log.level, "info");
    assert_eq!(AppConfig::load(Some(Err("bad".into()))).api.timeout_secs, 30);
    let mut c = AppConfig::default();
    c.log.level = "debug".into();
    assert_eq!(AppConfig::load(Some(Ok(c))).log.level, "debug");
}

#[test]
fn client_settings_clamp_timeout_and_skip_empty_values() {
    let o = EastMoneyClientOptions { timeout_secs: 0, user_agent: Some(String::new()), proxy: Some("http://p".into()) };
    let s = o.settings();
    assert_eq!(s.timeout_secs, 1);
    assert!(s.user_agent.starts_with("Mozilla/5.0"));
    assert_eq!(s.proxy.as_deref(), Some("http://p"));
}

#[test]
fn cache_from_saved_json_table() {
    let cache = FundCache::from_saved(Some(r#"{"000001":"华夏成长","110011":"易方达"}"#));
    assert_eq!(cache.get_name("110011"), Some("易方达".to_string()));
    assert_eq!(cache.get_code("华夏成长"), Some("000001".to_string()));
    let broken = FundCache::from_saved(Some("{not json"));
    assert_eq!(broken.get_name("000001"), None);
    let numbers = FundCache::from_saved(Some(r#"{"000001": 5}"#));
    assert_eq!(numbers.get_name("000001"), None);
    assert_eq!(FundCache::from_saved(None).get_code("华夏成长"), None);
}

#[test]
fn config_file_choice() {
    assert_eq!(config_source(Some(true), true, &[true]), ConfigSource::Explicit);
    assert_eq!(config_source(Some(false), true, &[true]), ConfigSource::WorkingDir);
    assert_eq!(config_source(None, false, &[false, true, true]), ConfigSource::NearExe(1));
    assert_eq!(config_source(Some(false), false, &[false, false, false]), ConfigSource::Defaults);
    assert_eq!(config_source(None, false, &[]), ConfigSource::Defaults);
}
