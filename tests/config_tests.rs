use campus_api::config::{parse_flag, validate_settings, ConfigError};
use campus_api::metrics::{Counter, RuntimeMetrics};
use campus_api::models::MetricsResponse;

#[test]
fn valid_settings_pass() {
    assert!(validate_settings(8000, "local", 12000, 120, 90000).is_ok());
    assert!(validate_settings(1, "cloud", 1000, 1, 1000).is_ok());
}

#[test]
fn each_rule_reports_its_error() {
    assert_eq!(validate_settings(0, "local", 12000, 120, 90000), Err(ConfigError::PortZero));
    assert_eq!(validate_settings(80, "hybrid", 12000, 120, 90000), Err(ConfigError::BadMode));
    assert_eq!(validate_settings(80, "local", 999, 120, 90000), Err(ConfigError::InputBudgetTooLow));
    assert_eq!(validate_settings(80, "local", 1000, 0, 90000), Err(ConfigError::CacheSizeZero));
    assert_eq!(validate_settings(80, "local", 1000, 1, 999), Err(ConfigError::TimeoutTooLow));
    assert_eq!(ConfigError::TimeoutTooLow.message(), "UPSTREAM_TIMEOUT_MS must be >= 1000");
}

#[test]
fn flags_parse() {
    assert!(parse_flag("TRUE"));
    assert!(parse_flag("1"));
    assert!(parse_flag("Yes"));
    assert!(!parse_flag("no"));
    assert!(!parse_flag(""));
}

#[test]
fn metrics_count_each_counter() {
    let m = RuntimeMetrics::new();
    m.incr_requests();
    m.incr_chat();
    m.incr_cache_hit();
    m.incr_cache_miss();
    m.incr_cache_miss();
    m.incr_local_route();
    m.incr_cloud_route();
    m.record(Counter::Fallback);
    let s = m.snapshot();
    let mut expected = MetricsResponse::zero();
    expected.count(Counter::Requests);
    expected.count(Counter::Chat);
    expected.count(Counter::CacheHit);
    expected.count(Counter::CacheMiss);
    expected.count(Counter::CacheMiss);
    expected.count(Counter::LocalRoute);
    expected.count(Counter::CloudRoute);
    expected.count(Counter::Fallback);
    assert_eq!(s, expected);
    assert_eq!(s.cache_misses_total, 2);
}
