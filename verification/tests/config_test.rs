use q_body::config::{secs_or, TimeoutConfig};
use std::time::Duration;

#[test]
fn test_timeout_config_default() {
    let cfg = TimeoutConfig::default();
    assert_eq!(cfg.http_timeout, Duration::from_secs(60));
    assert_eq!(cfg.task_timeout, Duration::from_secs(300));
}

#[test]
fn test_timeout_config_custom() {
    let cfg = TimeoutConfig::new(Duration::from_secs(30), Duration::from_secs(120));
    assert_eq!(cfg.http_timeout, Duration::from_secs(30));
    assert_eq!(cfg.task_timeout, Duration::from_secs(120));
}

#[test]
fn environment_values_parse_or_fall_back() {
    assert_eq!(secs_or(None, 60), 60);
    assert_eq!(secs_or(Some("10"), 60), 10);
    assert_eq!(secs_or(Some("+45"), 300), 45);
    assert_eq!(secs_or(Some("abc"), 300), 300);
    assert_eq!(secs_or(Some(""), 300), 300);
    assert_eq!(secs_or(Some(" 10"), 60), 60);
    assert_eq!(secs_or(Some("99999999999999999999"), 60), 60);
}

#[test]
fn timeout_config_from_seconds() {
    let cfg = TimeoutConfig::from_secs(10, 45);
    assert_eq!(cfg.http_timeout, Duration::from_secs(10));
    assert_eq!(cfg.task_timeout, Duration::from_secs(45));
}
