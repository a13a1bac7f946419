use q_body::risk::{RiskEntry, RiskLevel};
use q_body::sandbox::SandboxConfig;

#[test]
fn test_risk_level_severity() {
    assert_eq!(RiskLevel::High.severity(), 3);
    assert_eq!(RiskLevel::Medium.severity(), 2);
    assert_eq!(RiskLevel::Low.severity(), 1);
}

#[test]
fn test_risk_entry_new() {
    let entry = RiskEntry::new("LLM timeout will occur".into(), RiskLevel::High);
    assert_eq!(entry.prediction, "LLM timeout will occur");
    assert_eq!(entry.risk, RiskLevel::High);
    assert!(!entry.is_validated());
}

#[test]
fn test_risk_entry_validate() {
    let mut entry = RiskEntry::new("port 41242 will be busy".into(), RiskLevel::Medium);
    assert!(!entry.is_validated());
    entry.validate("port was free, no conflict".into());
    assert!(entry.is_validated());
    assert_eq!(entry.actual.unwrap(), "port was free, no conflict");
}

#[test]
fn test_sandbox_config_defaults() {
    let config = SandboxConfig::new();
    assert!(!config.pid_namespace);
    assert!(!config.cgroup);
    assert!(config.temp_fs);
    assert_eq!(config.timeout_secs, 300);
    assert!(config.temp_dir_prefix.contains("q-body-sandbox"));
}

#[test]
fn test_sandbox_config_with_options() {
    let config = SandboxConfig::new().with_pid_namespace().with_cgroup().with_timeout(600);
    assert!(config.pid_namespace);
    assert!(config.cgroup);
    assert_eq!(config.timeout_secs, 600);
}

#[test]
fn sandbox_default_matches_new() {
    let a = SandboxConfig::default();
    let b = SandboxConfig::new();
    assert_eq!(a.timeout_secs, b.timeout_secs);
    assert_eq!(a.temp_dir_prefix, b.temp_dir_prefix);
}
