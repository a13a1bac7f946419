use q_body::retry::RetryCounter;

#[test]
fn test_new_counter_empty() {
    let c = RetryCounter::new();
    assert_eq!(c.cycle(), 1);
    assert!(c.counts().is_empty());
    assert_eq!(c.total_retries(), 0);
}

#[test]
fn retry_test_bump_increments_counter() {
    let mut c = RetryCounter::new();
    assert_eq!(c.bump("llm_http_error"), 1);
    assert_eq!(c.bump("llm_http_error"), 2);
    assert_eq!(c.count_for("llm_http_error"), 2);
}

#[test]
fn retry_test_bump_multiple_signals() {
    let mut c = RetryCounter::new();
    c.bump("llm_http_error");
    c.bump("llm_api_error");
    c.bump("llm_http_error");
    assert_eq!(c.count_for("llm_http_error"), 2);
    assert_eq!(c.count_for("llm_api_error"), 1);
    assert_eq!(c.count_for("llm_parse_error"), 0);
}

#[test]
fn retry_test_reset_archives_and_clears() {
    let mut c = RetryCounter::new();
    c.bump("llm_http_error");
    c.bump("llm_http_error");
    c.bump("llm_api_error");
    assert_eq!(c.cycle(), 1);

    c.reset();
    assert_eq!(c.cycle(), 2);
    assert!(c.counts().is_empty());
    assert_eq!(c.count_for("llm_http_error"), 0);

    let archived = c.archive();
    assert_eq!(archived.len(), 1);
    let cycle1 = archived.get(&1).unwrap();
    assert_eq!(cycle1.get("llm_http_error"), Some(&2));
    assert_eq!(cycle1.get("llm_api_error"), Some(&1));
}

#[test]
fn retry_test_unknown_signal_returns_zero() {
    let c = RetryCounter::new();
    assert_eq!(c.count_for("nonexistent"), 0);
}

#[test]
fn test_total_retries() {
    let mut c = RetryCounter::new();
    c.bump("llm_http_error");
    c.bump("llm_http_error");
    c.bump("llm_api_error");
    assert_eq!(c.total_retries(), 3);

    c.reset();
    c.bump("llm_parse_error");
    assert_eq!(c.total_retries(), 4);
}

#[test]
fn retry_test_empty_reset_advances_cycle() {
    let mut c = RetryCounter::new();
    c.reset();
    assert_eq!(c.cycle(), 2);
    assert!(c.archive().is_empty());
}

#[test]
fn test_default_is_empty() {
    let c: RetryCounter = Default::default();
    assert_eq!(c.cycle(), 1);
    assert!(c.counts().is_empty());
}

#[test]
fn reset_keeps_the_total() {
    let mut c = RetryCounter::new();
    c.bump("a");
    c.bump("b");
    c.bump("a");
    let before = c.total_retries();
    c.reset();
    assert_eq!(c.total_retries(), before);
    c.reset();
    assert_eq!(c.total_retries(), before);
    assert_eq!(c.archive().len(), 1);
}

#[test]
fn counts_come_sorted_by_signal() {
    let mut c = RetryCounter::new();
    c.bump("zeta");
    c.bump("alpha");
    c.bump("zeta");
    assert_eq!(c.counts(), vec![("alpha".to_string(), 1), ("zeta".to_string(), 2)]);
}
