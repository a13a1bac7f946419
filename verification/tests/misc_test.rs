use q_body::clock::Timestamp;
use q_body::evolution_gate::{check_tokens, GateError, TokenCheck, FIELD_EST_TOKENS, FIELD_EST_VALUE};
use q_body::reflect::{length_tier, specificity_hits, structure_hits, Verdict};
use q_body::server::{agent_card, port_from_args, DEFAULT_PORT};
use q_body::validator::recency::{select_query, RecencyQuery};

#[test]
fn gate_errors_describe_the_field() {
    let e = GateError::MissingField { field: FIELD_EST_TOKENS.to_string() };
    assert_eq!(
        e.to_string(),
        "提案缺少成本申报字段 `est_tokens`，前置 gate 拒绝。申报必须含 `est_tokens`（正整数）与 `est_value`（非负数）。"
    );
    let e = GateError::InvalidValue { field: FIELD_EST_VALUE.to_string(), detail: "期望数值，实际为 \"x\"".into() };
    assert_eq!(e.to_string(), "提案字段 `est_value` 值非法：期望数值，实际为 \"x\"");
    let e = GateError::MalformedJson { detail: "EOF".into() };
    assert_eq!(e.to_string(), "提案不是合法 JSON，前置 gate 拒绝：EOF");
}

const GOOD: &str = "本次执行 completed：修改 handler.rs 重试路径，46 tests passed，结果 result 见 commit #a1b2c3。改进 improve：下次先量化再收窄关键词表。";

#[test]
fn reflection_counts() {
    assert_eq!(structure_hits(GOOD), 3);
    assert_eq!(specificity_hits(GOOD), 3);
    assert_eq!(structure_hits(""), 0);
    assert_eq!(specificity_hits(""), 0);
    assert_eq!(structure_hits("改进 improve：路径 src/handler.rs #98"), 1);
    assert_eq!(structure_hits("DID things, got RESULT"), 2);
    assert_eq!(specificity_hits("did things, got result, will improve next time"), 0);
    assert_eq!(length_tier(""), 0);
    assert_eq!(length_tier(&"a".repeat(50)), 1);
    assert_eq!(length_tier(&"a".repeat(100)), 2);
    assert_eq!(length_tier(&"执".repeat(5000)), 2);
    assert_eq!(length_tier(&"a".repeat(5001)), 3);
    assert_ne!(Verdict::Solidify, Verdict::Observe);
}

#[test]
fn recency_query_choice() {
    let now = Timestamp { secs: 1_700_000_000, nanos: 7 };
    assert_eq!(select_query(false, now), RecencyQuery::FixedLimit { limit: 100 });
    assert_eq!(
        select_query(true, now),
        RecencyQuery::DateRange { since: Timestamp { secs: 1_700_000_000 - 7 * 86_400, nanos: 7 } }
    );
}

#[test]
fn port_from_command_line() {
    let args = |v: &[&str]| v.iter().map(|s| s.to_string()).collect::<Vec<String>>();
    assert_eq!(port_from_args(&args(&[])), DEFAULT_PORT);
    assert_eq!(port_from_args(&args(&["--port=8080"])), 8080);
    assert_eq!(port_from_args(&args(&["--port", "9000"])), DEFAULT_PORT);
    assert_eq!(port_from_args(&args(&["--port=70000"])), DEFAULT_PORT);
    assert_eq!(port_from_args(&args(&["--port=8080", "--port=bad", "--port=81"])), 81);
}

#[test]
fn agent_card_for_port() {
    let c = agent_card(41242);
    assert_eq!(c.name, "q-body");
    assert_eq!(c.url.as_deref(), Some("http://127.0.0.1:41242"));
    assert_eq!(c.supported_interfaces[0].url, "http://127.0.0.1:41242/a2a/jsonrpc");
    assert_eq!(c.skills[0].examples, vec!["hello", "what can you do", "你的能力"]);
}

#[test]
fn leap_second_instants_are_representable() {
    assert!(Timestamp { secs: 59, nanos: 1_500_000_000 }.is_representable());
    assert!(Timestamp { secs: -1, nanos: 1_999_999_999 }.is_representable());
    assert!(!Timestamp { secs: 58, nanos: 1_000_000_000 }.is_representable());
    assert!(!Timestamp { secs: 59, nanos: 2_000_000_000 }.is_representable());
    assert!(Timestamp { secs: 1_700_000_000, nanos: 5 }.is_representable());
    assert!(!Timestamp { secs: 8_210_266_876_800, nanos: 0 }.is_representable());
}

#[test]
fn token_cost_is_checked_against_the_budget() {
    assert_eq!(check_tokens(0, 10_000), TokenCheck::NoCost);
    assert_eq!(check_tokens(10_000, 10_000), TokenCheck::WithinBudget);
    assert_eq!(check_tokens(10_001, 10_000), TokenCheck::OverBudget);
    assert_eq!(check_tokens(1, 10_000), TokenCheck::WithinBudget);
}
