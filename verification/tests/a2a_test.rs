use q_body::a2a::plan::{detect_deep_plan, generate_deep_plan, Phase};
use q_body::a2a::types::{AgentInterface, Transport};

#[test]
fn test_detect_deep_flag() {
    let result = detect_deep_plan("请实现一个斐波那契函数 --deep");
    assert!(result.is_some());
    let plan = result.unwrap();
    assert_eq!(plan.stages.len(), 3);
    assert_eq!(plan.stages[0].phase, Phase::Red);
    assert_eq!(plan.stages[1].phase, Phase::Green);
    assert_eq!(plan.stages[2].phase, Phase::Refactor);
}

#[test]
fn test_no_deep_flag_returns_none() {
    let result = detect_deep_plan("请实现一个斐波那契函数");
    assert!(result.is_none());
}

#[test]
fn test_generate_template_contains_all_phases() {
    let template = generate_deep_plan("实现排序算法 --deep");
    assert!(!template.is_empty());
    assert!(template.contains("RED"));
    assert!(template.contains("GREEN"));
    assert!(template.contains("REFACTOR"));
    assert!(template.contains("[ ]"));
}

#[test]
fn test_no_deep_returns_empty() {
    let template = generate_deep_plan("实现排序算法");
    assert!(template.is_empty());
}

#[test]
fn test_deep_plan_with_complex_input() {
    let result = detect_deep_plan("--deep 实现用户注册功能");
    assert!(result.is_some());
    let plan = result.unwrap();
    assert_eq!(plan.stages.len(), 3);
    assert!(plan.stages[0].description.contains("实现用户注册功能"));
}

#[test]
fn test_transport_binding_strings() {
    assert_eq!(Transport::Jsonrpc.as_binding(), "JSONRPC");
    assert_eq!(Transport::Ws.as_binding(), "WS");
}

#[test]
fn test_agent_interface_is_websocket() {
    let ws_iface = AgentInterface {
        protocol_binding: "WS".into(),
        protocol_version: "1.0".into(),
        url: "ws://127.0.0.1:41242/a2a/ws".into(),
    };
    assert!(ws_iface.is_websocket());

    let http_iface = AgentInterface {
        protocol_binding: "JSONRPC".into(),
        protocol_version: "1.0".into(),
        url: "http://127.0.0.1:41242/a2a/jsonrpc".into(),
    };
    assert!(!http_iface.is_websocket());
}

#[test]
fn deep_plan_phase_names() {
    assert_eq!(Phase::Red.as_str(), "RED");
    assert_eq!(Phase::Green.as_str(), "GREEN");
    assert_eq!(Phase::Refactor.as_str(), "REFACTOR");
}

#[test]
fn websocket_binding_is_case_insensitive() {
    let iface = AgentInterface {
        protocol_binding: "websocket".into(),
        protocol_version: "1.0".into(),
        url: "ws://x".into(),
    };
    assert!(iface.is_websocket());
}
