use q_body::json::JsonValue;
use q_body::protocol::registry::{ProtocolKind, ProtocolRegistry};

type ProtocolHandler = fn(JsonValue) -> Result<JsonValue, String>;

fn dispatch(
    reg: &ProtocolRegistry<ProtocolHandler>,
    kind: &ProtocolKind,
    payload: JsonValue,
) -> Result<JsonValue, String> {
    match reg.route(kind) {
        Ok(h) => h(payload),
        Err(e) => Err(e),
    }
}

fn echo(payload: JsonValue) -> Result<JsonValue, String> {
    Ok(payload)
}

fn field(v: &JsonValue, k: &str) -> Option<JsonValue> {
    match v {
        JsonValue::Object(fs) => fs.iter().find(|(n, _)| n == k).map(|(_, x)| x.deep_copy()),
        _ => None,
    }
}

#[test]
fn test_protocol_kind_from_str() {
    assert_eq!(ProtocolKind::from_str("a2a"), Some(ProtocolKind::A2A));
    assert_eq!(ProtocolKind::from_str("A2A"), Some(ProtocolKind::A2A));
    assert_eq!(ProtocolKind::from_str("json-rpc"), Some(ProtocolKind::A2A));
    assert_eq!(ProtocolKind::from_str("jsonrpc"), Some(ProtocolKind::A2A));
    assert_eq!(ProtocolKind::from_str("mcp"), Some(ProtocolKind::MCP));
    assert_eq!(ProtocolKind::from_str("MCP"), Some(ProtocolKind::MCP));
    assert_eq!(ProtocolKind::from_str("unknown"), None);
}

#[test]
fn registry_test_empty_registry() {
    let reg: ProtocolRegistry<ProtocolHandler> = ProtocolRegistry::new();
    assert!(reg.is_empty());
    assert_eq!(reg.len(), 0);
    assert!(!reg.has_protocol(&ProtocolKind::A2A));
    assert!(!reg.has_protocol(&ProtocolKind::MCP));
}

#[test]
fn test_register_and_has_protocol() {
    let mut reg: ProtocolRegistry<ProtocolHandler> = ProtocolRegistry::new();
    reg.register(ProtocolKind::A2A, echo);
    assert!(!reg.is_empty());
    assert_eq!(reg.len(), 1);
    assert!(reg.has_protocol(&ProtocolKind::A2A));
    assert!(!reg.has_protocol(&ProtocolKind::MCP));
}

#[test]
fn test_register_multiple_protocols() {
    let mut reg: ProtocolRegistry<ProtocolHandler> = ProtocolRegistry::new();
    reg.register(ProtocolKind::A2A, echo);
    reg.register(ProtocolKind::MCP, echo);
    assert_eq!(reg.len(), 2);
    assert!(reg.has_protocol(&ProtocolKind::A2A));
    assert!(reg.has_protocol(&ProtocolKind::MCP));
}

fn processed(payload: JsonValue) -> Result<JsonValue, String> {
    Ok(JsonValue::Object(vec![
        ("processed".to_string(), JsonValue::Bool(true)),
        ("payload".to_string(), payload),
    ]))
}

#[test]
fn test_dispatch_known_protocol() {
    let mut reg: ProtocolRegistry<ProtocolHandler> = ProtocolRegistry::new();
    reg.register(ProtocolKind::A2A, processed);
    let payload = JsonValue::Object(vec![("method".to_string(), JsonValue::String("test".to_string()))]);
    let result = dispatch(&reg, &ProtocolKind::A2A, payload.deep_copy()).unwrap();
    assert_eq!(field(&result, "processed"), Some(JsonValue::Bool(true)));
    assert_eq!(field(&result, "payload"), Some(payload));
}

#[test]
fn test_dispatch_unknown_protocol() {
    let reg: ProtocolRegistry<ProtocolHandler> = ProtocolRegistry::new();
    let result = dispatch(&reg, &ProtocolKind::MCP, JsonValue::Object(vec![]));
    assert!(result.is_err());
    assert!(result.unwrap_err().contains("Protocol not supported: mcp"));
}

fn version_old(_: JsonValue) -> Result<JsonValue, String> {
    Ok(JsonValue::Object(vec![("version".to_string(), JsonValue::String("old".to_string()))]))
}

fn version_new(_: JsonValue) -> Result<JsonValue, String> {
    Ok(JsonValue::Object(vec![("version".to_string(), JsonValue::String("new".to_string()))]))
}

#[test]
fn test_register_overwrites_existing() {
    let mut reg: ProtocolRegistry<ProtocolHandler> = ProtocolRegistry::new();
    reg.register(ProtocolKind::A2A, version_old);
    let old = reg.register(ProtocolKind::A2A, version_new);
    assert!(old.is_some());
    assert_eq!(reg.len(), 1);
    let result = dispatch(&reg, &ProtocolKind::A2A, JsonValue::Object(vec![])).unwrap();
    assert_eq!(field(&result, "version"), Some(JsonValue::String("new".to_string())));
}

#[test]
fn test_list_protocols() {
    let mut reg: ProtocolRegistry<ProtocolHandler> = ProtocolRegistry::new();
    reg.register(ProtocolKind::MCP, echo);
    reg.register(ProtocolKind::A2A, echo);
    let protocols = reg.list_protocols();
    assert_eq!(protocols, vec!["a2a", "mcp"]);
}

#[test]
fn protocol_names() {
    assert_eq!(ProtocolKind::A2A.as_str(), "a2a");
    assert_eq!(ProtocolKind::MCP.as_str(), "mcp");
}

#[test]
fn every_kind_reads_back_from_its_name() {
    for k in [ProtocolKind::A2A, ProtocolKind::MCP] {
        assert_eq!(ProtocolKind::from_str(k.as_str()), Some(k));
        assert_eq!(ProtocolKind::from_str(&k.as_str().to_ascii_uppercase()), Some(k));
    }
}
