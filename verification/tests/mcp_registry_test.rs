use q_body::a2a::types::McpCapability;
use q_body::mcp_registry::McpRegistry;

#[test]
fn mcp_registry_test_new_registry_is_empty() {
    let reg = McpRegistry::new();
    assert!(reg.is_empty());
    assert_eq!(reg.len(), 0);
}

#[test]
fn test_register_and_discover() {
    let mut reg = McpRegistry::new();
    reg.register("tools/call", McpCapability::Tool);
    assert_eq!(reg.discover("tools/call"), Some(&McpCapability::Tool));
    assert!(reg.supports(&McpCapability::Tool));
    assert!(!reg.supports(&McpCapability::Resource));
}

#[test]
fn test_register_unknown_returns_none() {
    let reg = McpRegistry::new();
    assert_eq!(reg.discover("nonexistent"), None);
}

#[test]
fn test_register_capability_updates_capabilities() {
    let mut reg = McpRegistry::new();
    reg.register("tools/call", McpCapability::Tool);
    reg.register("resources/list", McpCapability::Resource);
    let caps = reg.capabilities();
    assert!(caps.supports(&McpCapability::Tool));
    assert!(caps.supports(&McpCapability::Resource));
    assert!(!caps.supports(&McpCapability::Prompt));
}

#[test]
fn test_register_duplicate_does_not_duplicate() {
    let mut reg = McpRegistry::new();
    reg.register("tools/call", McpCapability::Tool);
    reg.register("tools/call", McpCapability::Tool);
    assert_eq!(reg.len(), 1);
}

#[test]
fn test_methods_sorted() {
    let mut reg = McpRegistry::new();
    reg.register("zzz", McpCapability::Prompt);
    reg.register("aaa", McpCapability::Tool);
    let methods = reg.methods();
    assert_eq!(methods, vec!["aaa", "zzz"]);
}

#[test]
fn reregistering_replaces_capability() {
    let mut reg = McpRegistry::new();
    reg.register("x", McpCapability::Tool);
    reg.register("x", McpCapability::Prompt);
    assert_eq!(reg.discover("x"), Some(&McpCapability::Prompt));
    assert_eq!(reg.len(), 1);
    // the capability stays declared once declared
    assert!(reg.supports(&McpCapability::Tool));
}
