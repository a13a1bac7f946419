use q_body::registry::HandlerRegistry;

type Handler = fn(&str) -> String;

fn pong(_: &str) -> String {
    "pong".to_string()
}

fn echo(p: &str) -> String {
    p.to_string()
}

#[test]
fn test_register_and_dispatch() {
    let mut registry: HandlerRegistry<Handler> = HandlerRegistry::new();
    registry.register("ping".to_string(), pong);
    let h = registry.route("ping").unwrap();
    assert_eq!(h("req-1"), "pong");
}

#[test]
fn test_dispatch_unknown_method() {
    let registry: HandlerRegistry<Handler> = HandlerRegistry::new();
    assert!(registry.route("SendMessage").is_none());
}

#[test]
fn test_dispatch_with_params() {
    let mut registry: HandlerRegistry<Handler> = HandlerRegistry::new();
    registry.register("echo".to_string(), echo);
    assert_eq!(registry.route("echo").unwrap()("hello"), "hello");
}

#[test]
fn test_has_method_and_methods_list() {
    let mut registry: HandlerRegistry<Handler> = HandlerRegistry::new();
    registry.register("SendMessage".to_string(), pong);
    registry.register("GetTask".to_string(), pong);
    assert!(registry.has_method("SendMessage"));
    assert!(registry.has_method("GetTask"));
    assert!(!registry.has_method("ListTasks"));
    assert_eq!(registry.len(), 2);
    assert_eq!(registry.methods(), vec!["GetTask", "SendMessage"]);
}

#[test]
fn handler_registry_test_empty_registry() {
    let registry: HandlerRegistry<Handler> = HandlerRegistry::new();
    assert!(registry.is_empty());
    assert_eq!(registry.len(), 0);
}
