use q_body::json::{JsonNumber, JsonValue};
use q_body::router::{ParamType, ToolRegistry, ToolSchema, ToolValidationError};
use q_body::strmap::StrMap;

fn params(list: &[(&str, ParamType)]) -> StrMap<ParamType> {
    let mut m = StrMap::new();
    for (k, t) in list {
        m.insert(k.to_string(), *t);
    }
    m
}

fn obj(fields: Vec<(&str, JsonValue)>) -> JsonValue {
    JsonValue::Object(fields.into_iter().map(|(k, v)| (k.to_string(), v)).collect())
}

fn s(t: &str) -> JsonValue {
    JsonValue::String(t.to_string())
}

fn num(n: u64) -> JsonValue {
    JsonValue::Number(JsonNumber::PosInt(n))
}

fn schema(name: &str, description: &str, list: &[(&str, ParamType)]) -> ToolSchema {
    ToolSchema { name: name.into(), description: description.into(), params: params(list) }
}

fn test_registry() -> ToolRegistry {
    let mut reg = ToolRegistry::new();
    reg.register(schema(
        "search",
        "Search for information",
        &[("query", ParamType::String), ("max_results", ParamType::Integer)],
    ));
    reg.register(schema("calculate", "Perform a calculation", &[("expression", ParamType::String)]));
    reg.register(schema(
        "get_weather",
        "Get weather for a location",
        &[("location", ParamType::String), ("units", ParamType::Any)],
    ));
    reg
}

#[test]
fn router_test_empty_registry() {
    let reg = ToolRegistry::new();
    assert!(reg.is_empty());
    assert_eq!(reg.len(), 0);
    assert!(!reg.has_tool("anything"));
}

#[test]
fn test_register_and_query() {
    let reg = test_registry();
    assert!(!reg.is_empty());
    assert_eq!(reg.len(), 3);
    assert!(reg.has_tool("search"));
    assert!(reg.has_tool("SEARCH"));
    assert!(reg.has_tool("calculate"));
    assert!(!reg.has_tool("nonexistent"));
}

#[test]
fn test_tool_names_sorted() {
    let reg = test_registry();
    let names = reg.tool_names();
    assert_eq!(names, vec!["calculate", "get_weather", "search"]);
}

#[test]
fn test_get_schema() {
    let reg = test_registry();
    let schema = reg.get_schema("search").unwrap();
    assert_eq!(schema.name, "search");
    assert_eq!(schema.description, "Search for information");
    assert!(schema.params.contains_key("query"));
    assert!(schema.params.contains_key("max_results"));
}

#[test]
fn test_validate_valid_call() {
    let reg = test_registry();
    let args = obj(vec![("query", s("rust tooling")), ("max_results", num(10))]);
    let result = reg.validate("search", &args);
    assert!(result.is_ok());
    let validated = result.unwrap();
    assert_eq!(validated.name, "search");
    assert_eq!(validated.params.get("query").unwrap(), &s("rust tooling"));
    assert_eq!(validated.params.get("max_results").unwrap(), &num(10));
}

#[test]
fn test_validate_case_insensitive_name() {
    let reg = test_registry();
    let args = obj(vec![("query", s("test")), ("max_results", num(5))]);
    let result = reg.validate("SEARCH", &args);
    assert!(result.is_ok());
    assert_eq!(result.unwrap().name, "search");
}

#[test]
fn test_validate_optional_field_absent() {
    let reg = test_registry();
    let args = obj(vec![("location", s("Beijing"))]);
    let result = reg.validate("get_weather", &args);
    assert!(result.is_ok());
    let validated = result.unwrap();
    assert_eq!(validated.name, "get_weather");
    assert_eq!(validated.params.get("location").unwrap(), &s("Beijing"));
    assert!(!validated.params.contains_key("units"));
}

#[test]
fn test_validate_optional_field_present() {
    let reg = test_registry();
    let args = obj(vec![("location", s("Beijing")), ("units", s("metric"))]);
    let result = reg.validate("get_weather", &args);
    assert!(result.is_ok());
    let validated = result.unwrap();
    assert_eq!(validated.params.get("units").unwrap(), &s("metric"));
}

#[test]
fn test_validate_extra_fields_ignored() {
    let reg = test_registry();
    let args = obj(vec![
        ("query", s("test")),
        ("max_results", num(5)),
        ("extra_field", s("should be ignored")),
    ]);
    let result = reg.validate("search", &args);
    assert!(result.is_ok());
    let validated = result.unwrap();
    assert!(!validated.params.contains_key("extra_field"));
}

#[test]
fn test_validate_float_accepts_integer() {
    let _reg = test_registry();
    let mut custom = ToolRegistry::new();
    custom.register(schema("measure", "Take a measurement", &[("value", ParamType::Float)]));
    let args = obj(vec![("value", num(42))]);
    assert!(custom.validate("measure", &args).is_ok());
    let args2 = obj(vec![("value", JsonValue::Number(JsonNumber::Float("3.14".to_string())))]);
    assert!(custom.validate("measure", &args2).is_ok());
}

#[test]
fn test_validate_unknown_tool() {
    let reg = test_registry();
    let args = obj(vec![("query", s("test"))]);
    let err = reg.validate("nonexistent_tool", &args).unwrap_err();
    assert_eq!(
        err,
        ToolValidationError::UnknownTool {
            name: "nonexistent_tool".into(),
            known_tools: vec!["calculate".into(), "get_weather".into(), "search".into()],
        }
    );
}

#[test]
fn test_validate_missing_required_field() {
    let reg = test_registry();
    let args = obj(vec![("max_results", num(10))]);
    let err = reg.validate("search", &args).unwrap_err();
    assert_eq!(
        err,
        ToolValidationError::MissingField {
            tool: "search".into(),
            field: "query".into(),
            param_type: ParamType::String,
        }
    );
}

#[test]
fn test_validate_type_mismatch_string() {
    let reg = test_registry();
    let args = obj(vec![("query", num(42)), ("max_results", num(10))]);
    let err = reg.validate("search", &args).unwrap_err();
    assert_eq!(
        err,
        ToolValidationError::TypeMismatch {
            tool: "search".into(),
            field: "query".into(),
            expected: ParamType::String,
            actual: "integer".into(),
        }
    );
}

#[test]
fn test_validate_type_mismatch_integer() {
    let reg = test_registry();
    let args = obj(vec![("query", s("test")), ("max_results", s("ten"))]);
    let err = reg.validate("search", &args).unwrap_err();
    assert_eq!(
        err,
        ToolValidationError::TypeMismatch {
            tool: "search".into(),
            field: "max_results".into(),
            expected: ParamType::Integer,
            actual: "string".into(),
        }
    );
}

#[test]
fn test_validate_non_object_args() {
    let reg = test_registry();
    let args = s("just a string");
    let err = reg.validate("search", &args).unwrap_err();
    assert!(matches!(err, ToolValidationError::MissingField { .. }));
}

#[test]
fn test_validate_null_args() {
    let reg = test_registry();
    let err = reg.validate("search", &JsonValue::Null).unwrap_err();
    assert!(matches!(err, ToolValidationError::MissingField { .. }));
}

#[test]
fn test_validate_empty_args_with_all_optional() {
    let mut reg = ToolRegistry::new();
    reg.register(schema("ping", "Simple health check", &[("message", ParamType::Any)]));
    let result = reg.validate("ping", &obj(vec![]));
    assert!(result.is_ok());
    assert_eq!(result.unwrap().params.len(), 0);
}

#[test]
fn test_unknown_tool_display() {
    let err = ToolValidationError::UnknownTool {
        name: "fly".into(),
        known_tools: vec!["search".into(), "calculate".into()],
    };
    let msg = err.to_string();
    assert!(msg.contains("fly"));
    assert!(msg.contains("search"));
    assert!(msg.contains("calculate"));
}

#[test]
fn test_missing_field_display() {
    let err = ToolValidationError::MissingField {
        tool: "search".into(),
        field: "query".into(),
        param_type: ParamType::String,
    };
    let msg = err.to_string();
    assert!(msg.contains("search"));
    assert!(msg.contains("query"));
}

#[test]
fn test_type_mismatch_display() {
    let err = ToolValidationError::TypeMismatch {
        tool: "calculate".into(),
        field: "expression".into(),
        expected: ParamType::String,
        actual: "integer".into(),
    };
    let msg = err.to_string();
    assert!(msg.contains("calculate"));
    assert!(msg.contains("expression"));
    assert!(msg.contains("integer"));
}

#[test]
fn router_test_register_overwrites() {
    let mut reg = ToolRegistry::new();
    reg.register(schema("dup", "first", &[]));
    reg.register(schema("DUP", "second", &[]));
    assert_eq!(reg.len(), 1);
    assert_eq!(reg.get_schema("dup").unwrap().description, "second");
}

#[test]
fn test_validate_boolean_type() {
    let mut reg = ToolRegistry::new();
    reg.register(schema("toggle", "Toggle a feature", &[("enabled", ParamType::Boolean)]));
    assert!(reg.validate("toggle", &obj(vec![("enabled", JsonValue::Bool(true))])).is_ok());
    assert!(reg.validate("toggle", &obj(vec![("enabled", s("yes"))])).is_err());
}

#[test]
fn test_validate_array_type() {
    let mut reg = ToolRegistry::new();
    reg.register(schema("batch", "Batch process items", &[("items", ParamType::Array)]));
    let items = JsonValue::Array(vec![num(1), num(2), num(3)]);
    assert!(reg.validate("batch", &obj(vec![("items", items)])).is_ok());
    assert!(reg.validate("batch", &obj(vec![("items", s("not-array"))])).is_err());
}

#[test]
fn test_validate_object_type() {
    let mut reg = ToolRegistry::new();
    reg.register(schema("config", "Set configuration", &[("settings", ParamType::Object)]));
    let settings = obj(vec![("key", s("val"))]);
    assert!(reg.validate("config", &obj(vec![("settings", settings)])).is_ok());
    assert!(reg.validate("config", &obj(vec![("settings", s("string"))])).is_err());
}

#[test]
fn mismatch_labels_each_json_kind() {
    let mut reg = ToolRegistry::new();
    reg.register(schema("t", "d", &[("x", ParamType::String)]));
    for (v, label) in [
        (JsonValue::Null, "null"),
        (JsonValue::Bool(false), "boolean"),
        (JsonValue::Number(JsonNumber::Float("1.5".into())), "float"),
        (JsonValue::Array(vec![]), "array"),
        (obj(vec![]), "object"),
    ] {
        match reg.validate("t", &obj(vec![("x", v)])) {
            Err(ToolValidationError::TypeMismatch { actual, .. }) => assert_eq!(actual, label),
            other => panic!("unexpected {:?}", other),
        }
    }
}
