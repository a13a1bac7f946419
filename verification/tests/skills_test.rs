use q_body::json::JsonValue;
use q_body::skills::{SkillManifest, SkillsRegistry};

fn sample_manifest(name: &str) -> SkillManifest {
    SkillManifest {
        name: name.to_string(),
        version: "1.0.0".to_string(),
        description: format!("Test skill {}", name),
        schema: Some(JsonValue::Object(vec![
            ("type".to_string(), JsonValue::String("object".to_string())),
            (
                "properties".to_string(),
                JsonValue::Object(vec![(
                    "query".to_string(),
                    JsonValue::Object(vec![("type".to_string(), JsonValue::String("string".to_string()))]),
                )]),
            ),
        ])),
        entrypoint: format!("skills/{}.json", name),
    }
}

#[test]
fn skills_test_new_registry_is_empty() {
    let reg = SkillsRegistry::new();
    assert!(reg.is_empty());
    assert_eq!(reg.len(), 0);
}

#[test]
fn test_register_and_get() {
    let mut reg = SkillsRegistry::new();
    assert!(!reg.register(sample_manifest("search")));
    assert_eq!(reg.len(), 1);
    assert!(!reg.is_empty());
    let got = reg.get("search").unwrap();
    assert_eq!(got.name, "search");
    assert_eq!(got.version, "1.0.0");
}

#[test]
fn skills_test_register_overwrites() {
    let mut reg = SkillsRegistry::new();
    reg.register(sample_manifest("search"));
    let m2 = SkillManifest { version: "2.0.0".to_string(), ..sample_manifest("search") };
    assert!(reg.register(m2));
    assert_eq!(reg.get("search").unwrap().version, "2.0.0");
}

#[test]
fn test_reload_existing_skill() {
    let mut reg = SkillsRegistry::new();
    reg.register(sample_manifest("search"));
    let updated = SkillManifest { version: "1.1.0".to_string(), ..sample_manifest("search") };
    assert!(reg.reload(updated));
    assert_eq!(reg.get("search").unwrap().version, "1.1.0");
}

#[test]
fn test_reload_nonexistent_skill() {
    let mut reg = SkillsRegistry::new();
    assert!(!reg.reload(sample_manifest("ghost")));
    assert!(reg.is_empty());
}

#[test]
fn test_list_sorted() {
    let mut reg = SkillsRegistry::new();
    reg.register(sample_manifest("z-final"));
    reg.register(sample_manifest("a-first"));
    reg.register(sample_manifest("m-mid"));
    let list = reg.list();
    assert_eq!(list.len(), 3);
    assert_eq!(list[0].name, "a-first");
    assert_eq!(list[1].name, "m-mid");
    assert_eq!(list[2].name, "z-final");
}

#[test]
fn test_methods_list() {
    let mut reg = SkillsRegistry::new();
    reg.register(sample_manifest("search"));
    reg.register(sample_manifest("compute"));
    let methods = reg.methods();
    assert_eq!(methods, vec!["compute", "search"]);
}
