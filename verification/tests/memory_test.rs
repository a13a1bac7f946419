use q_body::health::Evidence;
use q_body::memory::{synthesize_context, MemoryEntry, MemoryStore, MemoryTrigger, RecallDecision};
use q_body::sandbox::validate_work_dir;

#[test]
fn trigger_first_step_always_fires() {
    let mut trigger = MemoryTrigger::new(5);
    assert!(trigger.should_trigger(1, "hello"));
}

#[test]
fn trigger_keyword_fires() {
    let mut trigger = MemoryTrigger::new(5);
    trigger.should_trigger(1, "hi");
    assert!(trigger.should_trigger(2, "remember this"));
}

#[test]
fn trigger_interval_fires() {
    let mut trigger = MemoryTrigger::new(3);
    trigger.should_trigger(1, "hi");
    assert!(!trigger.should_trigger(2, "hello"));
    assert!(trigger.should_trigger(4, "hello"));
}

#[test]
fn memory_store_save_and_recall() {
    let mut store = MemoryStore::new();
    let id = store.save_knowledge("Docker container has no systemd".to_string());
    assert!(id.starts_with("k-"));
    let results = store.recall("docker", 5);
    assert_eq!(results.len(), 1);
    assert_eq!(results[0].content, "Docker container has no systemd");
}

#[test]
fn memory_store_delete_works() {
    let mut store = MemoryStore::new();
    let id = store.save_knowledge("test".to_string());
    assert!(store.delete(&id));
    let results = store.recall("test", 5);
    assert!(results.is_empty());
}

#[test]
fn synthesize_empty_returns_no_intervention() {
    let decision = synthesize_context(&[], "status");
    assert_eq!(decision, RecallDecision::NoIntervention);
}

#[test]
fn synthesize_with_entries_returns_inject() {
    let entry = MemoryEntry {
        id: "k-1".to_string(),
        content: "API key expires in 3 days".to_string(),
        created_at: "2026-07-21".to_string(),
        access_count: 0,
    };
    let decision = synthesize_context(&[entry], "working on task");
    match decision {
        RecallDecision::Inject { context } => {
            assert!(context.contains("API key expires"));
            assert!(context.contains("<context_for_action>"));
        }
        _ => panic!("Expected Inject"),
    }
}

#[test]
fn context_block_is_exact() {
    let entry = MemoryEntry { id: "k-1".into(), content: "c".into(), created_at: "t".into(), access_count: 0 };
    assert_eq!(
        synthesize_context(&[entry], ""),
        RecallDecision::Inject { context: "<context_for_action>\n- [k-1] c\n</context_for_action>".into() }
    );
}

#[test]
fn recall_ranks_by_access_and_truncates() {
    let mut store = MemoryStore::new();
    let p = store.save_procedural("deploy with docker".to_string());
    let k = store.save_knowledge("docker notes".to_string());
    store.save_knowledge("unrelated".to_string());
    assert!(p.starts_with("p-") && p.len() == 10);
    assert_eq!(store.stats(), (2, 1));
    let r = store.recall("DOCKER", 1);
    assert_eq!(r.len(), 1);
    // equal access counts: knowledge memories come first
    assert_eq!(r[0].id, k);
    assert!(store.delete(&p));
    assert!(!store.delete(&p));
    assert_eq!(store.stats(), (2, 0));
}

#[test]
fn trigger_waits_for_the_interval() {
    let mut t = MemoryTrigger::new(3);
    assert!(t.should_trigger(1, "x"));
    assert!(!t.should_trigger(3, "x"));
    assert!(t.should_trigger(4, "x"));
    assert!(t.should_trigger(5, "我记得"));
    assert_eq!(t.try_trigger(2, "x"), None);
}

#[test]
fn work_dir_must_stay_under_root() {
    let ok = |s: &str| Ok::<String, String>(s.to_string());
    assert_eq!(validate_work_dir(ok("/tmp"), ok("/tmp/q-body-x")), Ok("/tmp/q-body-x".to_string()));
    assert_eq!(validate_work_dir(ok("/tmp"), ok("/tmp")), Ok("/tmp".to_string()));
    assert_eq!(validate_work_dir(ok("/"), ok("/etc")), Ok("/etc".to_string()));
    assert_eq!(validate_work_dir(ok("/tmp"), ok("/tmpfoo")), Err("path escapes allowlist".to_string()));
    assert_eq!(validate_work_dir(ok("/tmp/a"), ok("/var")), Err("path escapes allowlist".to_string()));
    assert_eq!(
        validate_work_dir(Err("gone".to_string()), ok("/tmp")),
        Err("Failed to canonicalize allowed root: gone".to_string())
    );
    assert_eq!(
        validate_work_dir(ok("/tmp"), Err("gone".to_string())),
        Err("Failed to canonicalize work dir: gone".to_string())
    );
}

#[test]
fn evidence_holds_its_fields() {
    let e = Evidence { field: "uptime".into(), value: "60s".into(), raw: Some("60".into()) };
    assert_eq!(e.clone(), e);
}
