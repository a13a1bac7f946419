use q_body::active_memory::{ActiveMemory, MemoryEntry};
use q_body::clock::Timestamp;

fn now() -> Timestamp {
    let t = chrono::Utc::now();
    Timestamp { secs: t.timestamp(), nanos: t.timestamp_subsec_nanos() }
}

fn minus(t: Timestamp, secs: i64) -> Timestamp {
    Timestamp { secs: t.secs - secs, nanos: t.nanos }
}

fn make_entry(id: &str, content: &str, timestamp: Timestamp, source: &str, tags: Vec<&str>) -> MemoryEntry {
    MemoryEntry {
        id: id.to_string(),
        content: content.to_string(),
        timestamp,
        source: source.to_string(),
        tags: tags.into_iter().map(|s| s.to_string()).collect(),
    }
}

#[test]
fn test_empty_memory_synthesize() {
    let mem = ActiveMemory::new();
    let result = mem.synthesize();
    assert_eq!(result, "No active memory available.");
}

#[test]
fn test_add_entry_and_synthesize() {
    let mut mem = ActiveMemory::new();
    mem.add_entry(make_entry("1", "Hello world", now(), "test", vec!["greeting"]));
    let result = mem.synthesize();
    assert!(result.contains("Hello world"));
    assert!(result.contains("from test"));
    assert!(result.contains("[greeting]"));
    assert!(result.contains("[Active Memory"));
    assert!(result.contains("[End of active memory"));
    assert_eq!(mem.len(), 1);
}

#[test]
fn test_synthesize_respects_max() {
    let mut mem = ActiveMemory::new().with_max_synthesize(2);
    let t = now();
    for i in 0..5 {
        mem.add_entry(make_entry(&format!("id-{}", i), &format!("Entry {}", i), minus(t, i), "test", vec![]));
    }
    let result = mem.synthesize();
    assert!(result.contains("2 recent entries"));
    assert!(result.contains("Entry 0"));
    assert!(result.contains("Entry 1"));
    assert!(!result.contains("Entry 2"));
    assert_eq!(mem.len(), 5);
}

#[test]
fn test_insertion_order_descending() {
    let mut mem = ActiveMemory::new();
    let t = now();
    mem.add_entry(make_entry("old", "Oldest", minus(t, 7200), "test", vec![]));
    mem.add_entry(make_entry("mid", "Middle", minus(t, 3600), "test", vec![]));
    mem.add_entry(make_entry("new", "Newest", t, "test", vec![]));
    let result = mem.synthesize();
    let new_pos = result.find("Newest").unwrap();
    let mid_pos = result.find("Middle").unwrap();
    let old_pos = result.find("Oldest").unwrap();
    assert!(new_pos < mid_pos);
    assert!(mid_pos < old_pos);
}

#[test]
fn test_jsonl_roundtrip() {
    // The records read back from storage are loaded in one call.
    let t = now();
    let mut loaded = ActiveMemory::new().with_storage_dir("/tmp/q-body-memory".to_string());
    let count = loaded.load_entries(vec![make_entry("persist-1", "Persisted memory", t, "test", vec!["persist"])]);
    assert_eq!(count, 1);
    assert_eq!(loaded.len(), 1);
    assert!(loaded.synthesize().contains("Persisted memory"));
    assert_eq!(loaded.storage_dir(), Some("/tmp/q-body-memory".to_string()));
}

#[test]
fn test_entries_empty_after_clear() {
    let mut mem = ActiveMemory::new();
    mem.add_entry(make_entry("1", "Temp", now(), "test", vec![]));
    assert_eq!(mem.len(), 1);
    assert!(!mem.is_empty());
    mem.load_entries(vec![]);
    assert_eq!(mem.len(), 0);
    assert!(mem.is_empty());
    assert_eq!(mem.synthesize(), "No active memory available.");
}

#[test]
fn summary_has_exact_lines() {
    let mut mem = ActiveMemory::new();
    let t = Timestamp { secs: 1_700_000_000, nanos: 0 };
    mem.add_entry(make_entry("1", "did it", t, "task", vec!["a", "b"]));
    assert_eq!(
        mem.synthesize(),
        "[Active Memory — 1 recent entries]\n  • [2023-11-14 22:13:20 UTC] from task: did it [a, b]\n[End of active memory — showing 1 of 1 entries]"
    );
}

#[test]
fn equal_times_keep_arrival_order() {
    let mut mem = ActiveMemory::new();
    let t = Timestamp { secs: 1_700_000_000, nanos: 5 };
    mem.add_entry(make_entry("1", "first", t, "s", vec![]));
    mem.add_entry(make_entry("2", "second", t, "s", vec![]));
    let out = mem.synthesize();
    assert!(out.find("first").unwrap() < out.find("second").unwrap());
}

#[test]
fn loading_sorts_newest_first() {
    let mut mem = ActiveMemory::new();
    let base = Timestamp { secs: 1_700_000_000, nanos: 0 };
    let n = mem.load_entries(vec![
        make_entry("a", "A", minus(base, 10), "s", vec![]),
        make_entry("b", "B", base, "s", vec![]),
        make_entry("c", "C", minus(base, 5), "s", vec![]),
    ]);
    assert_eq!(n, 3);
    let out = mem.synthesize();
    let (a, b, c) = (out.find("from s: A").unwrap(), out.find("from s: B").unwrap(), out.find("from s: C").unwrap());
    assert!(b < c && c < a);
    assert!(out.contains("showing 3 of 3 entries"));
}
