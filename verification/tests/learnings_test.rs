use q_body::clock::Timestamp;
use q_body::learnings::{LearnedEntry, LearningsStore};

fn at(secs: i64) -> Timestamp {
    Timestamp { secs, nanos: 0 }
}

fn add(store: &mut LearningsStore, hash: &str, content: &str) -> bool {
    if store.is_seen(hash) {
        return false;
    }
    store.record(LearnedEntry::new(hash, content, at(1_700_000_000)))
}

#[test]
fn learnings_test_new_store_is_empty() {
    let store = LearningsStore::new(vec![], vec![]);
    assert_eq!(store.seen_count(), 0);
    assert!(store.entries().is_empty());
}

#[test]
fn test_add_new_entry() {
    let mut store = LearningsStore::new(vec![], vec![]);
    assert!(add(&mut store, "hash1", "content1"), "新条目应被写入");
    assert_eq!(store.seen_count(), 1);
    assert_eq!(store.entries().len(), 1);
}

#[test]
fn test_duplicate_entry_skipped() {
    let mut store = LearningsStore::new(vec![], vec![]);
    assert!(add(&mut store, "hash1", "content1"));
    let added2 = add(&mut store, "hash1", "content1 again");
    assert!(!added2, "重复 signal_hash 应跳过");
    assert_eq!(store.seen_count(), 1, "seen 集合不应增长");
    assert_eq!(store.entries().len(), 1, "不应新增条目");
}

#[test]
fn test_mark_seen_new_hash() {
    let mut store = LearningsStore::new(vec![], vec![]);
    assert!(store.mark_seen("hash-new"), "新 hash 应被标记");
    assert!(store.is_seen("hash-new"));
}

#[test]
fn test_mark_seen_existing_hash() {
    let mut store = LearningsStore::new(vec![], vec![]);
    add(&mut store, "hash1", "content1");
    assert!(!store.mark_seen("hash1"), "已 seen 的 hash 标记应返回 false");
}

#[test]
fn test_is_seen() {
    let mut store = LearningsStore::new(vec![], vec![]);
    assert!(!store.is_seen("unknown"));
    add(&mut store, "h1", "c1");
    assert!(store.is_seen("h1"));
}

#[test]
fn learnings_test_persistence_roundtrip() {
    let mut first = LearningsStore::new(vec![], vec![]);
    add(&mut first, "hash1", "学习内容1");
    add(&mut first, "hash2", "学习内容2");
    let store = LearningsStore::new(first.seen_hashes(), vec![]);
    assert_eq!(store.seen_count(), 2, "persist 后 seen 应恢复");
    assert!(store.is_seen("hash1"));
    assert!(store.is_seen("hash2"));
}

#[test]
fn record_refuses_a_seen_hash() {
    let mut store = LearningsStore::new(vec!["h".to_string(), "h".to_string()], vec![]);
    assert_eq!(store.seen_count(), 1);
    assert!(!store.record(LearnedEntry::new("h", "c", at(1))));
    assert!(store.entries().is_empty());
}

#[test]
fn unseen_entries_are_those_never_seen() {
    let mut e = LearnedEntry::new("a", "x", at(1));
    e.seen_at = Some(at(2));
    let store = LearningsStore::new(vec![], vec![e, LearnedEntry::new("b", "y", at(3))]);
    let unseen = store.unseen_entries();
    assert_eq!(unseen.len(), 1);
    assert_eq!(unseen[0].signal_hash, "b");
}

#[test]
fn reloading_replaces_state() {
    let mut store = LearningsStore::new(vec!["a".into()], vec![]);
    store.reload_seen_state(vec!["b".into(), "c".into()]);
    assert!(!store.is_seen("a"));
    assert_eq!(store.seen_count(), 2);
    store.reload_learnings(vec![LearnedEntry::new("z", "w", at(5))]);
    assert_eq!(store.entries().len(), 1);
    assert_eq!(store.seen_hashes(), vec!["b", "c"]);
}
