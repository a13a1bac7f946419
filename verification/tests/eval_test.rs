use q_body::eval::{FileProbe, Ledger, LedgerEntry, LogProbe, ValidationState};

fn missing() -> FileProbe {
    FileProbe::Missing("No such file or directory (os error 2)".to_string())
}

#[test]
fn test_state_is_valid() {
    assert!(ValidationState::Valid.is_valid());
    assert!(!ValidationState::Missing.is_valid());
    assert!(!ValidationState::Empty.is_valid());
    assert!(!ValidationState::Corrupt.is_valid());
}

#[test]
fn test_state_needs_attention() {
    assert!(ValidationState::Missing.needs_attention());
    assert!(ValidationState::Corrupt.needs_attention());
    assert!(!ValidationState::Empty.needs_attention());
    assert!(!ValidationState::Valid.needs_attention());
}

#[test]
fn test_state_severity_ordering() {
    assert!(ValidationState::Missing.severity() < ValidationState::Corrupt.severity());
    assert!(ValidationState::Corrupt.severity() < ValidationState::Empty.severity());
    assert!(ValidationState::Empty.severity() < ValidationState::Valid.severity());
}

#[test]
fn test_state_display() {
    assert_eq!(ValidationState::Missing.to_string(), "MISSING");
    assert_eq!(ValidationState::Empty.to_string(), "EMPTY");
    assert_eq!(ValidationState::Corrupt.to_string(), "CORRUPT");
    assert_eq!(ValidationState::Valid.to_string(), "VALID");
}

#[test]
fn test_ledger_entry_creation() {
    let entry = LedgerEntry::new(
        "state.db.integrity",
        "/tmp/test.db",
        ValidationState::Valid,
        Some("size=4096"),
    );
    assert_eq!(entry.key(), "state.db.integrity");
    assert_eq!(entry.path(), "/tmp/test.db");
    assert_eq!(entry.state(), &ValidationState::Valid);
    assert_eq!(entry.detail(), Some("size=4096"));
}

#[test]
fn test_ledger_entry_no_detail() {
    let entry = LedgerEntry::new("state.db.integrity", "/tmp/test.db", ValidationState::Missing, None);
    assert_eq!(entry.detail(), None);
}

#[test]
fn test_ledger_entry_display() {
    let entry = LedgerEntry::new(
        "state.db.integrity",
        "/tmp/test.db",
        ValidationState::Missing,
        Some("file not found"),
    );
    let display = entry.to_string();
    assert!(display.contains("MISSING"));
    assert!(display.contains("state.db.integrity"));
    assert!(display.contains("file not found"));
}

#[test]
fn test_empty_ledger_is_valid() {
    let ledger = Ledger::new();
    assert!(ledger.all_valid());
    assert!(ledger.entries().is_empty());
    assert_eq!(ledger.worst_state(), ValidationState::Valid);
}

#[test]
fn test_ledger_add_and_get() {
    let mut ledger = Ledger::new();
    let entry = LedgerEntry::new("test.key", "/tmp/test", ValidationState::Valid, None);
    ledger.add(entry);
    assert_eq!(ledger.entries().len(), 1);
    assert!(ledger.get("test.key").is_some());
    assert!(ledger.get("nonexistent").is_none());
}

#[test]
fn test_ledger_all_valid_with_mixed() {
    let mut ledger = Ledger::new();
    ledger.add(LedgerEntry::new("a", "/tmp/a", ValidationState::Valid, None));
    ledger.add(LedgerEntry::new("b", "/tmp/b", ValidationState::Empty, None));
    assert!(!ledger.all_valid());
}

#[test]
fn test_ledger_attention_items() {
    let mut ledger = Ledger::new();
    ledger.add(LedgerEntry::new("a", "/tmp/a", ValidationState::Missing, None));
    ledger.add(LedgerEntry::new("b", "/tmp/b", ValidationState::Valid, None));
    ledger.add(LedgerEntry::new("c", "/tmp/c", ValidationState::Corrupt, None));
    ledger.add(LedgerEntry::new("d", "/tmp/d", ValidationState::Empty, None));
    assert_eq!(ledger.attention_items().len(), 2);
}

#[test]
fn test_ledger_worst_state_ordering() {
    let mut ledger = Ledger::new();
    ledger.add(LedgerEntry::new("a", "/tmp/a", ValidationState::Valid, None));
    ledger.add(LedgerEntry::new("b", "/tmp/b", ValidationState::Empty, None));
    ledger.add(LedgerEntry::new("c", "/tmp/c", ValidationState::Missing, None));
    assert_eq!(ledger.worst_state(), ValidationState::Missing);
}

#[test]
fn test_check_state_missing() {
    let mut ledger = Ledger::new();
    let state = ledger.check_state("missing.file", "/tmp/__nonexistent_eval_test_file__", &missing());
    assert_eq!(state, ValidationState::Missing);
}

#[test]
fn test_check_state_valid() {
    let mut ledger = Ledger::new();
    let state = ledger.check_state("valid.file", "/tmp/__eval_test_valid", &FileProbe::Found(5));
    assert_eq!(state, ValidationState::Valid);
}

#[test]
fn test_check_state_empty() {
    let mut ledger = Ledger::new();
    let state = ledger.check_state("empty.file", "/tmp/__eval_test_empty", &FileProbe::Found(0));
    assert_eq!(state, ValidationState::Empty);
}

#[test]
fn test_integrity_check_missing() {
    let mut ledger = Ledger::new();
    let state = ledger.integrity_check(
        "state.db.integrity",
        "/tmp/__nonexistent_state_db__",
        1024,
        &missing(),
    );
    assert_eq!(state, ValidationState::Missing);
}

#[test]
fn test_integrity_check_below_min() {
    let mut ledger = Ledger::new();
    let state = ledger.integrity_check("small.file", "/tmp/__eval_integrity_small", 1024, &FileProbe::Found(4));
    assert_eq!(state, ValidationState::Corrupt);
}

#[test]
fn test_integrity_check_valid() {
    let mut ledger = Ledger::new();
    let state = ledger.integrity_check("ok.file", "/tmp/__eval_integrity_ok", 1024, &FileProbe::Found(2048));
    assert_eq!(state, ValidationState::Valid);
}

#[test]
fn test_evolution_log_check_missing() {
    let mut ledger = Ledger::new();
    let state = ledger.evolution_log_check(
        "evolution_log.load",
        "/tmp/__nonexistent_evolution_log__",
        &LogProbe::Missing,
    );
    assert_eq!(state, ValidationState::Missing);
}

#[test]
fn test_evolution_log_check_empty() {
    let mut ledger = Ledger::new();
    let state = ledger.evolution_log_check("evolog.empty", "/tmp/__eval_evolog_empty", &LogProbe::Content(String::new()));
    assert_eq!(state, ValidationState::Empty);
}

#[test]
fn test_evolution_log_check_valid_jsonl() {
    let mut ledger = Ledger::new();
    let state = ledger.evolution_log_check(
        "evolog.valid",
        "/tmp/__eval_evolog_valid",
        &LogProbe::Content("{\"event\":\"test\"}\n{\"event\":\"another\"}\n".to_string()),
    );
    assert_eq!(state, ValidationState::Valid);
}

#[test]
fn test_evolution_log_check_corrupt_format() {
    let mut ledger = Ledger::new();
    let state = ledger.evolution_log_check(
        "evolog.corrupt",
        "/tmp/__eval_evolog_corrupt",
        &LogProbe::Content("not json\nstill not json\n".to_string()),
    );
    assert_eq!(state, ValidationState::Corrupt);
}

#[test]
fn test_binary_check_missing() {
    let mut ledger = Ledger::new();
    let state = ledger.binary_check("target.release.q_body", "/tmp/__nonexistent_binary__", &missing());
    assert_eq!(state, ValidationState::Missing);
}

#[test]
fn test_binary_check_zerobyte() {
    let mut ledger = Ledger::new();
    let state = ledger.binary_check("binary.empty", "/tmp/__eval_binary_empty", &FileProbe::Found(0));
    assert_eq!(state, ValidationState::Corrupt);
}

#[test]
fn test_binary_check_valid() {
    let mut ledger = Ledger::new();
    let state = ledger.binary_check("binary.valid", "/tmp/__eval_binary_valid", &FileProbe::Found(6));
    assert_eq!(state, ValidationState::Valid);
}

#[test]
fn unreadable_log_is_corrupt() {
    let mut ledger = Ledger::new();
    let state = ledger.evolution_log_check("evolog.bin", "/tmp/x", &LogProbe::Unreadable);
    assert_eq!(state, ValidationState::Corrupt);
    assert_eq!(ledger.entries().len(), 1);
    assert_eq!(ledger.worst_state(), ValidationState::Corrupt);
}

#[test]
fn check_records_size_detail() {
    let mut ledger = Ledger::new();
    ledger.check_state("k", "/p", &FileProbe::Found(4096));
    assert_eq!(ledger.get("k").unwrap().detail(), Some("size=4096"));
}
