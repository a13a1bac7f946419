use q_body::skill_evolve::SkillEvolveCounter;

#[test]
fn test_new_counter_is_empty() {
    let c = SkillEvolveCounter::new();
    assert_eq!(c.cycle(), 0);
    assert!(c.counts().is_empty());
    assert_eq!(c.total(), 0);
    assert_eq!(c.history_len(), 0);
}

#[test]
fn skill_evolve_test_bump_increments_counter() {
    let mut c = SkillEvolveCounter::new();
    c.bump("refactor");
    assert_eq!(c.get("refactor"), 1);
    assert_eq!(c.total(), 1);
    assert!(c.has_signal("refactor"));
    assert!(!c.has_signal("dedup"));
}

#[test]
fn skill_evolve_test_bump_multiple_signals() {
    let mut c = SkillEvolveCounter::new();
    c.bump("refactor");
    c.bump("dedup");
    c.bump("refactor");
    c.bump("test");
    assert_eq!(c.get("refactor"), 2);
    assert_eq!(c.get("dedup"), 1);
    assert_eq!(c.get("test"), 1);
    assert_eq!(c.total(), 4);
}

#[test]
fn test_bump_by_adds_specified_amount() {
    let mut c = SkillEvolveCounter::new();
    c.bump_by("refactor", 5);
    assert_eq!(c.get("refactor"), 5);
    assert_eq!(c.total(), 5);
}

#[test]
fn skill_evolve_test_reset_archives_and_clears() {
    let mut c = SkillEvolveCounter::new();
    c.bump("refactor");
    c.bump("dedup");
    c.bump("refactor");
    assert_eq!(c.cycle(), 0);

    let snapshot = c.reset();
    assert_eq!(c.cycle(), 1);
    assert!(c.counts().is_empty());
    assert_eq!(c.total(), 0);
    assert_eq!(c.history_len(), 1);

    assert_eq!(snapshot.get("refactor"), Some(&2));
    assert_eq!(snapshot.get("dedup"), Some(&1));
}

#[test]
fn test_multiple_resets() {
    let mut c = SkillEvolveCounter::new();
    c.bump("refactor");
    c.bump("refactor");
    c.reset();
    c.bump("dedup");
    c.reset();
    c.bump("test");
    c.bump("test");
    c.bump("test");

    assert_eq!(c.cycle(), 2);
    assert_eq!(c.get("test"), 3);
    assert_eq!(c.history_len(), 2);
    assert_eq!(c.archive().len(), 2);
    assert_eq!(c.signal_names(), vec!["test"]);
}

#[test]
fn test_archive_preserves_history() {
    let mut c = SkillEvolveCounter::new();
    c.bump("refactor");
    c.reset();
    c.bump("dedup");
    c.reset();
    c.bump("test");
    c.reset();

    assert_eq!(c.history_len(), 3);
    let archive = c.archive();
    assert_eq!(archive.get(&0).unwrap().get("refactor"), Some(&1));
    assert_eq!(archive.get(&1).unwrap().get("dedup"), Some(&1));
    assert_eq!(archive.get(&2).unwrap().get("test"), Some(&1));
}

#[test]
fn test_signal_names_sorted() {
    let mut c = SkillEvolveCounter::new();
    c.bump("test");
    c.bump("dedup");
    c.bump("refactor");
    assert_eq!(c.signal_names(), vec!["dedup", "refactor", "test"]);
}

#[test]
fn skill_evolve_test_unknown_signal_returns_zero() {
    let c = SkillEvolveCounter::new();
    assert_eq!(c.get("nonexistent"), 0);
}

#[test]
fn skill_evolve_test_empty_reset_advances_cycle() {
    let mut c = SkillEvolveCounter::new();
    assert_eq!(c.cycle(), 0);
    let snapshot = c.reset();
    assert!(snapshot.is_empty());
    assert_eq!(c.cycle(), 1);
    assert_eq!(c.history_len(), 1);
}

#[test]
fn archived_cycles_are_found_by_number() {
    let mut c = SkillEvolveCounter::new();
    c.bump_by("x", 3);
    c.reset();
    assert!(c.archive().get(&5).is_none());
    assert_eq!(c.archive().total(), 3);
}
