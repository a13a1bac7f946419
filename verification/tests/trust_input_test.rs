use q_body::trust_input::{audit_injection, fingerprint, fnv1a64, within_budget, TAO_MAX_LINES};

#[test]
fn test_fnv1a64_is_stable_and_hex16() {
    let h1 = fnv1a64("hello");
    let h2 = fnv1a64("hello");
    assert_eq!(h1, h2);
    assert_eq!(h1.len(), 16);
    assert!(h1.chars().all(|c| c.is_ascii_hexdigit()));
}

#[test]
fn test_fingerprint_empty_content() {
    let (hash, lines) = fingerprint("");
    assert_eq!(hash, fnv1a64(""));
    assert_eq!(lines, 0);
}

#[test]
fn test_fingerprint_distinguishes_content() {
    let (h1, _) = fingerprint("# SOUL v1\nbelief: 知行合一");
    let (h2, _) = fingerprint("# SOUL v2\nbelief: 知行合一");
    assert_ne!(h1, h2);
}

#[test]
fn test_fingerprint_counts_lines() {
    let (_, lines) = fingerprint("a\nb\nc");
    assert_eq!(lines, 3);
}

#[test]
fn test_within_budget() {
    assert!(within_budget(3000, TAO_MAX_LINES));
    assert!(!within_budget(3001, TAO_MAX_LINES));
}

#[test]
fn test_first_injection_records_event_with_empty_prev() {
    let ev = audit_injection("SOUL.md", "", "# soul\nline2", "2026-09-12T14:30:00Z")
        .expect("first injection must record");
    assert_eq!(ev.name, "SOUL.md");
    assert_eq!(ev.prev_hash, "");
    assert_eq!(ev.new_hash, fnv1a64("# soul\nline2"));
    assert_eq!(ev.lines, 2);
    assert!(ev.budget_ok);
}

#[test]
fn test_unchanged_content_returns_none() {
    let content = "# soul\nstable";
    let (hash, _) = fingerprint(content);
    assert!(audit_injection("SOUL.md", &hash, content, "t").is_none());
}

#[test]
fn test_changed_content_records_event() {
    let old = "# soul v1";
    let (old_hash, _) = fingerprint(old);
    let new = "# soul v2 — silently tampered";
    let ev = audit_injection("SOUL.md", &old_hash, new, "t2").expect("change must record");
    assert_eq!(ev.prev_hash, old_hash);
    assert_eq!(ev.new_hash, fnv1a64(new));
}

#[test]
fn test_over_budget_content_marks_budget_ok_false() {
    let big = "x\n".repeat(TAO_MAX_LINES + 1);
    let ev = audit_injection("SOUL.md", "", &big, "t").expect("first injection must record");
    assert!(!ev.budget_ok);
    assert_eq!(ev.lines, TAO_MAX_LINES + 1);
}

#[test]
fn fnv_reference_values() {
    assert_eq!(fnv1a64(""), "cbf29ce484222325");
    assert_eq!(fnv1a64("a"), "af63dc4c8601ec8c");
}

#[test]
fn audit_timeline_replays() {
    let ev = audit_injection("SOUL.md", "", "content", "t1").unwrap();
    let ev2 = audit_injection("SOUL.md", &ev.new_hash, "changed", "t2").unwrap();
    assert_eq!(ev2.prev_hash, ev.new_hash);
    assert_eq!(ev.at, "t1");
    assert!(audit_injection("SOUL.md", &ev2.new_hash, "changed", "t3").is_none());
}
