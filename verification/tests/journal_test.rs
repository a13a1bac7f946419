use q_body::clock::Timestamp;
use q_body::journal::{EvolutionSignal, EvolutionStage, Journal};

#[test]
fn test_journal_tracks_evolution_signals() {
    let mut journal = Journal::new();
    journal.record(EvolutionSignal::Refactor, "c197a87c2805".into(), "extract handler error logic".into());
    journal.record(EvolutionSignal::Dedup, "c197a87c2805".into(), "merge duplicate task parsing".into());
    journal.record(EvolutionSignal::Test, "c197a87c2805".into(), "add agent-card smoke test".into());
    journal.record(EvolutionSignal::Perf, "c197a87c2805".into(), "use RwLock instead of Mutex".into());
    journal.record(EvolutionSignal::Bump, "c197a87c2805".into(), "bump tokio to 1.42".into());
    assert_eq!(journal.count_by_signal(&EvolutionSignal::Refactor), 1);
    assert_eq!(journal.count_by_signal(&EvolutionSignal::Dedup), 1);
    assert_eq!(journal.count_by_signal(&EvolutionSignal::Test), 1);
    assert_eq!(journal.count_by_signal(&EvolutionSignal::Perf), 1);
    assert_eq!(journal.count_by_signal(&EvolutionSignal::Bump), 1);
    assert_eq!(journal.total_events(), 5);
}

#[test]
fn test_evolution_loop_four_stages() {
    let mut journal = Journal::new();
    journal.record_loop(
        EvolutionSignal::Refactor,
        "session 2026-06-14".into(),
        "add evolution event record type".into(),
        "added EvolutionStage enum + record_loop/count_by_stage".into(),
        "cargo test passed".into(),
    );
    journal.record(EvolutionSignal::Test, "session 2026-06-14".into(), "add smoke test".into());
    assert_eq!(journal.total_events(), 2);
    assert_eq!(journal.count_by_stage(EvolutionStage::Source), 2);
    assert_eq!(journal.count_by_stage(EvolutionStage::Suggestion), 2);
    assert_eq!(journal.count_by_stage(EvolutionStage::Action), 1);
    assert_eq!(journal.count_by_stage(EvolutionStage::Verification), 1);
    let complete = journal.events().iter().find(|e| e.reached(EvolutionStage::Verification)).unwrap();
    assert_eq!(
        complete.stage_text(EvolutionStage::Action),
        Some("added EvolutionStage enum + record_loop/count_by_stage")
    );
}

#[test]
fn test_dedup_candidate_threshold() {
    let mut journal = Journal::new();
    journal.record(EvolutionSignal::Refactor, "session 2026-06-15".into(), "extract handler error logic".into());
    assert!(!journal.is_dedup_candidate(&EvolutionSignal::Refactor));
    assert!(journal.dedup_candidates().is_empty());
    journal.record(EvolutionSignal::Refactor, "session 2026-06-15".into(), "extract task parsing".into());
    assert!(journal.is_dedup_candidate(&EvolutionSignal::Refactor));
    journal.record(EvolutionSignal::Test, "session 2026-06-15".into(), "add agent-card smoke test".into());
    assert!(!journal.is_dedup_candidate(&EvolutionSignal::Test));
    let candidates = journal.dedup_candidates();
    assert_eq!(candidates.len(), 1);
    assert_eq!(candidates[0], EvolutionSignal::Refactor);
    journal.record(EvolutionSignal::Test, "session 2026-06-15".into(), "add health smoke test".into());
    let candidates = journal.dedup_candidates();
    assert_eq!(candidates.len(), 2);
    assert!(candidates.contains(&EvolutionSignal::Refactor));
    assert!(candidates.contains(&EvolutionSignal::Test));
}

#[test]
fn test_prediction_record_and_validate() {
    let mut journal = Journal::new();
    let idx_a = journal.record_prediction("handler.rs 下次会被 refactor".into());
    let idx_b = journal.record_prediction("a2a/types.rs 下次会引入 dedup 候选".into());
    assert_eq!(journal.total_predictions(), 2);
    assert_eq!(journal.pending_predictions().len(), 2);
    assert_eq!(journal.validated_predictions().len(), 0);

    let pending_a = journal.pending_predictions()[0];
    assert!(pending_a.validated_at.is_none());
    assert!(pending_a.actual.is_none());
    assert!(pending_a.delta.is_none());
    assert!(!pending_a.is_validated());

    let ok = journal.validate_prediction(
        idx_a,
        "handler.rs 被 dispatch 重构（hits）".into(),
        "预测：refactor；实际：refactor → 命中".into(),
    );
    assert!(ok);
    assert_eq!(journal.pending_predictions().len(), 1);
    assert_eq!(journal.validated_predictions().len(), 1);

    let validated = journal.validated_predictions()[0];
    assert!(validated.is_validated());
    assert_eq!(validated.actual.as_deref(), Some("handler.rs 被 dispatch 重构（hits）"));
    assert_eq!(validated.delta.as_deref(), Some("预测：refactor；实际：refactor → 命中"));
    assert!(validated.validated_at.is_some());

    let twice = journal.validate_prediction(idx_a, "覆盖".into(), "覆盖".into());
    assert!(!twice, "重复校验同一条预测应返回 false，避免覆盖对账记录");

    let out_of_range = journal.validate_prediction(999, "x".into(), "x".into());
    assert!(!out_of_range);
    assert_eq!(journal.total_predictions(), 2);

    let still_pending = journal
        .pending_predictions()
        .iter()
        .any(|p| p.prediction == "a2a/types.rs 下次会引入 dedup 候选");
    assert!(still_pending);
    assert_eq!(idx_b, 1);
}

#[test]
fn test_cycle_reset_and_seen_state() {
    let mut journal = Journal::new();
    let cycle_0: Timestamp = journal.cycle_id();
    assert_eq!(journal.seen_count(), 0);
    assert!(!journal.was_seen_in_cycle("source-a"));
    journal.mark_seen("source-a");
    journal.mark_seen("source-b");
    assert_eq!(journal.seen_count(), 2);
    assert!(journal.was_seen_in_cycle("source-a"));
    assert!(journal.was_seen_in_cycle("source-b"));
    assert!(!journal.was_seen_in_cycle("source-c"));
    journal.mark_seen("source-a");
    assert_eq!(journal.seen_count(), 2);

    journal.record(EvolutionSignal::Refactor, "session 2026-06-21".into(), "extract dispatch helper".into());
    let pred_idx = journal.record_prediction("下次会出 dedup 候选".into());

    // Let the clock move on before the next cycle starts.
    let start = std::time::Instant::now();
    while start.elapsed() < std::time::Duration::from_millis(2) {}

    journal.reset_cycle();
    assert!(cycle_0.is_before(&journal.cycle_id()), "reset_cycle 后 cycle_id 应严格大于上一轮 cycle_id");
    assert_eq!(journal.seen_count(), 0);
    assert!(!journal.was_seen_in_cycle("source-a"));
    assert!(!journal.was_seen_in_cycle("source-b"));
    assert_eq!(journal.total_events(), 1);
    assert_eq!(journal.total_predictions(), 1);
    assert_eq!(pred_idx, 0);
    journal.mark_seen("source-a");
    assert!(journal.was_seen_in_cycle("source-a"));
    assert_eq!(journal.seen_count(), 1);
}

#[test]
fn test_event_consumed_state() {
    let mut journal = Journal::new();
    journal.record(EvolutionSignal::Refactor, "session 2026-06-24".into(), "extract dispatch helper".into());
    journal.record(EvolutionSignal::Test, "session 2026-06-24".into(), "add consumed-state test".into());
    journal.record_loop(
        EvolutionSignal::Dedup,
        "session 2026-06-24".into(),
        "merge duplicate parsing".into(),
        "merged two parse paths".into(),
        "cargo test passed".into(),
    );
    assert_eq!(journal.unconsumed_events().len(), 3);
    assert!(!journal.events()[0].is_consumed());

    let ok = journal.mark_consumed(0);
    assert!(ok);
    assert!(journal.events()[0].is_consumed());
    assert!(journal.events()[0].consumed_at.is_some());
    assert_eq!(journal.unconsumed_events().len(), 2);

    let twice = journal.mark_consumed(0);
    assert!(!twice);

    assert!(journal.mark_consumed(1));
    assert_eq!(journal.unconsumed_events().len(), 1);
    assert!(!journal.mark_consumed(999));

    let remaining = journal.unconsumed_events();
    assert_eq!(remaining.len(), 1);
    assert_eq!(remaining[0].signal, EvolutionSignal::Dedup);

    journal.reset_cycle();
    assert!(journal.events()[0].is_consumed());
    assert_eq!(journal.unconsumed_events().len(), 1);
}

#[test]
fn test_load_jsonl_file_not_found_returns_empty() {
    let now = Timestamp { secs: 1_700_000_000, nanos: 0 };
    let journal = Journal::from_records(&Vec::new(), now);
    assert_eq!(journal.total_events(), 0);
    assert_eq!(journal.total_predictions(), 0);
    assert_eq!(journal.seen_count(), 0);
    assert_eq!(journal.cycle_id(), now);
}

#[test]
fn records_read_back_as_the_same_journal() {
    let mut journal = Journal::new();
    journal.record(EvolutionSignal::Refactor, "src".into(), "split handler".into());
    journal.record_prediction("tests pass".into());
    journal.mark_seen("event-b");
    journal.mark_seen("event-a");
    let records = journal.to_records();
    let back = Journal::from_records(&records, Timestamp { secs: 1, nanos: 0 });
    assert_eq!(back.events(), journal.events());
    assert_eq!(back.predictions(), journal.predictions());
    assert_eq!(back.cycle_id(), journal.cycle_id());
    assert_eq!(back.seen_entries(), journal.seen_entries());
}
