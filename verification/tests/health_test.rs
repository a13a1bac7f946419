use q_body::health::{
    build_report, decide, exe_mtime_evidence, journal_freshness_evidence, uptime_from, uptime_secs,
    verdict_degraded, verdict_unverified, verdict_verified, EvidenceSource, VerdictSpec,
};
use std::time::{Duration, SystemTime};

#[test]
fn test_uptime_basic() {
    let now = SystemTime::now();
    assert_eq!(uptime_secs(now, now), 0);
    assert_eq!(uptime_secs(now, now - Duration::from_secs(90)), 90);
}

#[test]
fn test_uptime_clock_skew_clamps_to_zero() {
    let now = SystemTime::now();
    assert_eq!(uptime_secs(now, now + Duration::from_secs(100)), 0);
}

#[test]
fn test_exe_mtime_unconfigured() {
    let (src, raw) = exe_mtime_evidence(None, None, 1000);
    assert_eq!(src, EvidenceSource::Unconfigured);
    assert!(raw.is_none());
}

#[test]
fn test_exe_mtime_unavailable() {
    let (src, raw) = exe_mtime_evidence(Some("/nonexistent/q-body-bin"), None, 1000);
    assert_eq!(src, EvidenceSource::Unavailable);
    assert!(raw.is_none());
}

#[test]
fn test_exe_mtime_measured() {
    let (src, raw) = exe_mtime_evidence(Some("/tmp/q-body"), Some(1999), 2000);
    assert_eq!(src, EvidenceSource::Measured);
    let raw = raw.unwrap();
    let (mtime_secs, now_secs) = raw.split_once('|').unwrap();
    assert_eq!(now_secs, "2000");
    assert!(mtime_secs.parse::<u64>().is_ok());
    assert_eq!(mtime_secs, "1999");
}

#[test]
fn test_journal_unconfigured_vs_unavailable() {
    let (src, _) = journal_freshness_evidence(None, None);
    assert_eq!(src, EvidenceSource::Unconfigured);
    let (src, _) = journal_freshness_evidence(Some("/nonexistent/journal.jsonl"), None);
    assert_eq!(src, EvidenceSource::Unavailable);
}

#[test]
fn test_journal_measured() {
    let (src, raw) = journal_freshness_evidence(Some("/tmp/journal.jsonl"), Some(1_700_000_000));
    assert_eq!(src, EvidenceSource::Measured);
    assert_eq!(raw.unwrap().parse::<u64>().unwrap(), 1_700_000_000);
}

#[test]
fn test_report_verified_when_all_measured() {
    let r = build_report(
        60,
        &[
            (EvidenceSource::Measured, Some("123".into())),
            (EvidenceSource::Measured, Some("456".into())),
        ],
    );
    assert_eq!(r.status, "healthy");
    assert_eq!(r.verdict, "verified");
    assert_eq!(r.evidence.len(), 2);
    assert_eq!(r.evidence[0].0, "measured");
}

#[test]
fn test_report_degraded_when_unconfigured() {
    let r = build_report(60, &[(EvidenceSource::Unconfigured, None)]);
    assert_eq!(r.status, "healthy");
    assert_eq!(r.verdict, "degraded");
}

#[test]
fn test_report_unverified_when_unavailable() {
    let r = build_report(
        60,
        &[
            (EvidenceSource::Measured, Some("1".into())),
            (EvidenceSource::Unavailable, None),
        ],
    );
    assert_eq!(r.status, "unhealthy");
    assert_eq!(r.verdict, "unverified");
}

#[test]
fn test_report_empty_sources_is_degraded_not_verified() {
    let r = build_report(60, &[]);
    assert_eq!(r.verdict, "degraded");
    assert_eq!(r.status, "healthy");
}

#[test]
fn test_verdict_spec_vocabulary_is_extensible_not_hardcoded() {
    let custom = VerdictSpec { verdict: "sampling", max_status: "healthy" };
    assert_eq!(verdict_verified().verdict, "verified");
    assert_eq!(verdict_verified().max_status, "healthy");
    assert_eq!(verdict_degraded().verdict, "degraded");
    assert_eq!(verdict_unverified().max_status, "unhealthy");
    let (spec, status) = decide(&[EvidenceSource::Measured]);
    assert_eq!((spec.verdict, status), (verdict_verified().verdict, custom.max_status));
}

#[test]
fn test_decide_unavailable_forbids_healthy_via_vocab() {
    let (spec, status) = decide(&[EvidenceSource::Unavailable]);
    assert_eq!(spec.verdict, "unverified");
    assert_eq!(status, "unhealthy");
    assert_eq!(verdict_unverified().max_status, "unhealthy");
}

#[test]
fn test_build_report_regression_full_chain() {
    let cases: Vec<(Vec<EvidenceSource>, &str, &str)> = vec![
        (vec![], "degraded", "healthy"),
        (vec![EvidenceSource::Measured, EvidenceSource::Measured], "verified", "healthy"),
        (vec![EvidenceSource::Measured, EvidenceSource::Unconfigured], "degraded", "healthy"),
        (vec![EvidenceSource::Measured, EvidenceSource::Unavailable], "unverified", "unhealthy"),
        (vec![EvidenceSource::Unconfigured], "degraded", "healthy"),
        (vec![EvidenceSource::Unavailable], "unverified", "unhealthy"),
    ];
    for (sources, want_verdict, want_status) in cases {
        let src: Vec<(EvidenceSource, Option<String>)> = sources.iter().map(|s| (*s, None)).collect();
        let r = build_report(60, &src);
        assert_eq!(r.verdict, want_verdict, "verdict for {sources:?}");
        assert_eq!(r.status, want_status, "status for {sources:?}");
        assert_eq!(r.evidence.len(), sources.len());
    }
}

#[test]
fn uptime_from_elapsed() {
    assert_eq!(uptime_from(Some(42)), 42);
    assert_eq!(uptime_from(None), 0);
}

#[test]
fn evidence_labels_follow_sources() {
    let r = build_report(5, &[(EvidenceSource::Unavailable, None), (EvidenceSource::Unconfigured, None)]);
    assert_eq!(r.evidence[0].0, "unavailable");
    assert_eq!(r.evidence[1].0, "unconfigured");
    assert_eq!(r.uptime_secs, 5);
}
