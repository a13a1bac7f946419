//! Self-evidencing health verdicts.
//!
//! A health report carries, with its verdict, the evidence it rests on:
//! uptime, the executable's modification time, the journal's last write.
//! The verdict follows a fixed vocabulary: any unavailable measurement
//! makes it `unverified` (never `healthy`); a missing measurement point or
//! no evidence at all makes it `degraded`; all measured makes it `verified`.

use vstd::prelude::*;

use crate::text::{decimal, owned, push_decimal, push_str};

verus! {

/// Where a piece of evidence comes from; decides whether the verdict can
/// be trusted.
#[derive(Debug, Clone, Copy, PartialEq, Eq, Structural)]
pub enum EvidenceSource {
    /// Measurable and measured.
    Measured,
    /// No measurement point configured.
    Unconfigured,
    /// Configured, but the measurement failed.
    Unavailable,
}

impl EvidenceSource {
    /// The source's label.
    pub open spec fn label(self) -> Seq<char> {
        match self {
            EvidenceSource::Measured => "measured"@,
            EvidenceSource::Unconfigured => "unconfigured"@,
            EvidenceSource::Unavailable => "unavailable"@,
        }
    }

    /// The source's label.
    pub fn as_str(&self) -> (s: &'static str)
        ensures
            s@ == self.label(),
    {
        match self {
            EvidenceSource::Measured => "measured",
            EvidenceSource::Unconfigured => "unconfigured",
            EvidenceSource::Unavailable => "unavailable",
        }
    }
}

/// Health verdict with its evidence.
/// One piece of health evidence: the field, a readable value, and the raw
/// value a machine can compare (`None` when it could not be measured).
#[derive(Debug, Clone, PartialEq, Eq)]
pub struct Evidence {
    pub field: String,
    pub value: String,
    pub raw: Option<String>,
}

#[derive(Debug, Clone, PartialEq)]
pub struct HealthReport {
    /// `healthy` only when the verdict's vocabulary entry allows it.
    pub status: String,
    /// `verified`, `degraded` or `unverified`.
    pub verdict: String,
    pub uptime_secs: u64,
    /// Per source: its label, the source, and its raw value.
    pub evidence: Vec<(String, EvidenceSource, Option<String>)>,
}

/// An entry of the verdict vocabulary: the verdict and the highest status
/// it allows to claim.
#[derive(Debug, Clone, Copy, PartialEq, Eq)]
pub struct VerdictSpec {
    pub verdict: &'static str,
    pub max_status: &'static str,
}

/// The vocabulary entry for all evidence measured.
pub open spec fn spec_verified() -> VerdictSpec {
    VerdictSpec { verdict: "verified", max_status: "healthy" }
}

/// The vocabulary entry for evidence not configured, or none at all.
pub open spec fn spec_degraded() -> VerdictSpec {
    VerdictSpec { verdict: "degraded", max_status: "healthy" }
}

/// The vocabulary entry for a failed measurement.
pub open spec fn spec_unverified() -> VerdictSpec {
    VerdictSpec { verdict: "unverified", max_status: "unhealthy" }
}

/// All evidence measured: `verified`, may claim `healthy`.
pub fn verdict_verified() -> (v: VerdictSpec)
    ensures
        v == spec_verified(),
{
    VerdictSpec { verdict: "verified", max_status: "healthy" }
}

/// Evidence not configured, or none: `degraded`, may claim `healthy`.
pub fn verdict_degraded() -> (v: VerdictSpec)
    ensures
        v == spec_degraded(),
{
    VerdictSpec { verdict: "degraded", max_status: "healthy" }
}

/// A measurement failed: `unverified`, may claim only `unhealthy`.
pub fn verdict_unverified() -> (v: VerdictSpec)
    ensures
        v == spec_unverified(),
{
    VerdictSpec { verdict: "unverified", max_status: "unhealthy" }
}

/// Some source is `Unavailable`.
pub open spec fn any_unavailable(s: Seq<EvidenceSource>) -> bool {
    exists|i: int| 0 <= i < s.len() && s[i] == EvidenceSource::Unavailable
}

/// No source, or some source `Unconfigured`.
pub open spec fn any_unconfigured(s: Seq<EvidenceSource>) -> bool {
    s.len() == 0 || exists|i: int| 0 <= i < s.len() && s[i] == EvidenceSource::Unconfigured
}

/// The vocabulary entry chosen for a set of sources.
pub open spec fn chosen_spec(s: Seq<EvidenceSource>) -> VerdictSpec {
    if any_unavailable(s) {
        spec_unverified()
    } else if any_unconfigured(s) {
        spec_degraded()
    } else {
        spec_verified()
    }
}

/// Chooses the vocabulary entry for the sources, and the status that entry
/// allows: unverified when any source is unavailable, degraded when there
/// is none or one is unconfigured, verified otherwise.
pub fn decide(sources: &[EvidenceSource]) -> (r: (VerdictSpec, &'static str))
    ensures
        r.0 == chosen_spec(sources@),
        r.1 == r.0.max_status,
        any_unavailable(sources@) ==> r.1@ == "unhealthy"@,
{
    let mut has_unavailable = false;
    let mut has_unconfigured = sources.len() == 0;
    let mut i: usize = 0;
    while i < sources.len()
        invariant
            i <= sources@.len(),
            has_unavailable == exists|j: int|
                0 <= j < i && sources@[j] == EvidenceSource::Unavailable,
            has_unconfigured == (sources@.len() == 0 || exists|j: int|
                0 <= j < i && sources@[j] == EvidenceSource::Unconfigured),
        decreases sources.len() - i,
    {
        if sources[i] == EvidenceSource::Unavailable {
            has_unavailable = true;
        }
        if sources[i] == EvidenceSource::Unconfigured {
            has_unconfigured = true;
        }
        i += 1;
    }
    let spec = if has_unavailable {
        verdict_unverified()
    } else if has_unconfigured {
        verdict_degraded()
    } else {
        verdict_verified()
    };
    (spec, spec.max_status)
}

/// `std::time::SystemTime`, carried through opaquely.
#[verifier::external_type_specification]
#[verifier::external_body]
pub struct ExSystemTime(std::time::SystemTime);

/// The whole seconds of `now.duration_since(earlier)` (`SystemTime`), or
/// `None` when `earlier` is later than `now`.
pub uninterp spec fn whole_secs_elapsed(
    now: std::time::SystemTime,
    earlier: std::time::SystemTime,
) -> Option<u64>;

/// Calls `SystemTime::duration_since` and keeps its whole seconds; `None`
/// when `earlier` is later than `now`.  What it returns depends on the two
/// instants alone, which Verus does not see inside.
#[verifier::external_body]
fn whole_secs_since(now: &std::time::SystemTime, earlier: &std::time::SystemTime) -> (r: Option<
    u64,
>)
    ensures
        r == whole_secs_elapsed(*now, *earlier),
{
    now.duration_since(*earlier).ok().map(|d| d.as_secs())
}

/// Uptime in whole seconds from the elapsed time, zero when the clock went
/// backwards (`elapsed` is `None`).
pub fn uptime_from(elapsed: Option<u64>) -> (r: u64)
    ensures
        r == match elapsed {
            Some(s) => s,
            None => 0,
        },
{
    match elapsed {
        Some(s) => s,
        None => 0,
    }
}

/// Process uptime in whole seconds; zero when `started_at` is after `now`.
pub fn uptime_secs(now: std::time::SystemTime, started_at: std::time::SystemTime) -> (r: u64)
    ensures
        r == match whole_secs_elapsed(now, started_at) {
            Some(s) => s,
            None => 0,
        },
{
    uptime_from(whole_secs_since(&now, &started_at))
}

/// The raw value of the executable's evidence: its modification time and
/// the current time, in epoch seconds.
pub open spec fn exe_raw(mtime: u64, now: u64) -> Seq<char> {
    decimal(mtime as nat) + "|"@ + decimal(now as nat)
}

/// Evidence from the executable's modification time, as measured by the
/// caller: unconfigured without a path, unavailable when the time could
/// not be read (`mtime_secs` is `None`), measured otherwise.
pub fn exe_mtime_evidence(exe_path: Option<&str>, mtime_secs: Option<u64>, now_secs: u64) -> (r: (
    EvidenceSource,
    Option<String>,
))
    ensures
        exe_path is None ==> r.0 == EvidenceSource::Unconfigured && r.1 is None,
        exe_path is Some && mtime_secs is None ==> r.0 == EvidenceSource::Unavailable && r.1 is None,
        exe_path is Some && mtime_secs is Some ==> r.0 == EvidenceSource::Measured && r.1 is Some
            && r.1->0@ == exe_raw(mtime_secs->0, now_secs),
{
    if exe_path.is_none() {
        return (EvidenceSource::Unconfigured, None);
    }
    match mtime_secs {
        Some(secs) => {
            let mut raw = String::new();
            push_decimal(&mut raw, secs);
            push_str(&mut raw, "|");
            push_decimal(&mut raw, now_secs);
            assert(raw@ =~= exe_raw(secs, now_secs));
            (EvidenceSource::Measured, Some(raw))
        },
        None => (EvidenceSource::Unavailable, None),
    }
}

/// Evidence from the journal's last modification time, as measured by the
/// caller: unconfigured without a path, unavailable when the time could
/// not be read, measured otherwise (the raw value is the epoch seconds).
pub fn journal_freshness_evidence(journal_path: Option<&str>, mtime_secs: Option<u64>) -> (r: (
    EvidenceSource,
    Option<String>,
))
    ensures
        journal_path is None ==> r.0 == EvidenceSource::Unconfigured && r.1 is None,
        journal_path is Some && mtime_secs is None ==> r.0 == EvidenceSource::Unavailable && r.1
            is None,
        journal_path is Some && mtime_secs is Some ==> r.0 == EvidenceSource::Measured && r.1 is Some
            && r.1->0@ == decimal(mtime_secs->0 as nat),
{
    if journal_path.is_none() {
        return (EvidenceSource::Unconfigured, None);
    }
    match mtime_secs {
        Some(secs) => (EvidenceSource::Measured, Some(crate::text::u64_to_decimal(secs))),
        None => (EvidenceSource::Unavailable, None),
    }
}

/// The sources of a list of evidence.
pub open spec fn sources_of(s: Seq<(EvidenceSource, Option<String>)>) -> Seq<EvidenceSource> {
    s.map_values(|e: (EvidenceSource, Option<String>)| e.0)
}

/// Builds the report: verdict and status from the vocabulary entry that
/// `decide` chooses, and each piece of evidence with its source's label.
pub fn build_report(uptime: u64, sources: &[(EvidenceSource, Option<String>)]) -> (r: HealthReport)
    ensures
        r.verdict@ == chosen_spec(sources_of(sources@)).verdict@,
        r.status@ == chosen_spec(sources_of(sources@)).max_status@,
        r.uptime_secs == uptime,
        r.evidence@.len() == sources@.len(),
        forall|i: int|
            0 <= i < sources@.len() ==> {
                &&& (#[trigger] r.evidence@[i]).0@ == sources@[i].0.label()
                &&& r.evidence@[i].1 == sources@[i].0
                &&& r.evidence@[i].2 == sources@[i].1
            },
{
    let mut states: Vec<EvidenceSource> = Vec::new();
    let mut evidence: Vec<(String, EvidenceSource, Option<String>)> = Vec::new();
    let mut i: usize = 0;
    while i < sources.len()
        invariant
            i <= sources@.len(),
            states@ == sources_of(sources@).take(i as int),
            evidence@.len() == i,
            forall|j: int|
                0 <= j < i ==> {
                    &&& (#[trigger] evidence@[j]).0@ == sources@[j].0.label()
                    &&& evidence@[j].1 == sources@[j].0
                    &&& evidence@[j].2 == sources@[j].1
                },
        decreases sources.len() - i,
    {
        let (src, raw) = &sources[i];
        states.push(*src);
        let raw_copy: Option<String> = match raw {
            Some(v) => Some(v.clone()),
            None => None,
        };
        evidence.push((owned(src.as_str()), *src, raw_copy));
        assert(states@ =~= sources_of(sources@).take(i + 1));
        i += 1;
    }
    assert(sources_of(sources@).take(sources@.len() as int) =~= sources_of(sources@));
    let (spec, status) = decide(states.as_slice());
    HealthReport {
        status: owned(status),
        verdict: owned(spec.verdict),
        uptime_secs: uptime,
        evidence,
    }
}


/// Only evidence that is all measured, and not empty, is `verified`: a
/// missing configuration or no evidence at all is at best `degraded`, and
/// a failed measurement makes the report `unverified` and `unhealthy`.
pub proof fn law_verified_needs_all_measured(s: Seq<EvidenceSource>)
    ensures
        (chosen_spec(s).verdict@ == "verified"@) <==> (s.len() > 0 && forall|i: int|
            0 <= i < s.len() ==> s[i] == EvidenceSource::Measured),
        any_unavailable(s) ==> chosen_spec(s).max_status@ == "unhealthy"@,
{
    reveal_strlit("verified");
    reveal_strlit("degraded");
    reveal_strlit("unverified");
    assert("verified"@.len() == 8 && "unverified"@.len() == 10);
    assert("degraded"@[0] != "verified"@[0]);
    assert(spec_unverified().verdict@ != "verified"@);
    assert(spec_degraded().verdict@ != "verified"@);
    if s.len() > 0 && (forall|i: int| 0 <= i < s.len() ==> s[i] == EvidenceSource::Measured) {
        assert(!any_unavailable(s));
        assert(!any_unconfigured(s));
    }
    if chosen_spec(s).verdict@ == "verified"@ {
        assert(!any_unavailable(s));
        assert(!any_unconfigured(s));
        assert forall|i: int| 0 <= i < s.len() implies s[i] == EvidenceSource::Measured by {
            if s[i] == EvidenceSource::Unavailable {
                assert(any_unavailable(s));
            }
            if s[i] == EvidenceSource::Unconfigured {
                assert(any_unconfigured(s));
            }
        }
    }
}

} // verus!
