//! Journal of evolution signals and predictions.
//!
//! Each event records a signal, its source and suggestion, and, once the
//! loop is closed, the action taken and how it was verified; an event can
//! be marked consumed once.  Predictions are recorded and later validated
//! once.  Events and predictions are append-only history; a cycle reset
//! only starts a new cycle and clears which ids were seen in it.

use vstd::prelude::*;

use crate::clock::{utc_now, Timestamp};
use crate::json::{json_get, json_str, Json, JsonValue};
use crate::strmap::{has_key, lookup, StrMap};
use crate::text::{chars_of, lines_of, owned, split_lines, sviews, trim, trim_chars, string_from_chars};

verus! {

/// Kind of evolution signal.
#[derive(Debug, Clone, Copy, PartialEq, Eq, Structural)]
pub enum EvolutionSignal {
    Refactor,
    Dedup,
    Test,
    Perf,
    Bump,
}

/// Stage of the feed-back loop: source, suggestion, action, verification.
#[derive(Debug, Clone, Copy, PartialEq, Eq, Structural)]
pub enum EvolutionStage {
    Source,
    Suggestion,
    Action,
    Verification,
}

/// One evolution event.
#[derive(Debug, Clone, PartialEq, Eq)]
pub struct EvolutionEvent {
    pub timestamp: Timestamp,
    pub signal: EvolutionSignal,
    pub source: String,
    pub suggestion: String,
    /// What was changed (once the loop reached the action stage).
    pub action: Option<String>,
    /// How it was verified (once the loop reached the verification stage).
    pub verification: Option<String>,
    /// When a consumer took the event (`None` until then).
    pub consumed_at: Option<Timestamp>,
}

/// Whether an event has content for a stage.
pub open spec fn reaches(e: EvolutionEvent, stage: EvolutionStage) -> bool {
    match stage {
        EvolutionStage::Source => true,
        EvolutionStage::Suggestion => true,
        EvolutionStage::Action => e.action is Some,
        EvolutionStage::Verification => e.verification is Some,
    }
}

impl EvolutionEvent {
    /// The text of a stage; `None` for an action or verification not yet
    /// recorded.
    pub fn stage_text(&self, stage: EvolutionStage) -> (r: Option<&str>)
        ensures
            r is Some == reaches(*self, stage),
            r matches Some(t) ==> t@ == match stage {
                EvolutionStage::Source => self.source@,
                EvolutionStage::Suggestion => self.suggestion@,
                EvolutionStage::Action => self.action->0@,
                EvolutionStage::Verification => self.verification->0@,
            },
    {
        match stage {
            EvolutionStage::Source => Some(self.source.as_str()),
            EvolutionStage::Suggestion => Some(self.suggestion.as_str()),
            EvolutionStage::Action => match &self.action {
                Some(a) => Some(a.as_str()),
                None => None,
            },
            EvolutionStage::Verification => match &self.verification {
                Some(v) => Some(v.as_str()),
                None => None,
            },
        }
    }

    /// Whether the event reached a stage (has content for it).
    pub fn reached(&self, stage: EvolutionStage) -> (b: bool)
        ensures
            b == reaches(*self, stage),
    {
        self.stage_text(stage).is_some()
    }

    /// Whether a consumer took the event.
    pub fn is_consumed(&self) -> (b: bool)
        ensures
            b == self.consumed_at is Some,
    {
        self.consumed_at.is_some()
    }
}

/// A prediction and, once validated, what actually happened.
#[derive(Debug, Clone, PartialEq, Eq)]
pub struct PredictionEntry {
    pub predicted_at: Timestamp,
    pub prediction: String,
    pub validated_at: Option<Timestamp>,
    pub actual: Option<String>,
    pub delta: Option<String>,
}

/// Whether a prediction is validated.
pub open spec fn validated(p: PredictionEntry) -> bool {
    p.validated_at is Some && p.actual is Some
}

impl PredictionEntry {
    /// Whether the prediction was validated (validation time and actual
    /// outcome recorded).
    pub fn is_validated(&self) -> (b: bool)
        ensures
            b == validated(*self),
    {
        self.validated_at.is_some() && self.actual.is_some()
    }
}

/// The journal.
#[derive(Debug)]
pub struct Journal {
    events: Vec<EvolutionEvent>,
    predictions: Vec<PredictionEntry>,
    /// Start of the current cycle.
    cycle_id: Timestamp,
    /// Ids seen in the current cycle, with when they were last seen.
    seen_state: StrMap<Timestamp>,
}

/// The model of a journal: events, predictions, cycle start, seen ids.
pub type JournalModel = (Seq<EvolutionEvent>, Seq<PredictionEntry>, Timestamp, Seq<(Seq<char>, Timestamp)>);

impl View for Journal {
    type V = JournalModel;

    /// Events, predictions, cycle start, and the ids seen in the cycle.
    closed spec fn view(&self) -> JournalModel {
        (self.events@, self.predictions@, self.cycle_id, self.seen_state@)
    }
}

/// Number of events with a signal.
pub open spec fn signal_count(es: Seq<EvolutionEvent>, s: EvolutionSignal) -> nat {
    es.filter(|e: EvolutionEvent| e.signal == s).len()
}

/// All five signals, in declaration order.
pub open spec fn all_signals() -> Seq<EvolutionSignal> {
    seq![
        EvolutionSignal::Refactor,
        EvolutionSignal::Dedup,
        EvolutionSignal::Test,
        EvolutionSignal::Perf,
        EvolutionSignal::Bump,
    ]
}

/// A copy of a signal.
fn copy_signal(s: &EvolutionSignal) -> (r: EvolutionSignal)
    ensures
        r == *s,
{
    *s
}

impl Journal {
    /// An empty journal whose cycle starts now.
    pub fn new() -> (j: Self)
        ensures
            j@.0 == Seq::<EvolutionEvent>::empty(),
            j@.1 == Seq::<PredictionEntry>::empty(),
            j@.3 == Seq::<(Seq<char>, Timestamp)>::empty(),
            j@.2.representable(),
            j@.2.secs >= 0,
    {
        Journal {
            events: Vec::new(),
            predictions: Vec::new(),
            cycle_id: utc_now(),
            seen_state: StrMap::new(),
        }
    }

    /// Records an event at its source and suggestion stages.
    pub fn record(&mut self, signal: EvolutionSignal, source: String, suggestion: String)
        ensures
            final(self)@.0.len() == old(self)@.0.len() + 1,
            final(self)@.0.drop_last() == old(self)@.0,
            final(self)@.0.last().signal == signal,
            final(self)@.0.last().source == source,
            final(self)@.0.last().suggestion == suggestion,
            final(self)@.0.last().action is None,
            final(self)@.0.last().verification is None,
            final(self)@.0.last().consumed_at is None,
            final(self)@.1 == old(self)@.1,
            final(self)@.2 == old(self)@.2,
            final(self)@.3 == old(self)@.3,
    {
        self.events.push(
            EvolutionEvent {
                timestamp: utc_now(),
                signal,
                source,
                suggestion,
                action: None,
                verification: None,
                consumed_at: None,
            },
        );
        assert(self@.0.drop_last() =~= old(self)@.0);
    }

    /// Records an event with all four stages.
    pub fn record_loop(
        &mut self,
        signal: EvolutionSignal,
        source: String,
        suggestion: String,
        action: String,
        verification: String,
    )
        ensures
            final(self)@.0.len() == old(self)@.0.len() + 1,
            final(self)@.0.drop_last() == old(self)@.0,
            final(self)@.0.last().signal == signal,
            final(self)@.0.last().source == source,
            final(self)@.0.last().suggestion == suggestion,
            final(self)@.0.last().action == Some(action),
            final(self)@.0.last().verification == Some(verification),
            final(self)@.0.last().consumed_at is None,
            final(self)@.1 == old(self)@.1,
            final(self)@.2 == old(self)@.2,
            final(self)@.3 == old(self)@.3,
    {
        self.events.push(
            EvolutionEvent {
                timestamp: utc_now(),
                signal,
                source,
                suggestion,
                action: Some(action),
                verification: Some(verification),
                consumed_at: None,
            },
        );
        assert(self@.0.drop_last() =~= old(self)@.0);
    }

    /// Number of events with a signal.
    pub fn count_by_signal(&self, signal: &EvolutionSignal) -> (n: usize)
        ensures
            n == signal_count(self@.0, *signal),
    {
        let ghost f = |e: EvolutionEvent| e.signal == *signal;
        let mut n: usize = 0;
        let mut i: usize = 0;
        while i < self.events.len()
            invariant
                i <= self.events@.len(),
                f == (|e: EvolutionEvent| e.signal == *signal),
                n == self.events@.take(i as int).filter(f).len(),
                n <= i,
            decreases self.events.len() - i,
        {
            proof {
                reveal(Seq::filter);
                assert(self.events@.take(i + 1).drop_last() =~= self.events@.take(i as int));
            }
            if self.events[i].signal == *signal {
                n += 1;
            }
            i += 1;
        }
        assert(self.events@.take(self.events@.len() as int) =~= self.events@);
        n
    }

    /// Number of events that reached a stage.
    pub fn count_by_stage(&self, stage: EvolutionStage) -> (n: usize)
        ensures
            n == self@.0.filter(|e: EvolutionEvent| reaches(e, stage)).len(),
    {
        let ghost f = |e: EvolutionEvent| reaches(e, stage);
        let mut n: usize = 0;
        let mut i: usize = 0;
        while i < self.events.len()
            invariant
                i <= self.events@.len(),
                f == (|e: EvolutionEvent| reaches(e, stage)),
                n == self.events@.take(i as int).filter(f).len(),
                n <= i,
            decreases self.events.len() - i,
        {
            proof {
                reveal(Seq::filter);
                assert(self.events@.take(i + 1).drop_last() =~= self.events@.take(i as int));
            }
            if self.events[i].reached(stage) {
                n += 1;
            }
            i += 1;
        }
        assert(self.events@.take(self.events@.len() as int) =~= self.events@);
        n
    }

    /// Number of events.
    pub fn total_events(&self) -> (n: usize)
        ensures
            n == self@.0.len(),
    {
        self.events.len()
    }

    /// The events, in recording order.
    pub fn events(&self) -> (es: &[EvolutionEvent])
        ensures
            es@ == self@.0,
    {
        self.events.as_slice()
    }

    /// Marks event `idx` consumed (now); `false`, with no change, when there
    /// is no such event or it was already consumed.
    pub fn mark_consumed(&mut self, idx: usize) -> (ok: bool)
        ensures
            ok == (idx < old(self)@.0.len() && old(self)@.0[idx as int].consumed_at is None),
            !ok ==> final(self)@ == old(self)@,
            ok ==> final(self)@.0.len() == old(self)@.0.len() && final(self)@.0[idx as int].consumed_at
                is Some && final(self)@.0[idx as int] == (EvolutionEvent {
                consumed_at: final(self)@.0[idx as int].consumed_at,
                ..old(self)@.0[idx as int]
            }) && (forall|j: int|
                0 <= j < old(self)@.0.len() && j != idx ==> #[trigger] final(self)@.0[j] == old(
                    self,
                )@.0[j]),
            final(self)@.1 == old(self)@.1,
            final(self)@.2 == old(self)@.2,
            final(self)@.3 == old(self)@.3,
    {
        if idx >= self.events.len() || self.events[idx].consumed_at.is_some() {
            return false;
        }
        let now = utc_now();
        let mut e = self.events.remove(idx);
        e.consumed_at = Some(now);
        self.events.insert(idx, e);
        true
    }

    /// The events not yet consumed, in order.
    pub fn unconsumed_events(&self) -> (v: Vec<&EvolutionEvent>)
        ensures
            v@.map_values(|e: &EvolutionEvent| *e) == self@.0.filter(
                |e: EvolutionEvent| e.consumed_at is None,
            ),
    {
        let ghost f = |e: EvolutionEvent| e.consumed_at is None;
        let mut v: Vec<&EvolutionEvent> = Vec::new();
        let mut i: usize = 0;
        while i < self.events.len()
            invariant
                i <= self.events@.len(),
                f == (|e: EvolutionEvent| e.consumed_at is None),
                v@.map_values(|e: &EvolutionEvent| *e) == self.events@.take(i as int).filter(f),
            decreases self.events.len() - i,
        {
            proof {
                reveal(Seq::filter);
                assert(self.events@.take(i + 1).drop_last() =~= self.events@.take(i as int));
            }
            if !self.events[i].is_consumed() {
                let ghost prev = v@.map_values(|e: &EvolutionEvent| *e);
                v.push(&self.events[i]);
                assert(v@.map_values(|e: &EvolutionEvent| *e) =~= prev.push(self.events@[i as int]));
            }
            i += 1;
        }
        assert(self.events@.take(self.events@.len() as int) =~= self.events@);
        v
    }

    /// Whether a signal occurs at least twice (a dedup / refactor candidate).
    pub fn is_dedup_candidate(&self, signal: &EvolutionSignal) -> (b: bool)
        ensures
            b == (signal_count(self@.0, *signal) >= 2),
    {
        self.count_by_signal(signal) >= 2
    }

    /// The signals that are dedup candidates, in declaration order.
    pub fn dedup_candidates(&self) -> (v: Vec<EvolutionSignal>)
        ensures
            v@ == all_signals().filter(|s: EvolutionSignal| signal_count(self@.0, s) >= 2),
    {
        let all = vec![
            EvolutionSignal::Refactor,
            EvolutionSignal::Dedup,
            EvolutionSignal::Test,
            EvolutionSignal::Perf,
            EvolutionSignal::Bump,
        ];
        assert(all@ =~= all_signals());
        let ghost f = |s: EvolutionSignal| signal_count(self@.0, s) >= 2;
        let mut v: Vec<EvolutionSignal> = Vec::new();
        let mut i: usize = 0;
        while i < all.len()
            invariant
                i <= all@.len(),
                all@ == all_signals(),
                f == (|s: EvolutionSignal| signal_count(self@.0, s) >= 2),
                v@ == all@.take(i as int).filter(f),
            decreases all.len() - i,
        {
            proof {
                reveal(Seq::filter);
                assert(all@.take(i + 1).drop_last() =~= all@.take(i as int));
            }
            if self.is_dedup_candidate(&all[i]) {
                v.push(copy_signal(&all[i]));
            }
            i += 1;
        }
        assert(all@.take(all@.len() as int) =~= all@);
        v
    }

    /// Records an unvalidated prediction (made now); returns its index.
    pub fn record_prediction(&mut self, prediction: String) -> (idx: usize)
        ensures
            idx == old(self)@.1.len(),
            final(self)@.1.len() == old(self)@.1.len() + 1,
            final(self)@.1.drop_last() == old(self)@.1,
            final(self)@.1.last().prediction == prediction,
            final(self)@.1.last().validated_at is None,
            final(self)@.1.last().actual is None,
            final(self)@.1.last().delta is None,
            final(self)@.0 == old(self)@.0,
            final(self)@.2 == old(self)@.2,
            final(self)@.3 == old(self)@.3,
    {
        self.predictions.push(
            PredictionEntry {
                predicted_at: utc_now(),
                prediction,
                validated_at: None,
                actual: None,
                delta: None,
            },
        );
        assert(self@.1.drop_last() =~= old(self)@.1);
        self.predictions.len() - 1
    }

    /// Fills in the outcome of prediction `idx` (validated now); `false`,
    /// with no change, when there is no such prediction or it was already
    /// validated.
    pub fn validate_prediction(&mut self, idx: usize, actual: String, delta: String) -> (ok: bool)
        ensures
            ok == (idx < old(self)@.1.len() && old(self)@.1[idx as int].validated_at is None),
            !ok ==> final(self)@ == old(self)@,
            ok ==> final(self)@.1.len() == old(self)@.1.len() && {
                let p = final(self)@.1[idx as int];
                &&& p.predicted_at == old(self)@.1[idx as int].predicted_at
                &&& p.prediction == old(self)@.1[idx as int].prediction
                &&& p.validated_at is Some
                &&& p.actual == Some(actual)
                &&& p.delta == Some(delta)
            } && (forall|j: int|
                0 <= j < old(self)@.1.len() && j != idx ==> #[trigger] final(self)@.1[j] == old(
                    self,
                )@.1[j]),
            final(self)@.0 == old(self)@.0,
            final(self)@.2 == old(self)@.2,
            final(self)@.3 == old(self)@.3,
    {
        if idx >= self.predictions.len() || self.predictions[idx].validated_at.is_some() {
            return false;
        }
        let now = utc_now();
        let mut p = self.predictions.remove(idx);
        p.validated_at = Some(now);
        p.actual = Some(actual);
        p.delta = Some(delta);
        self.predictions.insert(idx, p);
        true
    }

    /// The predictions not yet validated, in order.
    pub fn pending_predictions(&self) -> (v: Vec<&PredictionEntry>)
        ensures
            v@.map_values(|p: &PredictionEntry| *p) == self@.1.filter(
                |p: PredictionEntry| !validated(p),
            ),
    {
        let ghost f = |p: PredictionEntry| !validated(p);
        let mut v: Vec<&PredictionEntry> = Vec::new();
        let mut i: usize = 0;
        while i < self.predictions.len()
            invariant
                i <= self.predictions@.len(),
                f == (|p: PredictionEntry| !validated(p)),
                v@.map_values(|p: &PredictionEntry| *p) == self.predictions@.take(i as int).filter(f),
            decreases self.predictions.len() - i,
        {
            proof {
                reveal(Seq::filter);
                assert(self.predictions@.take(i + 1).drop_last() =~= self.predictions@.take(
                    i as int,
                ));
            }
            if !self.predictions[i].is_validated() {
                let ghost prev = v@.map_values(|p: &PredictionEntry| *p);
                v.push(&self.predictions[i]);
                assert(v@.map_values(|p: &PredictionEntry| *p) =~= prev.push(
                    self.predictions@[i as int],
                ));
            }
            i += 1;
        }
        assert(self.predictions@.take(self.predictions@.len() as int) =~= self.predictions@);
        v
    }

    /// The validated predictions, in order.
    pub fn validated_predictions(&self) -> (v: Vec<&PredictionEntry>)
        ensures
            v@.map_values(|p: &PredictionEntry| *p) == self@.1.filter(
                |p: PredictionEntry| validated(p),
            ),
    {
        let ghost f = |p: PredictionEntry| validated(p);
        let mut v: Vec<&PredictionEntry> = Vec::new();
        let mut i: usize = 0;
        while i < self.predictions.len()
            invariant
                i <= self.predictions@.len(),
                f == (|p: PredictionEntry| validated(p)),
                v@.map_values(|p: &PredictionEntry| *p) == self.predictions@.take(i as int).filter(f),
            decreases self.predictions.len() - i,
        {
            proof {
                reveal(Seq::filter);
                assert(self.predictions@.take(i + 1).drop_last() =~= self.predictions@.take(
                    i as int,
                ));
            }
            if self.predictions[i].is_validated() {
                let ghost prev = v@.map_values(|p: &PredictionEntry| *p);
                v.push(&self.predictions[i]);
                assert(v@.map_values(|p: &PredictionEntry| *p) =~= prev.push(
                    self.predictions@[i as int],
                ));
            }
            i += 1;
        }
        assert(self.predictions@.take(self.predictions@.len() as int) =~= self.predictions@);
        v
    }

    /// Number of predictions.
    pub fn total_predictions(&self) -> (n: usize)
        ensures
            n == self@.1.len(),
    {
        self.predictions.len()
    }

    /// The predictions, in recording order.
    pub fn predictions(&self) -> (ps: &[PredictionEntry])
        ensures
            ps@ == self@.1,
    {
        self.predictions.as_slice()
    }

    /// Start of the current cycle.
    pub fn cycle_id(&self) -> (t: Timestamp)
        ensures
            t == self@.2,
    {
        self.cycle_id
    }

    /// Marks an id seen in the current cycle (now); marking it again
    /// refreshes the time.
    pub fn mark_seen(&mut self, event_id: &str)
        ensures
            has_key(final(self)@.3, event_id@),
            forall|q: Seq<char>| q != event_id@ ==> #[trigger] lookup(final(self)@.3, q) == lookup(
                old(self)@.3,
                q,
            ),
            final(self)@.0 == old(self)@.0,
            final(self)@.1 == old(self)@.1,
            final(self)@.2 == old(self)@.2,
    {
        let now = utc_now();
        let _ = self.seen_state.insert(owned(event_id), now);
        proof {
            assert(lookup(self@.3, event_id@) == Some(now));
        }
    }

    /// Whether an id was seen in the current cycle.
    pub fn was_seen_in_cycle(&self, event_id: &str) -> (b: bool)
        ensures
            b == has_key(self@.3, event_id@),
    {
        self.seen_state.contains_key(event_id)
    }

    /// Number of ids seen in the current cycle.
    pub fn seen_count(&self) -> (n: usize)
        ensures
            n == self@.3.len(),
    {
        self.seen_state.len()
    }

    /// The ids seen in this cycle, with when each was last seen, in id
    /// order.
    pub fn seen_entries(&self) -> (v: Vec<(String, Timestamp)>)
        ensures
            pair_views(v@) == self@.3,
    {
        let n = self.seen_state.len();
        let mut v: Vec<(String, Timestamp)> = Vec::new();
        let mut i: usize = 0;
        while i < n
            invariant
                i <= n,
                n == self@.3.len(),
                pair_views(v@) == self@.3.take(i as int),
            decreases n - i,
        {
            let k = owned(self.seen_state.key_at(i).as_str());
            let t = *self.seen_state.value_at(i);
            let ghost before = v@;
            v.push((k, t));
            assert(pair_views(v@) =~= pair_views(before).push((k@, t)));
            assert(self@.3.take(i + 1) =~= self@.3.take(i as int).push(self@.3[i as int]));
            i += 1;
        }
        assert(self@.3.take(n as int) =~= self@.3);
        v
    }

    /// Starts the next cycle (now) and forgets which ids were seen; events
    /// and predictions are kept.
    pub fn reset_cycle(&mut self)
        ensures
            final(self)@.0 == old(self)@.0,
            final(self)@.1 == old(self)@.1,
            final(self)@.3 == Seq::<(Seq<char>, Timestamp)>::empty(),
    {
        self.cycle_id = utc_now();
        self.seen_state = StrMap::new();
    }
}

impl Default for Journal {
    fn default() -> (j: Self)
        ensures
            j@.0 == Seq::<EvolutionEvent>::empty(),
            j@.1 == Seq::<PredictionEntry>::empty(),
            j@.3 == Seq::<(Seq<char>, Timestamp)>::empty(),
    {
        Self::new()
    }
}

// ------------------------------------------------------------------
// Loading from JSON lines
// ------------------------------------------------------------------

/// What `chrono::DateTime::parse_from_rfc3339` gives for a text, as the
/// UTC instant's seconds and nanoseconds, or `None` when it fails.
pub uninterp spec fn rfc3339_instant(s: Seq<char>) -> Option<(i64, u32)>;

/// Calls `chrono::DateTime::parse_from_rfc3339` and gives the UTC instant
/// as seconds and nanoseconds; the outcome depends on `s` alone.
#[verifier::external_body]
fn parse_rfc3339(s: &str) -> (r: Option<(i64, u32)>)
    ensures
        r == rfc3339_instant(s@),
{
    chrono::DateTime::parse_from_rfc3339(s).ok().map(
        |d| (d.timestamp(), d.timestamp_subsec_nanos()),
    )
}

/// The instant of an RFC 3339 text.
pub open spec fn instant_of(s: Seq<char>) -> Option<Timestamp> {
    match rfc3339_instant(s) {
        Some((secs, nanos)) => Some(Timestamp { secs, nanos }),
        None => None,
    }
}

/// One line of a journal file, once read.
#[derive(Debug)]
pub enum JournalRecord {
    /// The metadata line: the cycle start (when it parsed) and the seen ids
    /// (those whose time parsed).
    Meta { cycle_id: Option<Timestamp>, seen: Vec<(String, Timestamp)> },
    /// An evolution event.
    Event(EvolutionEvent),
    /// A prediction.
    Prediction(PredictionEntry),
    /// Any other line (such as an assessment).
    Other,
}

/// The trimmed, non-empty lines of a journal file.
pub open spec fn record_lines(content: Seq<char>) -> Seq<Seq<char>> {
    lines_of(content).map_values(|l: Seq<char>| trim(l)).filter(|l: Seq<char>| l.len() > 0)
}

/// The trimmed, non-empty lines of a journal file.
pub fn jsonl_lines(content: &str) -> (v: Vec<String>)
    ensures
        sviews(v@) == record_lines(content@),
{
    let lines = split_lines(content);
    let ghost tl = lines_of(content@).map_values(|l: Seq<char>| trim(l));
    let ghost f = |l: Seq<char>| l.len() > 0;
    let mut v: Vec<String> = Vec::new();
    let mut i: usize = 0;
    while i < lines.len()
        invariant
            i <= lines@.len(),
            sviews(lines@) == lines_of(content@),
            tl == lines_of(content@).map_values(|l: Seq<char>| trim(l)),
            f == (|l: Seq<char>| l.len() > 0),
            sviews(v@) == tl.take(i as int).filter(f),
        decreases lines.len() - i,
    {
        proof {
            reveal(Seq::filter);
            assert(tl.take(i + 1).drop_last() =~= tl.take(i as int));
            assert(tl.take(i + 1).last() == trim(lines@[i as int]@));
        }
        let t = trim_chars(&chars_of(lines[i].as_str()));
        if t.len() > 0 {
            let ghost prev = sviews(v@);
            v.push(string_from_chars(&t));
            assert(sviews(v@) =~= prev.push(t@));
        }
        i += 1;
    }
    assert(tl.take(tl.len() as int) =~= tl);
    v
}

/// The seen ids of a metadata object's `seen_state` member: those whose
/// value is an RFC 3339 text.
pub open spec fn seen_pairs(fs: Seq<(Seq<char>, Json)>) -> Seq<(Seq<char>, Timestamp)>
    decreases fs.len(),
{
    if fs.len() == 0 {
        Seq::empty()
    } else {
        let prev = seen_pairs(fs.drop_last());
        match json_str(Some(fs.last().1)) {
            Some(t) => match instant_of(t) {
                Some(ts) => prev.push((fs.last().0, ts)),
                None => prev,
            },
            None => prev,
        }
    }
}

/// The metadata record a JSON line holds, when its `type` is
/// `__journal_meta__`.
pub open spec fn meta_of(v: Json) -> Option<(Option<Timestamp>, Seq<(Seq<char>, Timestamp)>)> {
    if json_str(json_get(v, "type"@)) == Some("__journal_meta__"@) {
        Some(
            (
                match json_str(json_get(v, "cycle_id"@)) {
                    Some(s) => instant_of(s),
                    None => None,
                },
                match json_get(v, "seen_state"@) {
                    Some(Json::Obj(fs)) => seen_pairs(fs),
                    _ => Seq::empty(),
                },
            ),
        )
    } else {
        None
    }
}

/// The views of the seen pairs of a record.
pub open spec fn pair_views(v: Seq<(String, Timestamp)>) -> Seq<(Seq<char>, Timestamp)> {
    v.map_values(|p: (String, Timestamp)| (p.0@, p.1))
}

/// The metadata record of a parsed JSON line, when it is one.
pub fn meta_record(v: &JsonValue) -> (r: Option<JournalRecord>)
    ensures
        r is Some <==> meta_of(v.model()) is Some,
        r matches Some(JournalRecord::Meta { cycle_id, seen }) ==> meta_of(v.model()) == Some(
            (cycle_id, pair_views(seen@)),
        ),
        r matches Some(rec) ==> rec is Meta,
{
    let is_meta = match v.get("type") {
        Some(t) => match t.as_str() {
            Some(s) => crate::text::str_eq(s, "__journal_meta__"),
            None => false,
        },
        None => false,
    };
    if !is_meta {
        return None;
    }
    let cycle_id = match v.get("cycle_id") {
        Some(c) => match c.as_str() {
            Some(s) => match parse_rfc3339(s) {
                Some((secs, nanos)) => Some(Timestamp { secs, nanos }),
                None => None,
            },
            None => None,
        },
        None => None,
    };
    let mut seen: Vec<(String, Timestamp)> = Vec::new();
    match v.get("seen_state") {
        Some(JsonValue::Object(fields)) => {
            proof {
                crate::json::lemma_object_model(*fields);
            }
            let ghost fs = crate::json::obj_fields(fields@);
            let mut i: usize = 0;
            while i < fields.len()
                invariant
                    i <= fields@.len(),
                    fs == crate::json::obj_fields(fields@),
                    pair_views(seen@) == seen_pairs(fs.take(i as int)),
                decreases fields.len() - i,
            {
                proof {
                    assert(fs.take(i + 1).drop_last() =~= fs.take(i as int));
                    assert(fs.take(i + 1).last() == (fields@[i as int].0@, fields@[i as int].1.model()));
                }
                match fields[i].1.as_str() {
                    Some(s) => match parse_rfc3339(s) {
                        Some((secs, nanos)) => {
                            let ghost prev = pair_views(seen@);
                            seen.push((fields[i].0.clone(), Timestamp { secs, nanos }));
                            assert(pair_views(seen@) =~= prev.push(
                                (fields@[i as int].0@, Timestamp { secs, nanos }),
                            ));
                        },
                        None => {},
                    },
                    None => {},
                }
                i += 1;
            }
            assert(fs.take(fs.len() as int) =~= fs);
        },
        _ => {
            assert(pair_views(seen@) =~= Seq::<(Seq<char>, Timestamp)>::empty());
        },
    }
    Some(JournalRecord::Meta { cycle_id, seen })
}

/// The events among the records, in order.
pub open spec fn events_of(rs: Seq<JournalRecord>) -> Seq<EvolutionEvent>
    decreases rs.len(),
{
    if rs.len() == 0 {
        Seq::empty()
    } else {
        match rs.last() {
            JournalRecord::Event(e) => events_of(rs.drop_last()).push(e),
            _ => events_of(rs.drop_last()),
        }
    }
}

/// The predictions among the records, in order.
pub open spec fn predictions_of(rs: Seq<JournalRecord>) -> Seq<PredictionEntry>
    decreases rs.len(),
{
    if rs.len() == 0 {
        Seq::empty()
    } else {
        match rs.last() {
            JournalRecord::Prediction(p) => predictions_of(rs.drop_last()).push(p),
            _ => predictions_of(rs.drop_last()),
        }
    }
}

/// The cycle start: the last one a metadata record gives, `now` when none.
pub open spec fn cycle_of(rs: Seq<JournalRecord>, now: Timestamp) -> Timestamp
    decreases rs.len(),
{
    if rs.len() == 0 {
        now
    } else {
        match rs.last() {
            JournalRecord::Meta { cycle_id: Some(c), .. } => c,
            _ => cycle_of(rs.drop_last(), now),
        }
    }
}

/// The time id `q` was last seen according to a list of pairs.
pub open spec fn last_seen(ps: Seq<(Seq<char>, Timestamp)>, q: Seq<char>) -> Option<Timestamp>
    decreases ps.len(),
{
    if ps.len() == 0 {
        None
    } else if ps.last().0 == q {
        Some(ps.last().1)
    } else {
        last_seen(ps.drop_last(), q)
    }
}

/// The time id `q` was last seen according to the records' metadata.
pub open spec fn seen_of(rs: Seq<JournalRecord>, q: Seq<char>) -> Option<Timestamp>
    decreases rs.len(),
{
    if rs.len() == 0 {
        None
    } else {
        match rs.last() {
            JournalRecord::Meta { seen, .. } => match last_seen(pair_views(seen@), q) {
                Some(t) => Some(t),
                None => seen_of(rs.drop_last(), q),
            },
            _ => seen_of(rs.drop_last(), q),
        }
    }
}

impl EvolutionEvent {
    /// A copy of the event.
    pub fn copy(&self) -> (r: Self)
        ensures
            r == *self,
    {
        EvolutionEvent {
            timestamp: self.timestamp,
            signal: self.signal,
            source: self.source.clone(),
            suggestion: self.suggestion.clone(),
            action: crate::a2a::types::copy_opt_str(&self.action),
            verification: crate::a2a::types::copy_opt_str(&self.verification),
            consumed_at: self.consumed_at,
        }
    }
}

impl PredictionEntry {
    /// A copy of the prediction.
    pub fn copy(&self) -> (r: Self)
        ensures
            r == *self,
    {
        PredictionEntry {
            predicted_at: self.predicted_at,
            prediction: self.prediction.clone(),
            validated_at: self.validated_at,
            actual: crate::a2a::types::copy_opt_str(&self.actual),
            delta: crate::a2a::types::copy_opt_str(&self.delta),
        }
    }
}

impl Journal {
    /// The journal that the records of a file describe: its events and
    /// predictions in file order, the cycle start of the last metadata
    /// record that has one (`now` otherwise), and the seen ids of all
    /// metadata records (a later time wins).
    pub fn from_records(records: &Vec<JournalRecord>, now: Timestamp) -> (j: Self)
        ensures
            j@.0 == events_of(records@),
            j@.1 == predictions_of(records@),
            j@.2 == cycle_of(records@, now),
            forall|q: Seq<char>| #[trigger] lookup(j@.3, q) == seen_of(records@, q),
    {
        let mut events: Vec<EvolutionEvent> = Vec::new();
        let mut predictions: Vec<PredictionEntry> = Vec::new();
        let mut cycle_id = now;
        let mut seen_state: StrMap<Timestamp> = StrMap::new();
        let mut i: usize = 0;
        while i < records.len()
            invariant
                i <= records@.len(),
                events@ == events_of(records@.take(i as int)),
                predictions@ == predictions_of(records@.take(i as int)),
                cycle_id == cycle_of(records@.take(i as int), now),
                forall|q: Seq<char>| #[trigger]
                    lookup(seen_state@, q) == seen_of(records@.take(i as int), q),
            decreases records.len() - i,
        {
            proof {
                assert(records@.take(i + 1).drop_last() =~= records@.take(i as int));
                assert(records@.take(i + 1).last() == records@[i as int]);
            }
            match &records[i] {
                JournalRecord::Meta { cycle_id: c, seen } => {
                    match c {
                        Some(t) => {
                            cycle_id = *t;
                        },
                        None => {},
                    }
                    let ghost before = seen_state@;
                    let mut k: usize = 0;
                    while k < seen.len()
                        invariant
                            k <= seen@.len(),
                            forall|q: Seq<char>| #[trigger]
                                lookup(seen_state@, q) == match last_seen(
                                    pair_views(seen@).take(k as int),
                                    q,
                                ) {
                                    Some(t) => Some(t),
                                    None => lookup(before, q),
                                },
                        decreases seen.len() - k,
                    {
                        proof {
                            assert(pair_views(seen@).take(k + 1).drop_last() =~= pair_views(
                                seen@,
                            ).take(k as int));
                        }
                        let _ = seen_state.insert(seen[k].0.clone(), seen[k].1);
                        k += 1;
                    }
                    proof {
                        assert(pair_views(seen@).take(seen@.len() as int) =~= pair_views(seen@));
                    }
                },
                JournalRecord::Event(e) => {
                    events.push(e.copy());
                },
                JournalRecord::Prediction(p) => {
                    predictions.push(p.copy());
                },
                JournalRecord::Other => {},
            }
            i += 1;
        }
        proof {
            assert(records@.take(records@.len() as int) =~= records@);
        }
        Journal { events, predictions, cycle_id, seen_state }
    }
}

/// In a list of pairs sorted by id, the last pair with an id is the only
/// one.
proof fn lemma_last_seen_sorted(m: Seq<(Seq<char>, Timestamp)>, q: Seq<char>)
    requires
        crate::strmap::sorted_keys(m),
    ensures
        last_seen(m, q) == lookup(m, q),
    decreases m.len(),
{
    if m.len() > 0 {
        let d = m.drop_last();
        assert(crate::strmap::sorted_keys(d)) by {
            assert forall|i: int, j: int| 0 <= i < j < d.len() implies crate::strmap::str_lt(
                #[trigger] d[i].0,
                #[trigger] d[j].0,
            ) by {
                assert(d[i] == m[i] && d[j] == m[j]);
            }
        }
        lemma_last_seen_sorted(d, q);
        if m.last().0 == q {
            crate::strmap::lemma_lookup_at(m, m.len() - 1);
        } else if has_key(d, q) {
            let j = crate::strmap::key_index(d, q);
            crate::strmap::lemma_lookup_at(d, j);
            assert(d[j] == m[j]);
            crate::strmap::lemma_lookup_at(m, j);
        } else {
            assert(!has_key(m, q)) by {
                if has_key(m, q) {
                    let j = crate::strmap::key_index(m, q);
                    if j < m.len() - 1 {
                        assert(d[j] == m[j]);
                    }
                }
            }
        }
    }
}

impl Journal {
    /// The journal as records, for writing to a file: its events, its
    /// predictions, then the metadata (cycle start and seen ids).  Read back
    /// with `from_records`, they give the same journal, whatever `now`.
    pub fn to_records(&self) -> (r: Vec<JournalRecord>)
        ensures
            events_of(r@) == self@.0,
            predictions_of(r@) == self@.1,
            forall|now: Timestamp| #[trigger] cycle_of(r@, now) == self@.2,
            forall|q: Seq<char>| #[trigger] seen_of(r@, q) == lookup(self@.3, q),
    {
        let mut r: Vec<JournalRecord> = Vec::new();
        let mut i: usize = 0;
        while i < self.events.len()
            invariant
                i <= self.events@.len(),
                events_of(r@) == self.events@.take(i as int),
                predictions_of(r@) == Seq::<PredictionEntry>::empty(),
                forall|now: Timestamp| #[trigger] cycle_of(r@, now) == now,
                forall|q: Seq<char>| #[trigger] seen_of(r@, q) is None,
            decreases self.events@.len() - i,
        {
            let ghost before = r@;
            r.push(JournalRecord::Event(self.events[i].copy()));
            proof {
                assert(r@.drop_last() =~= before);
                assert(self.events@.take(i + 1) =~= self.events@.take(i as int).push(
                    self.events@[i as int],
                ));
                assert forall|now: Timestamp| #[trigger] cycle_of(r@, now) == now by {
                    assert(cycle_of(before, now) == now);
                }
                assert forall|q: Seq<char>| #[trigger] seen_of(r@, q) is None by {
                    assert(seen_of(before, q) is None);
                }
            }
            i += 1;
        }
        assert(self.events@.take(self.events@.len() as int) =~= self.events@);
        let mut k: usize = 0;
        while k < self.predictions.len()
            invariant
                k <= self.predictions@.len(),
                events_of(r@) == self.events@,
                predictions_of(r@) == self.predictions@.take(k as int),
                forall|now: Timestamp| #[trigger] cycle_of(r@, now) == now,
                forall|q: Seq<char>| #[trigger] seen_of(r@, q) is None,
            decreases self.predictions@.len() - k,
        {
            let ghost before = r@;
            r.push(JournalRecord::Prediction(self.predictions[k].copy()));
            proof {
                assert(r@.drop_last() =~= before);
                assert(self.predictions@.take(k + 1) =~= self.predictions@.take(k as int).push(
                    self.predictions@[k as int],
                ));
                assert forall|now: Timestamp| #[trigger] cycle_of(r@, now) == now by {
                    assert(cycle_of(before, now) == now);
                }
                assert forall|q: Seq<char>| #[trigger] seen_of(r@, q) is None by {
                    assert(seen_of(before, q) is None);
                }
            }
            k += 1;
        }
        assert(self.predictions@.take(self.predictions@.len() as int) =~= self.predictions@);
        let _ = self.seen_state.len();
        let seen = self.seen_entries();
        let ghost before = r@;
        r.push(JournalRecord::Meta { cycle_id: Some(self.cycle_id), seen });
        proof {
            assert(r@.drop_last() =~= before);
            assert forall|q: Seq<char>| #[trigger] seen_of(r@, q) == lookup(self@.3, q) by {
                lemma_last_seen_sorted(self@.3, q);
                assert(seen_of(before, q) is None);
            }
        }
        r
    }
}


} // verus!
