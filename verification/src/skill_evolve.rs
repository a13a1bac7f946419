//! Skill-evolution counter with cyclic resets.
//!
//! Signals are counted within a cycle; a reset archives the cycle's counts
//! as a snapshot (also when it is empty), clears them and advances the
//! cycle, so the history of past cycles is kept.

use vstd::prelude::*;

use crate::cycles::{archive_sum, lemma_archive_sum_push, CycleArchive};
use crate::strmap::{
    add_count, count_of, count_sum, has_key, keys_of, lookup, sum_counts, StrMap,
};
use crate::text::sviews;

verus! {

/// Skill-evolution counter.
#[derive(Debug)]
pub struct SkillEvolveCounter {
    /// Current cycle number.
    cycle: u64,
    /// Signal counts of the current cycle.
    signals: StrMap<u32>,
    /// Snapshots of the past cycles.
    archive: CycleArchive,
}

impl View for SkillEvolveCounter {
    type V = (u64, Seq<(Seq<char>, u32)>, Seq<(u64, Seq<(Seq<char>, u32)>)>);

    /// The current cycle, its counts (by signal name) and the archive.
    closed spec fn view(&self) -> Self::V {
        (self.cycle, self.signals@, self.archive@)
    }
}

impl SkillEvolveCounter {
    #[verifier::type_invariant]
    spec fn inv(self) -> bool {
        forall|i: int| 0 <= i < self.archive@.len() ==> self.archive@[i].0 < self.cycle
    }

    /// A new empty counter, at cycle 0.
    pub fn new() -> (c: Self)
        ensures
            c@.0 == 0,
            c@.1 == Seq::<(Seq<char>, u32)>::empty(),
            c@.2 == Seq::<(u64, Seq<(Seq<char>, u32)>)>::empty(),
    {
        SkillEvolveCounter { cycle: 0, signals: StrMap::new(), archive: CycleArchive::new() }
    }

    /// The current cycle number.
    pub fn cycle(&self) -> (c: u64)
        ensures
            c == self@.0,
    {
        self.cycle
    }

    /// The count of `signal` in the current cycle (zero when absent).
    pub fn get(&self, signal: &str) -> (n: u32)
        ensures
            n == count_of(self@.1, signal@),
    {
        match self.signals.get(signal) {
            Some(n) => *n,
            None => 0,
        }
    }

    /// The current cycle's counts.
    pub fn counts(&self) -> (m: &StrMap<u32>)
        ensures
            m@ == self@.1,
    {
        &self.signals
    }

    /// Sum of the current cycle's counts.
    pub fn total(&self) -> (t: u32)
        requires
            count_sum(self@.1) <= u32::MAX,
        ensures
            t == count_sum(self@.1),
    {
        let t = sum_counts(&self.signals);
        t as u32
    }

    /// Adds one to the count of `signal`.
    pub fn bump(&mut self, signal: &str)
        requires
            count_of(old(self)@.1, signal@) < u32::MAX,
        ensures
            final(self)@.0 == old(self)@.0,
            final(self)@.2 == old(self)@.2,
            forall|q: Seq<char>| #[trigger]
                lookup(final(self)@.1, q) == if q == signal@ {
                    Some((count_of(old(self)@.1, signal@) + 1) as u32)
                } else {
                    lookup(old(self)@.1, q)
                },
            count_sum(final(self)@.1) == count_sum(old(self)@.1) + 1,
    {
        self.bump_by(signal, 1);
    }

    /// Adds `count` to the count of `signal`.
    pub fn bump_by(&mut self, signal: &str, count: u32)
        requires
            count_of(old(self)@.1, signal@) + count <= u32::MAX,
        ensures
            final(self)@.0 == old(self)@.0,
            final(self)@.2 == old(self)@.2,
            forall|q: Seq<char>| #[trigger]
                lookup(final(self)@.1, q) == if q == signal@ {
                    Some((count_of(old(self)@.1, signal@) + count) as u32)
                } else {
                    lookup(old(self)@.1, q)
                },
            count_sum(final(self)@.1) == count_sum(old(self)@.1) + count,
    {
        proof {
            use_type_invariant(&*self);
        }
        let mut signals = StrMap::new();
        std::mem::swap(&mut signals, &mut self.signals);
        let _ = add_count(&mut signals, signal, count);
        self.signals = signals;
    }

    /// Ends the current cycle: its counts are archived as a snapshot and
    /// returned, the counts are cleared and the cycle advances.
    pub fn reset(&mut self) -> (snapshot: StrMap<u32>)
        requires
            old(self)@.0 < u64::MAX,
        ensures
            snapshot@ == old(self)@.1,
            final(self)@.0 == old(self)@.0 + 1,
            final(self)@.1 == Seq::<(Seq<char>, u32)>::empty(),
            final(self)@.2 == old(self)@.2.push((old(self)@.0, old(self)@.1)),
            count_sum(final(self)@.1) + archive_sum(final(self)@.2) == count_sum(old(self)@.1)
                + archive_sum(old(self)@.2),
    {
        proof {
            use_type_invariant(&*self);
        }
        let ghost old_model = self@;
        let mut snapshot = StrMap::new();
        std::mem::swap(&mut snapshot, &mut self.signals);
        let c = self.cycle;
        self.cycle = c + 1;
        let mut archive = CycleArchive::new();
        std::mem::swap(&mut archive, &mut self.archive);
        let ghost a0 = archive@;
        archive.push(c, snapshot.copy());
        proof {
            lemma_archive_sum_push(a0, (old_model.0, old_model.1));
        }
        self.archive = archive;
        snapshot
    }

    /// The snapshots of past cycles.
    pub fn archive(&self) -> (a: &CycleArchive)
        ensures
            a@ == self@.2,
    {
        &self.archive
    }

    /// Number of completed cycles.
    pub fn history_len(&self) -> (n: usize)
        ensures
            n == self@.2.len(),
    {
        self.archive.len()
    }

    /// Whether `signal` was counted in the current cycle.
    pub fn has_signal(&self, signal: &str) -> (b: bool)
        ensures
            b == has_key(self@.1, signal@),
    {
        self.signals.contains_key(signal)
    }

    /// The names of the current cycle's signals, sorted.
    pub fn signal_names(&self) -> (names: Vec<String>)
        ensures
            sviews(names@) == keys_of(self@.1),
    {
        self.signals.keys()
    }
}

impl Default for SkillEvolveCounter {
    fn default() -> (c: Self)
        ensures
            c@.0 == 0,
            c@.1 == Seq::<(Seq<char>, u32)>::empty(),
            c@.2 == Seq::<(u64, Seq<(Seq<char>, u32)>)>::empty(),
    {
        Self::new()
    }
}

} // verus!
