//! Retry counter: how often LLM calls were retried, per failure signal.
//!
//! Each retry bumps the counter of its signal (`llm_http_error`,
//! `llm_api_error`, `llm_parse_error`).  A reset archives the current
//! cycle's counts (when there are any), clears them and starts the next
//! cycle.

use vstd::prelude::*;

use crate::cycles::{archive_sum, lemma_archive_sum_push, CycleArchive};
use crate::strmap::{add_count, count_of, count_pairs, count_sum, lookup, StrMap};

verus! {

/// Retry counter for LLM calls.
#[derive(Debug)]
pub struct RetryCounter {
    /// Current cycle number (increasing).
    cycle: u64,
    /// Retries in the current cycle, per signal.
    counts: StrMap<u32>,
    /// Counts of the past cycles.
    archive: CycleArchive,
}

/// Total of a counter's model: current counts plus archived counts.
pub open spec fn counter_total(
    m: (u64, Seq<(Seq<char>, u32)>, Seq<(u64, Seq<(Seq<char>, u32)>)>),
) -> nat {
    count_sum(m.1) + archive_sum(m.2)
}

impl View for RetryCounter {
    type V = (u64, Seq<(Seq<char>, u32)>, Seq<(u64, Seq<(Seq<char>, u32)>)>);

    /// The current cycle, its counts (by signal name) and the archive.
    closed spec fn view(&self) -> Self::V {
        (self.cycle, self.counts@, self.archive@)
    }
}

impl RetryCounter {
    #[verifier::type_invariant]
    spec fn inv(self) -> bool {
        &&& forall|i: int| 0 <= i < self.archive@.len() ==> self.archive@[i].0 < self.cycle
        &&& forall|i: int| 0 <= i < self.counts@.len() ==> #[trigger] self.counts@[i].1 >= 1
    }

    /// A new empty counter, at cycle 1.
    pub fn new() -> (c: Self)
        ensures
            c@.0 == 1,
            c@.1 == Seq::<(Seq<char>, u32)>::empty(),
            c@.2 == Seq::<(u64, Seq<(Seq<char>, u32)>)>::empty(),
    {
        RetryCounter { cycle: 1, counts: StrMap::new(), archive: CycleArchive::new() }
    }

    /// Bumps the retry count of `signal`; returns the new count.
    pub fn bump(&mut self, signal: &str) -> (n: u32)
        requires
            count_of(old(self)@.1, signal@) < u32::MAX,
        ensures
            n == count_of(old(self)@.1, signal@) + 1,
            final(self)@.0 == old(self)@.0,
            final(self)@.2 == old(self)@.2,
            forall|q: Seq<char>| #[trigger]
                lookup(final(self)@.1, q) == if q == signal@ {
                    Some(n)
                } else {
                    lookup(old(self)@.1, q)
                },
            counter_total(final(self)@) == counter_total(old(self)@) + 1,
    {
        proof {
            use_type_invariant(&*self);
        }
        let mut counts = StrMap::new();
        std::mem::swap(&mut counts, &mut self.counts);
        let ghost c0 = counts@;
        let n = add_count(&mut counts, signal, 1);
        let _ = counts.len();
        proof {
            assert forall|i: int| 0 <= i < counts@.len() implies #[trigger] counts@[i].1 >= 1 by {
                crate::strmap::lemma_lookup_at(counts@, i);
                let q = counts@[i].0;
                if q != signal@ {
                    assert(lookup(c0, q) == Some(counts@[i].1));
                    let j = crate::strmap::key_index(c0, q);
                    assert(0 <= j < c0.len() && c0[j].0 == q);
                    assert(c0[j].1 >= 1);
                }
            }
        }
        self.counts = counts;
        n
    }

    /// Ends the current cycle: its counts are archived when there are any,
    /// then cleared, and the cycle number advances.
    pub fn reset(&mut self)
        requires
            old(self)@.0 < u64::MAX,
        ensures
            final(self)@.0 == old(self)@.0 + 1,
            final(self)@.1 == Seq::<(Seq<char>, u32)>::empty(),
            final(self)@.2 == if old(self)@.1.len() > 0 {
                old(self)@.2.push((old(self)@.0, old(self)@.1))
            } else {
                old(self)@.2
            },
            counter_total(final(self)@) == counter_total(old(self)@),
    {
        proof {
            use_type_invariant(&*self);
        }
        let ghost old_model = self@;
        let mut counts = StrMap::new();
        std::mem::swap(&mut counts, &mut self.counts);
        let c = self.cycle;
        self.cycle = c + 1;
        if !counts.is_empty() {
            let mut archive = CycleArchive::new();
            std::mem::swap(&mut archive, &mut self.archive);
            let ghost a0 = archive@;
            archive.push(c, counts);
            proof {
                lemma_archive_sum_push(a0, (old_model.0, old_model.1));
            }
            self.archive = archive;
        } else {
            assert(count_sum(old_model.1) == 0);
        }
    }

    /// The current cycle's counts, sorted by signal name; each is at least
    /// one.
    pub fn counts(&self) -> (v: Vec<(String, u32)>)
        ensures
            v@.map_values(|e: (String, u32)| (e.0@, e.1)) == self@.1,
            crate::strmap::sorted_keys(self@.1),
            forall|i: int| 0 <= i < self@.1.len() ==> #[trigger] self@.1[i].1 >= 1,
    {
        proof {
            use_type_invariant(self);
        }
        let _ = self.counts.len();
        count_pairs(&self.counts)
    }

    /// The current cycle number.
    pub fn cycle(&self) -> (c: u64)
        ensures
            c == self@.0,
    {
        self.cycle
    }

    /// The count of `signal` in the current cycle (zero when absent).
    pub fn count_for(&self, signal: &str) -> (n: u32)
        ensures
            n == count_of(self@.1, signal@),
    {
        match self.counts.get(signal) {
            Some(n) => *n,
            None => 0,
        }
    }

    /// The archive of past cycles.
    pub fn archive(&self) -> (a: &CycleArchive)
        ensures
            a@ == self@.2,
    {
        &self.archive
    }

    /// Total retries: the current cycle's plus the archived ones.
    pub fn total_retries(&self) -> (t: u64)
        requires
            counter_total(self@) <= u64::MAX,
        ensures
            t == counter_total(self@),
    {
        let current = crate::strmap::sum_counts(&self.counts);
        let historical = self.archive.total();
        current + historical
    }
}

impl Default for RetryCounter {
    fn default() -> (c: Self)
        ensures
            c@.0 == 1,
            c@.1 == Seq::<(Seq<char>, u32)>::empty(),
            c@.2 == Seq::<(u64, Seq<(Seq<char>, u32)>)>::empty(),
    {
        Self::new()
    }
}

} // verus!
