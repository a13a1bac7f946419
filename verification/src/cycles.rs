//! Per-cycle counters of named signals, with an archive of past cycles.

use vstd::prelude::*;

use crate::strmap::{count_sum, sum_counts, StrMap};

verus! {

/// The archived counts of past cycles, in increasing cycle order.
#[derive(Debug)]
pub struct CycleArchive {
    entries: Vec<(u64, StrMap<u32>)>,
}

/// Sum of all counts of an archive.
pub open spec fn archive_sum(s: Seq<(u64, Seq<(Seq<char>, u32)>)>) -> nat
    decreases s.len(),
{
    if s.len() == 0 {
        0
    } else {
        archive_sum(s.drop_last()) + count_sum(s.last().1)
    }
}

/// The counts archived for cycle `c`.
pub open spec fn archived(s: Seq<(u64, Seq<(Seq<char>, u32)>)>, c: u64) -> Option<
    Seq<(Seq<char>, u32)>,
> {
    if exists|i: int| 0 <= i < s.len() && s[i].0 == c {
        Some(s[choose|i: int| 0 <= i < s.len() && s[i].0 == c].1)
    } else {
        None
    }
}

/// Cycles strictly increasing.
pub open spec fn cycles_increasing(s: Seq<(u64, Seq<(Seq<char>, u32)>)>) -> bool {
    forall|i: int, j: int| 0 <= i < j < s.len() ==> #[trigger] s[i].0 < #[trigger] s[j].0
}

impl View for CycleArchive {
    type V = Seq<(u64, Seq<(Seq<char>, u32)>)>;

    /// The archived cycles and their counts, in increasing cycle order.
    closed spec fn view(&self) -> Seq<(u64, Seq<(Seq<char>, u32)>)> {
        self.entries@.map_values(|e: (u64, StrMap<u32>)| (e.0, e.1@))
    }
}

impl CycleArchive {
    #[verifier::type_invariant]
    spec fn inv(self) -> bool {
        cycles_increasing(self@)
    }

    /// An empty archive.
    pub fn new() -> (a: Self)
        ensures
            a@ == Seq::<(u64, Seq<(Seq<char>, u32)>)>::empty(),
    {
        let a = CycleArchive { entries: Vec::new() };
        assert(a@ =~= Seq::<(u64, Seq<(Seq<char>, u32)>)>::empty());
        a
    }

    /// Number of archived cycles; cycles are in increasing order.
    pub fn len(&self) -> (n: usize)
        ensures
            n == self@.len(),
            cycles_increasing(self@),
    {
        proof {
            use_type_invariant(self);
        }
        self.entries.len()
    }

    /// Whether no cycle is archived.
    pub fn is_empty(&self) -> (b: bool)
        ensures
            b == (self@.len() == 0),
    {
        self.entries.len() == 0
    }

    /// The counts archived for cycle `c`.
    pub fn get(&self, c: &u64) -> (r: Option<&StrMap<u32>>)
        ensures
            match r {
                Some(m) => archived(self@, *c) == Some(m@),
                None => archived(self@, *c) is None,
            },
    {
        proof {
            use_type_invariant(self);
        }
        let mut i: usize = 0;
        while i < self.entries.len()
            invariant
                i <= self.entries.len(),
                cycles_increasing(self@),
                forall|j: int| 0 <= j < i ==> self@[j].0 != *c,
            decreases self.entries.len() - i,
        {
            assert(self@[i as int] == (self.entries@[i as int].0, self.entries@[i as int].1@));
            if self.entries[i].0 == *c {
                proof {
                    let k = choose|k: int| 0 <= k < self@.len() && self@[k].0 == *c;
                    if k != i {
                        assert(self@[k].0 != self@[i as int].0);
                    }
                }
                return Some(&self.entries[i].1);
            }
            i += 1;
        }
        None
    }

    /// Appends the counts of cycle `c`, later than every archived cycle.
    pub(crate) fn push(&mut self, c: u64, m: StrMap<u32>)
        requires
            forall|i: int| 0 <= i < old(self)@.len() ==> old(self)@[i].0 < c,
        ensures
            final(self)@ == old(self)@.push((c, m@)),
    {
        proof {
            use_type_invariant(&*self);
        }
        let ghost s0 = self@;
        let ghost mm = m@;
        let mut es: Vec<(u64, StrMap<u32>)> = Vec::new();
        std::mem::swap(&mut es, &mut self.entries);
        es.push((c, m));
        proof {
            let s1 = es@.map_values(|e: (u64, StrMap<u32>)| (e.0, e.1@));
            assert(s1 =~= s0.push((c, mm)));
            assert(cycles_increasing(s1));
        }
        self.entries = es;
    }
}

/// `archive_sum` of an archive with one more cycle.
pub proof fn lemma_archive_sum_push(s: Seq<(u64, Seq<(Seq<char>, u32)>)>, e: (
    u64,
    Seq<(Seq<char>, u32)>,
))
    ensures
        archive_sum(s.push(e)) == archive_sum(s) + count_sum(e.1),
{
    assert(s.push(e).drop_last() =~= s);
}

impl CycleArchive {
    /// Sum of all archived counts.
    pub fn total(&self) -> (t: u64)
        requires
            archive_sum(self@) <= u64::MAX,
        ensures
            t == archive_sum(self@),
    {
        let mut t: u64 = 0;
        let mut i: usize = 0;
        while i < self.entries.len()
            invariant
                i <= self.entries.len(),
                self.entries@.len() == self@.len(),
                archive_sum(self@) <= u64::MAX,
                t == archive_sum(self@.take(i as int)),
            decreases self.entries.len() - i,
        {
            proof {
                assert(self@.take(i + 1).drop_last() =~= self@.take(i as int));
                assert(self@[i as int] == (self.entries@[i as int].0, self.entries@[i as int].1@));
                lemma_archive_sum_prefix(self@, i + 1);
            }
            let c = sum_counts(&self.entries[i].1);
            t = t + c;
            i += 1;
        }
        assert(self@.take(self@.len() as int) =~= self@);
        t
    }
}

/// A prefix of an archive sums to at most the whole.
pub proof fn lemma_archive_sum_prefix(s: Seq<(u64, Seq<(Seq<char>, u32)>)>, n: int)
    requires
        0 <= n <= s.len(),
    ensures
        archive_sum(s.take(n)) <= archive_sum(s),
    decreases s.len() - n,
{
    if n < s.len() {
        lemma_archive_sum_prefix(s, n + 1);
        assert(s.take(n + 1).drop_last() =~= s.take(n));
    } else {
        assert(s.take(n) =~= s);
    }
}

} // verus!
