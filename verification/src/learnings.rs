//! Learned records, kept once per signal hash: the set of hashes already
//! seen decides whether a new record is written at all.

use vstd::prelude::*;

use crate::clock::Timestamp;
use crate::strmap::{has_key, keys_of, StrMap};
use crate::text::owned;

verus! {

/// One learned record.
#[derive(Debug, Clone)]
pub struct LearnedEntry {
    /// The hash of the signal it was learned from (the deduplication key).
    pub signal_hash: String,
    pub content: String,
    pub created_at: Timestamp,
    /// When it was last seen, if ever.
    pub seen_at: Option<Timestamp>,
}

impl LearnedEntry {
    /// A record learned at `now` from the signal hashed `signal_hash`, not
    /// yet seen.
    pub fn new(signal_hash: &str, content: &str, now: Timestamp) -> (e: Self)
        ensures
            e.signal_hash@ == signal_hash@,
            e.content@ == content@,
            e.created_at == now,
            e.seen_at is None,
    {
        LearnedEntry {
            signal_hash: owned(signal_hash),
            content: owned(content),
            created_at: now,
            seen_at: None,
        }
    }
}

/// The hashes seen and the records learned, as held in memory.
#[derive(Debug)]
pub struct LearningsStore {
    seen: StrMap<()>,
    entries: Vec<LearnedEntry>,
}

impl LearningsStore {
    /// Whether `h` has been seen.
    pub closed spec fn has_seen(self, h: Seq<char>) -> bool {
        has_key(self.seen@, h)
    }

    /// How many distinct hashes have been seen.
    pub closed spec fn seen_total(self) -> nat {
        self.seen@.len()
    }

    /// The records learned, in the order they were written.
    pub closed spec fn learned(self) -> Seq<LearnedEntry> {
        self.entries@
    }

    /// A store holding the loaded hashes (each once) and records.
    pub fn new(seen: Vec<String>, entries: Vec<LearnedEntry>) -> (s: Self)
        ensures
            forall|h: Seq<char>| #[trigger]
                s.has_seen(h) <==> exists|i: int| 0 <= i < seen@.len() && seen@[i]@ == h,
            s.learned() == entries@,
    {
        let mut set: StrMap<()> = StrMap::new();
        let mut i: usize = 0;
        while i < seen.len()
            invariant
                i <= seen.len(),
                forall|h: Seq<char>| #[trigger]
                    has_key(set@, h) <==> exists|k: int| 0 <= k < i && seen@[k]@ == h,
            decreases seen.len() - i,
        {
            let ghost before = set@;
            set.insert(owned(seen[i].as_str()), ());
            proof {
                assert forall|h: Seq<char>| #[trigger]
                    has_key(set@, h) <==> exists|k: int| 0 <= k < i + 1 && seen@[k]@ == h by {
                    if has_key(set@, h) {
                        if h != seen@[i as int]@ {
                            assert(crate::strmap::lookup(set@, h) == crate::strmap::lookup(
                                before,
                                h,
                            ));
                            assert(has_key(before, h));
                        }
                    }
                    if exists|k: int| 0 <= k < i + 1 && seen@[k]@ == h {
                        let k = choose|k: int| 0 <= k < i + 1 && seen@[k]@ == h;
                        if k < i {
                            assert(has_key(before, h));
                            assert(crate::strmap::lookup(before, h) is Some);
                        }
                        assert(crate::strmap::lookup(set@, h) is Some);
                    }
                }
            }
            i += 1;
        }
        LearningsStore { seen: set, entries }
    }

    /// Whether `h` has been seen.
    pub fn is_seen(&self, h: &str) -> (b: bool)
        ensures
            b == self.has_seen(h@),
    {
        self.seen.contains_key(h)
    }

    /// Takes a newly written record: when its hash was seen already,
    /// nothing changes and `false` comes back; otherwise the hash is marked
    /// seen, the record kept, and `true` comes back.
    pub fn record(&mut self, entry: LearnedEntry) -> (added: bool)
        ensures
            added == !old(self).has_seen(entry.signal_hash@),
            !added ==> final(self).learned() == old(self).learned(),
            !added ==> final(self).seen_total() == old(self).seen_total(),
            added ==> final(self).learned() == old(self).learned().push(entry),
            added ==> final(self).seen_total() == old(self).seen_total() + 1,
            forall|h: Seq<char>| #[trigger]
                final(self).has_seen(h) == (old(self).has_seen(h) || h == entry.signal_hash@),
    {
        if self.seen.contains_key(entry.signal_hash.as_str()) {
            return false;
        }
        let ghost before = self.seen@;
        self.seen.insert(owned(entry.signal_hash.as_str()), ());
        proof {
            assert forall|h: Seq<char>| #[trigger]
                has_key(self.seen@, h) == (has_key(before, h) || h == entry.signal_hash@) by {
                if h != entry.signal_hash@ {
                    assert(crate::strmap::lookup(self.seen@, h) == crate::strmap::lookup(before, h));
                } else {
                    assert(crate::strmap::lookup(self.seen@, h) is Some);
                }
            }
        }
        self.entries.push(entry);
        true
    }

    /// Marks `h` seen: `true` when it was not seen before.
    pub fn mark_seen(&mut self, h: &str) -> (marked: bool)
        ensures
            marked == !old(self).has_seen(h@),
            final(self).learned() == old(self).learned(),
            final(self).seen_total() == old(self).seen_total() + if marked {
                1int
            } else {
                0int
            },
            forall|q: Seq<char>| #[trigger]
                final(self).has_seen(q) == (old(self).has_seen(q) || q == h@),
    {
        if self.seen.contains_key(h) {
            return false;
        }
        let ghost before = self.seen@;
        self.seen.insert(owned(h), ());
        proof {
            assert forall|q: Seq<char>| #[trigger]
                has_key(self.seen@, q) == (has_key(before, q) || q == h@) by {
                if q != h@ {
                    assert(crate::strmap::lookup(self.seen@, q) == crate::strmap::lookup(before, q));
                } else {
                    assert(crate::strmap::lookup(self.seen@, q) is Some);
                }
            }
        }
        true
    }

    /// The records learned.
    pub fn entries(&self) -> (v: &Vec<LearnedEntry>)
        ensures
            v@ == self.learned(),
    {
        &self.entries
    }

    /// How many distinct hashes have been seen.
    pub fn seen_count(&self) -> (n: usize)
        ensures
            n == self.seen_total(),
    {
        self.seen.len()
    }

    /// The hashes seen, in increasing order.
    pub fn seen_hashes(&self) -> (v: Vec<String>)
        ensures
            forall|h: Seq<char>|
                self.has_seen(h) <==> exists|i: int| 0 <= i < v@.len() && #[trigger] v@[i]@ == h,
            v@.len() == self.seen_total(),
    {
        let v = self.seen.keys();
        proof {
            assert(crate::text::sviews(v@).len() == v@.len());
            assert(keys_of(self.seen@).len() == self.seen@.len());
            assert(v@.len() == self.seen@.len());
            assert forall|h: Seq<char>|
                self.has_seen(h) <==> exists|i: int| 0 <= i < v@.len() && #[trigger] v@[i]@ == h by {
                if self.has_seen(h) {
                    let k = choose|k: int| 0 <= k < self.seen@.len() && self.seen@[k].0 == h;
                    assert(crate::text::sviews(v@)[k] == keys_of(self.seen@)[k]);
                    assert(crate::text::sviews(v@)[k] == v@[k]@);
                    assert(keys_of(self.seen@)[k] == self.seen@[k].0);
                    assert(v@[k]@ == h);
                }
                if exists|i: int| 0 <= i < v@.len() && #[trigger] v@[i]@ == h {
                    let i = choose|i: int| 0 <= i < v@.len() && #[trigger] v@[i]@ == h;
                    assert(crate::text::sviews(v@)[i] == keys_of(self.seen@)[i]);
                    assert(crate::text::sviews(v@)[i] == v@[i]@);
                    assert(keys_of(self.seen@)[i] == self.seen@[i].0);
                    assert(self.seen@[i].0 == h);
                }
            }
            assert(crate::text::sviews(v@).len() == keys_of(self.seen@).len());
        }
        v
    }

    /// The records never seen (those without a time of sight), in order.
    pub fn unseen_entries(&self) -> (v: Vec<&LearnedEntry>)
        ensures
            v@.map_values(|e: &LearnedEntry| *e) == self.learned().filter(
                |e: LearnedEntry| e.seen_at is None,
            ),
    {
        let ghost f = |e: LearnedEntry| e.seen_at is None;
        let ghost s = self.entries@;
        let mut v: Vec<&LearnedEntry> = Vec::new();
        let mut i: usize = 0;
        while i < self.entries.len()
            invariant
                i <= self.entries.len(),
                s == self.entries@,
                f == (|e: LearnedEntry| e.seen_at is None),
                v@.map_values(|e: &LearnedEntry| *e) == s.take(i as int).filter(f),
            decreases self.entries.len() - i,
        {
            proof {
                assert(s.take(i + 1).drop_last() =~= s.take(i as int));
                reveal(Seq::filter);
                assert(s.take(i + 1).last() == s[i as int]);
            }
            let e = &self.entries[i];
            if e.seen_at.is_none() {
                v.push(e);
                assert(v@.map_values(|e: &LearnedEntry| *e) =~= s.take(i as int).filter(f).push(
                    *e,
                ));
            }
            i += 1;
        }
        assert(s.take(s.len() as int) =~= s);
        v
    }

    /// Replaces the seen hashes with those read again.
    pub fn reload_seen_state(&mut self, seen: Vec<String>)
        ensures
            forall|h: Seq<char>| #[trigger]
                final(self).has_seen(h) <==> exists|i: int| 0 <= i < seen@.len() && seen@[i]@ == h,
            final(self).learned() == old(self).learned(),
    {
        let ghost listed = seen@;
        let fresh = LearningsStore::new(seen, Vec::new());
        let ghost g = fresh;
        self.seen = fresh.seen;
        proof {
            assert forall|h: Seq<char>| #[trigger]
                self.has_seen(h) <==> exists|i: int| 0 <= i < listed.len() && listed[i]@ == h by {
                assert(self.has_seen(h) == g.has_seen(h));
            }
        }
    }

    /// Replaces the records with those read again.
    pub fn reload_learnings(&mut self, entries: Vec<LearnedEntry>)
        ensures
            final(self).learned() == entries@,
            forall|h: Seq<char>| #[trigger] final(self).has_seen(h) == old(self).has_seen(h),
            final(self).seen_total() == old(self).seen_total(),
    {
        self.entries = entries;
    }
}

} // verus!
