//! Active memory: remembered records kept newest first, and the context
//! summary built from the most recent of them.

use vstd::prelude::*;

use crate::clock::{utc_clock, utc_clock_text, Timestamp};
use crate::text::{decimal, join, owned, push_decimal, push_joined, push_str, sviews};

verus! {

/// One remembered record.
#[derive(Debug, Clone)]
pub struct MemoryEntry {
    pub id: String,
    pub content: String,
    pub timestamp: Timestamp,
    /// Where it came from ("task", "journal", "manual", ...).
    pub source: String,
    pub tags: Vec<String>,
}

/// Whether no entry comes before a later one in time: newest first.
pub open spec fn newest_first(s: Seq<MemoryEntry>) -> bool {
    forall|i: int, j: int|
        0 <= i < j < s.len() ==> !(#[trigger] s[i].timestamp).before(#[trigger] s[j].timestamp)
}

/// Whether every entry's instant is representable.
pub open spec fn all_representable(s: Seq<MemoryEntry>) -> bool {
    forall|i: int| 0 <= i < s.len() ==> (#[trigger] s[i].timestamp).representable()
}

/// Where a record of time `t` goes: before the first entry older than it,
/// or at the end.
pub open spec fn insert_pos(s: Seq<MemoryEntry>, t: Timestamp) -> nat
    decreases s.len(),
{
    if s.len() == 0 {
        0
    } else if s[0].timestamp.before(t) {
        0
    } else {
        1 + insert_pos(s.drop_first(), t)
    }
}

/// `s` with `e` put in its place.
pub open spec fn insert_entry(s: Seq<MemoryEntry>, e: MemoryEntry) -> Seq<MemoryEntry> {
    s.insert(insert_pos(s, e.timestamp) as int, e)
}

/// `s` with each of `items` put in its place, in order.
pub open spec fn insert_all(s: Seq<MemoryEntry>, items: Seq<MemoryEntry>) -> Seq<MemoryEntry>
    decreases items.len(),
{
    if items.len() == 0 {
        s
    } else {
        insert_entry(insert_all(s, items.drop_last()), items.last())
    }
}

/// The insertion place is the first entry older than `t`.
pub proof fn lemma_insert_pos(s: Seq<MemoryEntry>, t: Timestamp)
    ensures
        insert_pos(s, t) <= s.len(),
        forall|k: int| 0 <= k < insert_pos(s, t) ==> !(#[trigger] s[k].timestamp).before(t),
        insert_pos(s, t) < s.len() ==> s[insert_pos(s, t) as int].timestamp.before(t),
    decreases s.len(),
{
    if s.len() > 0 && !s[0].timestamp.before(t) {
        lemma_insert_pos(s.drop_first(), t);
        assert forall|k: int| 0 <= k < insert_pos(s, t) implies !(#[trigger] s[k].timestamp).before(t) by {
            if k > 0 {
                assert(s[k] == s.drop_first()[k - 1]);
            }
        }
    }
}

/// Putting a record in its place keeps the entries newest first.
pub proof fn lemma_insert_entry(s: Seq<MemoryEntry>, e: MemoryEntry)
    requires
        newest_first(s),
        all_representable(s),
        e.timestamp.representable(),
    ensures
        newest_first(insert_entry(s, e)),
        all_representable(insert_entry(s, e)),
        insert_entry(s, e).len() == s.len() + 1,
{
    lemma_insert_pos(s, e.timestamp);
    let p = insert_pos(s, e.timestamp) as int;
    let r = insert_entry(s, e);
    assert forall|i: int, j: int| 0 <= i < j < r.len() implies !(#[trigger] r[i].timestamp).before(
        #[trigger] r[j].timestamp,
    ) by {
        if j < p {
        } else if j == p {
            assert(r[i] == s[i]);
        } else if i < p {
            assert(r[i] == s[i]);
            assert(r[j] == s[j - 1]);
            assert(s[p].timestamp.before(e.timestamp));
            if p < j - 1 {
                assert(!s[p].timestamp.before(s[j - 1].timestamp));
            }
        } else if i == p {
            assert(r[j] == s[j - 1]);
            assert(s[p].timestamp.before(e.timestamp));
            if p < j - 1 {
                assert(!s[p].timestamp.before(s[j - 1].timestamp));
            }
        } else {
            assert(r[i] == s[i - 1]);
            assert(r[j] == s[j - 1]);
        }
    }
    assert forall|i: int| 0 <= i < r.len() implies (#[trigger] r[i].timestamp).representable() by {
        if i < p {
            assert(r[i] == s[i]);
        } else if i > p {
            assert(r[i] == s[i - 1]);
        }
    }
}

/// The summary's first line.
pub open spec fn summary_header(count: nat) -> Seq<char> {
    "[Active Memory — "@ + decimal(count) + " recent entries]"@
}

/// The summary's last line.
pub open spec fn summary_footer(count: nat, total: nat) -> Seq<char> {
    "[End of active memory — showing "@ + decimal(count) + " of "@ + decimal(total)
        + " entries]"@
}

/// The tags written after a record: nothing, or ` [a, b]`.
pub open spec fn tags_suffix(tags: Seq<Seq<char>>) -> Seq<char> {
    if tags.len() == 0 {
        Seq::empty()
    } else {
        " ["@ + join(tags, ", "@) + "]"@
    }
}

/// The summary line of a record whose time reads `when`.
pub open spec fn entry_line(when: Seq<char>, e: MemoryEntry) -> Seq<char> {
    "  • ["@ + when + "] from "@ + e.source@ + ": "@ + e.content@ + tags_suffix(sviews(e.tags@))
}

/// The summary lines of the first `count` entries.
pub open spec fn entry_lines(s: Seq<MemoryEntry>, count: nat) -> Seq<Seq<char>> {
    Seq::new(
        count,
        |i: int| entry_line(utc_clock_text(s[i].timestamp.secs, s[i].timestamp.nanos), s[i]),
    )
}

/// What is said when nothing is remembered.
pub open spec fn no_memory_text() -> Seq<char> {
    "No active memory available."@
}

/// The context summary of `s` showing at most `max` entries.
pub open spec fn summary_of(s: Seq<MemoryEntry>, max: nat) -> Seq<char> {
    if s.len() == 0 {
        no_memory_text()
    } else {
        let count = if s.len() < max {
            s.len()
        } else {
            max
        };
        join(
            seq![summary_header(count)] + entry_lines(s, count) + seq![summary_footer(count, s.len())],
            "\n"@,
        )
    }
}

/// The summary line of one record, given the text of its time.
pub fn entry_summary_line(when: &str, e: &MemoryEntry) -> (r: String)
    ensures
        r@ == entry_line(when@, *e),
{
    let mut r = String::new();
    push_str(&mut r, "  • [");
    push_str(&mut r, when);
    push_str(&mut r, "] from ");
    push_str(&mut r, e.source.as_str());
    push_str(&mut r, ": ");
    push_str(&mut r, e.content.as_str());
    if e.tags.len() > 0 {
        push_str(&mut r, " [");
        push_joined(&mut r, &e.tags, ", ");
        push_str(&mut r, "]");
    }
    proof {
        assert(sviews(e.tags@).len() == e.tags@.len());
    }
    r
}

/// Remembered records, newest first, with where they are stored and how
/// many the summary shows.
#[derive(Debug)]
pub struct ActiveMemory {
    entries: Vec<MemoryEntry>,
    storage_dir: Option<String>,
    max_synthesize: usize,
}

impl ActiveMemory {
    #[verifier::type_invariant]
    spec fn well_formed(self) -> bool {
        newest_first(self.entries@) && all_representable(self.entries@)
    }

    /// The records, newest first.
    pub closed spec fn entries(self) -> Seq<MemoryEntry> {
        self.entries@
    }

    /// The storage directory set, if any (`None`: the default one).
    pub closed spec fn storage(self) -> Option<Seq<char>> {
        match self.storage_dir {
            Some(d) => Some(d@),
            None => None,
        }
    }

    /// How many records the summary shows at most.
    pub closed spec fn max_shown(self) -> nat {
        self.max_synthesize as nat
    }

    /// No records, the default storage directory, and at most twenty
    /// records in a summary.
    pub fn new() -> (m: Self)
        ensures
            m.entries() == Seq::<MemoryEntry>::empty(),
            m.storage() is None,
            m.max_shown() == 20,
    {
        ActiveMemory { entries: Vec::new(), storage_dir: None, max_synthesize: 20 }
    }

    /// The same memory, stored under `dir`.
    pub fn with_storage_dir(self, dir: String) -> (m: Self)
        ensures
            m.entries() == self.entries(),
            m.storage() == Some(dir@),
            m.max_shown() == self.max_shown(),
    {
        proof {
            use_type_invariant(&self);
        }
        ActiveMemory { entries: self.entries, storage_dir: Some(dir), max_synthesize: self.max_synthesize }
    }

    /// The same memory, showing at most `max` records in a summary.
    pub fn with_max_synthesize(self, max: usize) -> (m: Self)
        ensures
            m.entries() == self.entries(),
            m.storage() == self.storage(),
            m.max_shown() == max,
    {
        proof {
            use_type_invariant(&self);
        }
        ActiveMemory { entries: self.entries, storage_dir: self.storage_dir, max_synthesize: max }
    }

    /// The storage directory set, if any.
    pub fn storage_dir(&self) -> (r: Option<String>)
        ensures
            match r {
                Some(d) => self.storage() == Some(d@),
                None => self.storage() is None,
            },
    {
        match &self.storage_dir {
            Some(d) => Some(d.clone()),
            None => None,
        }
    }

    /// Adds a record before the first one older than it, so the records
    /// stay newest first.
    pub fn add_entry(&mut self, entry: MemoryEntry)
        requires
            entry.timestamp.representable(),
        ensures
            final(self).entries() == insert_entry(old(self).entries(), entry),
            newest_first(final(self).entries()),
            final(self).storage() == old(self).storage(),
            final(self).max_shown() == old(self).max_shown(),
    {
        proof {
            use_type_invariant(&*self);
            lemma_insert_pos(self.entries@, entry.timestamp);
            lemma_insert_entry(self.entries@, entry);
        }
        let ts = entry.timestamp;
        let mut i: usize = 0;
        while i < self.entries.len() && !self.entries[i].timestamp.is_before(&ts)
            invariant
                i <= self.entries.len(),
                forall|k: int| 0 <= k < i ==> !(#[trigger] self.entries@[k].timestamp).before(ts),
            decreases self.entries.len() - i,
        {
            i += 1;
        }
        proof {
            let p = insert_pos(self.entries@, ts);
            if i < p {
                assert(self.entries@[i as int].timestamp.before(ts));
            }
            if p < i {
                assert(!self.entries@[p as int].timestamp.before(ts));
            }
            assert(i == p);
        }
        let mut v: Vec<MemoryEntry> = Vec::new();
        std::mem::swap(&mut v, &mut self.entries);
        v.insert(i, entry);
        self.entries = v;
    }

    /// Replaces the records with `parsed`, each put in its place in turn,
    /// and gives how many were taken.
    pub fn load_entries(&mut self, parsed: Vec<MemoryEntry>) -> (n: usize)
        requires
            all_representable(parsed@),
        ensures
            n == parsed@.len(),
            final(self).entries() == insert_all(Seq::empty(), parsed@),
            newest_first(final(self).entries()),
            final(self).storage() == old(self).storage(),
            final(self).max_shown() == old(self).max_shown(),
    {
        self.entries = Vec::new();
        let mut rest = parsed;
        let ghost all = rest@;
        let mut count: usize = 0;
        proof {
            assert(all.take(0) =~= Seq::<MemoryEntry>::empty());
            assert(all.skip(0) =~= all);
            assert(all.len() == rest.len());
        }
        while rest.len() > 0
            invariant
                all.len() == count + rest@.len(),
                rest@ == all.skip(count as int),
                all_representable(all),
                self.entries@ == insert_all(Seq::empty(), all.take(count as int)),
                newest_first(self.entries@),
                all.len() <= usize::MAX,
                self.storage() == old(self).storage(),
                self.max_shown() == old(self).max_shown(),
            decreases rest@.len(),
        {
            let e = rest.remove(0);
            proof {
                assert(e == all[count as int]);
                assert(all.take(count + 1).drop_last() =~= all.take(count as int));
                assert(all.take(count + 1).last() == all[count as int]);
                assert(rest@ =~= all.skip(count + 1));
            }
            self.add_entry(e);
            count += 1;
        }
        proof {
            assert(all.take(count as int) =~= all);
        }
        count
    }

    /// The context summary: a header, the lines of the newest records (at
    /// most the set number), and a footer, one per line; or a fixed
    /// sentence when nothing is remembered.
    pub fn synthesize(&self) -> (r: String)
        ensures
            r@ == summary_of(self.entries(), self.max_shown()),
    {
        proof {
            use_type_invariant(self);
        }
        if self.entries.len() == 0 {
            return owned("No active memory available.");
        }
        let total = self.entries.len();
        let count = if total < self.max_synthesize {
            total
        } else {
            self.max_synthesize
        };
        let ghost s = self.entries@;
        let mut parts: Vec<String> = Vec::new();
        let mut head = String::new();
        push_str(&mut head, "[Active Memory — ");
        push_decimal(&mut head, count as u64);
        push_str(&mut head, " recent entries]");
        parts.push(head);
        let mut i: usize = 0;
        proof {
            assert(sviews(parts@) =~= seq![summary_header(count as nat)] + entry_lines(s, 0));
        }
        while i < count
            invariant
                count <= total == s.len(),
                s == self.entries@,
                all_representable(s),
                i <= count,
                sviews(parts@) == seq![summary_header(count as nat)] + entry_lines(s, i as nat),
            decreases count - i,
        {
            let when = utc_clock(self.entries[i].timestamp);
            let line = entry_summary_line(when.as_str(), &self.entries[i]);
            let ghost before = parts@;
            parts.push(line);
            proof {
                assert(sviews(parts@) =~= sviews(before).push(line@));
                assert(entry_lines(s, (i + 1) as nat) =~= entry_lines(s, i as nat).push(line@));
                assert(sviews(parts@) =~= seq![summary_header(count as nat)] + entry_lines(
                    s,
                    (i + 1) as nat,
                ));
            }
            i += 1;
        }
        let mut foot = String::new();
        push_str(&mut foot, "[End of active memory — showing ");
        push_decimal(&mut foot, count as u64);
        push_str(&mut foot, " of ");
        push_decimal(&mut foot, total as u64);
        push_str(&mut foot, " entries]");
        parts.push(foot);
        let mut out = String::new();
        push_joined(&mut out, &parts, "\n");
        proof {
            assert(sviews(parts@) =~= seq![summary_header(count as nat)] + entry_lines(s, count as nat)
                + seq![summary_footer(count as nat, total as nat)]);
            assert(Seq::<char>::empty() + join(sviews(parts@), "\n"@) =~= join(
                sviews(parts@),
                "\n"@,
            ));
        }
        out
    }

    /// How many records are kept.
    pub fn len(&self) -> (n: usize)
        ensures
            n == self.entries().len(),
    {
        self.entries.len()
    }

    /// Whether no record is kept.
    pub fn is_empty(&self) -> (b: bool)
        ensures
            b == (self.entries().len() == 0),
    {
        self.entries.len() == 0
    }
}

} // verus!
