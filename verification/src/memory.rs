//! Proactive memory: when to recall, and what to inject.
//!
//! Phase one decides whether the current step should trigger a recall
//! (always on the first step, on a memory keyword, or every `interval`
//! steps).  Phase two turns the recalled entries into a context block, or
//! into no intervention when nothing was recalled.

use vstd::prelude::*;

use crate::clock::{rfc3339, rfc3339_text, utc_now};
use crate::state::{hyphenated_uuid, new_uuid};
use crate::strmap::{has_key, lookup, StrMap};
use crate::text::{contains, lowercase, owned, push_str, str_contains, to_lowercase};

verus! {

/// A memory entry.
#[derive(Debug, Clone, PartialEq, Eq)]
pub struct MemoryEntry {
    pub id: String,
    pub content: String,
    pub created_at: String,
    pub access_count: u32,
}

impl MemoryEntry {
    /// A copy of the entry.
    pub fn copy(&self) -> (r: Self)
        ensures
            r == *self,
    {
        MemoryEntry {
            id: self.id.clone(),
            content: self.content.clone(),
            created_at: self.created_at.clone(),
            access_count: self.access_count,
        }
    }
}

/// The outcome of phase two.
#[derive(Debug, Clone, PartialEq, Eq)]
pub enum RecallDecision {
    /// No intervention (the default).
    NoIntervention,
    /// Inject this context.
    Inject { context: String },
}

/// Whether a lower-cased text holds a memory keyword.
pub open spec fn has_memory_keyword(t: Seq<char>) -> bool {
    contains(t, "remember"@) || contains(t, "memory"@) || contains(t, "之前"@) || contains(
        t,
        "上次"@,
    ) || contains(t, "记得"@) || contains(t, "忘了"@)
}

/// Whether a lower-cased text holds a memory keyword.
fn memory_keyword_in(t: &str) -> (b: bool)
    ensures
        b == has_memory_keyword(t@),
{
    str_contains(t, "remember") || str_contains(t, "memory") || str_contains(t, "之前")
        || str_contains(t, "上次") || str_contains(t, "记得") || str_contains(t, "忘了")
}

/// Phase one: decides when a recall is due.
#[derive(Debug, Clone)]
pub struct MemoryTrigger {
    pub interval: u32,
    last_triggered_step: u32,
}

/// Whether a step triggers, given the interval, the last triggered step
/// and whether the text holds a keyword.
pub open spec fn triggers(interval: u32, last: u32, step: u32, keyword: bool) -> bool {
    step == 1 || keyword || step - last >= interval
}

impl MemoryTrigger {
    /// The step at which the trigger last fired.
    pub closed spec fn last_step(&self) -> u32 {
        self.last_triggered_step
    }

    /// The trigger's interval.
    pub closed spec fn interval_view(&self) -> u32 {
        self.interval
    }

    /// A trigger with the given interval that has not fired yet.
    pub fn new(interval: u32) -> (t: Self)
        ensures
            t.interval_view() == interval,
            t.last_step() == 0,
    {
        MemoryTrigger { interval, last_triggered_step: 0 }
    }

    /// Whether step `step_count` with message `user_text` triggers a
    /// recall: on the first step, when the lower-cased text holds a memory
    /// keyword, or when `interval` steps have passed since the last
    /// trigger.  A trigger records the step.
    pub fn should_trigger(&mut self, step_count: u32, user_text: &str) -> (b: bool)
        requires
            step_count == 1 || has_memory_keyword(lowercase(user_text@)) || step_count
                >= old(self).last_step(),
        ensures
            b == triggers(
                old(self).interval_view(),
                old(self).last_step(),
                step_count,
                has_memory_keyword(lowercase(user_text@)),
            ),
            final(self).interval_view() == old(self).interval_view(),
            final(self).last_step() == if b {
                step_count
            } else {
                old(self).last_step()
            },
    {
        if step_count == 1 {
            self.last_triggered_step = step_count;
            return true;
        }
        let lower = to_lowercase(user_text);
        if memory_keyword_in(lower.as_str()) {
            self.last_triggered_step = step_count;
            return true;
        }
        if step_count - self.last_triggered_step >= self.interval {
            self.last_triggered_step = step_count;
            return true;
        }
        false
    }

    /// `should_trigger` where it is defined; `None`, with no change, for a
    /// step before the last triggered one that neither is the first step
    /// nor holds a keyword.
    pub fn try_trigger(&mut self, step_count: u32, user_text: &str) -> (r: Option<bool>)
        ensures
            r is None <==> !(step_count == 1 || has_memory_keyword(lowercase(user_text@))
                || step_count >= old(self).last_step()),
            r is None ==> final(self).last_step() == old(self).last_step(),
            r matches Some(b) ==> (b == triggers(
                old(self).interval_view(),
                old(self).last_step(),
                step_count,
                has_memory_keyword(lowercase(user_text@)),
            ) && final(self).last_step() == if b {
                step_count
            } else {
                old(self).last_step()
            }),
            final(self).interval_view() == old(self).interval_view(),
    {
        let lower = to_lowercase(user_text);
        if step_count == 1 || memory_keyword_in(lower.as_str())
            || step_count >= self.last_triggered_step {
            Some(self.should_trigger(step_count, user_text))
        } else {
            None
        }
    }
}

/// The context block for recalled entries and a status line.
pub open spec fn context_text(entries: Seq<MemoryEntry>, status: Seq<char>) -> Seq<char> {
    "<context_for_action>\n"@ + (if status.len() == 0 {
        Seq::empty()
    } else {
        "Status: "@ + status + "\n"@
    }) + entry_lines(entries) + "</context_for_action>"@
}

/// One line per entry: `- [id] content`.
pub open spec fn entry_lines(entries: Seq<MemoryEntry>) -> Seq<char>
    decreases entries.len(),
{
    if entries.len() == 0 {
        Seq::empty()
    } else {
        entry_lines(entries.drop_last()) + "- ["@ + entries.last().id@ + "] "@
            + entries.last().content@ + "\n"@
    }
}

/// Phase two: no intervention when nothing was recalled; otherwise the
/// recalled entries (and the status, when there is one) as a context block.
pub fn synthesize_context(entries: &[MemoryEntry], status: &str) -> (d: RecallDecision)
    ensures
        entries@.len() == 0 ==> d == RecallDecision::NoIntervention,
        entries@.len() > 0 ==> (d matches RecallDecision::Inject { context } && context@
            == context_text(entries@, status@)),
{
    if entries.len() == 0 {
        return RecallDecision::NoIntervention;
    }
    let mut context = owned("<context_for_action>\n");
    if !status.is_empty() {
        push_str(&mut context, "Status: ");
        push_str(&mut context, status);
        push_str(&mut context, "\n");
    }
    let ghost head = context@;
    let mut i: usize = 0;
    while i < entries.len()
        invariant
            i <= entries@.len(),
            context@ == head + entry_lines(entries@.take(i as int)),
        decreases entries.len() - i,
    {
        push_str(&mut context, "- [");
        push_str(&mut context, entries[i].id.as_str());
        push_str(&mut context, "] ");
        push_str(&mut context, entries[i].content.as_str());
        push_str(&mut context, "\n");
        proof {
            let t = entries@.take(i + 1);
            assert(t.drop_last() =~= entries@.take(i as int));
            assert(context@ =~= head + entry_lines(t));
        }
        i += 1;
    }
    push_str(&mut context, "</context_for_action>");
    proof {
        assert(entries@.take(entries@.len() as int) =~= entries@);
        assert(context@ =~= context_text(entries@, status@));
    }
    RecallDecision::Inject { context }
}

/// Whether an entry's lower-cased content holds the lower-cased query.
pub open spec fn recall_hit(e: MemoryEntry, query: Seq<char>) -> bool {
    contains(lowercase(e.content@), lowercase(query))
}

/// `s` is in non-increasing access-count order.
pub open spec fn by_access_desc(s: Seq<MemoryEntry>) -> bool {
    forall|i: int, j: int| 0 <= i < j < s.len() ==> #[trigger] s[i].access_count
        >= #[trigger] s[j].access_count
}

/// Where an entry accessed `c` times goes among ranked entries: after
/// every entry accessed at least as often.
pub open spec fn access_pos(s: Seq<MemoryEntry>, c: u32) -> nat
    decreases s.len(),
{
    if s.len() == 0 {
        0
    } else if s[0].access_count < c {
        0
    } else {
        1 + access_pos(s.drop_first(), c)
    }
}

/// The candidates that hold the query, ranked by access count, most
/// accessed first, ties in candidate order.
pub open spec fn ranked_hits(cs: Seq<MemoryEntry>, query: Seq<char>) -> Seq<MemoryEntry>
    decreases cs.len(),
{
    if cs.len() == 0 {
        Seq::empty()
    } else {
        let r = ranked_hits(cs.drop_last(), query);
        if recall_hit(cs.last(), query) {
            r.insert(access_pos(r, cs.last().access_count) as int, cs.last())
        } else {
            r
        }
    }
}

/// The ranking place is the first entry accessed less often.
pub proof fn lemma_access_pos(s: Seq<MemoryEntry>, c: u32)
    ensures
        access_pos(s, c) <= s.len(),
        forall|k: int| 0 <= k < access_pos(s, c) ==> (#[trigger] s[k]).access_count >= c,
        access_pos(s, c) < s.len() ==> s[access_pos(s, c) as int].access_count < c,
    decreases s.len(),
{
    if s.len() > 0 && s[0].access_count >= c {
        lemma_access_pos(s.drop_first(), c);
        assert forall|k: int| 0 <= k < access_pos(s, c) implies (#[trigger] s[k]).access_count >= c by {
            if k > 0 {
                assert(s[k] == s.drop_first()[k - 1]);
            }
        }
    }
}

/// Recall ranking: the candidates whose content holds the query
/// (case-insensitively), most accessed first (ties in candidate order),
/// at most `top_k` of them.
pub fn rank_recall(candidates: &Vec<MemoryEntry>, query: &str, top_k: usize) -> (r: Vec<MemoryEntry>)
    ensures
        r@.len() <= top_k,
        by_access_desc(r@),
        forall|i: int| 0 <= i < r@.len() ==> recall_hit(#[trigger] r@[i], query@)
            && candidates@.contains(r@[i]),
        r@.len() == top_k || r@.len() == candidates@.filter(|e: MemoryEntry| recall_hit(e, query@)).len(),
        r@ == ranked_hits(candidates@, query@).take(r@.len() as int),
        r@.len() == if ranked_hits(candidates@, query@).len() < top_k {
            ranked_hits(candidates@, query@).len()
        } else {
            top_k as nat
        },
{
    let q = to_lowercase(query);
    let ghost f = |e: MemoryEntry| recall_hit(e, query@);
    let mut hits: Vec<MemoryEntry> = Vec::new();
    let mut i: usize = 0;
    while i < candidates.len()
        invariant
            i <= candidates.len(),
            q@ == lowercase(query@),
            f == (|e: MemoryEntry| recall_hit(e, query@)),
            by_access_desc(hits@),
            hits@.len() == candidates@.take(i as int).filter(f).len(),
            hits@ == ranked_hits(candidates@.take(i as int), query@),
            forall|j: int| 0 <= j < hits@.len() ==> recall_hit(#[trigger] hits@[j], query@)
                && candidates@.take(i as int).contains(hits@[j]),
        decreases candidates.len() - i,
    {
        proof {
            reveal(Seq::filter);
            assert(candidates@.take(i + 1).drop_last() =~= candidates@.take(i as int));
            assert forall|j: int| 0 <= j < hits@.len() implies candidates@.take(i + 1).contains(
                #[trigger] hits@[j],
            ) by {
                let k = choose|k: int|
                    0 <= k < candidates@.take(i as int).len() && candidates@.take(i as int)[k]
                        == hits@[j];
                assert(candidates@.take(i + 1)[k] == hits@[j]);
            }
        }
        let e = &candidates[i];
        let lc = to_lowercase(e.content.as_str());
        proof {
            let t = candidates@.take(i + 1);
            assert(t.last() == *e);
        }
        if str_contains(lc.as_str(), q.as_str()) {
            proof {
                lemma_access_pos(hits@, e.access_count);
            }
            let mut p: usize = 0;
            while p < hits.len() && hits[p].access_count >= e.access_count
                invariant
                    p <= hits.len(),
                    forall|j: int| 0 <= j < p ==> (#[trigger] hits@[j]).access_count
                        >= e.access_count,
                decreases hits.len() - p,
            {
                p += 1;
            }
            let ghost old_hits = hits@;
            proof {
                let ap = access_pos(old_hits, e.access_count);
                if p < ap {
                    assert(old_hits[p as int].access_count < e.access_count);
                }
                if ap < p {
                    assert(old_hits[ap as int].access_count >= e.access_count);
                }
                assert(p == ap);
            }
            hits.insert(p, e.copy());
            proof {
                assert(hits@ =~= old_hits.insert(p as int, *e));
                assert forall|a: int, b: int| 0 <= a < b < hits@.len() implies #[trigger] hits@[a].access_count
                    >= #[trigger] hits@[b].access_count by {
                    if b < p {
                        assert(hits@[a] == old_hits[a] && hits@[b] == old_hits[b]);
                    } else if b == p {
                        assert(hits@[a] == old_hits[a]);
                    } else if a < p {
                        assert(hits@[a] == old_hits[a] && hits@[b] == old_hits[b - 1]);
                        if p < old_hits.len() {
                            assert(old_hits[p as int].access_count < e.access_count);
                            if p < b - 1 {
                                assert(old_hits[p as int].access_count >= old_hits[b - 1].access_count);
                            }
                        }
                    } else if a == p {
                        assert(hits@[b] == old_hits[b - 1]);
                        assert(old_hits[p as int].access_count < e.access_count);
                        if p < b - 1 {
                            assert(old_hits[p as int].access_count >= old_hits[b - 1].access_count);
                        }
                    } else {
                        assert(hits@[a] == old_hits[a - 1] && hits@[b] == old_hits[b - 1]);
                    }
                }
                assert forall|j: int| 0 <= j < hits@.len() implies recall_hit(#[trigger] hits@[j], query@)
                    && candidates@.take(i + 1).contains(hits@[j]) by {
                    if j < p {
                        assert(hits@[j] == old_hits[j]);
                    } else if j == p {
                        assert(candidates@.take(i + 1)[i as int] == *e);
                    } else {
                        assert(hits@[j] == old_hits[j - 1]);
                    }
                }
            }
        }
        i += 1;
    }
    proof {
        assert(candidates@.take(candidates@.len() as int) =~= candidates@);
    }
    let ghost all = hits@;
    if hits.len() > top_k {
        hits.truncate(top_k);
    }
    proof {
        assert(hits@ =~= all.take(hits@.len() as int));
    }
    hits
}

/// An id made of a two-character prefix and a UUID's first eight
/// characters.
pub open spec fn prefixed_id(id: Seq<char>, prefix: Seq<char>) -> bool {
    id.len() == 10 && id.take(2) == prefix && exists|u: Seq<char>|
        hyphenated_uuid(u) && #[trigger] u.take(8) == id.skip(2)
}

/// A fresh id: the prefix and a random UUID's first eight characters.
fn fresh_id(prefix: &str) -> (id: String)
    requires
        prefix@.len() == 2,
    ensures
        prefixed_id(id@, prefix@),
{
    let u = new_uuid();
    let v = crate::text::chars_of(u.as_str());
    let head = crate::text::slice_chars(&v, 0, 8);
    let mut id = owned(prefix);
    crate::text::push_chars(&mut id, &head);
    proof {
        assert(id@.take(2) =~= prefix@);
        assert(id@.skip(2) =~= u@.take(8));
    }
    id
}

/// Whether `e` is a new record of `content` under `id`, never accessed.
pub open spec fn fresh_entry(e: MemoryEntry, id: Seq<char>, content: Seq<char>) -> bool {
    e.id@ == id && e.content@ == content && e.access_count == 0
}

/// Knowledge and procedural memories by id, and the current status.
#[derive(Debug)]
pub struct MemoryStore {
    knowledge: StrMap<MemoryEntry>,
    procedural: StrMap<MemoryEntry>,
    status: String,
}

impl MemoryStore {
    /// The knowledge memories by id.
    pub closed spec fn knowledge(self) -> Seq<(Seq<char>, MemoryEntry)> {
        self.knowledge@
    }

    /// The procedural memories by id.
    pub closed spec fn procedural(self) -> Seq<(Seq<char>, MemoryEntry)> {
        self.procedural@
    }

    /// The status text.
    pub closed spec fn status_text(self) -> Seq<char> {
        self.status@
    }

    /// An empty store.
    pub fn new() -> (s: Self)
        ensures
            s.knowledge().len() == 0,
            s.procedural().len() == 0,
            s.status_text() == Seq::<char>::empty(),
    {
        MemoryStore { knowledge: StrMap::new(), procedural: StrMap::new(), status: String::new() }
    }

    /// Saves a knowledge memory under a fresh `k-` id, and gives the id.
    pub fn save_knowledge(&mut self, content: String) -> (id: String)
        ensures
            prefixed_id(id@, "k-"@),
            lookup(final(self).knowledge(), id@) matches Some(e) && fresh_entry(e, id@, content@),
            forall|q: Seq<char>| q != id@ ==> #[trigger] lookup(final(self).knowledge(), q) == lookup(
                old(self).knowledge(),
                q,
            ),
            final(self).procedural() == old(self).procedural(),
            final(self).status_text() == old(self).status_text(),
    {
        proof {
            reveal_strlit("k-");
        }
        let id = fresh_id("k-");
        let e = MemoryEntry { id: id.clone(), content, created_at: rfc3339_now(), access_count: 0 };
        let _ = self.knowledge.insert(id.clone(), e);
        id
    }

    /// Saves a procedural memory under a fresh `p-` id, and gives the id.
    pub fn save_procedural(&mut self, content: String) -> (id: String)
        ensures
            prefixed_id(id@, "p-"@),
            lookup(final(self).procedural(), id@) matches Some(e) && fresh_entry(e, id@, content@),
            forall|q: Seq<char>| q != id@ ==> #[trigger] lookup(final(self).procedural(), q) == lookup(
                old(self).procedural(),
                q,
            ),
            final(self).knowledge() == old(self).knowledge(),
            final(self).status_text() == old(self).status_text(),
    {
        proof {
            reveal_strlit("p-");
        }
        let id = fresh_id("p-");
        let e = MemoryEntry { id: id.clone(), content, created_at: rfc3339_now(), access_count: 0 };
        let _ = self.procedural.insert(id.clone(), e);
        id
    }

    /// Replaces the status text.
    pub fn update_status(&mut self, content: String)
        ensures
            final(self).status_text() == content@,
            final(self).knowledge() == old(self).knowledge(),
            final(self).procedural() == old(self).procedural(),
    {
        self.status = content;
    }

    /// Deletes the memory `memory_id`: from the knowledge memories when it
    /// is there, else from the procedural ones; `true` when one was
    /// deleted.
    pub fn delete(&mut self, memory_id: &str) -> (deleted: bool)
        ensures
            deleted == (has_key(old(self).knowledge(), memory_id@) || has_key(
                old(self).procedural(),
                memory_id@,
            )),
            forall|q: Seq<char>| #[trigger]
                lookup(final(self).knowledge(), q) == if q == memory_id@ {
                    None
                } else {
                    lookup(old(self).knowledge(), q)
                },
            has_key(old(self).knowledge(), memory_id@) ==> final(self).procedural()
                == old(self).procedural(),
            !has_key(old(self).knowledge(), memory_id@) ==> forall|q: Seq<char>| #[trigger]
                lookup(final(self).procedural(), q) == if q == memory_id@ {
                    None
                } else {
                    lookup(old(self).procedural(), q)
                },
            final(self).status_text() == old(self).status_text(),
    {
        match self.knowledge.remove(memory_id) {
            Some(_) => true,
            None => self.procedural.remove(memory_id).is_some(),
        }
    }

    /// Recalls at most `top_k` memories whose content holds the query
    /// (case-insensitively), most accessed first; candidates are taken
    /// knowledge first, then procedural, each in id order.
    pub fn recall(&self, query: &str, top_k: usize) -> (r: Vec<MemoryEntry>)
        ensures
            r@ == ranked_hits(memory_values(self.knowledge()) + memory_values(self.procedural()), query@).take(
                r@.len() as int,
            ),
            r@.len() == if ranked_hits(
                memory_values(self.knowledge()) + memory_values(self.procedural()),
                query@,
            ).len() < top_k {
                ranked_hits(memory_values(self.knowledge()) + memory_values(self.procedural()), query@).len()
            } else {
                top_k as nat
            },
    {
        let mut candidates: Vec<MemoryEntry> = Vec::new();
        let nk = self.knowledge.len();
        let mut i: usize = 0;
        while i < nk
            invariant
                i <= nk,
                nk == self.knowledge@.len(),
                candidates@ == memory_values(self.knowledge@).take(i as int),
            decreases nk - i,
        {
            candidates.push(self.knowledge.value_at(i).copy());
            assert(candidates@ =~= memory_values(self.knowledge@).take(i + 1));
            i += 1;
        }
        let np = self.procedural.len();
        let mut j: usize = 0;
        assert(candidates@ =~= memory_values(self.knowledge@) + memory_values(self.procedural@).take(0));
        while j < np
            invariant
                j <= np,
                np == self.procedural@.len(),
                candidates@ == memory_values(self.knowledge@) + memory_values(self.procedural@).take(j as int),
            decreases np - j,
        {
            candidates.push(self.procedural.value_at(j).copy());
            assert(candidates@ =~= memory_values(self.knowledge@) + memory_values(self.procedural@).take(j + 1));
            j += 1;
        }
        assert(memory_values(self.procedural@).take(np as int) =~= memory_values(self.procedural@));
        rank_recall(&candidates, query, top_k)
    }

    /// How many knowledge and procedural memories there are.
    pub fn stats(&self) -> (r: (usize, usize))
        ensures
            r.0 == self.knowledge().len(),
            r.1 == self.procedural().len(),
    {
        (self.knowledge.len(), self.procedural.len())
    }
}

impl Default for MemoryStore {
    fn default() -> (s: Self)
        ensures
            s.knowledge().len() == 0,
            s.procedural().len() == 0,
            s.status_text() == Seq::<char>::empty(),
    {
        MemoryStore::new()
    }
}

/// The entries of an association list, in order.
pub open spec fn memory_values(s: Seq<(Seq<char>, MemoryEntry)>) -> Seq<MemoryEntry> {
    s.map_values(|e: (Seq<char>, MemoryEntry)| e.1)
}

/// The current time as RFC 3339 text: what `chrono` writes for the
/// instant the clock reads.
fn rfc3339_now() -> (s: String)
    ensures
        exists|t: crate::clock::Timestamp|
            t.representable() && t.secs >= 0 && s@ == #[trigger] rfc3339_text(t.secs, t.nanos),
{
    let t = utc_now();
    let s = rfc3339(t);
    assert(s@ == rfc3339_text(t.secs, t.nanos));
    s
}

} // verus!
