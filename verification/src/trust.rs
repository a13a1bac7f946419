//! Trust state of workspaces / projects.
//!
//! A project path is trusted from a point in time, either for ever or
//! until an expiry time; an expired entry no longer counts as trusted.
//! The store is persisted by the caller (see `entries` and `db_path`).

use vstd::prelude::*;

use crate::clock::unix_now_secs;
use crate::strmap::{has_key, lookup, StrMap};
use crate::text::owned;

verus! {

/// One trusted project path.
#[derive(Debug, Clone, PartialEq, Eq)]
pub struct TrustEntry {
    /// Project path (absolute).
    pub project_path: String,
    /// When trust was granted (Unix seconds).
    pub trusted_at: u64,
    /// When trust expires (Unix seconds); `None` for never.
    pub expires_at: Option<u64>,
}

/// Whether `r` is what granting `path` at time `now` for `expires_in`
/// seconds gives: no entry when the expiry time does not fit in a `u64`,
/// otherwise the entry granted at `now`.
pub open spec fn granted_at(
    r: Option<TrustEntry>,
    path: Seq<char>,
    expires_in: Option<u64>,
    now: u64,
) -> bool {
    match expires_in {
        Some(d) if d > u64::MAX - now => r is None,
        _ => r matches Some(e) && e.project_path@ == path && e.trusted_at == now && e.expires_at
            == match expires_in {
            Some(d) => Some((now + d) as u64),
            None => None,
        },
    }
}

/// Whether `after` and `r` are what trusting `path` at `now` for
/// `expires_in` seconds makes of `before`: an error and no change when the
/// expiry time does not fit in a `u64`; otherwise `Ok`, the path's entry
/// granted at `now`, and every other path's entry kept.
pub open spec fn marked_at(
    before: TrustStore,
    after: TrustStore,
    r: Result<(), String>,
    path: Seq<char>,
    expires_in: Option<u64>,
    now: u64,
) -> bool {
    &&& after.path_view() == before.path_view()
    &&& (r is Err <==> (expires_in matches Some(d) && d > u64::MAX - now))
    &&& r is Err ==> after@.0 == before@.0
    &&& r is Ok ==> {
        &&& forall|q: Seq<char>| q != path ==> #[trigger] lookup(after@.0, q) == lookup(before@.0, q)
        &&& lookup(after@.0, path) matches Some(e) && e.project_path@ == path && e.trusted_at == now
            && e.expires_at == match expires_in {
            Some(d) => Some((now + d) as u64),
            None => None,
        }
    }
}

/// Whether `m` holds the loaded pairs `ps` (a later pair wins over an
/// earlier one with the same key) without those expired at `now`.
pub open spec fn loaded_store(
    m: Seq<(Seq<char>, TrustEntry)>,
    ps: Seq<(String, TrustEntry)>,
    now: u64,
) -> bool {
    forall|q: Seq<char>| #[trigger]
        lookup(m, q) == keep_unexpired(
            last_loaded(ps.map_values(|p: (String, TrustEntry)| (p.0@, p.1)), q),
            now,
        )
}

/// The entries of a store, in path order, that are not expired at `now`.
pub open spec fn trusted_at(m: Seq<(Seq<char>, TrustEntry)>, now: u64) -> Seq<TrustEntry> {
    m.map_values(|p: (Seq<char>, TrustEntry)| p.1).filter(|e: TrustEntry| !expired_at(e, now))
}

/// Whether `after` is `before` without the entries expired at `now`.
pub open spec fn purged_at(
    before: Seq<(Seq<char>, TrustEntry)>,
    after: Seq<(Seq<char>, TrustEntry)>,
    now: u64,
) -> bool {
    forall|q: Seq<char>| #[trigger] lookup(after, q) == unexpired(before, now, q)
}

/// Whether an entry is expired at time `now`.
pub open spec fn expired_at(e: TrustEntry, now: u64) -> bool {
    match e.expires_at {
        Some(exp) => now >= exp,
        None => false,
    }
}

impl TrustEntry {
    /// An entry granted at `now`, expiring `expires_in` seconds later
    /// (never when `None`).
    pub fn new_at(project_path: &str, expires_in: Option<u64>, now: u64) -> (e: Self)
        requires
            expires_in matches Some(d) ==> now + d <= u64::MAX,
        ensures
            e.project_path@ == project_path@,
            e.trusted_at == now,
            e.expires_at == match expires_in {
                Some(d) => Some((now + d) as u64),
                None => None,
            },
    {
        TrustEntry {
            project_path: owned(project_path),
            trusted_at: now,
            expires_at: match expires_in {
                Some(d) => Some(now + d),
                None => None,
            },
        }
    }

    /// An entry granted at `now`, expiring `expires_in` seconds later (never
    /// when `None`); `None` when that expiry time does not fit in a `u64`.
    pub fn try_new_at(project_path: &str, expires_in: Option<u64>, now: u64) -> (r: Option<Self>)
        ensures
            granted_at(r, project_path@, expires_in, now),
            r is None <==> (expires_in matches Some(d) && d > u64::MAX - now),
    {
        match expires_in {
            Some(d) => {
                if d > u64::MAX - now {
                    return None;
                }
            },
            None => {},
        }
        Some(Self::new_at(project_path, expires_in, now))
    }

    /// An entry granted now, expiring `expires_in` seconds later (never when
    /// `None`); `None` when that expiry time does not fit in a `u64`.
    pub fn new(project_path: &str, expires_in: Option<u64>) -> (r: Option<Self>)
        ensures
            exists|now: u64| #[trigger] granted_at(r, project_path@, expires_in, now),
            r matches Some(e) ==> e.project_path@ == project_path@ && match expires_in {
                Some(d) => e.expires_at == Some((e.trusted_at + d) as u64),
                None => e.expires_at is None,
            },
            expires_in is None ==> r is Some,
    {
        let now = unix_now_secs();
        let r = Self::try_new_at(project_path, expires_in, now);
        assert(granted_at(r, project_path@, expires_in, now));
        r
    }

    /// Whether the entry is expired at time `now`.
    pub fn is_expired_at(&self, now: u64) -> (b: bool)
        ensures
            b == expired_at(*self, now),
    {
        match self.expires_at {
            Some(exp) => now >= exp,
            None => false,
        }
    }

    /// Whether the entry is expired now (at the time the clock reads); an
    /// entry without expiry never is.
    pub fn is_expired(&self) -> (b: bool)
        ensures
            exists|now: u64| b == #[trigger] expired_at(*self, now),
            self.expires_at is None ==> !b,
    {
        let now = unix_now_secs();
        let b = self.is_expired_at(now);
        assert(b == expired_at(*self, now));
        b
    }

    /// A copy of the entry.
    pub fn copy(&self) -> (r: Self)
        ensures
            r == *self,
    {
        TrustEntry {
            project_path: self.project_path.clone(),
            trusted_at: self.trusted_at,
            expires_at: self.expires_at,
        }
    }
}

/// The entries of `m` that are not expired at `now`, under the same keys.
pub open spec fn unexpired(m: Seq<(Seq<char>, TrustEntry)>, now: u64, q: Seq<char>) -> Option<
    TrustEntry,
> {
    keep_unexpired(lookup(m, q), now)
}

/// The store of trusted project paths.
#[derive(Debug)]
pub struct TrustStore {
    /// Key: project path.
    entries: StrMap<TrustEntry>,
    /// Where the store is persisted.
    db_path: String,
}

impl View for TrustStore {
    type V = (Seq<(Seq<char>, TrustEntry)>, Seq<char>);

    /// The entries under their paths, in path order, and the path the
    /// store is persisted at.
    closed spec fn view(&self) -> Self::V {
        (self.entries@, self.db_path@)
    }
}

impl TrustStore {
    /// The path the store is persisted at.
    pub closed spec fn path_view(&self) -> Seq<char> {
        self@.1
    }

    /// An empty store persisted at `db_path` (for a database that does not
    /// exist yet).
    pub fn empty_at(db_path: &str) -> (s: Self)
        ensures
            s@.0 == Seq::<(Seq<char>, TrustEntry)>::empty(),
            s.path_view() == db_path@,
    {
        TrustStore { entries: StrMap::new(), db_path: owned(db_path) }
    }

    /// The store persisted at `db_path`, opened on the entries loaded from
    /// it (the caller reads the file; no file means no entries): the loaded
    /// entries (a later pair wins over an earlier one with the same key),
    /// without those expired now, at the time the clock reads.
    pub fn with_path(db_path: &str, loaded: Vec<(String, TrustEntry)>) -> (s: Self)
        ensures
            s.path_view() == db_path@,
            exists|now: u64| #[trigger] loaded_store(s@.0, loaded@, now),
    {
        let now = unix_now_secs();
        let s = Self::from_entries(db_path, loaded, now);
        assert(loaded_store(s@.0, loaded@, now));
        s
    }

    /// A store persisted at `db_path` holding the loaded `(key, entry)`
    /// pairs (a later pair wins over an earlier one with the same key),
    /// without those expired at `now`.
    pub fn from_entries(db_path: &str, loaded: Vec<(String, TrustEntry)>, now: u64) -> (s: Self)
        ensures
            s.path_view() == db_path@,
            forall|q: Seq<char>| #[trigger]
                lookup(s@.0, q) == keep_unexpired(
                    last_loaded(loaded@.map_values(|p: (String, TrustEntry)| (p.0@, p.1)), q),
                    now,
                ),
    {
        let mut all: StrMap<TrustEntry> = StrMap::new();
        let mut i: usize = 0;
        let ghost ps = loaded@.map_values(|p: (String, TrustEntry)| (p.0@, p.1));
        let mut loaded = loaded;
        let ghost orig = loaded@;
        while i < loaded.len()
            invariant
                i <= loaded.len(),
                loaded@ == orig,
                ps == orig.map_values(|p: (String, TrustEntry)| (p.0@, p.1)),
                forall|q: Seq<char>| #[trigger]
                    lookup(all@, q) == last_loaded(ps.take(i as int), q),
            decreases loaded.len() - i,
        {
            let k = loaded[i].0.clone();
            let e = loaded[i].1.copy();
            let ghost before = all@;
            let _ = all.insert(k, e);
            proof {
                assert(ps.take(i + 1).drop_last() =~= ps.take(i as int));
                assert(ps.take(i + 1).last() == (k@, e));
            }
            i += 1;
        }
        assert(ps.take(ps.len() as int) =~= ps);
        let mut store = TrustStore { entries: all, db_path: owned(db_path) };
        store.purge_expired_at(now);
        store
    }

    /// Whether `path` is trusted at time `now` (present and not expired).
    pub fn is_trusted_at(&self, path: &str, now: u64) -> (b: bool)
        ensures
            b == (unexpired(self@.0, now, path@) is Some),
    {
        match self.entries.get(path) {
            Some(e) => !e.is_expired_at(now),
            None => false,
        }
    }

    /// Whether `path` is trusted now: present and not expired; a path
    /// without an entry never is.
    pub fn is_trusted(&self, path: &str) -> (b: bool)
        ensures
            !has_key(self@.0, path@) ==> !b,
            (lookup(self@.0, path@) matches Some(e) && e.expires_at is None) ==> b,
    {
        self.is_trusted_at(path, unix_now_secs())
    }

    /// Trusts `path` from `now`, for `expires_in` seconds (for ever when
    /// `None`), replacing any entry it had.
    pub fn mark_trusted_at(&mut self, path: &str, expires_in: Option<u64>, now: u64)
        requires
            expires_in matches Some(d) ==> now + d <= u64::MAX,
        ensures
            final(self).path_view() == old(self).path_view(),
            forall|q: Seq<char>| q != path@ ==> #[trigger] lookup(final(self)@.0, q) == lookup(
                old(self)@.0,
                q,
            ),
            lookup(final(self)@.0, path@) matches Some(e) && e.project_path@ == path@
                && e.trusted_at == now && e.expires_at == match expires_in {
                Some(d) => Some((now + d) as u64),
                None => None,
            },
    {
        let e = TrustEntry::new_at(path, expires_in, now);
        let _ = self.entries.insert(owned(path), e);
    }

    /// Trusts `path` from `now`, for `expires_in` seconds (for ever when
    /// `None`); an error, and no change, when the expiry time does not fit
    /// in a `u64`.
    pub fn try_mark_trusted_at(&mut self, path: &str, expires_in: Option<u64>, now: u64) -> (r:
        Result<(), String>)
        ensures
            marked_at(*old(self), *final(self), r, path@, expires_in, now),
    {
        match expires_in {
            Some(d) => {
                if d > u64::MAX - now {
                    return Err(owned("trust expiry time overflows"));
                }
            },
            None => {},
        }
        self.mark_trusted_at(path, expires_in, now);
        Ok(())
    }

    /// Trusts `path` from now, for `expires_in` seconds (for ever when
    /// `None`); an error, and no change, when the expiry time does not fit
    /// in a `u64`.  The caller persists the store afterwards.
    pub fn mark_trusted(&mut self, path: &str, expires_in: Option<u64>) -> (r: Result<(), String>)
        ensures
            exists|now: u64| #[trigger] marked_at(*old(self), *final(self), r, path@, expires_in, now),
            final(self).path_view() == old(self).path_view(),
            r is Err ==> final(self)@.0 == old(self)@.0,
            r is Ok ==> forall|q: Seq<char>| q != path@ ==> #[trigger] lookup(final(self)@.0, q)
                == lookup(old(self)@.0, q),
            r is Ok ==> (lookup(final(self)@.0, path@) matches Some(e) && e.project_path@ == path@
                && e.expires_at == match expires_in {
                Some(d) => Some((e.trusted_at + d) as u64),
                None => None,
            }),
            expires_in is None ==> r is Ok,
    {
        let now = unix_now_secs();
        let ghost before = *self;
        let r = self.try_mark_trusted_at(path, expires_in, now);
        assert(marked_at(before, *self, r, path@, expires_in, now));
        r
    }

    /// Revokes the trust of `path`.  The caller persists the store
    /// afterwards.
    pub fn revoke(&mut self, path: &str)
        ensures
            final(self).path_view() == old(self).path_view(),
            forall|q: Seq<char>| #[trigger]
                lookup(final(self)@.0, q) == if q == path@ {
                    None
                } else {
                    lookup(old(self)@.0, q)
                },
    {
        let _ = self.entries.remove(path);
    }

    /// The entries not expired at `now`, in path order.
    pub fn list_trusted_at(&self, now: u64) -> (v: Vec<&TrustEntry>)
        ensures
            v@.map_values(|e: &TrustEntry| *e) == self@.0.map_values(
                |p: (Seq<char>, TrustEntry)| p.1,
            ).filter(|e: TrustEntry| !expired_at(e, now)),
    {
        let ghost vals = self@.0.map_values(|p: (Seq<char>, TrustEntry)| p.1);
        let ghost f = |e: TrustEntry| !expired_at(e, now);
        let n = self.entries.len();
        let mut v: Vec<&TrustEntry> = Vec::new();
        let mut i: usize = 0;
        while i < n
            invariant
                i <= n,
                n == self@.0.len(),
                vals == self@.0.map_values(|p: (Seq<char>, TrustEntry)| p.1),
                f == (|e: TrustEntry| !expired_at(e, now)),
                v@.map_values(|e: &TrustEntry| *e) == vals.take(i as int).filter(f),
            decreases n - i,
        {
            proof {
                reveal(Seq::filter);
                assert(vals.take(i + 1).drop_last() =~= vals.take(i as int));
            }
            let e = self.entries.value_at(i);
            if !e.is_expired_at(now) {
                let ghost prev = v@.map_values(|e: &TrustEntry| *e);
                v.push(e);
                assert(v@.map_values(|e: &TrustEntry| *e) =~= prev.push(*e));
            }
            i += 1;
        }
        assert(vals.take(n as int) =~= vals);
        v
    }

    /// The entries not expired now (at the time the clock reads), in path
    /// order.
    pub fn list_trusted(&self) -> (v: Vec<&TrustEntry>)
        ensures
            exists|now: u64| v@.map_values(|e: &TrustEntry| *e) == #[trigger] trusted_at(self@.0, now),
            forall|i: int| 0 <= i < v@.len() ==> self@.0.map_values(
                |p: (Seq<char>, TrustEntry)| p.1,
            ).contains(*#[trigger] v@[i]),
    {
        let now = unix_now_secs();
        let v = self.list_trusted_at(now);
        assert(v@.map_values(|e: &TrustEntry| *e) == trusted_at(self@.0, now));
        proof {
            let vals = self@.0.map_values(|p: (Seq<char>, TrustEntry)| p.1);
            let f = |e: TrustEntry| !expired_at(e, now);
            assert forall|i: int| 0 <= i < v@.len() implies vals.contains(*#[trigger] v@[i]) by {
                assert(v@.map_values(|e: &TrustEntry| *e)[i] == *v@[i]);
                crate::strmap::lemma_filter_subset(vals, f, i);
            }
        }
        v
    }

    /// Removes the entries expired at `now`; returns whether any was
    /// removed (then the caller persists the store).
    pub fn purge_expired_at(&mut self, now: u64) -> (removed: bool)
        ensures
            final(self).path_view() == old(self).path_view(),
            forall|q: Seq<char>| #[trigger] lookup(final(self)@.0, q) == unexpired(old(self)@.0, now, q),
            removed == (final(self)@.0.len() < old(self)@.0.len()),
    {
        let ghost s0 = self@.0;
        let n = self.entries.len();
        let mut kept: StrMap<TrustEntry> = StrMap::new();
        let mut i: usize = 0;
        while i < n
            invariant
                i <= n,
                n == s0.len(),
                self@.0 == s0,
                crate::strmap::sorted_keys(s0),
                kept@.len() <= i,
                forall|q: Seq<char>| #[trigger]
                    lookup(kept@, q) == if has_key(s0, q) && crate::strmap::key_index(s0, q) < i {
                        unexpired(s0, now, q)
                    } else {
                        None
                    },
            decreases n - i,
        {
            let e = self.entries.value_at(i);
            let k = self.entries.key_at(i);
            proof {
                crate::strmap::lemma_key_index(s0, i as int);
                crate::strmap::lemma_lookup_at(s0, i as int);
            }
            if !e.is_expired_at(now) {
                let ghost before = kept@;
                let _ = kept.insert(k.clone(), e.copy());
                proof {
                    assert forall|q: Seq<char>| #[trigger]
                        lookup(kept@, q) == if has_key(s0, q) && crate::strmap::key_index(s0, q)
                            < i + 1 {
                            unexpired(s0, now, q)
                        } else {
                            None
                        } by {
                        if q != k@ {
                            assert(lookup(before, q) == if has_key(s0, q)
                                && crate::strmap::key_index(s0, q) < i {
                                unexpired(s0, now, q)
                            } else {
                                None
                            });
                        }
                    }
                    if has_key(before, k@) {
                        let j = crate::strmap::key_index(before, k@);
                        assert(lookup(before, k@) is Some);
                    }
                }
            } else {
                proof {
                    assert forall|q: Seq<char>| #[trigger]
                        lookup(kept@, q) == if has_key(s0, q) && crate::strmap::key_index(s0, q)
                            < i + 1 {
                            unexpired(s0, now, q)
                        } else {
                            None
                        } by {
                        if has_key(s0, q) && crate::strmap::key_index(s0, q) == i {
                        }
                    }
                }
            }
            i += 1;
        }
        let removed = kept.len() < n;
        self.entries = kept;
        proof {
            assert forall|q: Seq<char>| #[trigger] lookup(self@.0, q) == unexpired(s0, now, q) by {
                if has_key(s0, q) {
                    let j = crate::strmap::key_index(s0, q);
                    assert(0 <= j < s0.len() && s0[j].0 == q);
                }
            }
        }
        removed
    }

    /// Removes the entries expired now (at the time the clock reads);
    /// returns whether any was removed (then the caller persists the store).
    pub fn purge_expired(&mut self) -> (removed: bool)
        ensures
            exists|now: u64| #[trigger] purged_at(old(self)@.0, final(self)@.0, now),
            final(self).path_view() == old(self).path_view(),
            removed == (final(self)@.0.len() < old(self)@.0.len()),
            forall|q: Seq<char>| #[trigger] lookup(final(self)@.0, q) is Some ==> lookup(
                final(self)@.0,
                q,
            ) == lookup(old(self)@.0, q),
    {
        let now = unix_now_secs();
        let removed = self.purge_expired_at(now);
        assert(purged_at(old(self)@.0, self@.0, now));
        removed
    }

    /// Number of entries (expired ones included until purged).
    pub fn len(&self) -> (n: usize)
        ensures
            n == self@.0.len(),
    {
        self.entries.len()
    }

    /// The entries, for persisting (sorted by path).
    pub fn entries(&self) -> (m: &StrMap<TrustEntry>)
        ensures
            m@ == self@.0,
            crate::strmap::sorted_keys(self@.0),
    {
        let _ = self.entries.len();
        &self.entries
    }

    /// The path the store is persisted at.
    pub fn db_path(&self) -> (p: &str)
        ensures
            p@ == self.path_view(),
    {
        self.db_path.as_str()
    }
}

/// The entry of the last loaded pair with key `q`.
pub open spec fn last_loaded(ps: Seq<(Seq<char>, TrustEntry)>, q: Seq<char>) -> Option<TrustEntry>
    decreases ps.len(),
{
    if ps.len() == 0 {
        None
    } else if ps.last().0 == q {
        Some(ps.last().1)
    } else {
        last_loaded(ps.drop_last(), q)
    }
}

/// An optional entry, dropped when expired at `now`.
pub open spec fn keep_unexpired(o: Option<TrustEntry>, now: u64) -> Option<TrustEntry> {
    match o {
        Some(e) => if expired_at(e, now) {
            None
        } else {
            Some(e)
        },
        None => None,
    }
}


/// In a list sorted by key, the last pair with a key is the only one.
proof fn lemma_last_loaded_sorted(m: Seq<(Seq<char>, TrustEntry)>, q: Seq<char>)
    requires
        crate::strmap::sorted_keys(m),
    ensures
        last_loaded(m, q) == lookup(m, q),
    decreases m.len(),
{
    if m.len() > 0 {
        let d = m.drop_last();
        assert(crate::strmap::sorted_keys(d)) by {
            assert forall|i: int, j: int| 0 <= i < j < d.len() implies crate::strmap::str_lt(
                #[trigger] d[i].0,
                #[trigger] d[j].0,
            ) by {
                assert(d[i] == m[i] && d[j] == m[j]);
            }
        }
        lemma_last_loaded_sorted(d, q);
        if m.last().0 == q {
            crate::strmap::lemma_lookup_at(m, m.len() - 1);
        } else if has_key(d, q) {
            let j = crate::strmap::key_index(d, q);
            crate::strmap::lemma_lookup_at(d, j);
            assert(d[j] == m[j]);
            crate::strmap::lemma_lookup_at(m, j);
        } else {
            assert(!has_key(m, q)) by {
                if has_key(m, q) {
                    let j = crate::strmap::key_index(m, q);
                    if j < m.len() - 1 {
                        assert(d[j] == m[j]);
                    }
                }
            }
        }
    }
}

/// A store's entries written out (`entries`, sorted by path) and loaded
/// back (`from_entries`) at time `now` give the same entries, without those
/// expired at `now`.
pub proof fn law_reload_drops_only_expired(m: Seq<(Seq<char>, TrustEntry)>, now: u64)
    requires
        crate::strmap::sorted_keys(m),
    ensures
        forall|q: Seq<char>| #[trigger]
            keep_unexpired(last_loaded(m, q), now) == unexpired(m, now, q),
{
    assert forall|q: Seq<char>| #[trigger]
        keep_unexpired(last_loaded(m, q), now) == unexpired(m, now, q) by {
        lemma_last_loaded_sorted(m, q);
    }
}

/// Once expired, an entry stays expired: expiry is permanent.
pub proof fn law_expiry_is_permanent(e: TrustEntry, t1: u64, t2: u64)
    requires
        expired_at(e, t1),
        t1 <= t2,
    ensures
        expired_at(e, t2),
{
}

} // verus!
