//! A map keyed by strings, kept sorted by key.
//!
//! Keys are ordered as `String`'s `Ord` orders them (lexicographically by
//! code point, which is the byte order of UTF-8).  The map is an
//! association list with strictly increasing keys, so every key occurs
//! once and iteration yields the keys in sorted order.

use vstd::prelude::*;

use crate::text::{chars_of, owned, sviews};

verus! {

// ------------------------------------------------------------------
// String order
// ------------------------------------------------------------------

/// `a < b` in the order of `String`'s `Ord`.
pub open spec fn str_lt(a: Seq<char>, b: Seq<char>) -> bool
    decreases a.len(),
{
    if a.len() == 0 {
        b.len() > 0
    } else if b.len() == 0 {
        false
    } else if a[0] != b[0] {
        (a[0] as u32) < (b[0] as u32)
    } else {
        str_lt(a.drop_first(), b.drop_first())
    }
}

/// `str_lt` is irreflexive.
pub proof fn lemma_str_lt_irrefl(a: Seq<char>)
    ensures
        !str_lt(a, a),
    decreases a.len(),
{
    if a.len() > 0 {
        lemma_str_lt_irrefl(a.drop_first());
    }
}

/// `str_lt` is transitive.
pub proof fn lemma_str_lt_trans(a: Seq<char>, b: Seq<char>, c: Seq<char>)
    requires
        str_lt(a, b),
        str_lt(b, c),
    ensures
        str_lt(a, c),
    decreases a.len(),
{
    if a.len() > 0 && b.len() > 0 && c.len() > 0 && a[0] == b[0] && b[0] == c[0] {
        lemma_str_lt_trans(a.drop_first(), b.drop_first(), c.drop_first());
    }
}

/// `str_lt` is total on distinct strings.
pub proof fn lemma_str_lt_total(a: Seq<char>, b: Seq<char>)
    ensures
        str_lt(a, b) || str_lt(b, a) || a == b,
    decreases a.len(),
{
    if a.len() > 0 && b.len() > 0 {
        if a[0] == b[0] {
            lemma_str_lt_total(a.drop_first(), b.drop_first());
            if a.drop_first() == b.drop_first() {
                assert(a =~= seq![a[0]] + a.drop_first());
                assert(b =~= seq![b[0]] + b.drop_first());
            }
        } else {
            vstd::utf8::char_u32_cast(a[0], a[0] as u32);
            vstd::utf8::char_u32_cast(b[0], b[0] as u32);
        }
    } else if a.len() == 0 && b.len() == 0 {
        assert(a =~= b);
    }
}

/// `str_lt` is asymmetric.
pub proof fn lemma_str_lt_asym(a: Seq<char>, b: Seq<char>)
    requires
        str_lt(a, b),
    ensures
        !str_lt(b, a),
{
    if str_lt(b, a) {
        lemma_str_lt_trans(a, b, a);
        lemma_str_lt_irrefl(a);
    }
}

/// Outcome of comparing two strings.
#[derive(Debug)]
pub enum Order {
    Less,
    Equal,
    Greater,
}

/// Compares two strings in the order of `String`'s `Ord`.
pub fn str_order(a: &str, b: &str) -> (r: Order)
    ensures
        r is Less <==> str_lt(a@, b@),
        r is Equal <==> a@ == b@,
        r is Greater <==> str_lt(b@, a@),
{
    let va = chars_of(a);
    let vb = chars_of(b);
    let mut i: usize = 0;
    proof {
        lemma_str_lt_irrefl(a@);
        lemma_str_lt_total(a@, b@);
        assert(a@.skip(0) =~= a@);
        assert(b@.skip(0) =~= b@);
    }
    while i < va.len() && i < vb.len() && va[i] == vb[i]
        invariant
            i <= va.len(),
            i <= vb.len(),
            va@ == a@,
            vb@ == b@,
            forall|j: int| 0 <= j < i ==> va@[j] == vb@[j],
            str_lt(a@, b@) == str_lt(a@.skip(i as int), b@.skip(i as int)),
            str_lt(b@, a@) == str_lt(b@.skip(i as int), a@.skip(i as int)),
        decreases va.len() - i,
    {
        proof {
            assert(a@.skip(i as int).drop_first() == a@.skip(i + 1));
            assert(b@.skip(i as int).drop_first() == b@.skip(i + 1));
        }
        i += 1;
    }
    proof {
        lemma_str_lt_irrefl(a@);
        lemma_str_lt_total(a@, b@);
        if str_lt(a@, b@) {
            lemma_str_lt_asym(a@, b@);
        }
    }
    if i == va.len() && i == vb.len() {
        assert(a@ =~= b@);
        Order::Equal
    } else if i == va.len() {
        Order::Less
    } else if i == vb.len() {
        Order::Greater
    } else if (va[i] as u32) < (vb[i] as u32) {
        Order::Less
    } else {
        Order::Greater
    }
}

/// `s` is in non-decreasing string order.
pub open spec fn sorted_strs(s: Seq<Seq<char>>) -> bool {
    forall|i: int, j: int| 0 <= i < j < s.len() ==> !str_lt(#[trigger] s[j], #[trigger] s[i])
}

/// The strings of `v`, in non-decreasing order (`Vec::sort` on strings).
pub fn sort_strings(v: &Vec<String>) -> (r: Vec<String>)
    ensures
        sorted_strs(sviews(r@)),
        sviews(r@).to_multiset() == sviews(v@).to_multiset(),
{
    let mut r: Vec<String> = Vec::new();
    let mut i: usize = 0;
    proof {
        assert(sviews(v@).take(0) =~= Seq::<Seq<char>>::empty());
        assert(sviews(r@) =~= Seq::<Seq<char>>::empty());
    }
    while i < v.len()
        invariant
            i <= v.len(),
            sorted_strs(sviews(r@)),
            sviews(r@).to_multiset() == sviews(v@).take(i as int).to_multiset(),
        decreases v.len() - i,
    {
        let x = &v[i];
        let mut p: usize = 0;
        while p < r.len() && !matches!(str_order(x.as_str(), r[p].as_str()), Order::Less)
            invariant
                p <= r.len(),
                forall|j: int| 0 <= j < p ==> !str_lt(x@, #[trigger] sviews(r@)[j]),
            decreases r.len() - p,
        {
            p += 1;
        }
        let ghost old_r = sviews(r@);
        r.insert(p, x.clone());
        proof {
            let nr = sviews(r@);
            assert(nr =~= old_r.insert(p as int, x@));
            vstd::seq_lib::to_multiset_insert(old_r, p as int, x@);
            assert(sviews(v@).take(i + 1) =~= sviews(v@).take(i as int).push(x@));
            vstd::seq_lib::to_multiset_build(sviews(v@).take(i as int), x@);
            assert forall|a: int, b: int| 0 <= a < b < nr.len() implies !str_lt(
                #[trigger] nr[b],
                #[trigger] nr[a],
            ) by {
                if b < p {
                    assert(nr[a] == old_r[a] && nr[b] == old_r[b]);
                } else if b == p {
                    assert(nr[a] == old_r[a]);
                    assert(!str_lt(x@, old_r[a]));
                    lemma_str_lt_total(x@, old_r[a]);
                    if str_lt(x@, nr[a]) {
                    }
                    if nr[a] == x@ {
                        lemma_str_lt_irrefl(x@);
                    }
                } else if a < p {
                    assert(nr[a] == old_r[a] && nr[b] == old_r[b - 1]);
                } else if a == p {
                    assert(nr[b] == old_r[b - 1]);
                    assert(str_lt(x@, old_r[p as int]));
                    if p < b - 1 {
                        assert(!str_lt(old_r[b - 1], old_r[p as int]));
                    }
                    if str_lt(old_r[b - 1], x@) {
                        lemma_str_lt_trans(old_r[b - 1], x@, old_r[p as int]);
                        if p == b - 1 {
                            lemma_str_lt_irrefl(old_r[p as int]);
                        }
                    }
                } else {
                    assert(nr[a] == old_r[a - 1] && nr[b] == old_r[b - 1]);
                }
            }
        }
        i += 1;
    }
    proof {
        assert(sviews(v@).take(v@.len() as int) =~= sviews(v@));
    }
    r
}

// ------------------------------------------------------------------
// Sorted association lists
// ------------------------------------------------------------------

/// The keys of an association list.
pub open spec fn keys_of<V>(s: Seq<(Seq<char>, V)>) -> Seq<Seq<char>> {
    s.map_values(|e: (Seq<char>, V)| e.0)
}

/// Keys strictly increasing (hence unique).
pub open spec fn sorted_keys<V>(s: Seq<(Seq<char>, V)>) -> bool {
    forall|i: int, j: int| 0 <= i < j < s.len() ==> str_lt(#[trigger] s[i].0, #[trigger] s[j].0)
}

/// `k` is a key of the list.
pub open spec fn has_key<V>(s: Seq<(Seq<char>, V)>, k: Seq<char>) -> bool {
    exists|i: int| 0 <= i < s.len() && s[i].0 == k
}

/// A position holding key `k`, where there is one.
pub open spec fn key_index<V>(s: Seq<(Seq<char>, V)>, k: Seq<char>) -> int {
    choose|i: int| 0 <= i < s.len() && s[i].0 == k
}

/// The value stored under `k`.
pub open spec fn lookup<V>(s: Seq<(Seq<char>, V)>, k: Seq<char>) -> Option<V> {
    if has_key(s, k) {
        Some(s[key_index(s, k)].1)
    } else {
        None
    }
}

/// In a sorted list, the key `s[n].0` is found at `n`.
pub proof fn lemma_key_index<V>(s: Seq<(Seq<char>, V)>, n: int)
    requires
        sorted_keys(s),
        0 <= n < s.len(),
    ensures
        has_key(s, s[n].0),
        key_index(s, s[n].0) == n,
{
    let k = s[n].0;
    assert(has_key(s, k));
    let j = key_index(s, k);
    assert(0 <= j < s.len() && s[j].0 == k);
    if j < n {
        assert(str_lt(s[j].0, s[n].0));
        lemma_str_lt_irrefl(k);
    } else if j > n {
        assert(str_lt(s[n].0, s[j].0));
        lemma_str_lt_irrefl(k);
    }
}

/// In a sorted list, the entry with key `s[i].0` is the one at `i`.
pub proof fn lemma_lookup_at<V>(s: Seq<(Seq<char>, V)>, n: int)
    requires
        sorted_keys(s),
        0 <= n < s.len(),
    ensures
        lookup(s, s[n].0) == Some(s[n].1),
{
    let k = s[n].0;
    assert(has_key(s, k));
    let j = key_index(s, k);
    assert(0 <= j < s.len() && s[j].0 == k);
    if j < n {
        assert(str_lt(s[j].0, s[n].0));
        lemma_str_lt_irrefl(k);
    } else if j > n {
        assert(str_lt(s[n].0, s[j].0));
        lemma_str_lt_irrefl(k);
    }
}

/// A map from strings to values, sorted by key.
#[derive(Debug)]
pub struct StrMap<V> {
    entries: Vec<(String, V)>,
}

impl<V> View for StrMap<V> {
    type V = Seq<(Seq<char>, V)>;

    /// The entries in increasing key order.
    closed spec fn view(&self) -> Seq<(Seq<char>, V)> {
        self.entries@.map_values(|e: (String, V)| (e.0@, e.1))
    }
}

impl<V> StrMap<V> {
    #[verifier::type_invariant]
    spec fn inv(self) -> bool {
        sorted_keys(self@)
    }

    /// An empty map.
    pub fn new() -> (m: Self)
        ensures
            m@ == Seq::<(Seq<char>, V)>::empty(),
    {
        let m = StrMap { entries: Vec::new() };
        assert(m@ =~= Seq::<(Seq<char>, V)>::empty());
        m
    }

    /// Number of keys; the entries are in strictly increasing key order.
    pub fn len(&self) -> (n: usize)
        ensures
            n == self@.len(),
            sorted_keys(self@),
    {
        proof {
            use_type_invariant(self);
        }
        self.entries.len()
    }

    /// Whether the map has no key.
    pub fn is_empty(&self) -> (b: bool)
        ensures
            b == (self@.len() == 0),
    {
        self.entries.len() == 0
    }

    /// The key at position `i` of the sorted order.
    pub fn key_at(&self, i: usize) -> (k: &String)
        requires
            i < self@.len(),
        ensures
            k@ == self@[i as int].0,
    {
        &self.entries[i].0
    }

    /// The value at position `i` of the sorted order.
    pub fn value_at(&self, i: usize) -> (v: &V)
        requires
            i < self@.len(),
        ensures
            *v == self@[i as int].1,
    {
        &self.entries[i].1
    }

    /// Position of the first key not below `k`, and whether it equals `k`.
    fn position(&self, k: &str) -> (r: (usize, bool))
        ensures
            r.0 <= self@.len(),
            forall|j: int| 0 <= j < r.0 ==> str_lt(self@[j].0, k@),
            r.1 <==> (r.0 < self@.len() && self@[r.0 as int].0 == k@),
            !r.1 ==> (forall|j: int| r.0 <= j < self@.len() ==> str_lt(k@, self@[j].0)),
    {
        proof {
            use_type_invariant(self);
        }
        let mut i: usize = 0;
        while i < self.entries.len()
            invariant
                i <= self.entries.len(),
                self.entries@.len() == self@.len(),
                sorted_keys(self@),
                forall|j: int| 0 <= j < i ==> str_lt(self@[j].0, k@),
            decreases self.entries.len() - i,
        {
            assert(self@[i as int].0 == self.entries@[i as int].0@);
            match str_order(self.entries[i].0.as_str(), k) {
                Order::Less => {
                    i += 1;
                },
                Order::Equal => {
                    return (i, true);
                },
                Order::Greater => {
                    proof {
                        assert forall|j: int| i <= j < self@.len() implies str_lt(
                            k@,
                            self@[j].0,
                        ) by {
                            if j > i {
                                assert(str_lt(self@[i as int].0, self@[j].0));
                                lemma_str_lt_trans(k@, self@[i as int].0, self@[j].0);
                            }
                        }
                        lemma_str_lt_irrefl(k@);
                    }
                    return (i, false);
                },
            }
        }
        (i, false)
    }

    /// Whether `k` is a key.
    pub fn contains_key(&self, k: &str) -> (b: bool)
        ensures
            b == has_key(self@, k@),
    {
        let (p, found) = self.position(k);
        proof {
            if has_key(self@, k@) && !found {
                let j = choose|j: int| 0 <= j < self@.len() && self@[j].0 == k@;
                lemma_str_lt_irrefl(k@);
                if j < p {
                } else {
                }
            }
        }
        found
    }

    /// The value stored under `k`.
    pub fn get(&self, k: &str) -> (r: Option<&V>)
        ensures
            match r {
                Some(v) => lookup(self@, k@) == Some(*v),
                None => lookup(self@, k@) is None,
            },
    {
        proof {
            use_type_invariant(self);
        }
        let (p, found) = self.position(k);
        if found {
            proof {
                lemma_lookup_at(self@, p as int);
            }
            Some(&self.entries[p].1)
        } else {
            proof {
                if has_key(self@, k@) {
                    let j = choose|j: int| 0 <= j < self@.len() && self@[j].0 == k@;
                    lemma_str_lt_irrefl(k@);
                    if j < p {
                    } else {
                    }
                }
            }
            None
        }
    }

    /// Stores `v` under `k`; returns the value previously stored there.
    pub fn insert(&mut self, k: String, v: V) -> (old_v: Option<V>)
        ensures
            old_v == lookup(old(self)@, k@),
            forall|q: Seq<char>| #[trigger]
                lookup(final(self)@, q) == if q == k@ {
                    Some(v)
                } else {
                    lookup(old(self)@, q)
                },
            final(self)@.len() == old(self)@.len() + if has_key(old(self)@, k@) {
                0int
            } else {
                1int
            },
            has_key(old(self)@, k@) ==> exists|p: int|
                0 <= p < old(self)@.len() && old(self)@[p].0 == k@ && final(self)@ == old(
                    self,
                )@.update(p, (k@, v)),
            !has_key(old(self)@, k@) ==> exists|p: int|
                0 <= p <= old(self)@.len() && final(self)@ == old(self)@.insert(p, (k@, v)),
    {
        proof {
            use_type_invariant(&*self);
        }
        let ghost s0 = self@;
        let (p, found) = self.position(k.as_str());
        if found {
            let ghost kk = k@;
            let mut es: Vec<(String, V)> = Vec::new();
            std::mem::swap(&mut es, &mut self.entries);
            let (_, prev) = es.remove(p);
            es.insert(p, (k, v));
            assert(sorted_keys(es@.map_values(|e: (String, V)| (e.0@, e.1)))) by {
                let s1 = es@.map_values(|e: (String, V)| (e.0@, e.1));
                assert(s1 =~= s0.update(p as int, (kk, v)));
                assert forall|i: int, j: int| 0 <= i < j < s1.len() implies str_lt(
                    #[trigger] s1[i].0,
                    #[trigger] s1[j].0,
                ) by {
                    assert(str_lt(s0[i].0, s0[j].0));
                }
            }
            self.entries = es;
            proof {
                lemma_lookup_at(s0, p as int);
                let s1 = self@;
                assert(s1 =~= s0.update(p as int, (kk, v)));
                assert(s0[p as int].0 == kk);
                assert(sorted_keys(s1)) by {
                    assert forall|i: int, j: int| 0 <= i < j < s1.len() implies str_lt(
                        #[trigger] s1[i].0,
                        #[trigger] s1[j].0,
                    ) by {
                        assert(str_lt(s0[i].0, s0[j].0));
                    }
                }
                assert forall|q: Seq<char>| #[trigger]
                    lookup(s1, q) == if q == kk {
                        Some(v)
                    } else {
                        lookup(s0, q)
                    } by {
                    if q == kk {
                        lemma_lookup_at(s1, p as int);
                    } else {
                        if has_key(s0, q) {
                            let j = choose|j: int| 0 <= j < s0.len() && s0[j].0 == q;
                            lemma_lookup_at(s0, j);
                            lemma_lookup_at(s1, j);
                        }
                        if has_key(s1, q) {
                            let j = choose|j: int| 0 <= j < s1.len() && s1[j].0 == q;
                            assert(s0[j].0 == q);
                        }
                    }
                }
            }
            Some(prev)
        } else {
            let ghost kk = k@;
            let mut es: Vec<(String, V)> = Vec::new();
            std::mem::swap(&mut es, &mut self.entries);
            es.insert(p, (k, v));
            proof {
                let s1 = es@.map_values(|e: (String, V)| (e.0@, e.1));
                assert(s1 =~= s0.take(p as int).push((kk, v)) + s0.skip(p as int));
                assert(sorted_keys(s1)) by {
                    assert forall|i: int, j: int| 0 <= i < j < s1.len() implies str_lt(
                        #[trigger] s1[i].0,
                        #[trigger] s1[j].0,
                    ) by {
                        if j < p {
                            assert(str_lt(s0[i].0, s0[j].0));
                        } else if j == p {
                        } else if i < p {
                            assert(str_lt(s0[i].0, kk));
                            assert(str_lt(kk, s0[j - 1].0));
                            lemma_str_lt_trans(s0[i].0, kk, s0[j - 1].0);
                        } else if i == p {
                        } else {
                            assert(str_lt(s0[i - 1].0, s0[j - 1].0));
                        }
                    }
                }
            }
            self.entries = es;
            proof {
                let s1 = self@;
                assert(s1 =~= s0.take(p as int).push((kk, v)) + s0.skip(p as int));
                assert(s1 =~= s0.insert(p as int, (kk, v)));
                assert(!has_key(s0, kk)) by {
                    if has_key(s0, kk) {
                        let j = choose|j: int| 0 <= j < s0.len() && s0[j].0 == kk;
                        lemma_str_lt_irrefl(kk);
                        if j < p {
                        } else {
                        }
                    }
                }
                assert forall|q: Seq<char>| #[trigger]
                    lookup(s1, q) == if q == kk {
                        Some(v)
                    } else {
                        lookup(s0, q)
                    } by {
                    if q == kk {
                        lemma_lookup_at(s1, p as int);
                    } else {
                        if has_key(s0, q) {
                            let j = choose|j: int| 0 <= j < s0.len() && s0[j].0 == q;
                            lemma_lookup_at(s0, j);
                            if j < p {
                                lemma_lookup_at(s1, j);
                            } else {
                                assert(s1[j + 1] == s0[j]);
                                lemma_lookup_at(s1, j + 1);
                            }
                        }
                        if has_key(s1, q) {
                            let j = choose|j: int| 0 <= j < s1.len() && s1[j].0 == q;
                            if j < p {
                                assert(s0[j].0 == q);
                            } else {
                                assert(s0[j - 1].0 == q);
                            }
                        }
                    }
                }
            }
            None
        }
    }

    /// Removes `k`; returns the value that was stored under it.
    pub fn remove(&mut self, k: &str) -> (old_v: Option<V>)
        ensures
            old_v == lookup(old(self)@, k@),
            forall|q: Seq<char>| #[trigger]
                lookup(final(self)@, q) == if q == k@ {
                    None
                } else {
                    lookup(old(self)@, q)
                },
            final(self)@.len() == old(self)@.len() - if has_key(old(self)@, k@) {
                1int
            } else {
                0int
            },
            forall|i: int|
                0 <= i < final(self)@.len() ==> old(self)@.contains(#[trigger] final(self)@[i]),
    {
        proof {
            use_type_invariant(&*self);
        }
        let ghost s0 = self@;
        let (p, found) = self.position(k);
        if found {
            let mut es: Vec<(String, V)> = Vec::new();
            std::mem::swap(&mut es, &mut self.entries);
            let (_, prev) = es.remove(p);
            proof {
                let s1 = es@.map_values(|e: (String, V)| (e.0@, e.1));
                assert(s1 =~= s0.remove(p as int));
                assert(sorted_keys(s1)) by {
                    assert forall|i: int, j: int| 0 <= i < j < s1.len() implies str_lt(
                        #[trigger] s1[i].0,
                        #[trigger] s1[j].0,
                    ) by {
                        if j < p {
                            assert(str_lt(s0[i].0, s0[j].0));
                        } else if i < p {
                            assert(str_lt(s0[i].0, s0[j + 1].0));
                        } else {
                            assert(str_lt(s0[i + 1].0, s0[j + 1].0));
                        }
                    }
                }
            }
            self.entries = es;
            proof {
                lemma_lookup_at(s0, p as int);
                let s1 = self@;
                assert(s1 =~= s0.remove(p as int));
                assert forall|q: Seq<char>| #[trigger]
                    lookup(s1, q) == if q == k@ {
                        None
                    } else {
                        lookup(s0, q)
                    } by {
                    if has_key(s1, q) {
                        let j = choose|j: int| 0 <= j < s1.len() && s1[j].0 == q;
                        if j < p {
                            lemma_lookup_at(s0, j);
                            lemma_lookup_at(s1, j);
                            if q == k@ {
                                assert(str_lt(s0[j].0, s0[p as int].0));
                                lemma_str_lt_irrefl(q);
                            }
                        } else {
                            lemma_lookup_at(s0, j + 1);
                            lemma_lookup_at(s1, j);
                            if q == k@ {
                                assert(str_lt(s0[p as int].0, s0[j + 1].0));
                                lemma_str_lt_irrefl(q);
                            }
                        }
                    } else if q != k@ && has_key(s0, q) {
                        let j = choose|j: int| 0 <= j < s0.len() && s0[j].0 == q;
                        if j < p {
                            assert(s1[j].0 == q);
                        } else if j > p {
                            assert(s1[j - 1].0 == q);
                        }
                    }
                }
                assert forall|i: int| 0 <= i < s1.len() implies s0.contains(#[trigger] s1[i]) by {
                    if i < p {
                        assert(s0[i] == s1[i]);
                    } else {
                        assert(s0[i + 1] == s1[i]);
                    }
                }
            }
            Some(prev)
        } else {
            proof {
                if has_key(s0, k@) {
                    let j = choose|j: int| 0 <= j < s0.len() && s0[j].0 == k@;
                    lemma_str_lt_irrefl(k@);
                    if j < p {
                    } else {
                    }
                }
                assert forall|i: int| 0 <= i < s0.len() implies s0.contains(#[trigger] s0[i]) by {
                }
            }
            None
        }
    }

    /// The keys in increasing order.
    pub fn keys(&self) -> (ks: Vec<String>)
        ensures
            sviews(ks@) == keys_of(self@),
    {
        let mut ks: Vec<String> = Vec::new();
        let mut i: usize = 0;
        while i < self.entries.len()
            invariant
                i <= self.entries.len(),
                self.entries@.len() == self@.len(),
                sviews(ks@) == keys_of(self@).take(i as int),
            decreases self.entries.len() - i,
        {
            let ghost prev = ks@;
            let k = owned(self.entries[i].0.as_str());
            ks.push(k);
            proof {
                assert(keys_of(self@)[i as int] == self.entries@[i as int].0@);
                assert(sviews(ks@) =~= sviews(prev).push(k@));
                assert(sviews(ks@) =~= keys_of(self@).take(i + 1));
            }
            i += 1;
        }
        assert(keys_of(self@).take(self@.len() as int) =~= keys_of(self@));
        ks
    }
}

impl<V: Copy> StrMap<V> {
    /// A copy of the map.
    pub fn copy(&self) -> (r: StrMap<V>)
        ensures
            r@ == self@,
    {
        proof {
            use_type_invariant(self);
        }
        let mut es: Vec<(String, V)> = Vec::new();
        let mut i: usize = 0;
        while i < self.entries.len()
            invariant
                i <= self.entries.len(),
                sorted_keys(self@),
                es@.map_values(|e: (String, V)| (e.0@, e.1)) == self@.take(i as int),
            decreases self.entries.len() - i,
        {
            let k = self.entries[i].0.clone();
            let v = self.entries[i].1;
            let ghost prev = es@.map_values(|e: (String, V)| (e.0@, e.1));
            es.push((k, v));
            proof {
                assert(self@[i as int] == (self.entries@[i as int].0@, self.entries@[i as int].1));
                assert(es@.map_values(|e: (String, V)| (e.0@, e.1)) =~= prev.push(
                    self@[i as int],
                ));
                assert(es@.map_values(|e: (String, V)| (e.0@, e.1)) =~= self@.take(i + 1));
            }
            i += 1;
        }
        assert(self@.take(self@.len() as int) =~= self@);
        StrMap { entries: es }
    }
}

/// Sum of the values of an association list of counts.
pub open spec fn count_sum(s: Seq<(Seq<char>, u32)>) -> nat
    decreases s.len(),
{
    if s.len() == 0 {
        0
    } else {
        count_sum(s.drop_last()) + s.last().1 as nat
    }
}

/// The count stored under `k`, zero when there is none.
pub open spec fn count_of(s: Seq<(Seq<char>, u32)>, k: Seq<char>) -> u32 {
    match lookup(s, k) {
        Some(n) => n,
        None => 0,
    }
}

/// `count_sum` of a concatenation.
pub proof fn lemma_count_sum_concat(a: Seq<(Seq<char>, u32)>, b: Seq<(Seq<char>, u32)>)
    ensures
        count_sum(a + b) == count_sum(a) + count_sum(b),
    decreases b.len(),
{
    if b.len() == 0 {
        assert(a + b =~= a);
    } else {
        lemma_count_sum_concat(a, b.drop_last());
        assert((a + b).drop_last() =~= a + b.drop_last());
    }
}

/// `count_sum` after replacing an entry.
pub proof fn lemma_count_sum_update(s: Seq<(Seq<char>, u32)>, p: int, x: (Seq<char>, u32))
    requires
        0 <= p < s.len(),
    ensures
        count_sum(s.update(p, x)) == count_sum(s) - s[p].1 + x.1,
{
    let a = s.take(p);
    let b = s.skip(p + 1);
    assert(s =~= a + seq![s[p]] + b);
    assert(s.update(p, x) =~= a + seq![x] + b);
    lemma_count_sum_concat(a + seq![s[p]], b);
    lemma_count_sum_concat(a, seq![s[p]]);
    lemma_count_sum_concat(a + seq![x], b);
    lemma_count_sum_concat(a, seq![x]);
    assert(seq![s[p]].drop_last() =~= Seq::<(Seq<char>, u32)>::empty());
    assert(seq![x].drop_last() =~= Seq::<(Seq<char>, u32)>::empty());
}

/// `count_sum` after inserting an entry.
pub proof fn lemma_count_sum_insert(s: Seq<(Seq<char>, u32)>, p: int, x: (Seq<char>, u32))
    requires
        0 <= p <= s.len(),
    ensures
        count_sum(s.insert(p, x)) == count_sum(s) + x.1,
{
    let a = s.take(p);
    let b = s.skip(p);
    assert(s =~= a + b);
    assert(s.insert(p, x) =~= a + seq![x] + b);
    lemma_count_sum_concat(a + seq![x], b);
    lemma_count_sum_concat(a, seq![x]);
    lemma_count_sum_concat(a, b);
    assert(seq![x].drop_last() =~= Seq::<(Seq<char>, u32)>::empty());
    assert(count_sum(Seq::<(Seq<char>, u32)>::empty()) == 0);
    assert(count_sum(seq![x]) == x.1);
}

/// Adds `by` to the count stored under `k` (a missing count is zero);
/// returns the new count.
pub fn add_count(m: &mut StrMap<u32>, k: &str, by: u32) -> (n: u32)
    requires
        count_of(old(m)@, k@) + by <= u32::MAX,
    ensures
        n == count_of(old(m)@, k@) + by,
        forall|q: Seq<char>| #[trigger]
            lookup(final(m)@, q) == if q == k@ {
                Some(n)
            } else {
                lookup(old(m)@, q)
            },
        count_sum(final(m)@) == count_sum(old(m)@) + by,
{
    let _ = m.len();
    let cur: u32 = match m.get(k) {
        Some(c) => *c,
        None => 0,
    };
    let n = cur + by;
    let ghost s0 = m@;
    let ghost found = has_key(s0, k@);
    let _ = m.insert(crate::text::owned(k), n);
    proof {
        if found {
            let p = choose|p: int|
                0 <= p < s0.len() && s0[p].0 == k@ && m@ == s0.update(p, (k@, n));
            lemma_lookup_at(s0, p);
            lemma_count_sum_update(s0, p, (k@, n));
        } else {
            let p = choose|p: int| 0 <= p <= s0.len() && m@ == s0.insert(p, (k@, n));
            lemma_count_sum_insert(s0, p, (k@, n));
        }
    }
    n
}

/// Sum of the counts of a map.
pub fn sum_counts(m: &StrMap<u32>) -> (t: u64)
    requires
        count_sum(m@) <= u64::MAX,
    ensures
        t == count_sum(m@),
{
    let n = m.len();
    let mut t: u64 = 0;
    let mut i: usize = 0;
    while i < n
        invariant
            i <= n,
            n == m@.len(),
            count_sum(m@) <= u64::MAX,
            t == count_sum(m@.take(i as int)),
        decreases n - i,
    {
        proof {
            assert(m@.take(i + 1).drop_last() =~= m@.take(i as int));
            lemma_count_sum_concat(m@.take(i + 1), m@.skip(i + 1));
            assert(m@.take(i + 1) + m@.skip(i + 1) =~= m@);
        }
        t = t + *m.value_at(i) as u64;
        i += 1;
    }
    assert(m@.take(n as int) =~= m@);
    t
}

/// The entries of a map of counts, in key order.
pub fn count_pairs(m: &StrMap<u32>) -> (v: Vec<(String, u32)>)
    ensures
        v@.map_values(|e: (String, u32)| (e.0@, e.1)) == m@,
{
    let n = m.len();
    let mut v: Vec<(String, u32)> = Vec::new();
    let mut i: usize = 0;
    while i < n
        invariant
            i <= n,
            n == m@.len(),
            v@.map_values(|e: (String, u32)| (e.0@, e.1)) == m@.take(i as int),
        decreases n - i,
    {
        let ghost prev = v@.map_values(|e: (String, u32)| (e.0@, e.1));
        let k = m.key_at(i).clone();
        let c = *m.value_at(i);
        v.push((k, c));
        assert(v@.map_values(|e: (String, u32)| (e.0@, e.1)) =~= prev.push(m@[i as int]));
        assert(m@.take(i + 1) =~= m@.take(i as int).push(m@[i as int]));
        i += 1;
    }
    assert(m@.take(n as int) =~= m@);
    v
}

/// Every element of a filtered sequence is an element of the sequence.
pub proof fn lemma_filter_subset<A>(s: Seq<A>, f: spec_fn(A) -> bool, i: int)
    requires
        0 <= i < s.filter(f).len(),
    ensures
        s.contains(s.filter(f)[i]),
    decreases s.len(),
{
    reveal(Seq::filter);
    if s.len() > 0 {
        let sub = s.drop_last().filter(f);
        if i < sub.len() {
            lemma_filter_subset(s.drop_last(), f, i);
            let j = choose|j: int| 0 <= j < s.drop_last().len() && s.drop_last()[j] == sub[i];
            assert(s[j] == s.filter(f)[i]);
        } else {
            assert(s[s.len() - 1] == s.filter(f)[i]);
        }
    }
}


/// In a sorted association list no key occurs twice.
pub proof fn law_keys_distinct<V>(s: Seq<(Seq<char>, V)>)
    requires
        sorted_keys(s),
    ensures
        forall|i: int, j: int| 0 <= i < j < s.len() ==> (#[trigger] s[i]).0 != (#[trigger] s[j]).0,
{
    assert forall|i: int, j: int| 0 <= i < j < s.len() implies (#[trigger] s[i]).0 != (
    #[trigger] s[j]).0 by {
        assert(str_lt(s[i].0, s[j].0));
        if s[i].0 == s[j].0 {
            lemma_str_lt_irrefl(s[i].0);
        }
    }
}

} // verus!
