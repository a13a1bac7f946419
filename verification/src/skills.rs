//! Skills registry: skills registered, looked up, listed and reloaded by
//! name.

use vstd::prelude::*;

use crate::json::JsonValue;
use crate::strmap::{has_key, keys_of, lookup, StrMap};
use crate::text::owned;

verus! {

/// What describes a skill.
#[derive(Debug)]
pub struct SkillManifest {
    pub name: String,
    pub version: String,
    pub description: String,
    /// The JSON schema of the skill's parameters, when it has one.
    pub schema: Option<JsonValue>,
    /// Where the skill is entered (a file path, an endpoint, a function).
    pub entrypoint: String,
}

/// The manifests of an association list.
pub open spec fn manifests_of(s: Seq<(Seq<char>, SkillManifest)>) -> Seq<SkillManifest> {
    s.map_values(|e: (Seq<char>, SkillManifest)| e.1)
}

/// Skills by name.
#[derive(Debug)]
pub struct SkillsRegistry {
    skills: StrMap<SkillManifest>,
}

impl View for SkillsRegistry {
    type V = Seq<(Seq<char>, SkillManifest)>;

    /// The skills in increasing name order, each under its own name.
    closed spec fn view(&self) -> Self::V {
        self.skills@
    }
}

impl SkillsRegistry {
    #[verifier::type_invariant]
    spec fn keyed_by_name(self) -> bool {
        forall|i: int| 0 <= i < self.skills@.len() ==> #[trigger] self.skills@[i].0 == self.skills@[i].1.name@
    }

    /// An empty registry.
    pub fn new() -> (r: Self)
        ensures
            r@ == Seq::<(Seq<char>, SkillManifest)>::empty(),
    {
        SkillsRegistry { skills: StrMap::new() }
    }

    /// Registers a skill under its name, replacing one of that name;
    /// `true` when one was replaced.
    pub fn register(&mut self, manifest: SkillManifest) -> (replaced: bool)
        ensures
            replaced == has_key(old(self)@, manifest.name@),
            forall|q: Seq<char>| #[trigger]
                lookup(final(self)@, q) == if q == manifest.name@ {
                    Some(manifest)
                } else {
                    lookup(old(self)@, q)
                },
            final(self)@.len() == old(self)@.len() + if replaced {
                0int
            } else {
                1int
            },
    {
        proof {
            use_type_invariant(&*self);
        }
        let name = owned(manifest.name.as_str());
        let ghost m = manifest;
        let mut skills = StrMap::new();
        std::mem::swap(&mut skills, &mut self.skills);
        let ghost s0 = skills@;
        let _ = skills.len();
        let old_v = skills.insert(name, manifest);
        let _ = skills.len();
        proof {
            let s1 = skills@;
            assert forall|i: int| 0 <= i < s1.len() implies #[trigger] s1[i].0 == s1[i].1.name@ by {
                crate::strmap::lemma_lookup_at(s1, i);
                if s1[i].0 != m.name@ {
                    assert(lookup(s0, s1[i].0) == Some(s1[i].1));
                    let j = crate::strmap::key_index(s0, s1[i].0);
                    assert(s0[j].0 == s0[j].1.name@);
                }
            }
        }
        self.skills = skills;
        old_v.is_some()
    }

    /// The skill registered under `name`.
    pub fn get(&self, name: &str) -> (r: Option<&SkillManifest>)
        ensures
            match r {
                Some(m) => lookup(self@, name@) == Some(*m),
                None => lookup(self@, name@) is None,
            },
    {
        self.skills.get(name)
    }

    /// The registered skills, sorted by name.
    pub fn list(&self) -> (v: Vec<&SkillManifest>)
        ensures
            v@.map_values(|m: &SkillManifest| *m) == manifests_of(self@),
            forall|i: int, j: int|
                0 <= i < j < v@.len() ==> crate::strmap::str_lt(
                    (#[trigger] v@[i]).name@,
                    (#[trigger] v@[j]).name@,
                ),
    {
        proof {
            use_type_invariant(self);
        }
        let n = self.skills.len();
        let mut v: Vec<&SkillManifest> = Vec::new();
        let mut i: usize = 0;
        while i < n
            invariant
                i <= n,
                n == self@.len(),
                v@.map_values(|m: &SkillManifest| *m) == manifests_of(self@).take(i as int),
            decreases n - i,
        {
            let ghost prev = v@.map_values(|m: &SkillManifest| *m);
            let m = self.skills.value_at(i);
            v.push(m);
            assert(v@.map_values(|m: &SkillManifest| *m) =~= prev.push(*m));
            assert(manifests_of(self@).take(i + 1) =~= manifests_of(self@).take(i as int).push(*m));
            i += 1;
        }
        assert(manifests_of(self@).take(n as int) =~= manifests_of(self@));
        proof {
            assert forall|i: int, j: int| 0 <= i < j < v@.len() implies crate::strmap::str_lt(
                (#[trigger] v@[i]).name@,
                (#[trigger] v@[j]).name@,
            ) by {
                assert(v@.map_values(|m: &SkillManifest| *m)[i] == *v@[i]);
                assert(v@.map_values(|m: &SkillManifest| *m)[j] == *v@[j]);
                assert(self.skills@[i].0 == self.skills@[i].1.name@);
                assert(self.skills@[j].0 == self.skills@[j].1.name@);
            }
        }
        v
    }

    /// Replaces a registered skill by a new manifest of the same name;
    /// `false`, with nothing changed, when no skill has that name.
    pub fn reload(&mut self, manifest: SkillManifest) -> (done: bool)
        ensures
            done == has_key(old(self)@, manifest.name@),
            !done ==> final(self)@ == old(self)@,
            done ==> forall|q: Seq<char>| #[trigger]
                lookup(final(self)@, q) == if q == manifest.name@ {
                    Some(manifest)
                } else {
                    lookup(old(self)@, q)
                },
            final(self)@.len() == old(self)@.len(),
    {
        if !self.skills.contains_key(manifest.name.as_str()) {
            return false;
        }
        self.register(manifest);
        true
    }

    /// Number of registered skills.
    pub fn len(&self) -> (n: usize)
        ensures
            n == self@.len(),
    {
        self.skills.len()
    }

    /// Whether no skill is registered.
    pub fn is_empty(&self) -> (b: bool)
        ensures
            b == (self@.len() == 0),
    {
        self.skills.is_empty()
    }

    /// The registered skill names, sorted.
    pub fn methods(&self) -> (v: Vec<String>)
        ensures
            crate::text::sviews(v@) == keys_of(self@),
    {
        self.skills.keys()
    }
}

impl Default for SkillsRegistry {
    fn default() -> (r: Self)
        ensures
            r@ == Seq::<(Seq<char>, SkillManifest)>::empty(),
    {
        SkillsRegistry::new()
    }
}

} // verus!
