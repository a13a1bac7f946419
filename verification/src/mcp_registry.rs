//! MCP registry: methods registered under a capability, discovered by
//! name, with the server's capability declaration kept in step.

use vstd::prelude::*;

use crate::a2a::types::{McpCapability, McpServerCapabilities};
use crate::strmap::{has_key, keys_of, lookup, sorted_keys, str_lt, StrMap};
use crate::text::owned;

verus! {

/// MCP registry.
#[derive(Debug)]
pub struct McpRegistry {
    /// Method name to capability.
    methods: StrMap<McpCapability>,
    /// The server's capability declaration.
    capabilities: McpServerCapabilities,
}

impl View for McpRegistry {
    type V = (Seq<(Seq<char>, McpCapability)>, McpServerCapabilities);

    /// The methods by name, and the declared capabilities.
    closed spec fn view(&self) -> Self::V {
        (self.methods@, self.capabilities)
    }
}

impl McpRegistry {
    /// An empty registry declaring no capability.
    pub fn new() -> (r: Self)
        ensures
            r@.0 == Seq::<(Seq<char>, McpCapability)>::empty(),
            r@.1 == McpServerCapabilities::new_spec(),
    {
        McpRegistry { methods: StrMap::new(), capabilities: McpServerCapabilities::new() }
    }

    /// Registers `method` under `capability` (replacing what it had), and
    /// declares the capability.
    pub fn register(&mut self, method: &str, capability: McpCapability)
        ensures
            forall|q: Seq<char>| #[trigger]
                lookup(final(self)@.0, q) == if q == method@ {
                    Some(capability)
                } else {
                    lookup(old(self)@.0, q)
                },
            final(self)@.1.has(capability),
            forall|d: McpCapability| d != capability ==> final(self)@.1.has(d) == old(self)@.1.has(d),
            final(self)@.0.len() == old(self)@.0.len() + if has_key(old(self)@.0, method@) {
                0int
            } else {
                1int
            },
            sorted_keys(final(self)@.0),
    {
        let _ = self.methods.insert(owned(method), capability);
        let _ = self.methods.len();
        self.capabilities.register(capability);
    }

    /// The capability `method` is registered under.
    pub fn discover(&self, method: &str) -> (r: Option<&McpCapability>)
        ensures
            match r {
                Some(c) => lookup(self@.0, method@) == Some(*c),
                None => lookup(self@.0, method@) is None,
            },
    {
        self.methods.get(method)
    }

    /// Whether `capability` is declared.
    pub fn supports(&self, capability: &McpCapability) -> (b: bool)
        ensures
            b == self@.1.has(*capability),
    {
        self.capabilities.supports(capability)
    }

    /// The registered method names, in strictly increasing order.
    pub fn methods(&self) -> (v: Vec<&str>)
        ensures
            v@.map_values(|s: &str| s@) == keys_of(self@.0),
            sorted_keys(self@.0),
            forall|i: int, j: int| 0 <= i < j < v@.len() ==> str_lt(#[trigger] v@[i]@, #[trigger] v@[j]@),
    {
        let n = self.methods.len();
        let mut v: Vec<&str> = Vec::new();
        let mut i: usize = 0;
        while i < n
            invariant
                i <= n,
                n == self@.0.len(),
                v@.map_values(|s: &str| s@) == keys_of(self@.0).take(i as int),
            decreases n - i,
        {
            let ghost prev = v@.map_values(|s: &str| s@);
            let k = self.methods.key_at(i);
            v.push(k.as_str());
            assert(v@.map_values(|s: &str| s@) =~= prev.push(k@));
            assert(keys_of(self@.0).take(i + 1) =~= keys_of(self@.0).take(i as int).push(k@));
            i += 1;
        }
        assert(keys_of(self@.0).take(n as int) =~= keys_of(self@.0));
        assert forall|i: int, j: int| 0 <= i < j < v@.len() implies str_lt(
            #[trigger] v@[i]@,
            #[trigger] v@[j]@,
        ) by {
            assert(v@.map_values(|s: &str| s@)[i] == v@[i]@);
            assert(v@.map_values(|s: &str| s@)[j] == v@[j]@);
        }
        v
    }

    /// The server's capability declaration (for the initialize answer).
    pub fn capabilities(&self) -> (c: &McpServerCapabilities)
        ensures
            *c == self@.1,
    {
        &self.capabilities
    }

    /// Number of registered methods (their names are distinct).
    pub fn len(&self) -> (n: usize)
        ensures
            n == self@.0.len(),
            sorted_keys(self@.0),
    {
        self.methods.len()
    }

    /// Whether no method is registered.
    pub fn is_empty(&self) -> (b: bool)
        ensures
            b == (self@.0.len() == 0),
    {
        self.methods.is_empty()
    }
}

impl Default for McpRegistry {
    fn default() -> (r: Self)
        ensures
            r@.0 == Seq::<(Seq<char>, McpCapability)>::empty(),
            r@.1 == McpServerCapabilities::new_spec(),
    {
        Self::new()
    }
}

} // verus!
