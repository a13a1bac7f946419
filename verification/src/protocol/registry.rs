//! Protocol kinds and their names.

use vstd::prelude::*;

use crate::strmap::{has_key, keys_of, lookup, StrMap};
use crate::text::{is_ascii_seq, lower_seq, lowercase, owned, push_str, str_eq, sviews, to_lowercase};

verus! {

/// Supported protocol kinds.
#[derive(Debug, Clone, Copy, PartialEq, Eq, Hash, Structural)]
pub enum ProtocolKind {
    /// A2A (agent-to-agent) JSON-RPC.
    A2A,
    /// MCP (Model Context Protocol).
    MCP,
}

impl ProtocolKind {
    /// The kind named by a lower-cased name.
    pub open spec fn named(l: Seq<char>) -> Option<ProtocolKind> {
        if l == "a2a"@ || l == "json-rpc"@ || l == "jsonrpc"@ {
            Some(ProtocolKind::A2A)
        } else if l == "mcp"@ {
            Some(ProtocolKind::MCP)
        } else {
            None
        }
    }

    /// Parses a protocol name, case-insensitively: `a2a`, `json-rpc` and
    /// `jsonrpc` name A2A, `mcp` names MCP.
    pub fn from_str(s: &str) -> (r: Option<Self>)
        ensures
            r == Self::named(lowercase(s@)),
            is_ascii_seq(s@) ==> r == Self::named(lower_seq(s@)),
    {
        let l = to_lowercase(s);
        let l = l.as_str();
        if str_eq(l, "a2a") || str_eq(l, "json-rpc") || str_eq(l, "jsonrpc") {
            Some(ProtocolKind::A2A)
        } else if str_eq(l, "mcp") {
            Some(ProtocolKind::MCP)
        } else {
            None
        }
    }

    /// The protocol's canonical name.
    pub open spec fn name(self) -> Seq<char> {
        match self {
            ProtocolKind::A2A => "a2a"@,
            ProtocolKind::MCP => "mcp"@,
        }
    }

    /// The protocol's canonical name.
    pub fn as_str(&self) -> (s: &'static str)
        ensures
            s@ == self.name(),
    {
        match self {
            ProtocolKind::A2A => "a2a",
            ProtocolKind::MCP => "mcp",
        }
    }
}

/// Every kind is read back from its canonical name: the name is ASCII, and
/// its lower case names the kind (so `from_str(k.as_str())` is `Some(k)`).
pub proof fn law_name_round_trip(k: ProtocolKind)
    ensures
        is_ascii_seq(k.name()),
        ProtocolKind::named(lower_seq(k.name())) == Some(k),
{
    reveal_strlit("a2a");
    reveal_strlit("mcp");
    reveal_strlit("json-rpc");
    reveal_strlit("jsonrpc");
    assert(lower_seq("a2a"@) =~= "a2a"@);
    assert(lower_seq("mcp"@) =~= "mcp"@);
    assert("mcp"@ != "a2a"@) by {
        assert("mcp"@[0] != "a2a"@[0]);
    }
    assert("mcp"@.len() != "json-rpc"@.len());
    assert("mcp"@.len() != "jsonrpc"@.len());
}

/// The message when no handler serves a protocol.
pub open spec fn unsupported_text(kind: ProtocolKind) -> Seq<char> {
    "Protocol not supported: "@ + kind.name()
}

/// Handlers by protocol (under the protocol's canonical name); `H` is the
/// handler type.
#[derive(Debug)]
pub struct ProtocolRegistry<H> {
    protocols: StrMap<H>,
}

impl<H> View for ProtocolRegistry<H> {
    type V = Seq<(Seq<char>, H)>;

    /// The handlers in increasing name order.
    closed spec fn view(&self) -> Self::V {
        self.protocols@
    }
}

impl<H> ProtocolRegistry<H> {
    /// An empty registry.
    pub fn new() -> (r: Self)
        ensures
            r@ == Seq::<(Seq<char>, H)>::empty(),
    {
        ProtocolRegistry { protocols: StrMap::new() }
    }

    /// Registers `handler` for `kind`; gives the handler it replaces.
    pub fn register(&mut self, kind: ProtocolKind, handler: H) -> (old_h: Option<H>)
        ensures
            old_h == lookup(old(self)@, kind.name()),
            forall|q: Seq<char>| #[trigger]
                lookup(final(self)@, q) == if q == kind.name() {
                    Some(handler)
                } else {
                    lookup(old(self)@, q)
                },
            final(self)@.len() == old(self)@.len() + if has_key(old(self)@, kind.name()) {
                0int
            } else {
                1int
            },
    {
        self.protocols.insert(owned(kind.as_str()), handler)
    }

    /// The handler a message of `kind` goes to, or the error that the
    /// protocol is not supported.
    pub fn route(&self, kind: &ProtocolKind) -> (r: Result<&H, String>)
        ensures
            match r {
                Ok(h) => lookup(self@, kind.name()) == Some(*h),
                Err(e) => lookup(self@, kind.name()) is None && e@ == unsupported_text(*kind),
            },
    {
        match self.protocols.get(kind.as_str()) {
            Some(h) => Ok(h),
            None => {
                let mut e = owned("Protocol not supported: ");
                push_str(&mut e, kind.as_str());
                Err(e)
            },
        }
    }

    /// Whether a handler serves `kind`.
    pub fn has_protocol(&self, kind: &ProtocolKind) -> (b: bool)
        ensures
            b == has_key(self@, kind.name()),
    {
        self.protocols.contains_key(kind.as_str())
    }

    /// The registered protocol names, sorted.
    pub fn list_protocols(&self) -> (v: Vec<String>)
        ensures
            sviews(v@) == keys_of(self@),
    {
        self.protocols.keys()
    }

    /// Number of registered protocols.
    pub fn len(&self) -> (n: usize)
        ensures
            n == self@.len(),
    {
        self.protocols.len()
    }

    /// Whether no protocol is registered.
    pub fn is_empty(&self) -> (b: bool)
        ensures
            b == (self@.len() == 0),
    {
        self.protocols.is_empty()
    }
}

impl<H> Default for ProtocolRegistry<H> {
    fn default() -> (r: Self)
        ensures
            r@ == Seq::<(Seq<char>, H)>::empty(),
    {
        ProtocolRegistry::new()
    }
}

} // verus!
