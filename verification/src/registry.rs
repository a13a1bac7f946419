//! Handler registry: a table from method names to handlers, looked up at
//! dispatch time instead of a fixed match.

use vstd::prelude::*;

use crate::strmap::{has_key, keys_of, lookup, StrMap};
use crate::text::sviews;

verus! {

/// Handlers by method name; `H` is the handler type the server runs.
#[derive(Debug)]
pub struct HandlerRegistry<H> {
    handlers: StrMap<H>,
}

impl<H> View for HandlerRegistry<H> {
    type V = Seq<(Seq<char>, H)>;

    /// The handlers in increasing method-name order.
    closed spec fn view(&self) -> Self::V {
        self.handlers@
    }
}

impl<H> HandlerRegistry<H> {
    /// An empty registry.
    pub fn new() -> (r: Self)
        ensures
            r@ == Seq::<(Seq<char>, H)>::empty(),
    {
        HandlerRegistry { handlers: StrMap::new() }
    }

    /// Registers `handler` for `method`, replacing the one it had.
    pub fn register(&mut self, method: String, handler: H)
        ensures
            forall|q: Seq<char>| #[trigger]
                lookup(final(self)@, q) == if q == method@ {
                    Some(handler)
                } else {
                    lookup(old(self)@, q)
                },
            final(self)@.len() == old(self)@.len() + if has_key(old(self)@, method@) {
                0int
            } else {
                1int
            },
    {
        let _ = self.handlers.insert(method, handler);
    }

    /// The handler a call of `method` goes to; `None` means the method is
    /// not found.
    pub fn route(&self, method: &str) -> (r: Option<&H>)
        ensures
            match r {
                Some(h) => lookup(self@, method@) == Some(*h),
                None => lookup(self@, method@) is None,
            },
    {
        self.handlers.get(method)
    }

    /// The registered method names, sorted.
    pub fn methods(&self) -> (v: Vec<String>)
        ensures
            sviews(v@) == keys_of(self@),
    {
        self.handlers.keys()
    }

    /// Whether `method` is registered.
    pub fn has_method(&self, method: &str) -> (b: bool)
        ensures
            b == has_key(self@, method@),
    {
        self.handlers.contains_key(method)
    }

    /// Number of registered methods.
    pub fn len(&self) -> (n: usize)
        ensures
            n == self@.len(),
    {
        self.handlers.len()
    }

    /// Whether no method is registered.
    pub fn is_empty(&self) -> (b: bool)
        ensures
            b == (self@.len() == 0),
    {
        self.handlers.is_empty()
    }
}

impl<H> Default for HandlerRegistry<H> {
    fn default() -> (r: Self)
        ensures
            r@ == Seq::<(Seq<char>, H)>::empty(),
    {
        HandlerRegistry::new()
    }
}

} // verus!
