//! Local identifier generation.
//!
//! Identifiers are generated once at creation and immutable thereafter. The
//! generator hands out strictly increasing values, so every id it produces is
//! fresh with respect to the ones before it.

use vstd::prelude::*;

verus! {

/// A counter-backed generator of locally fresh identifiers.
pub struct IdGen {
    pub next: u64,
}

impl IdGen {
    /// A generator whose first id will be `start`.
    pub fn new(start: u64) -> (g: IdGen)
        ensures
            g.next == start,
    {
        IdGen { next: start }
    }

    /// Hands out the next identifier.
    pub fn fresh(&mut self) -> (id: u64)
        requires
            old(self).next < u64::MAX,
        ensures
            id == old(self).next,
            final(self).next == old(self).next + 1,
    {
        let id = self.next;
        self.next = self.next + 1;
        id
    }
}

} // verus!
