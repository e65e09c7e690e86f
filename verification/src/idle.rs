//! Idleness tracking for route handlers.
//!
//! A resource is considered idle when it is not being used to process
//! messages. [`Idle`] counts the outstanding units of work; each unit is
//! witnessed by an [`Active`] token handed out by [`Idle::active`] and
//! handed back through [`Idle::release`]. Tokens cannot be duplicated, so
//! the count always equals the number of tokens still out.

use vstd::prelude::*;

verus! {

/// A resource that can report whether it has outstanding work.
pub trait IsIdle {
    /// True when `is_idle` is pinned down by `is_idle_spec`.
    open spec fn obeys_is_idle_spec(&self) -> bool {
        false
    }

    /// The idleness `is_idle` reports.
    open spec fn is_idle_spec(&self) -> bool {
        arbitrary()
    }

    /// Returns whether the resource is idle.
    fn is_idle(&self) -> (r: bool)
        ensures
            self.obeys_is_idle_spec() ==> r == self.is_idle_spec(),
    ;
}

/// Counts the number of active messages to determine idleness.
#[derive(Debug)]
pub struct Idle {
    /// The number of [`Active`] tokens out.
    pub count: u64,
}

/// A handle that stands for one outstanding unit of work.
///
/// Obtained from [`Idle::active`]; it is consumed, and the unit retired,
/// by [`Idle::release`].
#[derive(Debug)]
pub struct Active {
    _unit: (),
}

impl Idle {
    /// Creates a tracker with no outstanding work.
    pub fn new() -> (i: Idle)
        ensures
            i.count == 0,
    {
        Idle { count: 0 }
    }

    /// Begins a unit of work, returning the token that stands for it.
    pub fn active(&mut self) -> (a: Active)
        requires
            old(self).count < u64::MAX,
        ensures
            final(self).count == old(self).count + 1,
    {
        self.count = self.count + 1;
        Active { _unit: () }
    }

    /// Ends the unit of work that `a` stands for.
    pub fn release(&mut self, a: Active)
        requires
            old(self).count > 0,
        ensures
            final(self).count == old(self).count - 1,
    {
        self.count = self.count - 1;
    }
}

impl IsIdle for Idle {
    open spec fn obeys_is_idle_spec(&self) -> bool {
        true
    }

    open spec fn is_idle_spec(&self) -> bool {
        self.count == 0
    }

    fn is_idle(&self) -> bool {
        self.count == 0
    }
}

} // verus!
