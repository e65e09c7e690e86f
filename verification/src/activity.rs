//! Activity accounting shared between a handler's request and response
//! sides.
//!
//! [`TrackActivity`] is the counter a wrapped handler consults to answer
//! idleness queries: one unit of work per in-flight request and one per
//! outstanding response. It mirrors [`crate::idle::Idle`] but is the
//! tracker the HTTP wrappers embed.

use vstd::prelude::*;

use crate::idle::IsIdle;

verus! {

/// Counts outstanding units of work for an activity-wrapped handler.
#[derive(Debug)]
pub struct TrackActivity {
    /// The number of [`Active`] tokens out.
    pub count: u64,
}

/// A handle that stands for one outstanding unit of work.
///
/// Obtained from [`TrackActivity::active`]; it is consumed, and the unit
/// retired, by [`TrackActivity::release`].
#[derive(Debug)]
pub struct Active {
    _unit: (),
}

impl TrackActivity {
    /// Creates a tracker with no outstanding work.
    pub fn new() -> (t: TrackActivity)
        ensures
            t.count == 0,
    {
        TrackActivity { count: 0 }
    }

    /// Begins a unit of work, returning the token that stands for it.
    pub fn active(&mut self) -> (a: Active)
        requires
            old(self).count < u64::MAX,
        ensures
            final(self).count == old(self).count + 1,
    {
        self.count = self.count + 1;
        Active { _unit: () }
    }

    /// Ends the unit of work that `a` stands for.
    pub fn release(&mut self, a: Active)
        requires
            old(self).count > 0,
        ensures
            final(self).count == old(self).count - 1,
    {
        self.count = self.count - 1;
    }
}

impl IsIdle for TrackActivity {
    open spec fn obeys_is_idle_spec(&self) -> bool {
        true
    }

    open spec fn is_idle_spec(&self) -> bool {
        self.count == 0
    }

    fn is_idle(&self) -> bool {
        self.count == 0
    }
}

} // verus!
