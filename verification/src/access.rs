//! Access-time bookkeeping for cached values.
//!
//! A cached value lives in a [`Node`] together with the time it was last
//! accessed. Taking the value out for use yields an [`Access`] guard;
//! releasing the guard stamps the node with the clock reading at the
//! release site. Releasing the guard is the sole way `last_access`
//! advances.

use vstd::prelude::*;

verus! {

/// Provides the current time, in ticks of a virtual monotonic clock.
pub trait Now {
    /// The reading the next call of `now` returns.
    spec fn now_spec(&self) -> u64;

    /// Reads the current time.
    fn now(&self) -> (t: u64)
        ensures
            t == self.now_spec(),
    ;
}

/// A virtual monotonic clock: an integer tick count advanced explicitly.
///
/// Production callers feed it from a system monotonic clock; tests drive
/// it directly. Because every reading is a function of the clock's state,
/// contracts over access times are exact.
#[derive(Clone, Copy, Debug, PartialEq, Eq, Structural)]
pub struct Clock {
    /// The current tick count.
    pub ticks: u64,
}

impl Clock {
    /// Creates a clock that reads `ticks`.
    pub fn new(ticks: u64) -> (c: Clock)
        ensures
            c.ticks == ticks,
    {
        Clock { ticks }
    }

    /// Moves the clock forward by `d` ticks.
    pub fn advance(&mut self, d: u64)
        requires
            old(self).ticks + d <= u64::MAX,
        ensures
            final(self).ticks == old(self).ticks + d,
    {
        self.ticks = self.ticks + d;
    }
}

impl Now for Clock {
    open spec fn now_spec(&self) -> u64 {
        self.ticks
    }

    fn now(&self) -> (t: u64) {
        self.ticks
    }
}

/// Holds the last-access time of a value.
pub struct Node<T> {
    /// The cached value.
    pub target: T,

    /// When the value was last stored or released from an access.
    pub last_access: u64,
}

/// A guard over a value taken out of a [`Node`] for use.
///
/// The guard owns the node's value while the borrow lasts; the node's
/// access time is refreshed when the guard is released, never before, so
/// a long-running access does not appear stale midway.
pub struct Access<T> {
    /// The node taken out for use.
    pub node: Node<T>,
}

impl<T> Node<T> {
    /// Creates a node holding `target`, stamped at `last_access`.
    pub fn new(target: T, last_access: u64) -> (n: Node<T>)
        ensures
            n.target == target,
            n.last_access == last_access,
    {
        Node { target, last_access }
    }

    /// Takes the node's value out for use, wrapped in an [`Access`] guard.
    ///
    /// While the guard lives, the recorded access time is unchanged; it is
    /// refreshed only when the guard is released.
    pub fn access(self) -> (a: Access<T>)
        ensures
            a.node == self,
    {
        Access { node: self }
    }

    /// The time the value was last stored or released from an access.
    pub fn last_access(&self) -> (t: u64)
        ensures
            t == self.last_access,
    {
        self.last_access
    }
}

impl<T> Access<T> {
    /// The access time recorded when the guard was taken.
    ///
    /// The stamp the node will carry after release comes from the release
    /// site's clock, not from this value.
    pub fn last_access(&self) -> (t: u64)
        ensures
            t == self.node.last_access,
    {
        self.node.last_access
    }

    /// Reads the guarded value.
    pub fn value(&self) -> (v: &T)
        ensures
            v == &self.node.target,
    {
        &self.node.target
    }

    /// Ends the access: hands the node back, stamped at `now`.
    ///
    /// The value itself is returned unchanged; only the access time moves.
    pub fn release(self, now: u64) -> (n: Node<T>)
        ensures
            n.target == self.node.target,
            n.last_access == now,
    {
        Node { target: self.node.target, last_access: now }
    }
}

} // verus!
