//! Retention policies: per-entry predicates consulted during eviction.
//!
//! A policy maps a cache entry — a [`Node`] — and the current time to a
//! boolean, where `true` means *retain*. Policies compose with [`all_of`]
//! and [`any_of`]; the concrete policies here are the constants and a
//! maximum-access-age rule. Callers may supply their own policies, such as
//! one that retains an entry while its value is not idle.

use vstd::prelude::*;

use crate::access::Node;

verus! {

/// Decides, entry by entry, what an eviction sweep may remove.
pub trait Retain<T> {
    /// True when `retain` is pinned down by `retain_spec`.
    ///
    /// Implementations that do not state their predicate leave the
    /// default, under which the cache's policy-dependent postconditions
    /// are vacuous.
    open spec fn obeys_retain_spec(&self) -> bool {
        false
    }

    /// The predicate `retain` computes.
    open spec fn retain_spec(&self, node: &Node<T>, now: u64) -> bool {
        arbitrary()
    }

    /// Returns whether the entry holding `node` should be retained at
    /// time `now`.
    fn retain(&self, node: &Node<T>, now: u64) -> (r: bool)
        ensures
            self.obeys_retain_spec() ==> r == self.retain_spec(node, now),
    ;

}

/// Composes two policies into their conjunction.
pub fn all_of<A, B>(a: A, b: B) -> (c: And<A, B>)
    ensures
        c.0 == a,
        c.1 == b,
{
    And(a, b)
}

/// Composes two policies into their disjunction.
pub fn any_of<A, B>(a: A, b: B) -> (c: Or<A, B>)
    ensures
        c.0 == a,
        c.1 == b,
{
    Or(a, b)
}

/// A constant policy: retain everything, or nothing.
pub struct Const(pub bool);

impl Const {
    /// The policy that retains every entry.
    pub fn always() -> (c: Const)
        ensures
            c.0 == true,
    {
        Const(true)
    }

    /// The policy that retains no entry.
    pub fn never() -> (c: Const)
        ensures
            c.0 == false,
    {
        Const(false)
    }
}

/// Short-circuiting conjunction of two policies.
pub struct And<A, B>(pub A, pub B);

/// Short-circuiting disjunction of two policies.
pub struct Or<A, B>(pub A, pub B);

/// Retains entries accessed at most `age` ticks ago, inclusive.
pub struct MaxAccessAge {
    /// The greatest tolerated time since last access.
    pub age: u64,
}

impl MaxAccessAge {
    /// A policy retaining entries whose last access is at most `age`
    /// ticks in the past.
    pub fn new(age: u64) -> (m: MaxAccessAge)
        ensures
            m.age == age,
    {
        MaxAccessAge { age }
    }
}

impl<T> Retain<T> for Const {
    open spec fn obeys_retain_spec(&self) -> bool {
        true
    }

    open spec fn retain_spec(&self, node: &Node<T>, now: u64) -> bool {
        self.0
    }

    fn retain(&self, node: &Node<T>, now: u64) -> bool {
        self.0
    }
}

impl<T, A: Retain<T>, B: Retain<T>> Retain<T> for And<A, B> {
    open spec fn obeys_retain_spec(&self) -> bool {
        self.0.obeys_retain_spec() && self.1.obeys_retain_spec()
    }

    open spec fn retain_spec(&self, node: &Node<T>, now: u64) -> bool {
        self.0.retain_spec(node, now) && self.1.retain_spec(node, now)
    }

    fn retain(&self, node: &Node<T>, now: u64) -> bool {
        self.0.retain(node, now) && self.1.retain(node, now)
    }
}

impl<T, A: Retain<T>, B: Retain<T>> Retain<T> for Or<A, B> {
    open spec fn obeys_retain_spec(&self) -> bool {
        self.0.obeys_retain_spec() && self.1.obeys_retain_spec()
    }

    open spec fn retain_spec(&self, node: &Node<T>, now: u64) -> bool {
        self.0.retain_spec(node, now) || self.1.retain_spec(node, now)
    }

    fn retain(&self, node: &Node<T>, now: u64) -> bool {
        self.0.retain(node, now) || self.1.retain(node, now)
    }
}

impl<T> Retain<T> for MaxAccessAge {
    open spec fn obeys_retain_spec(&self) -> bool {
        true
    }

    /// An entry is retained while `now - age <= last_access`, stated
    /// without subtraction so it is meaningful near time zero.
    open spec fn retain_spec(&self, node: &Node<T>, now: u64) -> bool {
        node.last_access + self.age >= now
    }

    fn retain(&self, node: &Node<T>, now: u64) -> bool {
        if now >= self.age {
            node.last_access >= now - self.age
        } else {
            true
        }
    }
}

} // verus!
