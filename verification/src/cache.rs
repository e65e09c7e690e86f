//! A capacity-bounded cache for routes.
//!
//! ## Assumptions
//!
//! - `access` is common;
//! - `store` is less common;
//! - `capacity` is large enough that idle routes need not be removed
//!   frequently.
//!
//! The cache maps integer keys to [`Node`]s, each holding a route and its
//! last-access time. Capacity is reserved before every store; when the
//! cache is full, a reservation sweeps the entries and removes those the
//! retention policy declines to keep. The mathematical model of the cache
//! is the map [`Cache::entries`]; every operation's contract is stated
//! against it.

use vstd::prelude::*;

use crate::access::{Access, Clock, Node, Now};
use crate::retain::Retain;

verus! {

/// An error indicating that capacity has been exhausted.
#[derive(Debug, PartialEq, Eq)]
pub struct Exhausted {
    /// The capacity of the cache that refused the reservation.
    pub capacity: usize,
}

/// True when `k` is the key of some pair in `s`.
pub open spec fn has_key<V>(s: Seq<(u64, Node<V>)>, k: u64) -> bool {
    exists|i: int| 0 <= i < s.len() && s[i].0 == k
}

/// True when no two pairs of `s` share a key.
pub open spec fn keys_unique<V>(s: Seq<(u64, Node<V>)>) -> bool {
    forall|i: int, j: int| 0 <= i < j < s.len() ==> s[i].0 != s[j].0
}

/// The map held by a sequence of key-node pairs; later pairs win.
pub open spec fn entry_map<V>(s: Seq<(u64, Node<V>)>) -> Map<u64, Node<V>>
    decreases s.len(),
{
    if s.len() == 0 {
        Map::empty()
    } else {
        entry_map(s.drop_last()).insert(s.last().0, s.last().1)
    }
}

/// The entries of `m` that the policy `r` retains at time `now`.
pub open spec fn swept<V, R: Retain<V>>(m: Map<u64, Node<V>>, r: R, now: u64) -> Map<
    u64,
    Node<V>,
> {
    Map::new(|k: u64| m.contains_key(k) && r.retain_spec(&m[k], now), |k: u64| m[k])
}

proof fn lemma_entry_map_dom<V>(s: Seq<(u64, Node<V>)>)
    ensures
        forall|k: u64| entry_map(s).contains_key(k) <==> has_key(s, k),
    decreases s.len(),
{
    if s.len() == 0 {
    } else {
        let t = s.drop_last();
        lemma_entry_map_dom(t);
        assert(entry_map(s) == entry_map(t).insert(s.last().0, s.last().1));
        assert forall|k: u64| entry_map(s).contains_key(k) <==> has_key(s, k) by {
            if entry_map(s).contains_key(k) {
                if k == s.last().0 {
                    assert(s[s.len() - 1].0 == k);
                } else {
                    assert(entry_map(t).contains_key(k));
                    assert(has_key(t, k));
                    let i = choose|i: int| 0 <= i < t.len() && t[i].0 == k;
                    assert(t[i] == s[i]);
                    assert(s[i].0 == k);
                }
            }
            if has_key(s, k) {
                let i = choose|i: int| 0 <= i < s.len() && s[i].0 == k;
                if i < s.len() - 1 {
                    assert(t[i] == s[i]);
                    assert(t[i].0 == k);
                    assert(has_key(t, k));
                    assert(entry_map(t).contains_key(k));
                    assert(entry_map(s).contains_key(k));
                } else {
                    assert(k == s.last().0);
                    assert(entry_map(s).contains_key(k));
                }
            }
        }
    }
}

proof fn lemma_entry_map_index<V>(s: Seq<(u64, Node<V>)>)
    requires
        keys_unique(s),
    ensures
        forall|i: int|
            0 <= i < s.len() ==> entry_map(s).contains_key(#[trigger] s[i].0)
                && entry_map(s)[s[i].0] == s[i].1,
    decreases s.len(),
{
    if s.len() == 0 {
    } else {
        let t = s.drop_last();
        lemma_entry_map_index(t);
        assert forall|i: int|
            0 <= i < s.len() implies entry_map(s).contains_key(#[trigger] s[i].0)
                && entry_map(s)[s[i].0] == s[i].1 by {
            if i < s.len() - 1 {
                assert(t[i] == s[i]);
                assert(s[i].0 != s.last().0);
            }
        }
    }
}

proof fn lemma_entry_map_len<V>(s: Seq<(u64, Node<V>)>)
    requires
        keys_unique(s),
    ensures
        entry_map(s).dom().finite(),
        entry_map(s).dom().len() == s.len(),
    decreases s.len(),
{
    if s.len() == 0 {
        assert(entry_map(s).dom() =~= Set::<u64>::empty());
    } else {
        let t = s.drop_last();
        lemma_entry_map_len(t);
        lemma_entry_map_dom(t);
        assert(!has_key(t, s.last().0));
        assert(entry_map(s).dom() =~= entry_map(t).dom().insert(s.last().0));
    }
}

/// The sequence `swap_remove(i)` leaves behind.
spec fn swap_removed<V>(s: Seq<(u64, Node<V>)>, i: int) -> Seq<(u64, Node<V>)> {
    s.update(i, s.last()).drop_last()
}

proof fn lemma_swap_remove_entry_map<V>(s: Seq<(u64, Node<V>)>, i: int)
    requires
        keys_unique(s),
        0 <= i < s.len(),
    ensures
        keys_unique(swap_removed(s, i)),
        entry_map(swap_removed(s, i)) == entry_map(s).remove(s[i].0),
        forall|j: int|
            0 <= j < swap_removed(s, i).len() ==> #[trigger] swap_removed(s, i)[j] == (if j == i {
                s[s.len() - 1]
            } else {
                s[j]
            }),
    decreases s.len(),
{
    let s2 = swap_removed(s, i);
    let u = s.update(i, s.last());
    assert forall|j: int| 0 <= j < s2.len() implies s2[j] == (if j == i {
        s[s.len() - 1]
    } else {
        s[j]
    }) by {
        assert(s2[j] == u[j]);
    }
    assert forall|j1: int, j2: int| 0 <= j1 < j2 < s2.len() implies s2[j1].0 != s2[j2].0 by {
        if j1 == i {
            assert(s2[j1] == s[s.len() - 1]);
            assert(s2[j2] == s[j2]);
        } else if j2 == i {
            assert(s2[j1] == s[j1]);
            assert(s2[j2] == s[s.len() - 1]);
        } else {
            assert(s2[j1] == s[j1]);
            assert(s2[j2] == s[j2]);
        }
    }
    lemma_entry_map_dom(s);
    lemma_entry_map_dom(s2);
    lemma_entry_map_index(s);
    lemma_entry_map_index(s2);
    assert forall|k: u64| has_key(s2, k) implies has_key(s, k) && k != s[i].0 by {
        let j = choose|j: int| 0 <= j < s2.len() && s2[j].0 == k;
        if j == i {
            assert(s[s.len() - 1].0 == k);
        } else {
            assert(s[j].0 == k);
        }
    }
    assert forall|k: u64| has_key(s, k) && k != s[i].0 implies has_key(s2, k) by {
        let j = choose|j: int| 0 <= j < s.len() && s[j].0 == k;
        if j == s.len() - 1 {
            if i < s.len() - 1 {
                assert(s2[i].0 == k);
            }
        } else {
            assert(s2[j].0 == k);
        }
    }
    assert forall|k: u64| entry_map(s2).contains_key(k) implies entry_map(s2)[k] == entry_map(s)[k] by {
        assert(has_key(s2, k));
        let j = choose|j: int| 0 <= j < s2.len() && s2[j].0 == k;
        assert(entry_map(s2)[s2[j].0] == s2[j].1);
        if j == i {
            assert(s[s.len() - 1] == s2[j]);
            assert(entry_map(s)[s[s.len() - 1].0] == s[s.len() - 1].1);
        } else {
            assert(s[j] == s2[j]);
            assert(entry_map(s)[s[j].0] == s[j].1);
        }
        assert(entry_map(s2)[k] == s2[j].1);
        assert(entry_map(s)[k] == s2[j].1);
    }
    assert forall|k: u64|
        entry_map(s2).contains_key(k) <==> entry_map(s).remove(s[i].0).contains_key(k) by {
        assert(entry_map(s2).contains_key(k) <==> has_key(s2, k));
        assert(entry_map(s).contains_key(k) <==> has_key(s, k));
    }
    assert(entry_map(s2) =~= entry_map(s).remove(s[i].0));
}

proof fn lemma_push_entry_map<V>(s: Seq<(u64, Node<V>)>, p: (u64, Node<V>))
    requires
        keys_unique(s),
        !has_key(s, p.0),
    ensures
        keys_unique(s.push(p)),
        entry_map(s.push(p)) == entry_map(s).insert(p.0, p.1),
{
    let s2 = s.push(p);
    assert forall|j1: int, j2: int| 0 <= j1 < j2 < s2.len() implies s2[j1].0 != s2[j2].0 by {
        if j2 == s2.len() - 1 {
            assert(s2[j1] == s[j1]);
            assert(!(s[j1].0 == p.0));
        } else {
            assert(s2[j1] == s[j1]);
            assert(s2[j2] == s[j2]);
        }
    }
    assert(s2.drop_last() =~= s);
    assert(s2.last() == p);
}

/// Under a retain-while-active policy, a sweep never removes an entry
/// whose value still has outstanding work.
///
/// Whatever the sweep's time of evaluation, an entry that is not idle is
/// retained, kept unchanged — even when it is the oldest. Together with
/// [`Cache::reserve`]'s contract, which pins the swept cache to
/// [`swept`], this says the cache never evicts a route while activity on
/// it is live.
pub proof fn lemma_active_entry_survives_sweep<V: crate::idle::IsIdle, R: Retain<V>>(
    m: Map<u64, Node<V>>,
    r: R,
    now: u64,
    k: u64,
)
    requires
        r.obeys_retain_spec(),
        forall|n: Node<V>, t: u64| #[trigger] r.retain_spec(&n, t) == !n.target.is_idle_spec(),
        m.contains_key(k),
        !m[k].target.is_idle_spec(),
    ensures
        swept(m, r, now).contains_key(k),
        swept(m, r, now)[k] == m[k],
{
    assert(r.retain_spec(&m[k], now));
}

/// A capacity-bounded mapping from route keys to [`Node`]s, swept by a
/// retention policy when full.
pub struct Cache<V, R> where R: Retain<V> {
    /// The cached routes, each with its last-access time. Keys are
    /// pairwise distinct.
    routes: Vec<(u64, Node<V>)>,

    /// The maximum number of entries in `routes`.
    capacity: usize,

    /// The policy consulted, entry by entry, when a reservation must
    /// evict.
    retain: R,

    /// The time source.
    now: Clock,
}

impl<V, R> Cache<V, R> where R: Retain<V> {
    /// The mathematical model of the cache: its entries as a map.
    pub closed spec fn entries(&self) -> Map<u64, Node<V>> {
        entry_map(self.routes@)
    }

    /// The greatest number of entries the cache will hold.
    pub closed spec fn capacity(&self) -> usize {
        self.capacity
    }

    /// The retention policy the cache was built with.
    pub closed spec fn policy(&self) -> R {
        self.retain
    }

    /// The cache clock's current reading.
    pub closed spec fn time(&self) -> u64 {
        self.now.ticks
    }

    /// Well-formedness: distinct keys, within capacity, capacity nonzero.
    pub closed spec fn wf(&self) -> bool {
        &&& keys_unique(self.routes@)
        &&& self.routes@.len() <= self.capacity
        &&& self.capacity >= 1
    }

    /// The number of entries equals the length of the backing vector.
    proof fn lemma_len(&self)
        requires
            keys_unique(self.routes@),
        ensures
            self.entries().dom().finite(),
            self.entries().len() == self.routes@.len(),
    {
        lemma_entry_map_len(self.routes@);
    }

    /// A well-formed cache holds at most `capacity` entries, and its
    /// entry map is finite.
    pub proof fn lemma_wf_len(&self)
        requires
            self.wf(),
        ensures
            self.entries().dom().finite(),
            self.entries().len() <= self.capacity(),
            self.capacity() >= 1,
    {
        self.lemma_len();
    }

    /// Creates an empty cache bounded by `capacity`, swept by `retain`,
    /// with its clock at zero.
    pub fn new(capacity: usize, retain: R) -> (c: Self)
        requires
            capacity >= 1,
        ensures
            c.wf(),
            c.entries() == Map::<u64, Node<V>>::empty(),
            c.capacity() == capacity,
            c.policy() == retain,
            c.time() == 0,
    {
        let c = Cache { routes: Vec::new(), capacity, retain, now: Clock::new(0) };
        proof {
            assert(c.entries() =~= Map::<u64, Node<V>>::empty());
        }
        c
    }

    /// Replaces the time source, keeping the entries.
    pub fn with_clock(self, clock: Clock) -> (c: Self)
        ensures
            c.entries() == self.entries(),
            c.capacity() == self.capacity(),
            c.policy() == self.policy(),
            c.time() == clock.ticks,
            c.wf() == self.wf(),
    {
        Cache { routes: self.routes, capacity: self.capacity, retain: self.retain, now: clock }
    }

    /// Moves the cache's clock forward by `d` ticks.
    pub fn advance_clock(&mut self, d: u64)
        requires
            old(self).time() + d <= u64::MAX,
        ensures
            final(self).entries() == old(self).entries(),
            final(self).capacity() == old(self).capacity(),
            final(self).policy() == old(self).policy(),
            final(self).time() == old(self).time() + d,
            final(self).wf() == old(self).wf(),
    {
        self.now.advance(d);
    }

    /// The number of routes in the cache.
    pub fn len(&self) -> (n: usize)
        requires
            self.wf(),
        ensures
            n == self.entries().len(),
    {
        proof {
            self.lemma_len();
        }
        self.routes.len()
    }

    /// Accesses a route.
    ///
    /// The route is taken out of the cache behind an [`Access`] guard, so
    /// that its access time is refreshed when the guard is handed back
    /// through [`Cache::release`]. Returns `Some` iff an entry for `key`
    /// exists; absence is not an error. No entry is evicted.
    pub fn access(&mut self, key: &u64) -> (r: Option<Access<V>>)
        requires
            old(self).wf(),
        ensures
            final(self).wf(),
            final(self).capacity() == old(self).capacity(),
            final(self).policy() == old(self).policy(),
            final(self).time() == old(self).time(),
            match r {
                None => {
                    &&& final(self).entries() == old(self).entries()
                    &&& !old(self).entries().contains_key(*key)
                },
                Some(a) => {
                    &&& old(self).entries().contains_key(*key)
                    &&& a.node == old(self).entries()[*key]
                    &&& final(self).entries() == old(self).entries().remove(*key)
                },
            },
    {
        let mut i: usize = 0;
        while i < self.routes.len()
            invariant
                *self == *old(self),
                old(self).wf(),
                i <= self.routes@.len(),
                forall|j: int| 0 <= j < i ==> (#[trigger] self.routes@[j]).0 != *key,
            decreases self.routes@.len() - i,
        {
            if self.routes[i].0 == *key {
                proof {
                    lemma_entry_map_index(self.routes@);
                    lemma_swap_remove_entry_map(self.routes@, i as int);
                }
                let pair = self.routes.swap_remove(i);
                return Some(Access { node: pair.1 });
            }
            i = i + 1;
        }
        proof {
            lemma_entry_map_dom(self.routes@);
            assert(!has_key(self.routes@, *key));
        }
        None
    }

    /// Ends an access: hands the route back under the key it was taken
    /// from, stamped with the current time.
    ///
    /// Releasing the guard is the sole way an entry's access time
    /// advances.
    pub fn release(&mut self, key: u64, access: Access<V>)
        requires
            old(self).wf(),
            !old(self).entries().contains_key(key),
            old(self).entries().len() < old(self).capacity(),
        ensures
            final(self).wf(),
            final(self).capacity() == old(self).capacity(),
            final(self).policy() == old(self).policy(),
            final(self).time() == old(self).time(),
            final(self).entries() == old(self).entries().insert(
                key,
                (Node { target: access.node.target, last_access: old(self).time() }),
            ),
    {
        let t = self.now.now();
        let node = access.release(t);
        proof {
            self.lemma_len();
            lemma_entry_map_dom(self.routes@);
            lemma_push_entry_map(self.routes@, (key, node));
        }
        self.routes.push((key, node));
    }

    /// Ensures that there is capacity to store an additional route.
    ///
    /// Returns the number of additional routes that may be stored. If no
    /// capacity is free, the entries are swept: each entry the policy
    /// does not retain at the current time is removed. If capacity still
    /// cannot be found, an error is returned and the cache is unchanged.
    pub fn reserve(&mut self) -> (r: Result<usize, Exhausted>)
        requires
            old(self).wf(),
        ensures
            final(self).wf(),
            final(self).capacity() == old(self).capacity(),
            final(self).policy() == old(self).policy(),
            final(self).time() == old(self).time(),
            final(self).entries().submap_of(old(self).entries()),
            old(self).entries().len() < old(self).capacity() ==> r == Ok::<usize, Exhausted>(
                (old(self).capacity() - old(self).entries().len()) as usize,
            ) && final(self).entries() == old(self).entries(),
            r matches Ok(n) ==> n == old(self).capacity() - final(self).entries().len() && n >= 1,
            r is Err ==> r == Err::<usize, Exhausted>(
                (Exhausted { capacity: old(self).capacity() }),
            ) && final(self).entries() == old(self).entries() && old(self).entries().len() == old(self).capacity(),
            old(self).policy().obeys_retain_spec() && old(self).entries().len() == old(self).capacity() ==> final(self).entries() == swept(
                old(self).entries(),
                old(self).policy(),
                old(self).time(),
            ),
    {
        proof {
            self.lemma_len();
        }
        let len0 = self.routes.len();
        if len0 < self.capacity {
            return Ok(self.capacity - len0);
        }
        let now_t = self.now.now();
        let ghost s0 = self.routes@;
        let ghost m0 = entry_map(s0);
        let ghost mut removed: Set<u64> = Set::empty();
        proof {
            assert(m0.remove_keys(removed) =~= m0);
        }
        let mut i: usize = 0;
        while i < self.routes.len()
            invariant
                keys_unique(self.routes@),
                i <= self.routes@.len(),
                self.capacity == old(self).capacity,
                self.retain == old(self).retain,
                self.now == old(self).now,
                now_t == self.now.ticks,
                s0 == old(self).routes@,
                m0 == entry_map(s0),
                keys_unique(s0),
                entry_map(self.routes@) == m0.remove_keys(removed),
                forall|k: u64|
                    removed.contains(k) ==> m0.contains_key(k) && (
                    self.retain.obeys_retain_spec() ==> !self.retain.retain_spec(
                        &m0[k],
                        now_t,
                    )),
                self.retain.obeys_retain_spec() ==> forall|j: int|
                    0 <= j < i ==> self.retain.retain_spec(
                        &(#[trigger] self.routes@[j]).1,
                        now_t,
                    ),
                self.routes@.len() < s0.len() || self.routes@ == s0,
            decreases self.routes@.len() - i,
        {
            let keep = self.retain.retain(&self.routes[i].1, now_t);
            if keep {
                i = i + 1;
            } else {
                proof {
                    let cur = self.routes@;
                    let ki = cur[i as int].0;
                    lemma_entry_map_index(cur);
                    assert(entry_map(cur).contains_key(ki));
                    assert(m0.contains_key(ki));
                    assert(m0[ki] == entry_map(cur)[ki]);
                    assert(entry_map(cur)[ki] == cur[i as int].1);
                    lemma_swap_remove_entry_map(cur, i as int);
                    assert(m0.remove_keys(removed).remove(ki) =~= m0.remove_keys(
                        removed.insert(ki),
                    ));
                    removed = removed.insert(ki);
                }
                let _evicted = self.routes.swap_remove(i);
            }
        }
        proof {
            lemma_entry_map_dom(self.routes@);
            lemma_entry_map_index(self.routes@);
            lemma_entry_map_len(self.routes@);
            lemma_entry_map_dom(s0);
            lemma_entry_map_index(s0);
            lemma_entry_map_len(s0);
            assert(entry_map(self.routes@).submap_of(m0)) by {
                assert forall|k: u64| entry_map(self.routes@).contains_key(k) implies m0.contains_key(
                    k,
                ) && entry_map(self.routes@)[k] == m0[k] by {
                    assert(m0.remove_keys(removed).contains_key(k));
                }
            }
            if self.retain.obeys_retain_spec() {
                let m1 = entry_map(self.routes@);
                let sw = swept(m0, self.retain, now_t);
                assert forall|k: u64| m1.contains_key(k) implies sw.contains_key(k)
                    && m1[k] == sw[k] by {
                    assert(has_key(self.routes@, k));
                    let j = choose|j: int|
                        0 <= j < self.routes@.len() && self.routes@[j].0 == k;
                    assert(self.retain.retain_spec(&self.routes@[j].1, now_t));
                    assert(m1[k] == self.routes@[j].1);
                    assert(m0.contains_key(k) && m0[k] == m1[k]);
                }
                assert forall|k: u64| sw.contains_key(k) implies m1.contains_key(k) by {
                    assert(m0.contains_key(k) && self.retain.retain_spec(&m0[k], now_t));
                    assert(!removed.contains(k));
                    assert(m0.remove_keys(removed).contains_key(k));
                }
                assert(m1 =~= sw);
            }
        }
        let len2 = self.routes.len();
        if len2 < self.capacity {
            Ok(self.capacity - len2)
        } else {
            proof {
                assert(self.routes@.len() == s0.len());
                assert(self.routes@ == s0);
            }
            Err(Exhausted { capacity: self.capacity })
        }
    }

    /// Stores a route in the cache under `key`, stamped with the current
    /// time.
    ///
    /// Capacity is reserved first; if the cache is full, routes the
    /// policy does not retain are evicted to create space. If no capacity
    /// can be reclaimed, an error is returned and the cache is unchanged.
    /// Storing under a key already present replaces that route.
    pub fn store(&mut self, key: u64, route: V) -> (r: Result<(), Exhausted>)
        requires
            old(self).wf(),
        ensures
            final(self).wf(),
            final(self).capacity() == old(self).capacity(),
            final(self).policy() == old(self).policy(),
            final(self).time() == old(self).time(),
            final(self).entries().len() <= old(self).capacity(),
            r is Err ==> r == Err::<(), Exhausted>((Exhausted { capacity: old(self).capacity() }))
                && final(self).entries() == old(self).entries() && old(self).entries().len() == old(self).capacity(),
            r is Ok ==> final(self).entries().contains_key(key) && final(self).entries()[key]
                == (Node { target: route, last_access: old(self).time() }) && forall|k2: u64|
                k2 != key && #[trigger] final(self).entries().contains_key(k2) ==> old(self).entries().contains_key(k2) && final(self).entries()[k2] == old(self).entries()[k2],
            old(self).entries().len() < old(self).capacity() ==> r is Ok && final(self).entries()
                == old(self).entries().insert(
                key,
                (Node { target: route, last_access: old(self).time() }),
            ),
            old(self).policy().obeys_retain_spec() && old(self).entries().len() == old(self).capacity() ==> ({
                let kept = swept(old(self).entries(), old(self).policy(), old(self).time());
                &&& (r is Ok <==> kept.len() < old(self).capacity())
                &&& (r is Ok ==> final(self).entries() == kept.insert(
                    key,
                    (Node { target: route, last_access: old(self).time() }),
                ))
            }),
    {
        match self.reserve() {
            Err(e) => {
                return Err(e);
            },
            Ok(_) => {},
        }
        let ghost after_reserve = self.entries();
        let previous = self.access(&key);
        proof {
            self.lemma_len();
            lemma_entry_map_dom(self.routes@);
        }
        let t = self.now.now();
        proof {
            lemma_push_entry_map(self.routes@, (key, (Node { target: route, last_access: t })));
        }
        self.routes.push((key, Node::new(route, t)));
        proof {
            assert(after_reserve.remove(key).insert(
                key,
                (Node { target: route, last_access: t }),
            ) =~= after_reserve.insert(key, (Node { target: route, last_access: t })));
            if old(self).entries().len() < old(self).capacity() {
                assert(old(self).entries().remove(key).insert(
                    key,
                    (Node { target: route, last_access: t }),
                ) =~= old(self).entries().insert(
                    key,
                    (Node { target: route, last_access: t }),
                ));
            }
        }
        Ok(())
    }
}

} // verus!
