//! The request router: recognize, then cache-or-bind, then dispatch.
//!
//! [`Router::call`] computes a key for the request, reuses the cached
//! route for that key when one exists, and otherwise reserves cache
//! space, binds a fresh route and stores it. Every outcome is returned
//! as a [`ResponseFuture`] that resolves, on its single poll, to the
//! response or to one of the four routing errors.

use vstd::prelude::*;

use crate::access::Node;
use crate::cache::{swept, Cache};
use crate::retain::Retain;
use crate::{Recognize, Service};

verus! {

/// Routes requests based on a configurable key.
pub struct Router<T, R> where T: Recognize, R: Retain<T::Service> {
    /// The bounded route cache.
    cache: Cache<T::Service, R>,

    /// The strategy that recognizes keys and binds routes.
    recognize: T,

    /// How many times `bind_service` has been called.
    binds: Ghost<nat>,
}

/// The errors a routed request can end with.
#[derive(Debug, PartialEq)]
pub enum Error<T, U> {
    /// The routed service failed.
    Inner(T),
    /// Binding a route for a recognized key failed.
    Route(U),
    /// The cache is full and the policy retained every route.
    NoCapacity(usize),
    /// The request matched no route.
    NotRecognized,
}

/// What a [`ResponseFuture`] will resolve to.
pub enum State<T> where T: Recognize {
    /// The dispatched call's outcome, successful or not.
    Inner(Result<T::Response, T::Error>),
    /// Binding failed with this error.
    RouteError(T::RouteError),
    /// The cache was full at this capacity.
    NoCapacity(usize),
    /// The request was not recognized.
    NotRecognized,
    /// Already resolved; polling again is a caller error.
    Invalid,
}

/// A response that resolves on its first poll.
pub struct ResponseFuture<T> where T: Recognize {
    /// The pending outcome.
    pub state: State<T>,
}

impl<T> ResponseFuture<T> where T: Recognize {
    /// Resolves the future.
    ///
    /// The outcome is handed out exactly once; the future then holds
    /// [`State::Invalid`], and polling it again is excluded by contract,
    /// as the outcome has been moved out.
    pub fn poll(&mut self) -> (r: Result<T::Response, Error<T::Error, T::RouteError>>)
        requires
            !(old(self).state is Invalid),
        ensures
            final(self).state is Invalid,
            match old(self).state {
                State::Inner(res) => match res {
                    Ok(v) => r == Ok::<T::Response, Error<T::Error, T::RouteError>>(v),
                    Err(e) => r == Err::<T::Response, Error<T::Error, T::RouteError>>(
                        Error::Inner(e),
                    ),
                },
                State::RouteError(e) => r == Err::<T::Response, Error<T::Error, T::RouteError>>(
                    Error::Route(e),
                ),
                State::NoCapacity(n) => r == Err::<T::Response, Error<T::Error, T::RouteError>>(
                    Error::NoCapacity(n),
                ),
                State::NotRecognized => r == Err::<T::Response, Error<T::Error, T::RouteError>>(
                    Error::NotRecognized,
                ),
                State::Invalid => false,
            },
    {
        let mut state = State::Invalid;
        core::mem::swap(&mut self.state, &mut state);
        match state {
            State::Inner(Ok(v)) => Ok(v),
            State::Inner(Err(e)) => Err(Error::Inner(e)),
            State::RouteError(e) => Err(Error::Route(e)),
            State::NoCapacity(n) => Err(Error::NoCapacity(n)),
            State::NotRecognized => Err(Error::NotRecognized),
            State::Invalid => vstd::pervasive::unreached(),
        }
    }
}

impl<T, U> Error<T, U> {
    /// A short, static description of the error.
    pub fn description(&self) -> (s: &'static str)
        ensures
            self is Inner ==> s@ == "inner service error"@,
            self is Route ==> s@ == "route recognition failed"@,
            self is NoCapacity ==> s@ == "router capacity reached"@,
            self is NotRecognized ==> s@ == "route not recognized"@,
    {
        match self {
            Error::Inner(_) => "inner service error",
            Error::Route(_) => "route recognition failed",
            Error::NoCapacity(_) => "router capacity reached",
            Error::NotRecognized => "route not recognized",
        }
    }
}

/// The entry for `k` was refreshed at time `t`; all else is unchanged.
pub open spec fn refreshed_at<V>(
    pre: Map<u64, Node<V>>,
    post: Map<u64, Node<V>>,
    k: u64,
    t: u64,
) -> bool {
    &&& post.dom() == pre.dom()
    &&& post.contains_key(k)
    &&& post[k].last_access == t
    &&& forall|k2: u64| #[trigger] post.contains_key(k2) && k2 != k ==> post[k2] == pre[k2]
}

/// An entry for `k` stamped at `t` was added to a subset of `pre`.
pub open spec fn stored_at<V>(
    pre: Map<u64, Node<V>>,
    post: Map<u64, Node<V>>,
    k: u64,
    t: u64,
) -> bool {
    &&& post.contains_key(k)
    &&& post[k].last_access == t
    &&& forall|k2: u64|
        #[trigger] post.contains_key(k2) && k2 != k ==> pre.contains_key(k2) && post[k2] == pre[k2]
}

impl<T, R> Router<T, R> where T: Recognize, R: Retain<T::Service> {
    /// The entries of the route cache.
    pub closed spec fn entries(&self) -> Map<u64, Node<T::Service>> {
        self.cache.entries()
    }

    /// The capacity the router was built with.
    pub closed spec fn capacity(&self) -> usize {
        self.cache.capacity()
    }

    /// The retention policy the router was built with.
    pub closed spec fn policy(&self) -> R {
        self.cache.policy()
    }

    /// The router clock's current reading.
    pub closed spec fn time(&self) -> u64 {
        self.cache.time()
    }

    /// The recognition strategy in its current state.
    pub closed spec fn factory(&self) -> T {
        self.recognize
    }

    /// How many routes have been bound so far.
    pub closed spec fn binds(&self) -> nat {
        self.binds@
    }

    /// Well-formedness of the underlying cache.
    pub closed spec fn wf(&self) -> bool {
        self.cache.wf()
    }

    /// A well-formed router holds at most `capacity` routes.
    pub proof fn lemma_wf_len(&self)
        requires
            self.wf(),
        ensures
            self.entries().dom().finite(),
            self.entries().len() <= self.capacity(),
            self.capacity() >= 1,
    {
        self.cache.lemma_wf_len();
    }

    /// Creates a router over `recognize` whose cache is bounded by
    /// `capacity` and swept by `retain`, with its clock at zero.
    pub fn new(recognize: T, capacity: usize, retain: R) -> (router: Self)
        requires
            capacity >= 1,
        ensures
            router.wf(),
            router.entries() == Map::<u64, Node<T::Service>>::empty(),
            router.capacity() == capacity,
            router.policy() == retain,
            router.time() == 0,
            router.factory() == recognize,
            router.binds() == 0,
    {
        Router { cache: Cache::new(capacity, retain), recognize, binds: Ghost(0) }
    }

    /// Moves the router's clock forward by `d` ticks.
    pub fn advance_clock(&mut self, d: u64)
        requires
            old(self).time() + d <= u64::MAX,
        ensures
            final(self).entries() == old(self).entries(),
            final(self).capacity() == old(self).capacity(),
            final(self).policy() == old(self).policy(),
            final(self).factory() == old(self).factory(),
            final(self).binds() == old(self).binds(),
            final(self).time() == old(self).time() + d,
            final(self).wf() == old(self).wf(),
    {
        self.cache.advance_clock(d);
    }

    /// The number of routes held in the cache.
    pub fn cached_routes(&self) -> (n: usize)
        requires
            self.wf(),
        ensures
            n == self.entries().len(),
    {
        self.cache.len()
    }

    /// Always ready to serve.
    ///
    /// Graceful backpressure is **not** supported at this level, since
    /// each request may be routed to different resources. Instead,
    /// requests should be issued and each route should support a queue
    /// of requests.
    pub fn poll_ready(&mut self) -> (r: Result<(), Error<T::Error, T::RouteError>>)
        ensures
            *final(self) == *old(self),
            r == Ok::<(), Error<T::Error, T::RouteError>>(()),
    {
        Ok(())
    }

    /// Routes the request through an underlying service.
    ///
    /// The response resolves to an error when the request cannot be
    /// routed: `NotRecognized` when no key is assigned, `NoCapacity`
    /// when the cache is full and the sweep freed nothing, `Route` when
    /// binding fails. A cached route is reused without binding; a fresh
    /// route receives the request before it is stored, and is stored
    /// stamped with the current time.
    pub fn call(&mut self, request: T::Request) -> (rf: ResponseFuture<T>)
        requires
            old(self).wf(),
        ensures
            final(self).wf(),
            final(self).capacity() == old(self).capacity(),
            final(self).policy() == old(self).policy(),
            final(self).time() == old(self).time(),
            final(self).entries().len() <= old(self).capacity(),
            !(rf.state is Invalid),
            rf.state is NotRecognized ==> *final(self) == *old(self),
            rf.state matches State::NoCapacity(n) ==> n == old(self).capacity() && final(self).binds() == old(self).binds() && final(self).factory() == old(self).factory()
                && final(self).entries().submap_of(old(self).entries()) && final(self).entries().len() == old(self).capacity(),
            rf.state is RouteError ==> final(self).binds() == old(self).binds() + 1 && final(self).entries().submap_of(old(self).entries()),
            rf.state is Inner ==> (final(self).binds() == old(self).binds() && final(self).factory()
                == old(self).factory() && (exists|k: u64|
                refreshed_at(old(self).entries(), final(self).entries(), k, old(self).time())))
                || (final(self).binds() == old(self).binds() + 1 && (exists|k: u64|
                stored_at(old(self).entries(), final(self).entries(), k, old(self).time()))),
            old(self).factory().obeys_recognize_spec() ==> match old(self).factory().recognize_spec(
                &request,
            ) {
                None => rf.state is NotRecognized,
                Some(k) => {
                    &&& !(rf.state is NotRecognized)
                    &&& (old(self).entries().contains_key(k) ==> rf.state is Inner && final(self).binds() == old(self).binds() && final(self).factory() == old(self).factory()
                        && refreshed_at(
                        old(self).entries(),
                        final(self).entries(),
                        k,
                        old(self).time(),
                    ))
                    &&& (!old(self).entries().contains_key(k) && rf.state is Inner ==> final(self).binds() == old(self).binds() + 1 && stored_at(
                        old(self).entries(),
                        final(self).entries(),
                        k,
                        old(self).time(),
                    ))
                    &&& (old(self).policy().obeys_retain_spec() ==> (rf.state is NoCapacity <==> {
                        &&& !old(self).entries().contains_key(k)
                        &&& old(self).entries().len() == old(self).capacity()
                        &&& swept(
                            old(self).entries(),
                            old(self).policy(),
                            old(self).time(),
                        ).len() == old(self).capacity()
                    }))
                },
            },
    {
        proof {
            old(self).cache.lemma_wf_len();
        }
        let key = match self.recognize.recognize(&request) {
            None => {
                return ResponseFuture { state: State::NotRecognized };
            },
            Some(k) => k,
        };

        // First, try to load a cached route for `key`.
        match self.cache.access(&key) {
            Some(mut acc) => {
                let result = acc.node.target.call(request);
                proof {
                    self.cache.lemma_wf_len();
                }
                self.cache.release(key, acc);
                proof {
                    assert(self.cache.entries().dom() =~= old(self).cache.entries().dom());
                    assert(refreshed_at(
                        old(self).entries(),
                        self.entries(),
                        key,
                        old(self).time(),
                    ));
                }
                return ResponseFuture { state: State::Inner(result) };
            },
            None => {},
        }

        // Since there wasn't a cached route, ensure that there is
        // capacity for a new one.
        match self.cache.reserve() {
            Err(e) => {
                return ResponseFuture { state: State::NoCapacity(e.capacity) };
            },
            Ok(_) => {},
        }

        // Bind a new route, send the request on the route, and cache the
        // route.
        self.binds = Ghost(self.binds@ + 1);
        let mut service = match self.recognize.bind_service(&key) {
            Ok(s) => s,
            Err(e) => {
                return ResponseFuture { state: State::RouteError(e) };
            },
        };

        let response = service.call(request);
        match self.cache.store(key, service) {
            Ok(()) => {},
            Err(_) => {
                return vstd::pervasive::unreached();
            },
        }
        proof {
            assert(stored_at(old(self).entries(), self.entries(), key, old(self).time()));
        }
        ResponseFuture { state: State::Inner(response) }
    }
}

} // verus!
