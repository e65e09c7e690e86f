//! Keeps an account of how many requests are active, with a counter of
//! its own.
//!
//! [`HttpIdle`] adapts a request handler exactly as
//! [`crate::http_activity::HttpActivity`] does, but carries its private
//! [`Idle`] counter rather than the shared activity tracker, for callers
//! that want idleness accounting without exposing the tracker type.

use vstd::prelude::*;

use crate::idle::IsIdle;
use crate::Service;

verus! {

/// Counts the number of active messages to determine idleness.
struct Idle {
    /// The number of [`Active`] tokens out.
    count: u64,
}

/// A handle that stands for one outstanding unit of work.
#[derive(Debug)]
pub struct Active {
    _unit: (),
}

impl Idle {
    /// Begins a unit of work, returning the token that stands for it.
    fn active(&mut self) -> (a: Active)
        requires
            old(self).count < u64::MAX,
        ensures
            final(self).count == old(self).count + 1,
    {
        self.count = self.count + 1;
        Active { _unit: () }
    }

    /// Ends the unit of work that `a` stands for.
    fn release(&mut self, a: Active)
        requires
            old(self).count > 0,
        ensures
            final(self).count == old(self).count - 1,
    {
        self.count = self.count - 1;
    }
}

/// A response together with the token that marks it outstanding.
///
/// The token is retired through [`HttpIdle::release`] once the response
/// has been fully consumed.
pub struct Respond<P> {
    /// The adapted handler's response.
    pub response: P,

    /// The unit of work the response still holds.
    pub token: Active,
}

/// A handler whose requests and responses are counted as activity.
pub struct HttpIdle<S> where S: Service {
    /// The handler being adapted.
    inner: S,

    /// One unit per in-flight request plus one per outstanding response.
    idle: Idle,
}

impl<S> HttpIdle<S> where S: Service {
    /// The number of outstanding units of work.
    pub closed spec fn count(&self) -> u64 {
        self.idle.count
    }

    /// The adapted handler.
    pub closed spec fn inner_service(&self) -> S {
        self.inner
    }

    /// Adapts `inner`, starting with no outstanding work.
    pub fn new(inner: S) -> (r: Self)
        ensures
            r.count() == 0,
            r.inner_service() == inner,
    {
        HttpIdle { inner, idle: Idle { count: 0 } }
    }

    /// Forwards readiness to the adapted handler.
    pub fn poll_ready(&mut self) -> (r: Result<(), S::Error>)
        ensures
            final(self).count() == old(self).count(),
    {
        self.inner.poll_ready()
    }

    /// Dispatches `req`, holding one unit of work for the duration of
    /// the call and attaching one to the response.
    pub fn call(&mut self, req: S::Request) -> (r: Result<Respond<S::Response>, S::Error>)
        requires
            old(self).count() < u64::MAX,
        ensures
            r is Ok ==> final(self).count() == old(self).count() + 1,
            r is Err ==> final(self).count() == old(self).count(),
    {
        let in_flight = self.idle.active();
        let result = self.inner.call(req);
        match result {
            Ok(rsp) => {
                self.idle.release(in_flight);
                let token = self.idle.active();
                Ok(Respond { response: rsp, token })
            },
            Err(e) => {
                self.idle.release(in_flight);
                Err(e)
            },
        }
    }

    /// Retires the unit of work a response carried.
    pub fn release(&mut self, token: Active)
        requires
            old(self).count() > 0,
        ensures
            final(self).count() == old(self).count() - 1,
    {
        self.idle.release(token);
    }
}

impl<S> IsIdle for HttpIdle<S> where S: Service {
    open spec fn obeys_is_idle_spec(&self) -> bool {
        true
    }

    open spec fn is_idle_spec(&self) -> bool {
        self.count() == 0
    }

    fn is_idle(&self) -> bool {
        self.idle.count == 0
    }
}

} // verus!
