//! Keeps an account of how many requests and responses are active.
//!
//! [`HttpActivity`] adapts a request handler so that every in-flight
//! request and every outstanding response carries one unit of work in a
//! [`TrackActivity`] counter. A route is idle only when neither
//! direction has outstanding work, so a retention policy built on
//! [`IsIdle`] will not reclaim it while a response is still held.

use vstd::prelude::*;

use crate::activity::{Active, TrackActivity};
use crate::idle::IsIdle;
use crate::Service;

verus! {

/// A response together with the token that marks it outstanding.
///
/// The token is retired through [`HttpActivity::release`] once the
/// response has been fully consumed.
pub struct Respond<P> {
    /// The adapted handler's response.
    pub response: P,

    /// The unit of work the response still holds.
    pub token: Active,
}

/// A handler whose requests and responses are counted as activity.
pub struct HttpActivity<S> where S: Service {
    /// The handler being adapted.
    inner: S,

    /// One unit per in-flight request plus one per outstanding response.
    track: TrackActivity,
}

impl<S> HttpActivity<S> where S: Service {
    /// The number of outstanding units of work.
    pub closed spec fn count(&self) -> u64 {
        self.track.count
    }

    /// The adapted handler.
    pub closed spec fn inner_service(&self) -> S {
        self.inner
    }

    /// Adapts `inner`, starting with no outstanding work.
    pub fn new(inner: S) -> (r: Self)
        ensures
            r.count() == 0,
            r.inner_service() == inner,
    {
        HttpActivity { inner, track: TrackActivity::new() }
    }

    /// Forwards readiness to the adapted handler.
    pub fn poll_ready(&mut self) -> (r: Result<(), S::Error>)
        ensures
            final(self).count() == old(self).count(),
    {
        self.inner.poll_ready()
    }

    /// Dispatches `req`, holding one unit of work for the duration of
    /// the call and attaching one to the response.
    ///
    /// The unit attached to the response is retired when the response's
    /// token is handed back through [`HttpActivity::release`].
    pub fn call(&mut self, req: S::Request) -> (r: Result<Respond<S::Response>, S::Error>)
        requires
            old(self).count() < u64::MAX,
        ensures
            r is Ok ==> final(self).count() == old(self).count() + 1,
            r is Err ==> final(self).count() == old(self).count(),
    {
        let in_flight = self.track.active();
        let result = self.inner.call(req);
        match result {
            Ok(rsp) => {
                self.track.release(in_flight);
                let token = self.track.active();
                Ok(Respond { response: rsp, token })
            },
            Err(e) => {
                self.track.release(in_flight);
                Err(e)
            },
        }
    }

    /// Retires the unit of work a response carried.
    pub fn release(&mut self, token: Active)
        requires
            old(self).count() > 0,
        ensures
            final(self).count() == old(self).count() - 1,
    {
        self.track.release(token);
    }
}

impl<S> IsIdle for HttpActivity<S> where S: Service {
    open spec fn obeys_is_idle_spec(&self) -> bool {
        true
    }

    open spec fn is_idle_spec(&self) -> bool {
        self.count() == 0
    }

    fn is_idle(&self) -> bool {
        self.track.is_idle()
    }
}

} // verus!
