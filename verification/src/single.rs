//! A recognition strategy for a single static route.
//!
//! [`Single`] answers every request with the same key and hands out the
//! one service it was built with on the first bind. That service exists
//! once only: a second bind reports a route error.

use vstd::prelude::*;

use crate::{Recognize, Service};

verus! {

/// Routes every request to one service.
pub struct Single<S>(Option<S>);

impl<S: Service> Single<S> {
    /// Creates a strategy that will bind `svc` to the single route.
    pub fn new(svc: S) -> (r: Self)
        ensures
            r.service() == Some(svc),
    {
        Single(Some(svc))
    }

    /// The service not yet bound, if any.
    pub closed spec fn service(&self) -> Option<S> {
        self.0
    }
}

impl<S: Service> Recognize for Single<S> {
    type Request = S::Request;

    type Response = S::Response;

    type Error = S::Error;

    type RouteError = ();

    type Service = S;

    open spec fn obeys_recognize_spec(&self) -> bool {
        true
    }

    open spec fn recognize_spec(&self, req: &S::Request) -> Option<u64> {
        Some(0u64)
    }

    fn recognize(&self, req: &S::Request) -> (r: Option<u64>) {
        Some(0u64)
    }

    fn bind_service(&mut self, key: &u64) -> (r: Result<S, ()>) {
        let mut slot: Option<S> = None;
        core::mem::swap(&mut self.0, &mut slot);
        match slot {
            Some(s) => Ok(s),
            None => Err(()),
        }
    }
}

} // verus!
