//! A request router with a bounded, policy-driven route cache.
//!
//! For each request the router computes a route key, looks up or lazily
//! binds a per-key handler, dispatches the request through that handler,
//! and keeps the handler warm in a capacity-bounded cache so later
//! requests with the same key reuse it. A retention policy decides which
//! idle entries may be evicted to make room for new ones.
//!
//! Time is modelled as a virtual monotonic clock of integer ticks that the
//! caller advances explicitly; all cache and router operations are
//! deterministic in the clock reading, which lets every contract pin the
//! access-time bookkeeping down exactly.

use vstd::prelude::*;

pub mod access;
pub mod activity;
pub mod cache;
pub mod http_activity;
pub mod http_idle;
pub mod idle;
pub mod retain;
pub mod router;
pub mod single;

pub use crate::access::{Access, Clock, Node, Now};
pub use crate::activity::TrackActivity;
pub use crate::idle::IsIdle;
pub use crate::router::{Error, ResponseFuture, Router};
pub use crate::single::Single;

verus! {

/// Provides a strategy for routing a request to a service.
///
/// Implementors choose the request, response and error types and the
/// service that handles a route. The `recognize()` method determines the
/// key for a given request; the key is used to look up a route in a cache
/// or is passed to `bind_service` to instantiate the identified route.
///
/// Route keys are plain `u64` identifiers: callers that route on richer
/// data reduce it to an integer key in `recognize`.
pub trait Recognize {
    /// Requests handled by the routed services.
    type Request;

    /// Responses given by the routed services.
    type Response;

    /// Errors produced by the routed services.
    type Error;

    /// Error produced by failed routing.
    type RouteError;

    /// A route.
    type Service: Service<
        Request = Self::Request,
        Response = Self::Response,
        Error = Self::Error,
    >;

    /// True when `recognize` is pinned down by `recognize_spec`.
    ///
    /// Implementations that do not state their recognition function leave
    /// the default, under which the router's key-dependent postconditions
    /// are vacuous.
    open spec fn obeys_recognize_spec(&self) -> bool {
        false
    }

    /// The key, if any, that `recognize` assigns to a request.
    open spec fn recognize_spec(&self, req: &Self::Request) -> Option<u64> {
        arbitrary()
    }

    /// Determines the key for a route to handle the given request.
    fn recognize(&self, req: &Self::Request) -> (r: Option<u64>)
        ensures
            self.obeys_recognize_spec() ==> r == self.recognize_spec(req),
    ;

    /// Returns a `Service` to handle requests for `key`.
    ///
    /// The returned service must be immediately ready to serve.
    fn bind_service(&mut self, key: &u64) -> Result<Self::Service, Self::RouteError>;
}

/// A service that turns requests into responses.
///
/// This is the downstream contract of every route handler. Calls are
/// synchronous: the caller gets the response, or the service's error,
/// before control returns.
pub trait Service {
    /// Requests accepted by the service.
    type Request;

    /// Responses produced by the service.
    type Response;

    /// Errors produced by the service.
    type Error;

    /// Reports whether the service can accept a call.
    fn poll_ready(&mut self) -> Result<(), Self::Error>;

    /// Handles a request.
    fn call(&mut self, req: Self::Request) -> Result<Self::Response, Self::Error>;
}

} // verus!
