//! End-to-end scenarios against the public router contract, with a
//! handler whose responses pin the route as active until dropped.

use std::cell::Cell;
use std::rc::Rc;

use route_cache::access::Node;
use route_cache::cache::Cache;
use route_cache::retain::{any_of, Const, MaxAccessAge, Or, Retain};
use route_cache::router::{Error, Router};
use route_cache::Service;

/// The request type routed in these tests.
enum Request {
    NotRecognized,
    Recognized(usize),
}

/// A token that keeps its route's activity count up until dropped.
#[derive(Debug)]
struct ActiveToken(Rc<Cell<usize>>);

impl Drop for ActiveToken {
    fn drop(&mut self) {
        self.0.set(self.0.get() - 1);
    }
}

/// A response carrying the service's accumulated value; holding it
/// keeps the route active.
#[derive(Debug)]
struct Response {
    value: usize,
    _token: ActiveToken,
}

/// A service with state `v = 1` that on request `n` sets `v := v * n`,
/// returns `v`, and remains non-idle while a response token is held.
struct MultiplyAndAssign {
    value: usize,
    active: Rc<Cell<usize>>,
}

impl MultiplyAndAssign {
    fn new() -> Self {
        Self { value: 1, active: Rc::new(Cell::new(0)) }
    }

    fn is_idle(&self) -> bool {
        self.active.get() == 0
    }
}

impl Service for MultiplyAndAssign {
    type Request = Request;
    type Response = Response;
    type Error = ();

    fn poll_ready(&mut self) -> Result<(), ()> {
        Ok(())
    }

    fn call(&mut self, req: Request) -> Result<Response, ()> {
        let n = match req {
            Request::NotRecognized => unreachable!(),
            Request::Recognized(n) => n,
        };
        self.value *= n;
        self.active.set(self.active.get() + 1);
        Ok(Response { value: self.value, _token: ActiveToken(self.active.clone()) })
    }
}

/// A strategy that recognizes `Recognized(n)` as key `n`.
struct Recognize;

impl route_cache::Recognize for Recognize {
    type Request = Request;
    type Response = Response;
    type Error = ();
    type RouteError = ();
    type Service = MultiplyAndAssign;

    fn recognize(&self, req: &Request) -> Option<u64> {
        match *req {
            Request::NotRecognized => None,
            Request::Recognized(n) => Some(n as u64),
        }
    }

    fn bind_service(&mut self, _: &u64) -> Result<MultiplyAndAssign, ()> {
        Ok(MultiplyAndAssign::new())
    }
}

/// Retains a route while its service has outstanding responses.
struct RetainWhileActive;

impl Retain<MultiplyAndAssign> for RetainWhileActive {
    fn retain(&self, node: &Node<MultiplyAndAssign>, _: u64) -> bool {
        !node.target.is_idle()
    }
}

fn call_ok<R: Retain<MultiplyAndAssign>>(
    router: &mut Router<Recognize, R>,
    req: Request,
) -> Response {
    router.call(req).poll().expect("should route")
}

fn call_err<R: Retain<MultiplyAndAssign>>(
    router: &mut Router<Recognize, R>,
    req: Request,
) -> Error<(), ()> {
    router.call(req).poll().expect_err("should not route")
}

#[test]
fn recognition_failure() {
    let mut router = Router::new(Recognize, 1, Const::always());
    let err = call_err(&mut router, Request::NotRecognized);
    assert_eq!(err, Error::NotRecognized);
    assert_eq!(router.cached_routes(), 0);
}

#[test]
fn reuse_after_drop() {
    let mut router = Router::new(Recognize, 1, Const::always());
    let rsp = call_ok(&mut router, Request::Recognized(2));
    assert_eq!(rsp.value, 2);
    drop(rsp);
    let rsp = call_ok(&mut router, Request::Recognized(2));
    assert_eq!(rsp.value, 4);
}

#[test]
fn capacity_exhaustion_while_held() {
    let mut router = Router::new(Recognize, 1, Const::always());
    let rsp = call_ok(&mut router, Request::Recognized(2));
    assert_eq!(rsp.value, 2);
    let err = call_err(&mut router, Request::Recognized(3));
    assert_eq!(err, Error::NoCapacity(1));
    drop(rsp);
}

#[test]
fn idle_reclamation() {
    let mut router = Router::new(Recognize, 1, Const::never());
    let rsp = call_ok(&mut router, Request::Recognized(2));
    assert_eq!(rsp.value, 2);
    drop(rsp);
    let rsp = call_ok(&mut router, Request::Recognized(3));
    // A new binding: the value restarts from one.
    assert_eq!(rsp.value, 3);
}

fn active_or_max_age(age: u64) -> Or<RetainWhileActive, MaxAccessAge> {
    any_of(RetainWhileActive, MaxAccessAge::new(age))
}

#[test]
fn idle_and_age_policy_virtual_clock() {
    let mut router = Router::new(Recognize, 1, active_or_max_age(10));

    // t = 0: bind key 1 and drop the response immediately.
    let rsp = call_ok(&mut router, Request::Recognized(1));
    drop(rsp);

    // t = 5: idle, but the entry's age of five ticks is within budget.
    router.advance_clock(5);
    let err = call_err(&mut router, Request::Recognized(2));
    assert_eq!(err, Error::NoCapacity(1));

    // t = 11: the age is now over the budget, so the route is evicted.
    router.advance_clock(6);
    let rsp = call_ok(&mut router, Request::Recognized(2));
    assert_eq!(rsp.value, 2);
    drop(rsp);
}

#[test]
fn active_pin() {
    let mut router = Router::new(Recognize, 1, active_or_max_age(10));

    // t = 0: bind key 1 and keep the response.
    let held = call_ok(&mut router, Request::Recognized(1));
    assert_eq!(held.value, 1);

    // t = 100: far over the age budget, yet still active, so retained.
    router.advance_clock(100);
    let err = call_err(&mut router, Request::Recognized(2));
    assert_eq!(err, Error::NoCapacity(1));

    // Once the response is dropped, the idle route may be reclaimed.
    drop(held);
    let rsp = call_ok(&mut router, Request::Recognized(2));
    assert_eq!(rsp.value, 2);
}

#[test]
fn active_entry_survives_sweep() {
    let mut cache: Cache<MultiplyAndAssign, RetainWhileActive> =
        Cache::new(1, RetainWhileActive);

    let mut service = MultiplyAndAssign::new();
    let rsp = service.call(Request::Recognized(2)).unwrap();
    cache.store(7, service).unwrap();

    // The held response keeps the stored route active: no sweep frees it.
    assert!(cache.reserve().is_err());
    assert_eq!(cache.len(), 1);

    drop(rsp);
    assert_eq!(cache.reserve(), Ok(1));
    assert_eq!(cache.len(), 0);
}
