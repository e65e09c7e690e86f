use route_cache::retain::Const;
use route_cache::router::{Error, Router};
use route_cache::{Recognize as RecognizeStrategy, Service, Single};

/// The request type routed in these tests.
enum Request {
    NotRecognized,
    Recognized(usize),
}

/// A response carrying the service's accumulated value.
#[derive(Debug)]
struct Response {
    value: usize,
}

/// A service that updates its internal value with the product of that
/// and a request's value.
struct MultiplyAndAssign {
    value: usize,
}

/// A strategy that recognizes `Recognized(n)` as key `n` and binds it
/// with a fresh `MultiplyAndAssign`.
#[derive(Clone)]
struct Recognize;

impl Default for MultiplyAndAssign {
    fn default() -> Self {
        Self { value: 1 }
    }
}

impl Service for MultiplyAndAssign {
    type Request = Request;
    type Response = Response;
    type Error = ();

    fn poll_ready(&mut self) -> Result<(), ()> {
        panic!("not used in tests")
    }

    fn call(&mut self, req: Request) -> Result<Response, ()> {
        let n = match req {
            Request::NotRecognized => unreachable!(),
            Request::Recognized(n) => n,
        };
        self.value *= n;
        Ok(Response { value: self.value })
    }
}

impl route_cache::Recognize for Recognize {
    type Request = Request;
    type Response = Response;
    type Error = ();
    type RouteError = ();
    type Service = MultiplyAndAssign;

    fn recognize(&self, req: &Request) -> Option<u64> {
        match *req {
            Request::NotRecognized => None,
            Request::Recognized(n) => Some(n as u64),
        }
    }

    fn bind_service(&mut self, _: &u64) -> Result<MultiplyAndAssign, ()> {
        Ok(MultiplyAndAssign::default())
    }
}

impl From<usize> for Request {
    fn from(n: usize) -> Self {
        Request::Recognized(n)
    }
}

fn call_ok(router: &mut Router<Recognize, Const>, req: Request) -> Response {
    router.call(req).poll().expect("should route")
}

fn call_err(router: &mut Router<Recognize, Const>, req: Request) -> Error<(), ()> {
    router.call(req).poll().expect_err("should not route")
}

#[test]
fn invalid() {
    let mut router = Router::new(Recognize, 1, Const::always());

    let err = call_err(&mut router, Request::NotRecognized);
    assert_eq!(err, Error::NotRecognized);
}

#[test]
fn reuses_routes() {
    let mut router = Router::new(Recognize, 1, Const::always());

    let rsp = call_ok(&mut router, 2.into());
    assert_eq!(rsp.value, 2);

    let rsp = call_ok(&mut router, 2.into());
    assert_eq!(rsp.value, 4);
}

#[test]
fn limited_by_capacity() {
    let mut router = Router::new(Recognize, 1, Const::always());

    // Holding this response prevents the route from being evicted.
    let rsp = call_ok(&mut router, 2.into());
    assert_eq!(rsp.value, 2);

    let err = call_err(&mut router, 3.into());
    assert_eq!(err, Error::NoCapacity(1));
}

#[test]
fn reclaims_idle_capacity() {
    let mut router = Router::new(Recognize, 1, Const::never());

    let rsp = call_ok(&mut router, 2.into());
    assert_eq!(rsp.value, 2);

    let rsp = call_ok(&mut router, 3.into());
    assert_eq!(rsp.value, 3);
}

/// A strategy that recognizes every request but fails to bind.
struct NeverBinds;

impl route_cache::Recognize for NeverBinds {
    type Request = Request;
    type Response = Response;
    type Error = ();
    type RouteError = u32;
    type Service = MultiplyAndAssign;

    fn recognize(&self, _: &Request) -> Option<u64> {
        Some(1)
    }

    fn bind_service(&mut self, _: &u64) -> Result<MultiplyAndAssign, u32> {
        Err(404)
    }
}

#[test]
fn bind_failure_surfaces_route_error() {
    let mut router = Router::new(NeverBinds, 1, Const::always());
    let err = router.call(2.into()).poll().expect_err("bind fails");
    assert_eq!(err, Error::Route(404));
    assert_eq!(router.cached_routes(), 0);
}

/// A service that fails every request.
struct AlwaysFails;

impl Service for AlwaysFails {
    type Request = Request;
    type Response = Response;
    type Error = u32;

    fn poll_ready(&mut self) -> Result<(), u32> {
        Ok(())
    }

    fn call(&mut self, _: Request) -> Result<Response, u32> {
        Err(500)
    }
}

/// A strategy that binds every key with `AlwaysFails`.
struct FailingRoutes;

impl route_cache::Recognize for FailingRoutes {
    type Request = Request;
    type Response = Response;
    type Error = u32;
    type RouteError = ();
    type Service = AlwaysFails;

    fn recognize(&self, _: &Request) -> Option<u64> {
        Some(1)
    }

    fn bind_service(&mut self, _: &u64) -> Result<AlwaysFails, ()> {
        Ok(AlwaysFails)
    }
}

#[test]
fn handler_failure_surfaces_inner_error() {
    let mut router = Router::new(FailingRoutes, 1, Const::always());
    let err = router.call(2.into()).poll().expect_err("handler fails");
    assert_eq!(err, Error::Inner(500));
}

#[test]
fn error_descriptions() {
    assert_eq!(Error::<(), ()>::NotRecognized.description(), "route not recognized");
    assert_eq!(Error::<(), ()>::NoCapacity(1).description(), "router capacity reached");
    assert_eq!(Error::<(), ()>::Route(()).description(), "route recognition failed");
    assert_eq!(Error::<(), ()>::Inner(()).description(), "inner service error");
}

#[test]
fn single_binds_once() {
    let mut single = Single::new(MultiplyAndAssign::default());
    assert_eq!(single.recognize(&Request::Recognized(7)), Some(0));
    let mut svc = single.bind_service(&0).expect("first bind");
    assert_eq!(svc.call(3.into()).unwrap().value, 3);
    assert!(single.bind_service(&0).is_err());
}
