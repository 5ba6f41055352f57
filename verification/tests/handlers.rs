use std::sync::atomic::{AtomicUsize, Ordering};
use std::sync::{Arc, Mutex};
use viz::handler::responder::convert;
use viz::{
    After, Around, Before, BoxHandler, CatchUnwind, Caught, Either, Error, Handler, IntoResponse,
    Method, Next, Request, Responder, Response, Route,
};

fn request(method: Method) -> Request {
    Request { method, path: "/".to_string(), headers: Vec::new(), body: Vec::new() }
}

fn bare(status: u16) -> Response {
    Response { status, headers: Vec::new(), body: Vec::new() }
}

/// Doubles a number.
#[derive(Clone)]
struct Double;

impl Handler<u32> for Double {
    type Output = u32;

    fn call(&self, n: u32) -> u32 {
        n * 2
    }
}

/// Adds a fixed number.
#[derive(Clone)]
struct Plus(u32);

impl Handler<u32> for Plus {
    type Output = u32;

    fn call(&self, n: u32) -> u32 {
        n + self.0
    }
}

#[test]
fn either_dispatches_to_the_active_variant() {
    let left: Either<Double, Plus> = Either::Left(Double);
    let right: Either<Double, Plus> = Either::Right(Plus(7));
    for n in [0u32, 1, 5, 1000] {
        assert_eq!(left.call(n), Double.call(n));
        assert_eq!(right.call(n), Plus(7).call(n));
    }
    assert_eq!(left.call(21), 42);
    assert_eq!(right.call(21), 28);
}

#[test]
fn either_clone_keeps_the_variant() {
    let left: Either<Double, Plus> = Either::Left(Double);
    assert_eq!(left.clone().call(4), 8);
    let right: Either<Double, Plus> = Either::Right(Plus(1));
    assert_eq!(right.clone().call(4), 5);
}

#[test]
fn either_hands_a_failure_on() {
    #[derive(Clone)]
    struct Fail;

    impl Handler<Request> for Fail {
        type Output = Result<(), Error>;

        fn call(&self, _: Request) -> Result<(), Error> {
            Err(Error { status: 500, message: "down".to_string() })
        }
    }

    #[derive(Clone)]
    struct Fine;

    impl Handler<Request> for Fine {
        type Output = Result<(), Error>;

        fn call(&self, _: Request) -> Result<(), Error> {
            Ok(())
        }
    }

    let either: Either<Fail, Fine> = Either::Left(Fail);
    assert_eq!(
        either.call(request(Method::GET)),
        Err(Error { status: 500, message: "down".to_string() })
    );
    let either: Either<Fail, Fine> = Either::Right(Fine);
    assert_eq!(either.call(request(Method::GET)), Ok(()));
}

#[test]
fn before_transforms_the_input() {
    let h = Before::new(Double, Plus(1));
    assert_eq!(h.call(3), 8);
    assert_eq!(h.clone().call(0), 2);
}

#[test]
fn after_transforms_the_output() {
    let h = After::new(Double, Plus(1));
    assert_eq!(h.call(3), 7);
    assert_eq!(h.clone().call(0), 1);
}

/// Counts its calls and hands the input back.
#[derive(Clone)]
struct Counted(Arc<AtomicUsize>);

impl Handler<u32> for Counted {
    type Output = u32;

    fn call(&self, n: u32) -> u32 {
        self.0.fetch_add(1, Ordering::SeqCst);
        n
    }
}

#[test]
fn before_and_after_call_the_inner_handler_once() {
    let calls = Arc::new(AtomicUsize::new(0));
    let before = Before::new(Counted(calls.clone()), Plus(1));
    assert_eq!(before.call(1), 2);
    assert_eq!(calls.load(Ordering::SeqCst), 1);
    let after = After::new(Counted(calls.clone()), Plus(1));
    assert_eq!(after.call(1), 2);
    assert_eq!(calls.load(Ordering::SeqCst), 2);
}

/// Calls the inner handler once on the input plus one and doubles the answer.
#[derive(Clone)]
struct Wrap;

impl<H: Handler<u32, Output = u32>> Handler<Next<u32, H>> for Wrap {
    type Output = u32;

    fn call(&self, (n, inner): Next<u32, H>) -> u32 {
        inner.call(n + 1) * 2
    }
}

/// Answers without the inner handler.
#[derive(Clone)]
struct Short;

impl<H: Send + 'static> Handler<Next<u32, H>> for Short {
    type Output = u32;

    fn call(&self, _: Next<u32, H>) -> u32 {
        99
    }
}

#[test]
fn around_decides_how_the_inner_handler_runs() {
    let calls = Arc::new(AtomicUsize::new(0));
    let wrapped = Around::new(Counted(calls.clone()), Wrap);
    assert_eq!(wrapped.call(4), 10);
    assert_eq!(calls.load(Ordering::SeqCst), 1);
    let short = Around::new(Counted(calls.clone()), Short);
    assert_eq!(short.call(4), 99);
    assert_eq!(calls.load(Ordering::SeqCst), 1);
    assert_eq!(short.clone().call(5), 99);
}

type Log = Arc<Mutex<Vec<String>>>;

/// Writes a line before and a line after the call of the inner handler.
#[derive(Clone)]
struct Layer {
    name: &'static str,
    log: Log,
}

impl<H: Handler<u32, Output = u32>> Handler<Next<u32, H>> for Layer {
    type Output = u32;

    fn call(&self, (n, inner): Next<u32, H>) -> u32 {
        self.log.lock().unwrap().push(format!("pre {}", self.name));
        let out = inner.call(n);
        self.log.lock().unwrap().push(format!("post {}", self.name));
        out
    }
}

#[derive(Clone)]
struct Core(Log);

impl Handler<u32> for Core {
    type Output = u32;

    fn call(&self, n: u32) -> u32 {
        self.0.lock().unwrap().push("core".to_string());
        n
    }
}

#[test]
fn around_layers_run_as_a_stack() {
    let log: Log = Arc::new(Mutex::new(Vec::new()));
    let layer = |name| Layer { name, log: log.clone() };
    let tower = Around::new(
        Around::new(
            Around::new(Around::new(Core(log.clone()), layer("1")), layer("2")),
            layer("3"),
        ),
        layer("4"),
    );
    assert_eq!(tower.call(5), 5);
    assert_eq!(
        *log.lock().unwrap(),
        vec!["pre 4", "pre 3", "pre 2", "pre 1", "core", "post 1", "post 2", "post 3", "post 4"]
    );
}

#[test]
fn responder_converts_a_success_and_keeps_a_failure() {
    #[derive(Clone)]
    struct Body(Result<Vec<u8>, Error>);

    impl Handler<Request> for Body {
        type Output = Result<Vec<u8>, Error>;

        fn call(&self, _: Request) -> Result<Vec<u8>, Error> {
            self.0.clone()
        }
    }

    let ok = Responder::new(Body(Ok(vec![1, 2, 3])));
    assert_eq!(
        ok.call(request(Method::GET)),
        Ok(Response { status: 200, headers: Vec::new(), body: vec![1, 2, 3] })
    );
    let failure = Error { status: 404, message: "none".to_string() };
    let err = Responder::new(Body(Err(failure.clone())));
    assert_eq!(err.call(request(Method::GET)), Err(failure.clone()));
    assert_eq!(err.clone().call(request(Method::GET)), Err(failure));
}

#[test]
fn convert_maps_only_the_success() {
    assert_eq!(convert(Ok(())), Ok(bare(200)));
    assert_eq!(convert(Ok(bare(301))), Ok(bare(301)));
    let failure = Error { status: 400, message: "bad".to_string() };
    assert_eq!(convert::<()>(Err(failure.clone())), Err(failure));
}

#[test]
fn values_become_responses() {
    assert_eq!(().into_response(), bare(200));
    assert_eq!(Response::default(), bare(200));
    assert_eq!(
        vec![104u8, 105].into_response(),
        Response { status: 200, headers: Vec::new(), body: b"hi".to_vec() }
    );
    let res = Response {
        status: 201,
        headers: vec![("location".to_string(), "/1".to_string())],
        body: vec![7],
    };
    assert_eq!(res.clone().into_response(), res);
    assert_eq!(
        Error { status: 503, message: "busy é".to_string() }.into_response(),
        Response { status: 503, headers: Vec::new(), body: "busy é".as_bytes().to_vec() }
    );
    let ok: Result<(), Error> = Ok(());
    assert_eq!(ok.into_response(), bare(200));
    let err: Result<(), Error> = Err(Error { status: 410, message: String::new() });
    assert_eq!(err.into_response(), bare(410));
}

#[test]
fn default_request_is_an_empty_get() {
    let req = Request::default();
    assert_eq!(
        req,
        Request { method: Method::GET, path: String::new(), headers: Vec::new(), body: Vec::new() }
    );
}

#[test]
fn method_all_is_the_standard_order() {
    assert_eq!(
        Method::all(),
        [
            Method::GET,
            Method::POST,
            Method::PUT,
            Method::DELETE,
            Method::HEAD,
            Method::OPTIONS,
            Method::CONNECT,
            Method::PATCH,
            Method::TRACE,
        ]
    );
}

#[test]
fn box_handler_behaves_as_the_handler_and_so_does_its_clone() {
    #[derive(Clone)]
    struct Path;

    impl Handler<Request> for Path {
        type Output = Result<Response, Error>;

        fn call(&self, req: Request) -> Result<Response, Error> {
            Ok(Response { status: 200, headers: Vec::new(), body: req.path.into_bytes() })
        }
    }

    let erased = BoxHandler::new(Path);
    let copy = erased.clone();
    let mut req = request(Method::GET);
    req.path = "/a/b".to_string();
    assert_eq!(erased.call(req.clone()), Path.call(req.clone()));
    assert_eq!(copy.call(req.clone()), Path.call(req));
}

#[test]
fn shared_handler_behaves_as_the_handler() {
    let shared = Arc::new(Plus(2));
    assert_eq!(shared.call(40), 42);
    assert_eq!(Arc::clone(&shared).call(1), 3);
}

/// The fallback of the tests: answers with the text of the payload.
#[derive(Clone)]
struct Report;

impl Handler<String> for Report {
    type Output = Error;

    fn call(&self, payload: String) -> Error {
        Error { status: 500, message: payload }
    }
}

#[derive(Clone)]
struct Never;

impl Handler<Request> for Never {
    type Output = Result<(), Error>;

    fn call(&self, _: Request) -> Result<(), Error> {
        Ok(())
    }
}

#[test]
fn settle_converts_what_a_completed_call_gave() {
    let guard = CatchUnwind::new(Never, Report);
    let done: Caught<Result<(), Error>, String> = Caught::Completed(Ok(()));
    assert_eq!(guard.settle(done), Ok(bare(200)));
    let failure = Error { status: 422, message: "no".to_string() };
    let failed: Caught<Result<(), Error>, String> = Caught::Completed(Err(failure.clone()));
    assert_eq!(guard.settle(failed), Err(failure));
}

#[test]
fn settle_answers_a_fault_with_the_fallback() {
    let guard = CatchUnwind::new(Never, Report);
    let fault: Caught<Result<(), Error>, String> = Caught::Unwound("boom".to_string());
    assert_eq!(
        guard.clone().settle(fault),
        Ok(Response { status: 500, headers: Vec::new(), body: b"boom".to_vec() })
    );
}

#[test]
fn settle_calls_the_fallback_only_after_a_fault() {
    #[derive(Clone)]
    struct CountingFallback(Arc<AtomicUsize>);

    impl Handler<u8> for CountingFallback {
        type Output = ();

        fn call(&self, _: u8) {
            self.0.fetch_add(1, Ordering::SeqCst);
        }
    }

    let calls = Arc::new(AtomicUsize::new(0));
    let guard = CatchUnwind::new(Never, CountingFallback(calls.clone()));
    let done: Caught<Result<(), Error>, u8> = Caught::Completed(Ok(()));
    assert_eq!(guard.settle(done), Ok(bare(200)));
    assert_eq!(calls.load(Ordering::SeqCst), 0);
    let fault: Caught<Result<(), Error>, u8> = Caught::Unwound(1);
    assert_eq!(guard.settle(fault), Ok(bare(200)));
    assert_eq!(calls.load(Ordering::SeqCst), 1);
}

/// Injects a header into the request.
#[derive(Clone)]
struct Inject;

impl Handler<Request> for Inject {
    type Output = Request;

    fn call(&self, mut req: Request) -> Request {
        req.headers.push(("x-injected".to_string(), "yes".to_string()));
        req
    }
}

/// Answers 200 with the headers of the request.
#[derive(Clone)]
struct EchoHeaders;

impl Handler<Request> for EchoHeaders {
    type Output = Result<Response, Error>;

    fn call(&self, req: Request) -> Result<Response, Error> {
        Ok(Response { status: 200, headers: req.headers, body: Vec::new() })
    }
}

/// Answers 403 and never calls the inner handler.
#[derive(Clone)]
struct Forbid;

impl<H: Send + 'static> Handler<Next<Request, H>> for Forbid {
    type Output = Result<Response, Error>;

    fn call(&self, _: Next<Request, H>) -> Result<Response, Error> {
        Ok(bare(403))
    }
}

#[derive(Clone)]
struct CountedOk(Arc<AtomicUsize>);

impl Handler<Request> for CountedOk {
    type Output = Result<Response, Error>;

    fn call(&self, _: Request) -> Result<Response, Error> {
        self.0.fetch_add(1, Ordering::SeqCst);
        Ok(bare(200))
    }
}

#[test]
fn end_to_end_dispatch() {
    let inner_calls = Arc::new(AtomicUsize::new(0));
    let route = Route::new()
        .get(Never)
        .post(Before::new(EchoHeaders, Inject))
        .put(Around::new(CountedOk(inner_calls.clone()), Forbid));

    let res = route.handler(Method::GET).unwrap().call(request(Method::GET)).unwrap();
    assert_eq!(res, bare(200));

    let res = route.handler(Method::POST).unwrap().call(request(Method::POST)).unwrap();
    assert_eq!(res.status, 200);
    assert_eq!(res.headers, vec![("x-injected".to_string(), "yes".to_string())]);

    let res = route.handler(Method::PUT).unwrap().call(request(Method::PUT)).unwrap();
    assert_eq!(res, bare(403));
    assert_eq!(inner_calls.load(Ordering::SeqCst), 0);

    assert!(route.handler(Method::DELETE).is_none());
}
