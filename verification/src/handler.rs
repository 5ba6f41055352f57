//! The handler capability and what is built directly on it: the
//! continuation handed to an around-middleware, the layering interface, and
//! the erased handle under which a route table keeps its handlers.
use std::sync::Arc;
use vstd::prelude::*;
use crate::types::{Error, Request, Response};

pub mod after;
pub mod around;
pub mod before;
pub mod either;
pub mod responder;
pub mod unwind;

verus! {

/// The capability of answering an input with an output.
///
/// `responds` is the behaviour of the handler: the outputs that a call may
/// give for an input. Two handlers behave alike when their `responds` agree.
/// A handler that does not say how it behaves may give any output.
pub trait Handler<I>: Clone + Send + Sync + 'static {
    type Output;

    /// Whether `output` is an answer that a call with `input` may give.
    open spec fn responds(&self, input: I, output: Self::Output) -> bool {
        true
    }

    fn call(&self, input: I) -> (output: Self::Output)
        ensures
            self.responds(input, output),
    ;
}

/// The continuation that an around-middleware receives: the input, and the
/// inner handler that has not been called yet.
pub type Next<I, H> = (I, H);

/// The layering interface: a mapping from a handler to the handler that wraps
/// it. The mapping is a function of the transform and the handler alone.
pub trait Transform<H> {
    type Output;

    /// The handler that `h` is wrapped into.
    spec fn transformed(&self, h: H) -> Self::Output;

    fn transform(&self, h: H) -> (wrapped: Self::Output)
        ensures
            wrapped == self.transformed(h),
    ;
}

/// Two handlers behave alike: on every input they may give the same outputs.
pub open spec fn equivalent<I, A, B>(a: A, b: B) -> bool where
    A: Handler<I>,
    B: Handler<I, Output = A::Output>,
 {
    forall|input: I, output: A::Output|
        #![trigger a.responds(input, output)]
        #![trigger b.responds(input, output)]
        a.responds(input, output) <==> b.responds(input, output)
}

/// What an erased handle dispatches to.
trait Erased: Send + Sync {
    spec fn answers(&self, req: Request, res: Result<Response, Error>) -> bool;

    fn serve(&self, req: Request) -> (res: Result<Response, Error>)
        ensures
            self.answers(req, res),
    ;
}

impl<H> Erased for H where H: Handler<Request, Output = Result<Response, Error>> {
    spec fn answers(&self, req: Request, res: Result<Response, Error>) -> bool {
        self.responds(req, res)
    }

    fn serve(&self, req: Request) -> (res: Result<Response, Error>) {
        self.call(req)
    }
}

/// One owned handle to a handler of unrelated concrete type: a request in,
/// a response or an error out. A route table keeps its handlers in this form.
pub struct BoxHandler {
    inner: Arc<Box<dyn Erased>>,
}

/// `std::sync::Arc::clone`: the new pointer leads to the allocation of the
/// given one, so the value behind it is the value behind the given one.
#[verifier::external_body]
pub(crate) fn share<T>(pointer: &Arc<T>) -> (shared: Arc<T>)
    ensures
        shared == *pointer,
{
    Arc::clone(pointer)
}

/// A shared handler behaves as the handler behind the pointer.
impl<I, H: Handler<I>> Handler<I> for Arc<H> {
    type Output = H::Output;

    open spec fn responds(&self, input: I, output: H::Output) -> bool {
        (**self).responds(input, output)
    }

    fn call(&self, input: I) -> (output: H::Output) {
        (**self).call(input)
    }
}

impl BoxHandler {
    /// Erases the type of `handler`. The handle behaves as the handler does.
    pub fn new<H>(handler: H) -> (erased: BoxHandler) where
        H: Handler<Request, Output = Result<Response, Error>>,

        ensures
            equivalent(erased, handler),
    {
        BoxHandler { inner: Arc::new(Box::new(handler)) }
    }
}

impl Handler<Request> for BoxHandler {
    type Output = Result<Response, Error>;

    closed spec fn responds(&self, req: Request, res: Result<Response, Error>) -> bool {
        self.inner.answers(req, res)
    }

    fn call(&self, req: Request) -> (res: Result<Response, Error>) {
        self.inner.serve(req)
    }
}

impl Clone for BoxHandler {
    /// A second handle to the same handler.
    fn clone(&self) -> (copy: BoxHandler)
        ensures
            copy == *self,
    {
        BoxHandler { inner: share(&self.inner) }
    }
}

} // verus!
