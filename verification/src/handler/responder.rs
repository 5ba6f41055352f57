//! The adapter from a handler with a typed, fallible output to a handler
//! with the uniform output.
use vstd::prelude::*;
use crate::handler::Handler;
use crate::types::{Error, IntoResponse, Request, Response};

verus! {

/// What a typed result becomes as a uniform result: a success becomes its
/// response, a failure stays the failure that it is.
pub open spec fn converted<O: IntoResponse>(
    typed: Result<O, Error>,
    uniform: Result<Response, Error>,
) -> bool {
    match typed {
        Ok(value) => uniform matches Ok(res) && res@ == value.response(),
        Err(e) => uniform == Err::<Response, Error>(e),
    }
}

/// Converts a typed result into the uniform one.
pub fn convert<O: IntoResponse>(typed: Result<O, Error>) -> (uniform: Result<Response, Error>)
    ensures
        converted(typed, uniform),
{
    match typed {
        Ok(value) => Ok(value.into_response()),
        Err(e) => Err(e),
    }
}

/// A handler whose successes are turned into responses. It is the last layer
/// before a handler is erased.
pub struct Responder<H> {
    pub h: H,
}

impl<H: Clone> Clone for Responder<H> {
    /// A responder over a clone of the inner handler.
    fn clone(&self) -> (copy: Responder<H>)
        ensures
            cloned(self.h, copy.h),
    {
        Responder { h: self.h.clone() }
    }
}

impl<H> Responder<H> {
    /// Puts the conversion after the handler `h`.
    pub fn new(h: H) -> (responder: Responder<H>)
        ensures
            responder == (Responder { h }),
    {
        Responder { h }
    }
}

impl<H, O> Handler<Request> for Responder<H> where
    H: Handler<Request, Output = Result<O, Error>>,
    O: IntoResponse,
 {
    type Output = Result<Response, Error>;

    /// Some answer of the inner handler, converted.
    open spec fn responds(&self, req: Request, res: Result<Response, Error>) -> bool {
        exists|typed: Result<O, Error>| #[trigger]
            self.h.responds(req, typed) && converted(typed, res)
    }

    fn call(&self, req: Request) -> (res: Result<Response, Error>) {
        convert(self.h.call(req))
    }
}

} // verus!
