//! Recovery after an unwinding fault in a handler.
//!
//! A call of the primary handler is made under a guard that intercepts an
//! unwinding fault. This module holds what follows the guarded call: how its
//! outcome becomes the uniform result.
use vstd::prelude::*;
use crate::handler::responder::{convert, converted, Responder};
use crate::handler::Handler;
use crate::types::{Error, IntoResponse, Request, Response};

verus! {

/// How a guarded call ended: it completed with an output, or it was cut
/// short by an unwinding fault that left a payload.
pub enum Caught<T, P> {
    Completed(T),
    Unwound(P),
}

/// A primary handler paired with the fallback that answers for it when a
/// call of the primary ends in an unwinding fault.
#[derive(Debug)]
pub struct CatchUnwind<H, F> {
    pub h: H,
    pub f: F,
}

impl<H: Clone, F: Clone> Clone for CatchUnwind<H, F> {
    /// A pair of clones of the two parts.
    fn clone(&self) -> (copy: CatchUnwind<H, F>)
        ensures
            cloned(self.h, copy.h),
            cloned(self.f, copy.f),
    {
        CatchUnwind { h: self.h.clone(), f: self.f.clone() }
    }
}

impl<H, F> CatchUnwind<H, F> {
    /// Pairs the primary handler `h` with the fallback `f`.
    pub fn new(h: H, f: F) -> (guard: CatchUnwind<H, F>)
        ensures
            guard == (CatchUnwind { h, f }),
    {
        CatchUnwind { h, f }
    }

    /// Whether `res` is a result that the outcome of a guarded call of the
    /// primary may settle into.
    ///
    /// After a completed call it is what the primary gave, converted: a
    /// success becomes its response, a failure stays. After a fault it is a
    /// success holding the response of some answer of the fallback to the
    /// payload.
    pub open spec fn settles<O, P>(
        self,
        outcome: Caught<Result<O, Error>, P>,
        res: Result<Response, Error>,
    ) -> bool where O: IntoResponse, F: Handler<P>, F::Output: IntoResponse {
        match outcome {
            Caught::Completed(typed) => converted(typed, res),
            Caught::Unwound(payload) => exists|answer: F::Output| #[trigger]
                self.f.responds(payload, answer) && (res matches Ok(r) && r@ == answer.response()),
        }
    }

    /// Turns the outcome of a guarded call of the primary into the uniform
    /// result. The fallback runs only after a fault, on the payload.
    pub fn settle<O, P>(&self, outcome: Caught<Result<O, Error>, P>) -> (res: Result<
        Response,
        Error,
    >) where O: IntoResponse, F: Handler<P>, F::Output: IntoResponse
        ensures
            self.settles(outcome, res),
            outcome is Unwound ==> res is Ok,
    {
        match outcome {
            Caught::Completed(typed) => convert(typed),
            Caught::Unwound(payload) => Ok(self.f.call(payload).into_response()),
        }
    }
}

/// A guarded call that completes settles into what the primary behind a
/// [`Responder`] answers: the guard adds nothing to a call without a fault.
pub proof fn law_completed_as_responder<H, F, O, P>(
    guard: CatchUnwind<H, F>,
    req: Request,
    typed: Result<O, Error>,
    res: Result<Response, Error>,
) where
    H: Handler<Request, Output = Result<O, Error>>,
    O: IntoResponse,
    F: Handler<P>,
    F::Output: IntoResponse,

    requires
        guard.h.responds(req, typed),
        guard.settles::<O, P>(Caught::Completed(typed), res),
    ensures
        (Responder { h: guard.h }).responds(req, res),
{
    let responder = Responder { h: guard.h };
    assert(responder.h.responds(req, typed) && converted(typed, res));
}

} // verus!
