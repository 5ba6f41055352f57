//! Around-middleware: a handler that receives the input together with the
//! inner handler and decides whether, when and how the inner handler runs.
use vstd::prelude::*;
use crate::handler::{BoxHandler, Handler, Next};
use crate::types::Request;

verus! {

/// The handler `h` wrapped by the around-middleware `f`. A call hands `f` the
/// input and its own copy of `h`; what `f` answers is the answer.
pub struct Around<H, F> {
    pub h: H,
    pub f: F,
}

impl<H: Clone, F: Clone> Clone for Around<H, F> {
    /// A pair of clones of the two parts.
    fn clone(&self) -> (copy: Around<H, F>)
        ensures
            cloned(self.h, copy.h),
            cloned(self.f, copy.f),
    {
        Around { h: self.h.clone(), f: self.f.clone() }
    }
}

impl<H, F> Around<H, F> {
    /// Puts the around-middleware `f` around the handler `h`.
    pub fn new(h: H, f: F) -> (around: Around<H, F>)
        ensures
            around == (Around { h, f }),
    {
        Around { h, f }
    }
}

impl<H, F, I, O> Handler<I> for Around<H, F> where
    H: Handler<I>,
    F: Handler<Next<I, H>, Output = O>,
 {
    type Output = O;

    /// An answer of the middleware to the input paired with a copy of the
    /// inner handler.
    open spec fn responds(&self, input: I, output: O) -> bool {
        exists|inner: H|
            cloned::<H>(self.h, inner) && #[trigger] self.f.responds((input, inner), output)
    }

    fn call(&self, input: I) -> (output: O) {
        self.f.call((input, self.h.clone()))
    }
}

/// Around an erased handler the middleware is handed that very handler: a
/// copy of an erased handle is a second handle to the same handler. So every
/// answer of the layer is an answer of the middleware to the request paired
/// with the inner handle.
pub proof fn law_around_erased<F: Handler<Next<Request, BoxHandler>>>(
    around: Around<BoxHandler, F>,
    req: Request,
    res: F::Output,
)
    requires
        around.responds(req, res),
    ensures
        around.f.responds((req, around.h), res),
{
}

} // verus!
