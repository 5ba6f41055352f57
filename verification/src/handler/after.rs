//! After-middleware: the inner handler runs, then its output is transformed.
use vstd::prelude::*;
use crate::handler::Handler;

verus! {

/// The handler `h` followed by the output transformation `f`. The inner
/// handler runs once on every call, and `f` once on what it gave.
pub struct After<H, F> {
    pub h: H,
    pub f: F,
}

impl<H: Clone, F: Clone> Clone for After<H, F> {
    /// A pair of clones of the two parts.
    fn clone(&self) -> (copy: After<H, F>)
        ensures
            cloned(self.h, copy.h),
            cloned(self.f, copy.f),
    {
        After { h: self.h.clone(), f: self.f.clone() }
    }
}

impl<H, F> After<H, F> {
    /// Puts the output transformation `f` after the handler `h`.
    pub fn new(h: H, f: F) -> (after: After<H, F>)
        ensures
            after == (After { h, f }),
    {
        After { h, f }
    }
}

impl<H, F, I> Handler<I> for After<H, F> where H: Handler<I>, F: Handler<H::Output> {
    type Output = F::Output;

    /// What `f` makes of some answer of the inner handler.
    open spec fn responds(&self, input: I, output: F::Output) -> bool {
        exists|inner: H::Output| #[trigger]
            self.h.responds(input, inner) && self.f.responds(inner, output)
    }

    fn call(&self, input: I) -> (output: F::Output) {
        self.f.call(self.h.call(input))
    }
}

} // verus!
