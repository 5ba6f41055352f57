//! Before-middleware: the input is transformed, then the inner handler runs.
use vstd::prelude::*;
use crate::handler::Handler;

verus! {

/// The handler `h` behind the input transformation `f`. The inner handler
/// runs once on every call, on what `f` made of the input.
pub struct Before<H, F> {
    pub h: H,
    pub f: F,
}

impl<H: Clone, F: Clone> Clone for Before<H, F> {
    /// A pair of clones of the two parts.
    fn clone(&self) -> (copy: Before<H, F>)
        ensures
            cloned(self.h, copy.h),
            cloned(self.f, copy.f),
    {
        Before { h: self.h.clone(), f: self.f.clone() }
    }
}

impl<H, F> Before<H, F> {
    /// Puts the input transformation `f` before the handler `h`.
    pub fn new(h: H, f: F) -> (before: Before<H, F>)
        ensures
            before == (Before { h, f }),
    {
        Before { h, f }
    }
}

impl<H, F, I> Handler<I> for Before<H, F> where H: Handler<I>, F: Handler<I, Output = I> {
    type Output = H::Output;

    /// An answer of the inner handler to some input that `f` makes of the
    /// given one.
    open spec fn responds(&self, input: I, output: H::Output) -> bool {
        exists|prepared: I| #[trigger]
            self.f.responds(input, prepared) && self.h.responds(prepared, output)
    }

    fn call(&self, input: I) -> (output: H::Output) {
        self.h.call(self.f.call(input))
    }
}

} // verus!
