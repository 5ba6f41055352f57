//! A runtime alternative between two handlers.
use vstd::prelude::*;
use crate::handler::{equivalent, Handler};

verus! {

/// One of two handlers with the same input and output types. Which one is
/// fixed when the value is made.
pub enum Either<L, R> {
    Left(L),
    Right(R),
}

impl<L: Clone, R: Clone> Clone for Either<L, R> {
    /// The same variant, holding a clone of what this one holds.
    fn clone(&self) -> (copy: Either<L, R>)
        ensures
            match (*self, copy) {
                (Either::Left(l), Either::Left(c)) => cloned(l, c),
                (Either::Right(r), Either::Right(c)) => cloned(r, c),
                _ => false,
            },
    {
        match self {
            Either::Left(l) => Either::Left(l.clone()),
            Either::Right(r) => Either::Right(r.clone()),
        }
    }
}

impl<L, R, I, O> Handler<I> for Either<L, R> where
    L: Handler<I, Output = O>,
    R: Handler<I, Output = O>,
 {
    type Output = O;

    /// The behaviour of the active variant, nothing added.
    open spec fn responds(&self, input: I, output: O) -> bool {
        match self {
            Either::Left(l) => l.responds(input, output),
            Either::Right(r) => r.responds(input, output),
        }
    }

    fn call(&self, input: I) -> (output: O) {
        match self {
            Either::Left(l) => l.call(input),
            Either::Right(r) => r.call(input),
        }
    }
}

/// Dispatch through an alternative is dispatch to the handler that it
/// holds: on every input the alternative may give the outputs of the active
/// handler and no others.
pub proof fn law_either<I, O, L, R>(l: L, r: R) where
    L: Handler<I, Output = O>,
    R: Handler<I, Output = O>,

    ensures
        equivalent::<I, Either<L, R>, L>(Either::Left(l), l),
        equivalent::<I, Either<L, R>, R>(Either::Right(r), r),
{
}

} // verus!
