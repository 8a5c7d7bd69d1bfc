//! Results as values that are there already, and results that cannot be failures.

use std::convert::Infallible;

use vstd::prelude::*;

use crate::ext::poll::Poll;

verus! {

/// What every result can do here.
pub trait ResultExt: Sized {
    type Ok;

    type Err;

    /// The value as a `Result`.
    spec fn as_result(self) -> Result<Self::Ok, Self::Err>;

    fn into_result(self) -> (r: Result<Self::Ok, Self::Err>)
        ensures
            r == self.as_result(),
    ;

    /// What a task that is done with this result says when it is asked.
    fn lift_future(self) -> (r: Poll<Result<Self::Ok, Self::Err>>)
        ensures
            r == Poll::Ready(self.as_result()),
    ;
}

impl<S, E> ResultExt for Result<S, E> {
    type Ok = S;

    type Err = E;

    open spec fn as_result(self) -> Result<S, E> {
        self
    }

    fn into_result(self) -> Result<S, E> {
        self
    }

    fn lift_future(self) -> Poll<Result<S, E>> {
        Poll::Ready(self.into_result())
    }
}

/// The value of a result that has no way to fail.
pub fn unwrap_infallible<T>(result: Result<T, Infallible>) -> (r: T)
    ensures
        result matches Ok(ok) ==> r == ok,
{
    match result {
        Ok(ok) => ok,
    }
}

/// A result inside a result of the same kind of failure, as one result.
pub fn flatten<T, E>(result: Result<Result<T, E>, E>) -> (r: Result<T, E>)
    ensures
        match result {
            Ok(inner) => r == inner,
            Err(e) => r == Err::<T, E>(e),
        },
{
    match result {
        Ok(Ok(ok)) => Ok(ok),
        Ok(Err(e)) => Err(e),
        Err(e) => Err(e),
    }
}

} // verus!
