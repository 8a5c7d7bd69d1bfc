//! Optional values as values that are there already.

use vstd::prelude::*;

use crate::ext::poll::Poll;

verus! {

/// What every optional value can do here.
pub trait OptionExt: Sized {
    type Inner;

    /// The value as an `Option`.
    spec fn as_option(self) -> Option<Self::Inner>;

    fn into_option(self) -> (r: Option<Self::Inner>)
        ensures
            r == self.as_option(),
    ;

    /// What a task that is done with this value says when it is asked.
    fn lift_future(self) -> (r: Poll<Option<Self::Inner>>)
        ensures
            r == Poll::Ready(self.as_option()),
    ;
}

impl<T> OptionExt for Option<T> {
    type Inner = T;

    open spec fn as_option(self) -> Option<T> {
        self
    }

    fn into_option(self) -> Option<T> {
        self
    }

    fn lift_future(self) -> Poll<Option<T>> {
        Poll::Ready(self.into_option())
    }
}

} // verus!
