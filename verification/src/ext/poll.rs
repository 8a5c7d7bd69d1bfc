//! What a task says of itself when it is asked.

use vstd::prelude::*;

verus! {

/// What asking a task for its result gives: the result, or nothing yet.
#[derive(Debug, Clone, Copy, PartialEq, Eq)]
pub enum Poll<T> {
    Ready(T),
    Pending,
}

} // verus!
