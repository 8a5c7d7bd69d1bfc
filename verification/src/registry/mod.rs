//! Registries, in which tunnels are found by name.

use vstd::prelude::*;

pub mod cache;
pub mod local;
pub mod mapped;
pub mod memory;
pub mod redis;

verus! {

/// How a value is kept in a registry of attributes.
pub trait AttributeValue<T> {
    /// What is kept of a value.
    type Stored;

    fn unpack(stored: &Self::Stored) -> T;

    fn pack(input: T) -> Self::Stored;
}

} // verus!
