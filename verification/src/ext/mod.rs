//! Decisions of the stream and future adaptors.

pub mod counter;
pub mod future;
pub mod option;
pub mod poll;
pub mod result;
pub mod try_stream;
