//! What is told across the C interface.

use std::marker::PhantomData;

use vstd::prelude::*;
use vstd::utf8::{decode_utf8, valid_utf8};

use crate::text::utf8_text;

verus! {

/// A number that stands for a value on the other side of the interface.
#[derive(Debug)]
pub struct FFIHandle<T>(pub u64, pub PhantomData<T>);

impl<T> FFIHandle<T> {
    /// The number.
    pub fn deref(&self) -> (r: &u64)
        ensures
            *r == self.0,
    {
        &self.0
    }
}

/// How connections are set up.
#[derive(Debug, Clone, Copy, PartialEq, Eq, Structural)]
pub struct RawQuinnTransportConfig {
    pub idle_timeout_ms: u32,
    pub keep_alive_interval_ms: u32,
}

/// The longest path that is taken, in bytes.
pub const MAX_PATH_BYTES: usize = 65535;

/// Whether these bytes, without the zero behind them, are a path that is taken.
pub open spec fn is_path(bytes: Seq<u8>) -> bool {
    valid_utf8(bytes) && bytes.len() <= MAX_PATH_BYTES
}

/// A path is taken exactly when it is text of at most 65535 bytes.
pub proof fn law_what_is_a_path(bytes: Seq<u8>)
    ensures
        is_path(bytes) <==> valid_utf8(bytes) && bytes.len() <= 65535,
{
}

/// The path of a certificate, as it came across the interface: nothing where there was none, where
/// it is not text and where it is too long.
pub fn certificate_path(path: Option<&[u8]>) -> (r: Option<String>)
    ensures
        match r {
            Some(text) => path matches Some(bytes) && is_path(bytes@) && text@ == decode_utf8(
                bytes@,
            ),
            None => path matches Some(bytes) ==> !is_path(bytes@),
        },
{
    match path {
        None => None,
        Some(bytes) => {
            if bytes.len() > MAX_PATH_BYTES {
                return None;
            }
            utf8_text(bytes)
        },
    }
}

} // verus!
