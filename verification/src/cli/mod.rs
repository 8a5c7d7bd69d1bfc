//! What the program decides around the library.

pub mod certgen;
pub mod client;
pub mod ports;
pub mod server;
