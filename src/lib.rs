//! Client side of the ClickHouse native protocol: the binary codec
//! (varints, length-prefixed strings, booleans, little-endian integers),
//! a buffered reader for streaming transports, and the packets of the
//! handshake and liveness exchange.

pub mod buf;
pub mod client;
pub mod codec;
pub mod decoder;
pub mod encoder;
pub mod error;
pub mod parsed;
pub mod query;
pub mod server;
pub mod session;
pub mod varint;

use vstd::prelude::*;

verus! {

/// Largest length a string field may declare on the wire.
pub const MAX_STRING_SIZE: usize = 1073741824;

} // verus!
