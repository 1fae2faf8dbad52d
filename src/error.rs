use vstd::prelude::*;

verus! {

/// Every way an operation of this crate can fail.
#[derive(Debug, Clone, PartialEq, Eq)]
pub enum ClickHouseClientError {
    /// A varint needs more than 64 significant bits.
    VarintOverflow,
    /// One fill attempt of the buffered reader got no bytes in time.
    ReadTimeout,
    /// The source closed before the bytes a decode needed arrived.
    UnexpectedEndOfStream,
    /// A string field held bytes that are not UTF-8.
    InvalidUtf8,
    /// A string field declared more than `MAX_STRING_SIZE` bytes.
    OversizedField,
    /// A boolean field held this byte, which is neither 0 nor 1.
    MalformedBool(u8),
    /// The transport failed; its own message.
    TransportError(String),
    /// The server reported an error in place of the expected packet.
    ServerException { code: i32, name: String, message: String, stack_trace: String },
    /// A server packet began with a byte that names no packet kind.
    UnknownPacketCode(u8),
    /// A server packet of this kind came where another one was due.
    UnexpectedPacket(u8),
}

} // verus!
