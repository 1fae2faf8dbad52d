//! Writing fields and client packets into an owned byte buffer.
use vstd::prelude::*;
use vstd::utf8::encode_utf8;

use crate::client::{ClientPacketCode, HelloModel, HelloPacket};
use crate::codec::{bool_bytes, i32_bytes, string_bytes, utf8_string_bytes};
use crate::varint::{encode_var_uint, varint_bytes, MAX_VARINT_LEN64};

verus! {

/// The wire form of a client handshake: its code, then its fields in
/// order.
pub open spec fn hello_bytes(h: HelloModel) -> Seq<u8> {
    seq![ClientPacketCode::Hello.spec_code()] + utf8_string_bytes(h.client_name) + varint_bytes(
        h.version_major as nat,
    ) + varint_bytes(h.version_minor as nat) + varint_bytes(h.protocol_version as nat)
        + utf8_string_bytes(h.database) + utf8_string_bytes(h.username) + utf8_string_bytes(
        h.password,
    )
}

/// Collects the bytes of the fields and packets written to it, for the
/// caller to hand to the transport.
pub struct ClickHouseEncoder {
    buf: Vec<u8>,
}

impl View for ClickHouseEncoder {
    type V = Seq<u8>;

    closed spec fn view(&self) -> Seq<u8> {
        self.buf@
    }
}

impl ClickHouseEncoder {
    /// An encoder that has written nothing.
    pub fn new() -> (r: ClickHouseEncoder)
        ensures
            r@ == Seq::<u8>::empty(),
    {
        ClickHouseEncoder { buf: Vec::new() }
    }

    /// The bytes written so far.
    pub fn as_bytes(&self) -> (r: &[u8])
        ensures
            r@ == self@,
    {
        self.buf.as_slice()
    }

    /// Hands over the bytes written so far.
    pub fn into_bytes(self) -> (r: Vec<u8>)
        ensures
            r@ == self@,
    {
        self.buf
    }

    /// Writes one byte.
    pub fn encode_u8(&mut self, x: u8) -> (n: usize)
        ensures
            final(self)@ == old(self)@.push(x),
            n == 1,
    {
        self.buf.push(x);
        1
    }

    /// Writes a boolean as 1 or 0.
    pub fn encode_bool(&mut self, x: bool) -> (n: usize)
        ensures
            final(self)@ == old(self)@ + bool_bytes(x),
            n == 1,
    {
        let b: u8 = if x {
            1
        } else {
            0
        };
        self.buf.push(b);
        assert(old(self)@ + bool_bytes(x) =~= self.buf@);
        1
    }

    /// Writes a 32-bit integer, little-endian.
    pub fn encode_i32(&mut self, x: i32) -> (n: usize)
        ensures
            final(self)@ == old(self)@ + i32_bytes(x),
            n == 4,
    {
        let u = x as u32;
        self.buf.push((u % 256) as u8);
        self.buf.push((u / 256 % 256) as u8);
        self.buf.push((u / 65536 % 256) as u8);
        self.buf.push((u / 16777216) as u8);
        assert(old(self)@ + i32_bytes(x) =~= self.buf@);
        4
    }

    /// Writes a varint.
    pub fn encode_var_uint(&mut self, x: u64) -> (n: usize)
        ensures
            final(self)@ == old(self)@ + varint_bytes(x as nat),
            n == varint_bytes(x as nat).len(),
            1 <= n <= MAX_VARINT_LEN64,
    {
        encode_var_uint(&mut self.buf, x)
    }

    /// Writes a byte string: its length as a varint, then the bytes.
    pub fn encode_string(&mut self, x: &[u8]) -> (n: usize)
        requires
            string_bytes(x@).len() <= usize::MAX,
        ensures
            final(self)@ == old(self)@ + string_bytes(x@),
            n == varint_bytes(x@.len()).len() + x@.len(),
    {
        let len = x.len();
        let header = encode_var_uint(&mut self.buf, len as u64);
        self.buf.extend_from_slice(x);
        assert(old(self)@ + string_bytes(x@) =~= self.buf@);
        header + len
    }

    /// Writes a text as a string of its UTF-8 bytes.
    pub fn encode_utf8_string(&mut self, x: &str) -> (n: usize)
        requires
            utf8_string_bytes(x@).len() <= usize::MAX,
        ensures
            final(self)@ == old(self)@ + utf8_string_bytes(x@),
            n == varint_bytes(encode_utf8(x@).len()).len() + encode_utf8(x@).len(),
    {
        self.encode_string(x.as_bytes())
    }

    /// Writes the one-byte code of a client packet.
    pub fn write_packet_code(&mut self, x: ClientPacketCode) -> (n: usize)
        ensures
            final(self)@ == old(self)@.push(x.spec_code()),
            n == 1,
    {
        self.encode_u8(x.code())
    }

    /// Writes a client handshake and returns how many bytes it took.
    pub fn write_hello_packet(&mut self, x: HelloPacket) -> (n: usize)
        requires
            hello_bytes(x@).len() <= usize::MAX,
        ensures
            final(self)@ == old(self)@ + hello_bytes(x@),
            n == hello_bytes(x@).len(),
    {
        let ghost h = x@;
        let mut len: usize = self.write_packet_code(ClientPacketCode::Hello);
        len = len + self.encode_utf8_string(x.client_name_str());
        len = len + self.encode_var_uint(x.version_major_value());
        len = len + self.encode_var_uint(x.version_minor_value());
        len = len + self.encode_var_uint(x.protocol_version_value());
        len = len + self.encode_utf8_string(x.database_str());
        len = len + self.encode_utf8_string(x.username_str());
        len = len + self.encode_utf8_string(x.password_str());
        assert(self@ =~= old(self)@ + hello_bytes(h));
        len
    }

    /// Writes a ping.
    pub fn write_ping_packet(&mut self) -> (n: usize)
        ensures
            final(self)@ == old(self)@.push(ClientPacketCode::Ping.spec_code()),
            n == 1,
    {
        self.write_packet_code(ClientPacketCode::Ping)
    }
}

} // verus!
