//! The buffered reader: bytes that a streaming transport delivered, in
//! pieces of any size, and the decoders that consume them.
//!
//! The transport is driven from outside. A caller that needs more bytes
//! makes one bounded fill attempt and reports what came of it to
//! `on_fill`. A decoder that finds the bytes incomplete leaves the buffer
//! as it was, so it can simply be tried again after the next fill; one
//! that succeeds or fails takes the bytes it decided on, as a reader of
//! the stream would have.
use vstd::prelude::*;

use crate::codec::{
    bool_parse, i32_parse, lemma_fixed_settled, lemma_utf8_string_parse_bounds,
    lemma_utf8_string_settled, parse_bool, parse_i32,
    parse_string, parse_u8, parse_utf8_string, string_parse, u8_parse, utf8_string_parse,
};
use crate::error::ClickHouseClientError;
use crate::parsed::{consumes, settled, Parsed};
use crate::server::{
    exception_chain_parse, lemma_exception_chain_bounds, lemma_exception_chain_settled,
    lemma_server_hello_parse_bounds, lemma_server_hello_settled, lemma_server_packet_bounds,
    lemma_server_packet_settled, packet_code_parse, parse_exception_chain, parse_packet_code,
    parse_server_hello, parse_server_packet, server_hello_parse, server_packet_parse,
    ExceptionModel, ExceptionPacket, HelloPacket, ServerPacket, ServerPacketCode,
};
use crate::varint::{lemma_varint_parse_bounds, lemma_varint_settled, parse_var_uint, varint_parse};

verus! {

/// How long one fill attempt may wait for bytes, in milliseconds.
pub const READ_TIMEOUT_MS: u64 = 100;

/// What one fill attempt on the transport came to.
#[derive(Debug, Clone)]
pub enum FillEvent {
    /// The bytes that arrived; none means that the source has closed.
    Data(Vec<u8>),
    /// No byte arrived within the attempt's time window.
    TimedOut,
    /// The transport failed, with its message.
    Failed(String),
}

/// Bytes received and not yet consumed, with the decoders over them.
pub struct ClickHouseDecoder {
    buf: Vec<u8>,
    pos: usize,
}

impl View for ClickHouseDecoder {
    type V = Seq<u8>;

    /// The bytes received and not yet consumed.
    closed spec fn view(&self) -> Seq<u8> {
        self.buf@.skip(self.pos as int)
    }
}

/// `r` reports the outcome `p` of decoding an exception chain from
/// `before`, leaving `after` unread.
pub open spec fn consumes_chain(r: Result<Option<Vec<ExceptionPacket>>, ClickHouseClientError>, before: Seq<u8>, after: Seq<u8>, p: Parsed<Seq<ExceptionModel>>) -> bool {
    match p {
        Parsed::Done(list, n) => match r {
            Ok(Some(v)) => v@.len() == list.len() && (forall|i: int| 0 <= i < list.len() ==> #[trigger] v@[i]@ == list[i]) && after == before.skip(n as int),
            _ => false,
        },
        Parsed::NeedMore => r is Ok && r->Ok_0 is None && after == before,
        Parsed::Fail(e, n) => r == Err::<Option<Vec<ExceptionPacket>>, ClickHouseClientError>(e) && after == before.skip(n as int),
    }
}

/// Deliveries of any size are tolerated: every decoder of this reader,
/// run on the bytes received so far (`s`) and again after more arrived
/// (`s + t`), either still waits on `s` or gives the same outcome on both;
/// and it waits on `s` only while the value's bytes are not all there.
/// Since `feed` appends each delivery and a waiting decoder consumes
/// nothing, retrying after every fill yields what decoding all the bytes at
/// once yields, however they were split.
pub proof fn lemma_partial_reads(s: Seq<u8>, t: Seq<u8>)
    ensures
        settled(u8_parse(s), u8_parse(s + t), s.len()),
        settled(bool_parse(s), bool_parse(s + t), s.len()),
        settled(i32_parse(s), i32_parse(s + t), s.len()),
        settled(varint_parse(s), varint_parse(s + t), s.len()),
        settled(string_parse(s), string_parse(s + t), s.len()),
        settled(utf8_string_parse(s), utf8_string_parse(s + t), s.len()),
        settled(packet_code_parse(s), packet_code_parse(s + t), s.len()),
        settled(server_hello_parse(s), server_hello_parse(s + t), s.len()),
        settled(exception_chain_parse(s), exception_chain_parse(s + t), s.len()),
        settled(server_packet_parse(s), server_packet_parse(s + t), s.len()),
{
    lemma_fixed_settled(s, t);
    lemma_varint_settled(s, t);
    lemma_utf8_string_settled(s, t);
    lemma_server_hello_settled(s, t);
    lemma_exception_chain_settled(s, t);
    lemma_server_packet_settled(s, t);
}

/// Every decoder of this reader, when it decodes or refuses a value, takes
/// at least one of the bytes at hand and never more than there are.
pub proof fn lemma_decoders_take_held_bytes(s: Seq<u8>)
    ensures
        varint_parse(s) matches Parsed::Done(_, n) ==> 1 <= n <= s.len(),
        varint_parse(s) matches Parsed::Fail(_, n) ==> 1 <= n <= s.len(),
        string_parse(s) matches Parsed::Done(_, n) ==> 1 <= n <= s.len(),
        string_parse(s) matches Parsed::Fail(_, n) ==> 1 <= n <= s.len(),
        utf8_string_parse(s) matches Parsed::Done(_, n) ==> 1 <= n <= s.len(),
        utf8_string_parse(s) matches Parsed::Fail(_, n) ==> 1 <= n <= s.len(),
        packet_code_parse(s) matches Parsed::Done(_, n) ==> 1 <= n <= s.len(),
        packet_code_parse(s) matches Parsed::Fail(_, n) ==> 1 <= n <= s.len(),
        server_hello_parse(s) matches Parsed::Done(_, n) ==> 1 <= n <= s.len(),
        server_hello_parse(s) matches Parsed::Fail(_, n) ==> 1 <= n <= s.len(),
        exception_chain_parse(s) matches Parsed::Done(_, n) ==> 1 <= n <= s.len(),
        exception_chain_parse(s) matches Parsed::Fail(_, n) ==> 1 <= n <= s.len(),
        server_packet_parse(s) matches Parsed::Done(_, n) ==> 1 <= n <= s.len(),
        server_packet_parse(s) matches Parsed::Fail(_, n) ==> 1 <= n <= s.len(),
{
    lemma_varint_parse_bounds(s);
    lemma_utf8_string_parse_bounds(s);
    lemma_server_hello_parse_bounds(s);
    lemma_exception_chain_bounds(s);
    lemma_server_packet_bounds(s);
}

impl ClickHouseDecoder {
    #[verifier::type_invariant]
    spec fn inv(&self) -> bool {
        self.pos <= self.buf@.len()
    }

    /// A reader that holds nothing yet.
    pub fn new() -> (r: ClickHouseDecoder)
        ensures
            r@ == Seq::<u8>::empty(),
    {
        let r = ClickHouseDecoder { buf: Vec::new(), pos: 0 };
        assert(r@ =~= Seq::<u8>::empty());
        r
    }

    /// A reader that holds `bytes`, as if they had arrived already.
    pub fn from_bytes(bytes: Vec<u8>) -> (r: ClickHouseDecoder)
        ensures
            r@ == bytes@,
    {
        let r = ClickHouseDecoder { buf: bytes, pos: 0 };
        assert(r@ =~= bytes@);
        r
    }

    /// How many bytes are held and not yet consumed.
    pub fn available(&self) -> (n: usize)
        ensures
            n == self@.len(),
    {
        proof {
            use_type_invariant(self);
        }
        self.buf.len() - self.pos
    }

    /// Whether `n` bytes are held already, so that a fill is not needed
    /// before consuming them.
    pub fn has_bytes(&self, n: usize) -> (r: bool)
        ensures
            r == (self@.len() >= n),
    {
        self.available() >= n
    }

    /// Appends bytes that arrived.
    pub fn feed(&mut self, chunk: &[u8])
        ensures
            final(self)@ == old(self)@ + chunk@,
    {
        proof {
            use_type_invariant(&*self);
        }
        let mut kept: Vec<u8> = Vec::new();
        let mut i: usize = self.pos;
        while i < self.buf.len()
            invariant
                self.pos <= i <= self.buf@.len(),
                kept@ == self.buf@.subrange(self.pos as int, i as int),
            decreases self.buf@.len() - i,
        {
            kept.push(self.buf[i]);
            i += 1;
            assert(kept@ =~= self.buf@.subrange(self.pos as int, i as int));
        }
        kept.extend_from_slice(chunk);
        self.pos = 0;
        self.buf = kept;
        assert(self@ =~= old(self)@ + chunk@);
    }

    /// Takes the outcome of one fill attempt: delivered bytes are kept;
    /// a closed source, an elapsed time window and a transport failure
    /// are each reported as their error, with nothing kept.
    pub fn on_fill(&mut self, event: FillEvent) -> (r: Result<(), ClickHouseClientError>)
        ensures
            match event {
                FillEvent::Data(bytes) => if bytes@.len() > 0 {
                    r is Ok && final(self)@ == old(self)@ + bytes@
                } else {
                    r == Err::<(), ClickHouseClientError>(ClickHouseClientError::UnexpectedEndOfStream) && final(self)@ == old(self)@
                },
                FillEvent::TimedOut => r == Err::<(), ClickHouseClientError>(ClickHouseClientError::ReadTimeout) && final(self)@ == old(self)@,
                FillEvent::Failed(m) => r == Err::<(), ClickHouseClientError>(ClickHouseClientError::TransportError(m)) && final(self)@ == old(self)@,
            },
    {
        match event {
            FillEvent::Data(bytes) => {
                if bytes.len() == 0 {
                    Err(ClickHouseClientError::UnexpectedEndOfStream)
                } else {
                    self.feed(bytes.as_slice());
                    Ok(())
                }
            },
            FillEvent::TimedOut => Err(ClickHouseClientError::ReadTimeout),
            FillEvent::Failed(m) => Err(ClickHouseClientError::TransportError(m)),
        }
    }

    /// Consumes the held bytes up to position `p` of the buffer, after a
    /// decoder found a value ending there.
    fn advance_to(&mut self, p: usize)
        requires
            old(self).pos <= p <= old(self).buf@.len(),
        ensures
            final(self)@ == old(self)@.skip(p - old(self).pos),
    {
        let ghost before = self@;
        let ghost start = self.pos;
        self.pos = p;
        assert(self@ =~= before.skip(p - start));
    }

    /// Decodes one byte.
    pub fn decode_u8(&mut self) -> (r: Result<Option<u8>, ClickHouseClientError>)
        ensures
            consumes(r, old(self)@, final(self)@, u8_parse(old(self)@)),
    {
        proof {
            use_type_invariant(&*self);
        }
        match parse_u8(self.buf.as_slice(), self.pos) {
            Ok(Some((v, p))) => {
                self.advance_to(p);
                Ok(Some(v))
            },
            Ok(None) => Ok(None),
            Err((e, p)) => {
                self.advance_to(p);
                Err(e)
            },
        }
    }

    /// Decodes a boolean; bytes other than 0 and 1 are refused.
    pub fn decode_bool(&mut self) -> (r: Result<Option<bool>, ClickHouseClientError>)
        ensures
            consumes(r, old(self)@, final(self)@, bool_parse(old(self)@)),
    {
        proof {
            use_type_invariant(&*self);
        }
        match parse_bool(self.buf.as_slice(), self.pos) {
            Ok(Some((v, p))) => {
                self.advance_to(p);
                Ok(Some(v))
            },
            Ok(None) => Ok(None),
            Err((e, p)) => {
                self.advance_to(p);
                Err(e)
            },
        }
    }

    /// Decodes a little-endian 32-bit integer.
    pub fn decode_i32(&mut self) -> (r: Result<Option<i32>, ClickHouseClientError>)
        ensures
            consumes(r, old(self)@, final(self)@, i32_parse(old(self)@)),
    {
        proof {
            use_type_invariant(&*self);
        }
        match parse_i32(self.buf.as_slice(), self.pos) {
            Ok(Some((v, p))) => {
                self.advance_to(p);
                Ok(Some(v))
            },
            Ok(None) => Ok(None),
            Err((e, p)) => {
                self.advance_to(p);
                Err(e)
            },
        }
    }

    /// Decodes a varint.
    pub fn decode_var_uint(&mut self) -> (r: Result<Option<u64>, ClickHouseClientError>)
        ensures
            consumes(r, old(self)@, final(self)@, varint_parse(old(self)@)),
    {
        proof {
            use_type_invariant(&*self);
        }
        match parse_var_uint(self.buf.as_slice(), self.pos) {
            Ok(Some((v, p))) => {
                self.advance_to(p);
                Ok(Some(v))
            },
            Ok(None) => Ok(None),
            Err((e, p)) => {
                self.advance_to(p);
                Err(e)
            },
        }
    }

    /// Decodes a byte string.
    pub fn decode_string(&mut self) -> (r: Result<Option<Vec<u8>>, ClickHouseClientError>)
        ensures
            consumes(r, old(self)@, final(self)@, string_parse(old(self)@)),
    {
        proof {
            use_type_invariant(&*self);
        }
        match parse_string(self.buf.as_slice(), self.pos) {
            Ok(Some((v, p))) => {
                self.advance_to(p);
                Ok(Some(v))
            },
            Ok(None) => Ok(None),
            Err((e, p)) => {
                self.advance_to(p);
                Err(e)
            },
        }
    }

    /// Decodes a UTF-8 string.
    pub fn decode_utf8_string(&mut self) -> (r: Result<Option<String>, ClickHouseClientError>)
        ensures
            consumes(r, old(self)@, final(self)@, utf8_string_parse(old(self)@)),
    {
        proof {
            use_type_invariant(&*self);
        }
        match parse_utf8_string(self.buf.as_slice(), self.pos) {
            Ok(Some((v, p))) => {
                self.advance_to(p);
                Ok(Some(v))
            },
            Ok(None) => Ok(None),
            Err((e, p)) => {
                self.advance_to(p);
                Err(e)
            },
        }
    }

    /// Decodes the code that begins a server packet.
    pub fn read_packet_code(&mut self) -> (r: Result<Option<ServerPacketCode>, ClickHouseClientError>)
        ensures
            consumes(r, old(self)@, final(self)@, packet_code_parse(old(self)@)),
    {
        proof {
            use_type_invariant(&*self);
        }
        match parse_packet_code(self.buf.as_slice(), self.pos) {
            Ok(Some((v, p))) => {
                self.advance_to(p);
                Ok(Some(v))
            },
            Ok(None) => Ok(None),
            Err((e, p)) => {
                self.advance_to(p);
                Err(e)
            },
        }
    }

    /// Decodes the body of a server handshake.
    pub fn read_hello_packet(&mut self) -> (r: Result<Option<HelloPacket>, ClickHouseClientError>)
        ensures
            consumes(r, old(self)@, final(self)@, server_hello_parse(old(self)@)),
    {
        proof {
            use_type_invariant(&*self);
        }
        match parse_server_hello(self.buf.as_slice(), self.pos) {
            Ok(Some((v, p))) => {
                self.advance_to(p);
                Ok(Some(v))
            },
            Ok(None) => Ok(None),
            Err((e, p)) => {
                self.advance_to(p);
                Err(e)
            },
        }
    }

    /// Decodes an exception chain, up to the record that says none
    /// follows.
    pub fn read_exception_packet(&mut self) -> (r: Result<Option<Vec<ExceptionPacket>>, ClickHouseClientError>)
        ensures
            consumes_chain(r, old(self)@, final(self)@, exception_chain_parse(old(self)@)),
    {
        proof {
            use_type_invariant(&*self);
        }
        match parse_exception_chain(self.buf.as_slice(), self.pos) {
            Ok(Some((v, p))) => {
                self.advance_to(p);
                Ok(Some(v))
            },
            Ok(None) => Ok(None),
            Err((e, p)) => {
                self.advance_to(p);
                Err(e)
            },
        }
    }

    /// Decodes a whole server packet: its code and the body it calls for.
    pub fn read_server_packet(&mut self) -> (r: Result<Option<ServerPacket>, ClickHouseClientError>)
        ensures
            consumes(r, old(self)@, final(self)@, server_packet_parse(old(self)@)),
    {
        proof {
            use_type_invariant(&*self);
        }
        match parse_server_packet(self.buf.as_slice(), self.pos) {
            Ok(Some((v, p))) => {
                self.advance_to(p);
                Ok(Some(v))
            },
            Ok(None) => Ok(None),
            Err((e, p)) => {
                self.advance_to(p);
                Err(e)
            },
        }
    }
}

} // verus!
