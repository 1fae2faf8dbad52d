//! The same wire forms over the `bytes` crate's buffers: writing into a
//! `BytesMut`, reading from the front of a `Bytes` that holds a whole
//! message.
use vstd::prelude::*;

use crate::codec::{
    bool_bytes, bool_parse, parse_bool, parse_utf8_string, utf8_string_bytes, utf8_string_parse,
};
use crate::encoder::ClickHouseEncoder;
use crate::error::ClickHouseClientError;
use crate::parsed::Parsed;
use crate::varint::{parse_var_uint, varint_bytes, varint_parse, MAX_VARINT_LEN64};

verus! {

#[verifier::external_type_specification]
#[verifier::external_body]
pub struct ExBytes(bytes::Bytes);

#[verifier::external_type_specification]
#[verifier::external_body]
pub struct ExBytesMut(bytes::BytesMut);

/// The bytes that a `Bytes` holds, front first.
pub uninterp spec fn bytes_contents(b: bytes::Bytes) -> Seq<u8>;

/// The bytes that a `BytesMut` holds, front first.
pub uninterp spec fn bytes_mut_contents(b: bytes::BytesMut) -> Seq<u8>;

/// Relies on `BytesMut::extend_from_slice`: it appends the slice, growing
/// the buffer as needed.
#[verifier::external_body]
fn append_slice(buf: &mut bytes::BytesMut, b: &[u8])
    requires
        bytes_mut_contents(*old(buf)).len() + b@.len() <= isize::MAX,
    ensures
        bytes_mut_contents(*final(buf)) == bytes_mut_contents(*old(buf)) + b@,
{
    buf.extend_from_slice(b)
}

/// Relies on `BytesMut::new`: a buffer that holds nothing.
#[verifier::external_body]
fn bytes_mut_new() -> (r: bytes::BytesMut)
    ensures
        bytes_mut_contents(r) == Seq::<u8>::empty(),
{
    bytes::BytesMut::new()
}

/// Relies on `Bytes::as_ref`: the held bytes as a slice.
#[verifier::external_body]
fn bytes_slice(b: &bytes::Bytes) -> (r: &[u8])
    ensures
        r@ == bytes_contents(*b),
{
    b.as_ref()
}

/// Relies on `Buf::advance` for `Bytes`: it drops `n` bytes from the front
/// (and panics past the end, which the precondition rules out).
#[verifier::external_body]
fn bytes_advance(b: &mut bytes::Bytes, n: usize)
    requires
        n <= bytes_contents(*old(b)).len(),
    ensures
        bytes_contents(*final(b)) == bytes_contents(*old(b)).skip(n as int),
{
    bytes::Buf::advance(b, n)
}

/// `r` is what a reader of a whole message reports for the outcome `p` on
/// the held bytes `before`, leaving `after`: the value or the error, with
/// the bytes it was decided on dropped; bytes that run out mean that the
/// message ended early, and nothing is dropped then.
pub open spec fn takes<T: View>(r: Result<T, ClickHouseClientError>, before: Seq<u8>, after: Seq<u8>, p: Parsed<T::V>) -> bool {
    match p {
        Parsed::Done(v, n) => r is Ok && r->Ok_0@ == v && after == before.skip(n as int),
        Parsed::NeedMore => r == Err::<T, ClickHouseClientError>(ClickHouseClientError::UnexpectedEndOfStream) && after == before,
        Parsed::Fail(e, n) => r == Err::<T, ClickHouseClientError>(e) && after == before.skip(n as int),
    }
}

/// A buffer to write into, holding nothing yet.
pub fn new_write_buffer() -> (r: bytes::BytesMut)
    ensures
        bytes_mut_contents(r) == Seq::<u8>::empty(),
{
    bytes_mut_new()
}

/// Appends the encoding of `x` and returns its length.
pub fn write_uvarint(buf: &mut bytes::BytesMut, x: u64) -> (n: usize)
    requires
        bytes_mut_contents(*old(buf)).len() + MAX_VARINT_LEN64 <= isize::MAX,
    ensures
        bytes_mut_contents(*final(buf)) == bytes_mut_contents(*old(buf)) + varint_bytes(x as nat),
        n == varint_bytes(x as nat).len(),
{
    let mut enc = ClickHouseEncoder::new();
    let n = enc.encode_var_uint(x);
    append_slice(buf, enc.as_bytes());
    n
}

/// Appends `x` as a UTF-8 string field and returns how many bytes that
/// took.
pub fn write_string(buf: &mut bytes::BytesMut, x: &str) -> (n: usize)
    requires
        bytes_mut_contents(*old(buf)).len() + utf8_string_bytes(x@).len() <= isize::MAX,
    ensures
        bytes_mut_contents(*final(buf)) == bytes_mut_contents(*old(buf)) + utf8_string_bytes(x@),
        n == utf8_string_bytes(x@).len(),
{
    let mut enc = ClickHouseEncoder::new();
    let n = enc.encode_utf8_string(x);
    append_slice(buf, enc.as_bytes());
    n
}

/// Appends a boolean as 1 or 0.
pub fn write_bool(buf: &mut bytes::BytesMut, x: bool) -> (n: usize)
    requires
        bytes_mut_contents(*old(buf)).len() + 1 <= isize::MAX,
    ensures
        bytes_mut_contents(*final(buf)) == bytes_mut_contents(*old(buf)) + bool_bytes(x),
        n == 1,
{
    let mut enc = ClickHouseEncoder::new();
    let n = enc.encode_bool(x);
    append_slice(buf, enc.as_bytes());
    n
}

/// Reads a varint from the front of `buf`.
pub fn read_uvarint(buf: &mut bytes::Bytes) -> (r: Result<u64, ClickHouseClientError>)
    ensures
        takes(r, bytes_contents(*old(buf)), bytes_contents(*final(buf)), varint_parse(bytes_contents(*old(buf)))),
{
    let s = bytes_slice(buf);
    assert(s@.skip(0) =~= s@);
    match parse_var_uint(s, 0) {
        Ok(Some((v, p))) => {
            bytes_advance(buf, p);
            Ok(v)
        },
        Ok(None) => Err(ClickHouseClientError::UnexpectedEndOfStream),
        Err((e, p)) => {
            bytes_advance(buf, p);
            Err(e)
        },
    }
}

/// Reads a UTF-8 string field from the front of `buf`.
pub fn read_string(buf: &mut bytes::Bytes) -> (r: Result<String, ClickHouseClientError>)
    ensures
        takes(r, bytes_contents(*old(buf)), bytes_contents(*final(buf)), utf8_string_parse(bytes_contents(*old(buf)))),
{
    let s = bytes_slice(buf);
    assert(s@.skip(0) =~= s@);
    match parse_utf8_string(s, 0) {
        Ok(Some((v, p))) => {
            bytes_advance(buf, p);
            Ok(v)
        },
        Ok(None) => Err(ClickHouseClientError::UnexpectedEndOfStream),
        Err((e, p)) => {
            bytes_advance(buf, p);
            Err(e)
        },
    }
}

/// Reads a boolean from the front of `buf`; bytes other than 0 and 1 are
/// refused.
pub fn read_bool(buf: &mut bytes::Bytes) -> (r: Result<bool, ClickHouseClientError>)
    ensures
        takes(r, bytes_contents(*old(buf)), bytes_contents(*final(buf)), bool_parse(bytes_contents(*old(buf)))),
{
    let s = bytes_slice(buf);
    assert(s@.skip(0) =~= s@);
    match parse_bool(s, 0) {
        Ok(Some((v, p))) => {
            bytes_advance(buf, p);
            Ok(v)
        },
        Ok(None) => Err(ClickHouseClientError::UnexpectedEndOfStream),
        Err((e, p)) => {
            bytes_advance(buf, p);
            Err(e)
        },
    }
}

} // verus!
