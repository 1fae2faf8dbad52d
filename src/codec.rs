//! Wire forms of the primitive fields: bytes, booleans, little-endian
//! 32-bit integers and length-prefixed byte and UTF-8 strings.
use vstd::prelude::*;
use vstd::utf8::{
    decode_utf8, encode_utf8, encode_utf8_decode_utf8, encode_utf8_valid_utf8, valid_utf8,
};

use crate::error::ClickHouseClientError;
use crate::parsed::{reports, settled, ParseResult, Parsed};
use crate::varint::{
    lemma_varint_parse_bounds, lemma_varint_round_trip, lemma_varint_settled, parse_var_uint,
    varint_bytes, varint_parse,
};
use crate::MAX_STRING_SIZE;

verus! {

/// The byte that stands for `b`.
pub open spec fn bool_bytes(b: bool) -> Seq<u8> {
    if b {
        seq![1u8]
    } else {
        seq![0u8]
    }
}

/// The four bytes of `x` in two's complement, least significant first.
pub open spec fn i32_bytes(x: i32) -> Seq<u8> {
    let u = x as u32;
    seq![(u % 256) as u8, (u / 256 % 256) as u8, (u / 65536 % 256) as u8, (u / 16777216) as u8]
}

/// A length prefix followed by the bytes themselves.
pub open spec fn string_bytes(b: Seq<u8>) -> Seq<u8> {
    varint_bytes(b.len()) + b
}

/// The wire form of a text: its UTF-8 bytes as a string field.
pub open spec fn utf8_string_bytes(s: Seq<char>) -> Seq<u8> {
    string_bytes(encode_utf8(s))
}

/// Decoding one byte.
pub open spec fn u8_parse(s: Seq<u8>) -> Parsed<u8> {
    if s.len() >= 1 {
        Parsed::Done(s[0], 1)
    } else {
        Parsed::NeedMore
    }
}

/// Decoding a boolean: 0 and 1 only; another byte is taken with the
/// error.
pub open spec fn bool_parse(s: Seq<u8>) -> Parsed<bool> {
    if s.len() < 1 {
        Parsed::NeedMore
    } else if s[0] == 0 {
        Parsed::Done(false, 1)
    } else if s[0] == 1 {
        Parsed::Done(true, 1)
    } else {
        Parsed::Fail(ClickHouseClientError::MalformedBool(s[0]), 1)
    }
}

/// The 32-bit integer whose little-endian bytes begin `s`.
pub open spec fn le_i32(s: Seq<u8>) -> i32 {
    (s[0] as int + 256 * s[1] + 65536 * s[2] + 16777216 * s[3]) as u32 as i32
}

/// Decoding a little-endian 32-bit integer.
pub open spec fn i32_parse(s: Seq<u8>) -> Parsed<i32> {
    if s.len() >= 4 {
        Parsed::Done(le_i32(s), 4)
    } else {
        Parsed::NeedMore
    }
}

/// Decoding a byte string: the length prefix, refused above
/// `MAX_STRING_SIZE` as soon as it is read (the prefix is taken with the
/// error, none of what follows), then that many bytes.
pub open spec fn string_parse(s: Seq<u8>) -> Parsed<Seq<u8>> {
    match varint_parse(s) {
        Parsed::Done(n, k) => if n > MAX_STRING_SIZE {
            Parsed::Fail(ClickHouseClientError::OversizedField, k)
        } else if s.len() < k + n {
            Parsed::NeedMore
        } else {
            Parsed::Done(s.subrange(k as int, k + n), (k + n) as nat)
        },
        Parsed::NeedMore => Parsed::NeedMore,
        Parsed::Fail(e, n) => Parsed::Fail(e, n),
    }
}

/// Decoding a UTF-8 string: a byte string whose bytes must be UTF-8; when
/// they are not, the whole field is taken with the error.
pub open spec fn utf8_string_parse(s: Seq<u8>) -> Parsed<Seq<char>> {
    match string_parse(s) {
        Parsed::Done(b, k) => if valid_utf8(b) {
            Parsed::Done(decode_utf8(b), k)
        } else {
            Parsed::Fail(ClickHouseClientError::InvalidUtf8, k)
        },
        Parsed::NeedMore => Parsed::NeedMore,
        Parsed::Fail(e, n) => Parsed::Fail(e, n),
    }
}

/// A boolean reads back as itself from its one byte, whatever follows.
pub proof fn lemma_bool_round_trip(b: bool, rest: Seq<u8>)
    ensures
        bool_bytes(b).len() == 1,
        bool_parse(bool_bytes(b) + rest) == Parsed::Done(b, 1),
{
    assert((bool_bytes(b) + rest)[0] == bool_bytes(b)[0]);
}

/// A 32-bit integer reads back as itself from its four bytes, whatever
/// follows.
pub proof fn lemma_i32_round_trip(x: i32, rest: Seq<u8>)
    ensures
        i32_parse(i32_bytes(x) + rest) == Parsed::Done(x, 4),
{
    let s = i32_bytes(x) + rest;
    let u = x as u32;
    assert(s[0] == i32_bytes(x)[0] && s[1] == i32_bytes(x)[1] && s[2] == i32_bytes(x)[2] && s[3] == i32_bytes(x)[3]);
    assert((u % 256) as u8 as int + 256 * ((u / 256 % 256) as u8) + 65536 * ((u / 65536 % 256) as u8) + 16777216 * ((u / 16777216) as u8) == u) by (bit_vector);
    assert(((x as u32) as i32) == x) by (bit_vector);
}

/// A byte string of at most `MAX_STRING_SIZE` bytes reads back as itself
/// from its wire form, whatever follows.
pub proof fn lemma_string_round_trip(b: Seq<u8>, rest: Seq<u8>)
    requires
        b.len() <= MAX_STRING_SIZE,
    ensures
        string_parse(string_bytes(b) + rest) == Parsed::Done(b, string_bytes(b).len()),
{
    let h = varint_bytes(b.len());
    let s = string_bytes(b) + rest;
    lemma_varint_round_trip(b.len() as u64, b + rest);
    assert(s =~= h + (b + rest));
    assert(s.subrange(h.len() as int, (h.len() + b.len()) as int) =~= b);
}

/// The wire form of any text is a varint of its UTF-8 byte count
/// followed by those bytes, so its length is the length of that varint plus
/// the byte count.
pub proof fn lemma_utf8_string_len(text: Seq<char>)
    ensures
        utf8_string_bytes(text) == varint_bytes(encode_utf8(text).len()) + encode_utf8(text),
        utf8_string_bytes(text).len() == varint_bytes(encode_utf8(text).len()).len() + encode_utf8(
            text,
        ).len(),
{
}

/// Any text of at most `MAX_STRING_SIZE` UTF-8 bytes reads back as itself
/// from its wire form, whatever follows.
pub proof fn lemma_utf8_string_round_trip(text: Seq<char>, rest: Seq<u8>)
    requires
        encode_utf8(text).len() <= MAX_STRING_SIZE,
    ensures
        utf8_string_parse(utf8_string_bytes(text) + rest) == Parsed::Done(text, utf8_string_bytes(text).len()),
{
    lemma_string_round_trip(encode_utf8(text), rest);
    encode_utf8_valid_utf8(text);
    encode_utf8_decode_utf8(text);
}

/// A decoded or refused string takes at least one byte and no more than
/// the bytes at hand.
pub proof fn lemma_utf8_string_parse_bounds(s: Seq<u8>)
    ensures
        string_parse(s) matches Parsed::Done(_, n) ==> 1 <= n <= s.len(),
        string_parse(s) matches Parsed::Fail(_, n) ==> 1 <= n <= s.len(),
        utf8_string_parse(s) matches Parsed::Done(_, n) ==> 1 <= n <= s.len(),
        utf8_string_parse(s) matches Parsed::Fail(_, n) ==> 1 <= n <= s.len(),
{
    lemma_varint_parse_bounds(s);
}

/// More bytes after a byte, a boolean or an integer do not change how it
/// decodes.
pub proof fn lemma_fixed_settled(s: Seq<u8>, t: Seq<u8>)
    ensures
        settled(u8_parse(s), u8_parse(s + t), s.len()),
        settled(bool_parse(s), bool_parse(s + t), s.len()),
        settled(i32_parse(s), i32_parse(s + t), s.len()),
{
    if s.len() >= 1 {
        assert((s + t)[0] == s[0]);
    }
    if s.len() >= 4 {
        assert((s + t)[1] == s[1] && (s + t)[2] == s[2] && (s + t)[3] == s[3]);
    }
}

/// More bytes after a string do not change how it decodes.
pub proof fn lemma_utf8_string_settled(s: Seq<u8>, t: Seq<u8>)
    ensures
        settled(string_parse(s), string_parse(s + t), s.len()),
        settled(utf8_string_parse(s), utf8_string_parse(s + t), s.len()),
{
    lemma_varint_settled(s, t);
    lemma_varint_parse_bounds(s + t);
    if let Parsed::Done(n, k) = varint_parse(s) {
        if k + n <= s.len() {
            assert((s + t).subrange(k as int, k + n) =~= s.subrange(k as int, k + n));
        }
    }
}

/// Relies on `String::from_utf8`: it succeeds exactly on valid UTF-8, and
/// the text it returns is what those bytes decode to.
#[verifier::external_body]
fn string_from_utf8(bytes: Vec<u8>) -> (r: Option<String>)
    ensures
        match r {
            Some(t) => valid_utf8(bytes@) && t@ == decode_utf8(bytes@),
            None => !valid_utf8(bytes@),
        },
{
    String::from_utf8(bytes).ok()
}

/// Decodes one byte from `s` at `pos`.
pub fn parse_u8(s: &[u8], pos: usize) -> (r: ParseResult<u8>)
    requires
        pos <= s@.len(),
    ensures
        reports(r, pos as int, u8_parse(s@.skip(pos as int))),
        r matches Ok(Some((_, q))) ==> pos < q <= s@.len(),
        r matches Err((_, q)) ==> pos < q <= s@.len(),
{
    if pos < s.len() {
        Ok(Some((s[pos], pos + 1)))
    } else {
        Ok(None)
    }
}

/// Decodes a boolean from `s` at `pos`.
pub fn parse_bool(s: &[u8], pos: usize) -> (r: ParseResult<bool>)
    requires
        pos <= s@.len(),
    ensures
        reports(r, pos as int, bool_parse(s@.skip(pos as int))),
        r matches Ok(Some((_, q))) ==> pos < q <= s@.len(),
        r matches Err((_, q)) ==> pos < q <= s@.len(),
{
    if pos >= s.len() {
        return Ok(None);
    }
    let b = s[pos];
    if b == 0 {
        Ok(Some((false, pos + 1)))
    } else if b == 1 {
        Ok(Some((true, pos + 1)))
    } else {
        Err((ClickHouseClientError::MalformedBool(b), pos + 1))
    }
}

/// Decodes a little-endian 32-bit integer from `s` at `pos`.
pub fn parse_i32(s: &[u8], pos: usize) -> (r: ParseResult<i32>)
    requires
        pos <= s@.len(),
    ensures
        reports(r, pos as int, i32_parse(s@.skip(pos as int))),
        r matches Ok(Some((_, q))) ==> pos < q <= s@.len(),
        r matches Err((_, q)) ==> pos < q <= s@.len(),
{
    if s.len() - pos < 4 {
        return Ok(None);
    }
    let u: u32 = s[pos] as u32 + 256 * (s[pos + 1] as u32) + 65536 * (s[pos + 2] as u32) + 16777216 * (s[pos + 3] as u32);
    let ghost t = s@.skip(pos as int);
    assert(t[0] == s[pos as int] && t[1] == s[pos + 1] && t[2] == s[pos + 2] && t[3] == s[pos + 3]);
    Ok(Some((u as i32, pos + 4)))
}

/// Decodes a byte string from `s` at `pos`.
pub fn parse_string(s: &[u8], pos: usize) -> (r: ParseResult<Vec<u8>>)
    requires
        pos <= s@.len(),
    ensures
        reports(r, pos as int, string_parse(s@.skip(pos as int))),
        r matches Ok(Some((_, q))) ==> pos < q <= s@.len(),
        r matches Err((_, q)) ==> pos < q <= s@.len(),
{
    let ghost t = s@.skip(pos as int);
    let (n, k) = match parse_var_uint(s, pos) {
        Ok(Some(x)) => x,
        Ok(None) => return Ok(None),
        Err(e) => return Err(e),
    };
    if n > MAX_STRING_SIZE as u64 {
        return Err((ClickHouseClientError::OversizedField, k));
    }
    let len = n as usize;
    let slen = s.len();
    if len > slen - k {
        return Ok(None);
    }
    let mut out: Vec<u8> = Vec::with_capacity(len);
    let mut j: usize = 0;
    while j < len
        invariant
            j <= len,
            k + len <= slen,
            slen == s@.len(),
            out@ == s@.subrange(k as int, k + j),
        decreases len - j,
    {
        out.push(s[k + j]);
        j += 1;
        assert(out@ =~= s@.subrange(k as int, k + j));
    }
    assert(t.subrange((k - pos) as int, (k - pos) + n) =~= s@.subrange(k as int, k + len));
    Ok(Some((out, k + len)))
}

/// Decodes a UTF-8 string from `s` at `pos`.
pub fn parse_utf8_string(s: &[u8], pos: usize) -> (r: ParseResult<String>)
    requires
        pos <= s@.len(),
    ensures
        reports(r, pos as int, utf8_string_parse(s@.skip(pos as int))),
        r matches Ok(Some((_, q))) ==> pos < q <= s@.len(),
        r matches Err((_, q)) ==> pos < q <= s@.len(),
{
    let (bytes, k) = match parse_string(s, pos) {
        Ok(Some(x)) => x,
        Ok(None) => return Ok(None),
        Err(e) => return Err(e),
    };
    match string_from_utf8(bytes) {
        Some(text) => Ok(Some((text, k))),
        None => Err((ClickHouseClientError::InvalidUtf8, k)),
    }
}

} // verus!
