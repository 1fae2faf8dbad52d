//! Packets that the server sends, and how they are decoded.
use vstd::prelude::*;
use vstd::utf8::encode_utf8;

use crate::codec::{
    bool_bytes, bool_parse, i32_bytes, i32_parse, lemma_bool_round_trip, lemma_fixed_settled,
    lemma_i32_round_trip, lemma_utf8_string_round_trip, utf8_string_bytes, lemma_utf8_string_parse_bounds,
    lemma_utf8_string_settled, parse_bool, parse_i32, parse_u8, parse_utf8_string, u8_parse,
    utf8_string_parse,
};
use crate::error::ClickHouseClientError;
use crate::MAX_STRING_SIZE;
use crate::parsed::{lemma_skip_append, reports, settled, ParseResult, Parsed};
use crate::varint::{lemma_varint_parse_bounds, lemma_varint_settled, parse_var_uint, varint_parse};

verus! {

/// Kinds of server packets; each begins with its one-byte code.
#[derive(Debug, Clone, Copy, PartialEq, Eq, Structural)]
pub enum ServerPacketCode {
    Hello,
    Data,
    Exception,
    Progress,
    Pong,
    EndOfStream,
    ProfileInfo,
    Totals,
    Extremes,
    TablesStatusResponse,
    Log,
    TableColumns,
    UUIDs,
    ReadTaskRequest,
    ProfileEvents,
}

impl View for ServerPacketCode {
    type V = ServerPacketCode;

    open spec fn view(&self) -> ServerPacketCode {
        *self
    }
}

/// The kind of server packet that the byte `b` introduces, if any.
pub open spec fn spec_server_code(b: u8) -> Option<ServerPacketCode> {
    if b == 0 {
        Some(ServerPacketCode::Hello)
    } else if b == 1 {
        Some(ServerPacketCode::Data)
    } else if b == 2 {
        Some(ServerPacketCode::Exception)
    } else if b == 3 {
        Some(ServerPacketCode::Progress)
    } else if b == 4 {
        Some(ServerPacketCode::Pong)
    } else if b == 5 {
        Some(ServerPacketCode::EndOfStream)
    } else if b == 6 {
        Some(ServerPacketCode::ProfileInfo)
    } else if b == 7 {
        Some(ServerPacketCode::Totals)
    } else if b == 8 {
        Some(ServerPacketCode::Extremes)
    } else if b == 9 {
        Some(ServerPacketCode::TablesStatusResponse)
    } else if b == 10 {
        Some(ServerPacketCode::Log)
    } else if b == 11 {
        Some(ServerPacketCode::TableColumns)
    } else if b == 12 {
        Some(ServerPacketCode::UUIDs)
    } else if b == 13 {
        Some(ServerPacketCode::ReadTaskRequest)
    } else if b == 14 {
        Some(ServerPacketCode::ProfileEvents)
    } else {
        None
    }
}

impl ServerPacketCode {
    /// The byte that introduces a packet of this kind.
    pub open spec fn spec_code(self) -> u8 {
        match self {
            ServerPacketCode::Hello => 0,
            ServerPacketCode::Data => 1,
            ServerPacketCode::Exception => 2,
            ServerPacketCode::Progress => 3,
            ServerPacketCode::Pong => 4,
            ServerPacketCode::EndOfStream => 5,
            ServerPacketCode::ProfileInfo => 6,
            ServerPacketCode::Totals => 7,
            ServerPacketCode::Extremes => 8,
            ServerPacketCode::TablesStatusResponse => 9,
            ServerPacketCode::Log => 10,
            ServerPacketCode::TableColumns => 11,
            ServerPacketCode::UUIDs => 12,
            ServerPacketCode::ReadTaskRequest => 13,
            ServerPacketCode::ProfileEvents => 14,
        }
    }

    /// The byte that introduces a packet of this kind.
    pub fn code(self) -> (r: u8)
        ensures
            r == self.spec_code(),
    {
        match self {
            ServerPacketCode::Hello => 0,
            ServerPacketCode::Data => 1,
            ServerPacketCode::Exception => 2,
            ServerPacketCode::Progress => 3,
            ServerPacketCode::Pong => 4,
            ServerPacketCode::EndOfStream => 5,
            ServerPacketCode::ProfileInfo => 6,
            ServerPacketCode::Totals => 7,
            ServerPacketCode::Extremes => 8,
            ServerPacketCode::TablesStatusResponse => 9,
            ServerPacketCode::Log => 10,
            ServerPacketCode::TableColumns => 11,
            ServerPacketCode::UUIDs => 12,
            ServerPacketCode::ReadTaskRequest => 13,
            ServerPacketCode::ProfileEvents => 14,
        }
    }

    /// The kind of packet that `value` introduces; a byte that names no
    /// kind is an error.
    pub fn from_code(value: u8) -> (r: Result<ServerPacketCode, ClickHouseClientError>)
        ensures
            match spec_server_code(value) {
                Some(c) => r == Ok::<ServerPacketCode, ClickHouseClientError>(c),
                None => r == Err::<ServerPacketCode, ClickHouseClientError>(ClickHouseClientError::UnknownPacketCode(value)),
            },
    {
        match value {
            0 => Ok(ServerPacketCode::Hello),
            1 => Ok(ServerPacketCode::Data),
            2 => Ok(ServerPacketCode::Exception),
            3 => Ok(ServerPacketCode::Progress),
            4 => Ok(ServerPacketCode::Pong),
            5 => Ok(ServerPacketCode::EndOfStream),
            6 => Ok(ServerPacketCode::ProfileInfo),
            7 => Ok(ServerPacketCode::Totals),
            8 => Ok(ServerPacketCode::Extremes),
            9 => Ok(ServerPacketCode::TablesStatusResponse),
            10 => Ok(ServerPacketCode::Log),
            11 => Ok(ServerPacketCode::TableColumns),
            12 => Ok(ServerPacketCode::UUIDs),
            13 => Ok(ServerPacketCode::ReadTaskRequest),
            14 => Ok(ServerPacketCode::ProfileEvents),
            _ => Err(ClickHouseClientError::UnknownPacketCode(value)),
        }
    }
}

/// The fields of a server handshake, as values.
pub struct HelloModel {
    pub name: Seq<char>,
    pub version_major: u64,
    pub version_minor: u64,
    pub revision: u64,
    pub tz: Seq<char>,
    pub display_name: Seq<char>,
    pub version_patch: u64,
}

/// The server's answer to the client's handshake.
#[derive(Debug, Clone)]
pub struct HelloPacket {
    pub name: String,
    pub version_major: u64,
    pub version_minor: u64,
    pub revision: u64,
    pub tz: String,
    pub display_name: String,
    pub version_patch: u64,
}

impl View for HelloPacket {
    type V = HelloModel;

    open spec fn view(&self) -> HelloModel {
        HelloModel {
            name: self.name@,
            version_major: self.version_major,
            version_minor: self.version_minor,
            revision: self.revision,
            tz: self.tz@,
            display_name: self.display_name@,
            version_patch: self.version_patch,
        }
    }
}

/// The fields of one exception record, as values.
pub struct ExceptionModel {
    pub code: i32,
    pub name: Seq<char>,
    pub message: Seq<char>,
    pub stack_trace: Seq<char>,
    pub nested: bool,
}

/// One record of an error that the server reports; `nested` says that
/// another record follows.
#[derive(Debug, Clone)]
pub struct ExceptionPacket {
    pub code: i32,
    pub name: String,
    pub message: String,
    pub stack_trace: String,
    pub nested: bool,
}

impl View for ExceptionPacket {
    type V = ExceptionModel;

    open spec fn view(&self) -> ExceptionModel {
        ExceptionModel {
            code: self.code,
            name: self.name@,
            message: self.message@,
            stack_trace: self.stack_trace@,
            nested: self.nested,
        }
    }
}

/// The server's answer to a ping; it carries nothing.
#[derive(Debug, Clone, Copy, PartialEq, Eq, Structural)]
pub struct PongPacket {}

/// Decoding a packet code: a byte that names a kind of server packet; a
/// byte that names none is taken with the error, so that reading can go
/// on after it.
pub open spec fn packet_code_parse(s: Seq<u8>) -> Parsed<ServerPacketCode> {
    match u8_parse(s) {
        Parsed::Done(b, n) => match spec_server_code(b) {
            Some(c) => Parsed::Done(c, n),
            None => Parsed::Fail(ClickHouseClientError::UnknownPacketCode(b), n),
        },
        Parsed::NeedMore => Parsed::NeedMore,
        Parsed::Fail(e, n) => Parsed::Fail(e, n),
    }
}

/// Decoding the body of a server handshake: name, three version numbers,
/// time zone, display name and patch version, in that order. An error in
/// a field is reported with everything read up to it.
pub open spec fn server_hello_parse(s: Seq<u8>) -> Parsed<HelloModel> {
    match utf8_string_parse(s) {
        Parsed::Done(name, n1) => {
            let k1 = n1 as int;
            match varint_parse(s.skip(k1)) {
                Parsed::Done(version_major, n2) => {
                    let k2 = k1 + n2;
                    match varint_parse(s.skip(k2)) {
                        Parsed::Done(version_minor, n3) => {
                            let k3 = k2 + n3;
                            match varint_parse(s.skip(k3)) {
                                Parsed::Done(revision, n4) => {
                                    let k4 = k3 + n4;
                                    match utf8_string_parse(s.skip(k4)) {
                                        Parsed::Done(tz, n5) => {
                                            let k5 = k4 + n5;
                                            match utf8_string_parse(s.skip(k5)) {
                                                Parsed::Done(display_name, n6) => {
                                                    let k6 = k5 + n6;
                                                    match varint_parse(s.skip(k6)) {
                                                        Parsed::Done(version_patch, n7) => Parsed::Done(
                                                            HelloModel { name, version_major, version_minor, revision, tz, display_name, version_patch },
                                                            (k6 + n7) as nat,
                                                        ),
                                                        Parsed::NeedMore => Parsed::NeedMore,
                                                        Parsed::Fail(e, n) => Parsed::Fail(e, (k6 + n) as nat),
                                                    }
                                                },
                                                Parsed::NeedMore => Parsed::NeedMore,
                                                Parsed::Fail(e, n) => Parsed::Fail(e, (k5 + n) as nat),
                                            }
                                        },
                                        Parsed::NeedMore => Parsed::NeedMore,
                                        Parsed::Fail(e, n) => Parsed::Fail(e, (k4 + n) as nat),
                                    }
                                },
                                Parsed::NeedMore => Parsed::NeedMore,
                                Parsed::Fail(e, n) => Parsed::Fail(e, (k3 + n) as nat),
                            }
                        },
                        Parsed::NeedMore => Parsed::NeedMore,
                        Parsed::Fail(e, n) => Parsed::Fail(e, (k2 + n) as nat),
                    }
                },
                Parsed::NeedMore => Parsed::NeedMore,
                Parsed::Fail(e, n) => Parsed::Fail(e, (k1 + n) as nat),
            }
        },
        Parsed::NeedMore => Parsed::NeedMore,
        Parsed::Fail(e, n) => Parsed::Fail(e, n),
    }
}

/// Decoding one exception record: code, name, message, stack trace and
/// the nested flag, in that order. An error in a field is reported with
/// everything read up to it.
pub open spec fn exception_parse(s: Seq<u8>) -> Parsed<ExceptionModel> {
    match i32_parse(s) {
        Parsed::Done(code, n1) => {
            let k1 = n1 as int;
            match utf8_string_parse(s.skip(k1)) {
                Parsed::Done(name, n2) => {
                    let k2 = k1 + n2;
                    match utf8_string_parse(s.skip(k2)) {
                        Parsed::Done(message, n3) => {
                            let k3 = k2 + n3;
                            match utf8_string_parse(s.skip(k3)) {
                                Parsed::Done(stack_trace, n4) => {
                                    let k4 = k3 + n4;
                                    match bool_parse(s.skip(k4)) {
                                        Parsed::Done(nested, n5) => Parsed::Done(
                                            ExceptionModel { code, name, message, stack_trace, nested },
                                            (k4 + n5) as nat,
                                        ),
                                        Parsed::NeedMore => Parsed::NeedMore,
                                        Parsed::Fail(e, n) => Parsed::Fail(e, (k4 + n) as nat),
                                    }
                                },
                                Parsed::NeedMore => Parsed::NeedMore,
                                Parsed::Fail(e, n) => Parsed::Fail(e, (k3 + n) as nat),
                            }
                        },
                        Parsed::NeedMore => Parsed::NeedMore,
                        Parsed::Fail(e, n) => Parsed::Fail(e, (k2 + n) as nat),
                    }
                },
                Parsed::NeedMore => Parsed::NeedMore,
                Parsed::Fail(e, n) => Parsed::Fail(e, (k1 + n) as nat),
            }
        },
        Parsed::NeedMore => Parsed::NeedMore,
        Parsed::Fail(e, n) => Parsed::Fail(e, n),
    }
}

/// A decoded or refused exception record takes some of the bytes at hand
/// and no more.
pub proof fn lemma_exception_parse_bounds(s: Seq<u8>)
    ensures
        exception_parse(s) matches Parsed::Done(_, n) ==> 1 <= n <= s.len(),
        exception_parse(s) matches Parsed::Fail(_, n) ==> 1 <= n <= s.len(),
{
    if let Parsed::Done(_, n1) = i32_parse(s) {
        let k1 = n1 as int;
        lemma_utf8_string_parse_bounds(s.skip(k1));
        if let Parsed::Done(_, n2) = utf8_string_parse(s.skip(k1)) {
            let k2 = k1 + n2;
            lemma_utf8_string_parse_bounds(s.skip(k2));
            if let Parsed::Done(_, n3) = utf8_string_parse(s.skip(k2)) {
                let k3 = k2 + n3;
                lemma_utf8_string_parse_bounds(s.skip(k3));
            }
        }
    }
}

/// A decoded or refused server handshake takes some of the bytes at hand
/// and no more.
pub proof fn lemma_server_hello_parse_bounds(s: Seq<u8>)
    ensures
        server_hello_parse(s) matches Parsed::Done(_, n) ==> 1 <= n <= s.len(),
        server_hello_parse(s) matches Parsed::Fail(_, n) ==> 1 <= n <= s.len(),
{
    lemma_utf8_string_parse_bounds(s);
    if let Parsed::Done(_, n1) = utf8_string_parse(s) {
        let k1 = n1 as int;
        lemma_varint_parse_bounds(s.skip(k1));
        if let Parsed::Done(_, n2) = varint_parse(s.skip(k1)) {
            let k2 = k1 + n2;
            lemma_varint_parse_bounds(s.skip(k2));
            if let Parsed::Done(_, n3) = varint_parse(s.skip(k2)) {
                let k3 = k2 + n3;
                lemma_varint_parse_bounds(s.skip(k3));
                if let Parsed::Done(_, n4) = varint_parse(s.skip(k3)) {
                    let k4 = k3 + n4;
                    lemma_utf8_string_parse_bounds(s.skip(k4));
                    if let Parsed::Done(_, n5) = utf8_string_parse(s.skip(k4)) {
                        let k5 = k4 + n5;
                        lemma_utf8_string_parse_bounds(s.skip(k5));
                        if let Parsed::Done(_, n6) = utf8_string_parse(s.skip(k5)) {
                            let k6 = k5 + n6;
                            lemma_varint_parse_bounds(s.skip(k6));
                        }
                    }
                }
            }
        }
    }
}

/// More bytes after an exception record do not change how it decodes.
pub proof fn lemma_exception_settled(s: Seq<u8>, t: Seq<u8>)
    ensures
        settled(exception_parse(s), exception_parse(s + t), s.len()),
{
    lemma_fixed_settled(s, t);
    if let Parsed::Done(_, n1) = i32_parse(s) {
        let k1 = n1 as int;
        lemma_skip_append(s, t, k1);
        lemma_utf8_string_settled(s.skip(k1), t);
        lemma_utf8_string_parse_bounds(s.skip(k1));
        if let Parsed::Done(_, n2) = utf8_string_parse(s.skip(k1)) {
            let k2 = k1 + n2;
            lemma_skip_append(s, t, k2);
            lemma_utf8_string_settled(s.skip(k2), t);
            lemma_utf8_string_parse_bounds(s.skip(k2));
            if let Parsed::Done(_, n3) = utf8_string_parse(s.skip(k2)) {
                let k3 = k2 + n3;
                lemma_skip_append(s, t, k3);
                lemma_utf8_string_settled(s.skip(k3), t);
                lemma_utf8_string_parse_bounds(s.skip(k3));
                if let Parsed::Done(_, n4) = utf8_string_parse(s.skip(k3)) {
                    let k4 = k3 + n4;
                    lemma_skip_append(s, t, k4);
                    lemma_fixed_settled(s.skip(k4), t);
                }
            }
        }
    }
}

/// More bytes after a server handshake do not change how it decodes.
pub proof fn lemma_server_hello_settled(s: Seq<u8>, t: Seq<u8>)
    ensures
        settled(server_hello_parse(s), server_hello_parse(s + t), s.len()),
{
    lemma_utf8_string_settled(s, t);
    lemma_utf8_string_parse_bounds(s);
    if let Parsed::Done(_, n1) = utf8_string_parse(s) {
        let k1 = n1 as int;
        lemma_skip_append(s, t, k1);
        lemma_varint_settled(s.skip(k1), t);
        lemma_varint_parse_bounds(s.skip(k1));
        if let Parsed::Done(_, n2) = varint_parse(s.skip(k1)) {
            let k2 = k1 + n2;
            lemma_skip_append(s, t, k2);
            lemma_varint_settled(s.skip(k2), t);
            lemma_varint_parse_bounds(s.skip(k2));
            if let Parsed::Done(_, n3) = varint_parse(s.skip(k2)) {
                let k3 = k2 + n3;
                lemma_skip_append(s, t, k3);
                lemma_varint_settled(s.skip(k3), t);
                lemma_varint_parse_bounds(s.skip(k3));
                if let Parsed::Done(_, n4) = varint_parse(s.skip(k3)) {
                    let k4 = k3 + n4;
                    lemma_skip_append(s, t, k4);
                    lemma_utf8_string_settled(s.skip(k4), t);
                    lemma_utf8_string_parse_bounds(s.skip(k4));
                    if let Parsed::Done(_, n5) = utf8_string_parse(s.skip(k4)) {
                        let k5 = k4 + n5;
                        lemma_skip_append(s, t, k5);
                        lemma_utf8_string_settled(s.skip(k5), t);
                        lemma_utf8_string_parse_bounds(s.skip(k5));
                        if let Parsed::Done(_, n6) = utf8_string_parse(s.skip(k5)) {
                            let k6 = k5 + n6;
                            lemma_skip_append(s, t, k6);
                            lemma_varint_settled(s.skip(k6), t);
                        }
                    }
                }
            }
        }
    }
}

/// Puts the records `front`, which took `n` bytes, before an outcome.
pub open spec fn chain_after(front: Seq<ExceptionModel>, n: nat, rest: Parsed<Seq<ExceptionModel>>) -> Parsed<Seq<ExceptionModel>> {
    match rest {
        Parsed::Done(list, m) => Parsed::Done(front + list, n + m),
        Parsed::NeedMore => Parsed::NeedMore,
        Parsed::Fail(e, m) => Parsed::Fail(e, n + m),
    }
}

/// Decoding an exception chain: records up to and including the first
/// whose nested flag is false.
pub open spec fn exception_chain_parse(s: Seq<u8>) -> Parsed<Seq<ExceptionModel>>
    decreases s.len(),
    via exception_chain_parse_decreases
{
    match exception_parse(s) {
        Parsed::Done(e, n) => if e.nested {
            chain_after(seq![e], n, exception_chain_parse(s.skip(n as int)))
        } else {
            Parsed::Done(seq![e], n)
        },
        Parsed::NeedMore => Parsed::NeedMore,
        Parsed::Fail(x, n) => Parsed::Fail(x, n),
    }
}

/// More bytes after an exception chain do not change how it decodes.
pub proof fn lemma_exception_chain_settled(s: Seq<u8>, t: Seq<u8>)
    ensures
        settled(exception_chain_parse(s), exception_chain_parse(s + t), s.len()),
    decreases s.len(),
{
    lemma_exception_settled(s, t);
    lemma_exception_parse_bounds(s);
    lemma_exception_parse_bounds(s + t);
    if let Parsed::Done(e, n) = exception_parse(s) {
        if e.nested {
            lemma_skip_append(s, t, n as int);
            lemma_exception_chain_settled(s.skip(n as int), t);
        }
    }
}

/// A decoded or refused exception chain takes some of the bytes at hand
/// and no more.
pub proof fn lemma_exception_chain_bounds(s: Seq<u8>)
    ensures
        exception_chain_parse(s) matches Parsed::Done(_, n) ==> 1 <= n <= s.len(),
        exception_chain_parse(s) matches Parsed::Fail(_, n) ==> 1 <= n <= s.len(),
    decreases s.len(),
{
    lemma_exception_parse_bounds(s);
    if let Parsed::Done(e, n) = exception_parse(s) {
        if e.nested {
            lemma_exception_chain_bounds(s.skip(n as int));
        }
    }
}

#[via_fn]
proof fn exception_chain_parse_decreases(s: Seq<u8>) {
    lemma_exception_parse_bounds(s);
}

/// `r` reports the outcome `p` of decoding an exception chain from `pos`.
pub open spec fn reports_chain(r: ParseResult<Vec<ExceptionPacket>>, pos: int, p: Parsed<Seq<ExceptionModel>>) -> bool {
    match p {
        Parsed::Done(list, n) => match r {
            Ok(Some((v, q))) => v@.len() == list.len() && (forall|i: int| 0 <= i < list.len() ==> #[trigger] v@[i]@ == list[i]) && q == pos + n,
            _ => false,
        },
        Parsed::NeedMore => r is Ok && r->Ok_0 is None,
        Parsed::Fail(e, n) => match r {
            Err((x, q)) => x == e && q == pos + n,
            _ => false,
        },
    }
}

/// Decodes a packet code from `s` at `pos`.
pub fn parse_packet_code(s: &[u8], pos: usize) -> (r: ParseResult<ServerPacketCode>)
    requires
        pos <= s@.len(),
    ensures
        reports(r, pos as int, packet_code_parse(s@.skip(pos as int))),
        r matches Ok(Some((_, q))) ==> pos < q <= s@.len(),
        r matches Err((_, q)) ==> pos < q <= s@.len(),
{
    let (b, p) = match parse_u8(s, pos) {
        Ok(Some(x)) => x,
        Ok(None) => return Ok(None),
        Err(e) => return Err(e),
    };
    match ServerPacketCode::from_code(b) {
        Ok(c) => Ok(Some((c, p))),
        Err(e) => Err((e, p)),
    }
}

/// Decodes the body of a server handshake from `s` at `pos`.
#[verifier::rlimit(40)]
pub fn parse_server_hello(s: &[u8], pos: usize) -> (r: ParseResult<HelloPacket>)
    requires
        pos <= s@.len(),
    ensures
        reports(r, pos as int, server_hello_parse(s@.skip(pos as int))),
        r matches Ok(Some((_, q))) ==> pos < q <= s@.len(),
        r matches Err((_, q)) ==> pos < q <= s@.len(),
{
    let ghost t = s@.skip(pos as int);
    let (name, at1) = match parse_utf8_string(s, pos) {
        Ok(Some(x)) => x,
        Ok(None) => return Ok(None),
        Err(e) => return Err(e),
    };
    assert(s@.skip(at1 as int) =~= t.skip(at1 - pos));
    let (version_major, at2) = match parse_var_uint(s, at1) {
        Ok(Some(x)) => x,
        Ok(None) => return Ok(None),
        Err(e) => return Err(e),
    };
    assert(s@.skip(at2 as int) =~= t.skip(at2 - pos));
    let (version_minor, at3) = match parse_var_uint(s, at2) {
        Ok(Some(x)) => x,
        Ok(None) => return Ok(None),
        Err(e) => return Err(e),
    };
    assert(s@.skip(at3 as int) =~= t.skip(at3 - pos));
    let (revision, at4) = match parse_var_uint(s, at3) {
        Ok(Some(x)) => x,
        Ok(None) => return Ok(None),
        Err(e) => return Err(e),
    };
    assert(s@.skip(at4 as int) =~= t.skip(at4 - pos));
    let (tz, at5) = match parse_utf8_string(s, at4) {
        Ok(Some(x)) => x,
        Ok(None) => return Ok(None),
        Err(e) => return Err(e),
    };
    assert(s@.skip(at5 as int) =~= t.skip(at5 - pos));
    let (display_name, at6) = match parse_utf8_string(s, at5) {
        Ok(Some(x)) => x,
        Ok(None) => return Ok(None),
        Err(e) => return Err(e),
    };
    assert(s@.skip(at6 as int) =~= t.skip(at6 - pos));
    let (version_patch, at7) = match parse_var_uint(s, at6) {
        Ok(Some(x)) => x,
        Ok(None) => return Ok(None),
        Err(e) => return Err(e),
    };
    Ok(Some((HelloPacket { name, version_major, version_minor, revision, tz, display_name, version_patch }, at7)))
}

/// Decodes one exception record from `s` at `pos`.
pub fn parse_exception(s: &[u8], pos: usize) -> (r: ParseResult<ExceptionPacket>)
    requires
        pos <= s@.len(),
    ensures
        reports(r, pos as int, exception_parse(s@.skip(pos as int))),
        r matches Ok(Some((_, q))) ==> pos < q <= s@.len(),
        r matches Err((_, q)) ==> pos < q <= s@.len(),
{
    let ghost t = s@.skip(pos as int);
    let (code, at1) = match parse_i32(s, pos) {
        Ok(Some(x)) => x,
        Ok(None) => return Ok(None),
        Err(e) => return Err(e),
    };
    assert(s@.skip(at1 as int) =~= t.skip(at1 - pos));
    let (name, at2) = match parse_utf8_string(s, at1) {
        Ok(Some(x)) => x,
        Ok(None) => return Ok(None),
        Err(e) => return Err(e),
    };
    assert(s@.skip(at2 as int) =~= t.skip(at2 - pos));
    let (message, at3) = match parse_utf8_string(s, at2) {
        Ok(Some(x)) => x,
        Ok(None) => return Ok(None),
        Err(e) => return Err(e),
    };
    assert(s@.skip(at3 as int) =~= t.skip(at3 - pos));
    let (stack_trace, at4) = match parse_utf8_string(s, at3) {
        Ok(Some(x)) => x,
        Ok(None) => return Ok(None),
        Err(e) => return Err(e),
    };
    assert(s@.skip(at4 as int) =~= t.skip(at4 - pos));
    let (nested, at5) = match parse_bool(s, at4) {
        Ok(Some(x)) => x,
        Ok(None) => return Ok(None),
        Err(e) => return Err(e),
    };
    Ok(Some((ExceptionPacket { code, name, message, stack_trace, nested }, at5)))
}

/// Decodes an exception chain from `s` at `pos`: records are read until
/// one says that none follows.
#[verifier::rlimit(40)]
pub fn parse_exception_chain(s: &[u8], pos: usize) -> (r: ParseResult<Vec<ExceptionPacket>>)
    requires
        pos <= s@.len(),
    ensures
        reports_chain(r, pos as int, exception_chain_parse(s@.skip(pos as int))),
        r matches Ok(Some((_, q))) ==> pos < q <= s@.len(),
        r matches Err((_, q)) ==> pos < q <= s@.len(),
{
    let ghost t = s@.skip(pos as int);
    let mut list: Vec<ExceptionPacket> = Vec::new();
    let mut p: usize = pos;
    loop
        invariant
            pos <= p <= s@.len(),
            t == s@.skip(pos as int),
            list@.len() == 0 ==> p == pos,
            exception_chain_parse(t) == chain_after(
                list@.map_values(|x: ExceptionPacket| x@),
                (p - pos) as nat,
                exception_chain_parse(s@.skip(p as int)),
            ),
        decreases s@.len() - p,
    {
        let ghost before = list@.map_values(|x: ExceptionPacket| x@);
        let ghost u = s@.skip(p as int);
        let (record, q) = match parse_exception(s, p) {
            Ok(Some(x)) => x,
            Ok(None) => return Ok(None),
            Err(e) => return Err(e),
        };
        let nested = record.nested;
        let ghost rv = record@;
        list.push(record);
        assert(list@.map_values(|x: ExceptionPacket| x@) =~= before + seq![rv]);
        if !nested {
            proof {
                let l = list@.map_values(|x: ExceptionPacket| x@);
                assert(forall|i: int| 0 <= i < l.len() ==> #[trigger] l[i] == list@[i]@);
            }
            return Ok(Some((list, q)));
        }
        assert(s@.skip(q as int) =~= u.skip(q - p));
        assert(before + (seq![rv] + Seq::<ExceptionModel>::empty()) =~= before + seq![rv]);
        proof {
            match exception_chain_parse(s@.skip(q as int)) {
                Parsed::Done(l2, m) => {
                    assert(before + (seq![rv] + l2) =~= (before + seq![rv]) + l2);
                },
                _ => {},
            }
        }
        p = q;
    }
}

/// A decoded exception chain is never empty, and decoding stops at the
/// first record that says none follows: every record before the last is
/// nested and the last is not.
pub proof fn lemma_exception_chain_shape(s: Seq<u8>)
    ensures
        exception_chain_parse(s) matches Parsed::Done(list, n) ==> {
            &&& list.len() >= 1
            &&& !list[list.len() - 1].nested
            &&& forall|i: int| 0 <= i < list.len() - 1 ==> #[trigger] list[i].nested
            &&& n <= s.len()
        },
    decreases s.len(),
{
    lemma_exception_parse_bounds(s);
    if let Parsed::Done(e, n) = exception_parse(s) {
        if e.nested {
            lemma_exception_chain_shape(s.skip(n as int));
            if let Parsed::Done(rest, m) = exception_chain_parse(s.skip(n as int)) {
                let list = seq![e] + rest;
                assert forall|i: int| 0 <= i < list.len() - 1 implies #[trigger] list[i].nested by {
                    if i > 0 {
                        assert(list[i] == rest[i - 1]);
                    }
                }
                assert(list[list.len() - 1] == rest[rest.len() - 1]);
            }
        }
    }
}

/// The wire form of one exception record.
pub open spec fn exception_bytes(e: ExceptionModel) -> Seq<u8> {
    i32_bytes(e.code) + utf8_string_bytes(e.name) + utf8_string_bytes(e.message) + utf8_string_bytes(
        e.stack_trace,
    ) + bool_bytes(e.nested)
}

/// The wire form of a list of exception records, one after another.
pub open spec fn chain_bytes(list: Seq<ExceptionModel>) -> Seq<u8>
    decreases list.len(),
{
    if list.len() == 0 {
        Seq::empty()
    } else {
        exception_bytes(list[0]) + chain_bytes(list.drop_first())
    }
}

/// A record whose texts each fit in a string field.
pub open spec fn fits(e: ExceptionModel) -> bool {
    &&& encode_utf8(e.name).len() <= MAX_STRING_SIZE
    &&& encode_utf8(e.message).len() <= MAX_STRING_SIZE
    &&& encode_utf8(e.stack_trace).len() <= MAX_STRING_SIZE
}

/// A list that a server can send as one chain: not empty, every record
/// but the last nested, the last not, and every text fitting its field.
pub open spec fn is_chain(list: Seq<ExceptionModel>) -> bool {
    &&& list.len() >= 1
    &&& !list[list.len() - 1].nested
    &&& forall|i: int| 0 <= i < list.len() - 1 ==> #[trigger] list[i].nested
    &&& forall|i: int| 0 <= i < list.len() ==> fits(#[trigger] list[i])
}

/// A record reads back as itself from its wire form, whatever follows.
#[verifier::rlimit(60)]
pub proof fn lemma_exception_round_trip(e: ExceptionModel, rest: Seq<u8>)
    requires
        fits(e),
    ensures
        exception_parse(exception_bytes(e) + rest) == Parsed::Done(e, exception_bytes(e).len()),
{
    let b0 = i32_bytes(e.code);
    let b1 = utf8_string_bytes(e.name);
    let b2 = utf8_string_bytes(e.message);
    let b3 = utf8_string_bytes(e.stack_trace);
    let b4 = bool_bytes(e.nested);
    let s = exception_bytes(e) + rest;
    assert(s =~= b0 + (b1 + (b2 + (b3 + (b4 + rest)))));
    lemma_i32_round_trip(e.code, b1 + (b2 + (b3 + (b4 + rest))));
    assert(i32_parse(s) == Parsed::Done(e.code, 4));
    let k1 = 4int;
    assert(s.skip(k1) =~= b1 + (b2 + (b3 + (b4 + rest))));
    lemma_utf8_string_round_trip(e.name, b2 + (b3 + (b4 + rest)));
    assert(utf8_string_parse(s.skip(k1)) == Parsed::Done(e.name, b1.len()));
    let k2 = k1 + b1.len();
    assert(s.skip(k2) =~= b2 + (b3 + (b4 + rest)));
    lemma_utf8_string_round_trip(e.message, b3 + (b4 + rest));
    assert(utf8_string_parse(s.skip(k2)) == Parsed::Done(e.message, b2.len()));
    let k3 = k2 + b2.len();
    assert(s.skip(k3) =~= b3 + (b4 + rest));
    lemma_utf8_string_round_trip(e.stack_trace, b4 + rest);
    assert(utf8_string_parse(s.skip(k3)) == Parsed::Done(e.stack_trace, b3.len()));
    let k4 = k3 + b3.len();
    assert(s.skip(k4) =~= b4 + rest);
    lemma_bool_round_trip(e.nested, rest);
    assert(bool_parse(s.skip(k4)) == Parsed::Done(e.nested, 1));
    assert(exception_bytes(e).len() == k4 + 1);
}

/// A chain reads back as exactly its records from its wire form, whatever
/// follows: decoding takes every record and stops right after the first
/// one that is not nested.
#[verifier::rlimit(60)]
pub proof fn lemma_exception_chain_round_trip(list: Seq<ExceptionModel>, rest: Seq<u8>)
    requires
        is_chain(list),
    ensures
        exception_chain_parse(chain_bytes(list) + rest) == Parsed::Done(list, chain_bytes(list).len()),
    decreases list.len(),
{
    let e = list[0];
    let tail = list.drop_first();
    let s = chain_bytes(list) + rest;
    assert(fits(list[0]));
    assert(s =~= exception_bytes(e) + (chain_bytes(tail) + rest));
    lemma_exception_round_trip(e, chain_bytes(tail) + rest);
    let n = exception_bytes(e).len();
    assert(exception_parse(s) == Parsed::Done(e, n));
    if list.len() == 1 {
        assert(!e.nested);
        assert(tail =~= Seq::<ExceptionModel>::empty());
        assert(list =~= seq![e]);
    } else {
        assert(list[0].nested);
        assert(is_chain(tail)) by {
            assert forall|i: int| 0 <= i < tail.len() - 1 implies #[trigger] tail[i].nested by {
                assert(tail[i] == list[i + 1]);
            }
            assert forall|i: int| 0 <= i < tail.len() implies fits(#[trigger] tail[i]) by {
                assert(tail[i] == list[i + 1]);
            }
            assert(tail[tail.len() - 1] == list[list.len() - 1]);
        }
        assert(s.skip(n as int) =~= chain_bytes(tail) + rest);
        lemma_exception_chain_round_trip(tail, rest);
        assert(seq![e] + tail =~= list);
    }
}

/// A server packet that this crate decodes whole.
#[derive(Debug, Clone)]
pub enum ServerPacket {
    Hello(HelloPacket),
    Pong(PongPacket),
    Exception(Vec<ExceptionPacket>),
}

/// A decoded server packet, as values.
pub enum ServerPacketModel {
    Hello(HelloModel),
    Pong,
    Exception(Seq<ExceptionModel>),
}

impl View for ServerPacket {
    type V = ServerPacketModel;

    open spec fn view(&self) -> ServerPacketModel {
        match self {
            ServerPacket::Hello(h) => ServerPacketModel::Hello(h@),
            ServerPacket::Pong(_) => ServerPacketModel::Pong,
            ServerPacket::Exception(list) => ServerPacketModel::Exception(
                list@.map_values(|x: ExceptionPacket| x@),
            ),
        }
    }
}

/// Shifts an outcome that starts `k` bytes in back to the start.
pub open spec fn after_code<T, U>(p: Parsed<T>, k: nat, f: spec_fn(T) -> U) -> Parsed<U> {
    match p {
        Parsed::Done(v, n) => Parsed::Done(f(v), k + n),
        Parsed::NeedMore => Parsed::NeedMore,
        Parsed::Fail(e, n) => Parsed::Fail(e, k + n),
    }
}

/// Decoding a whole server packet: its code, then the body that the code
/// calls for. Kinds whose bodies this crate does not decode are refused
/// once their code is read.
pub open spec fn server_packet_parse(s: Seq<u8>) -> Parsed<ServerPacketModel> {
    match packet_code_parse(s) {
        Parsed::Done(c, k) => match c {
            ServerPacketCode::Hello => after_code(
                server_hello_parse(s.skip(k as int)),
                k,
                |h: HelloModel| ServerPacketModel::Hello(h),
            ),
            ServerPacketCode::Pong => Parsed::Done(ServerPacketModel::Pong, k),
            ServerPacketCode::Exception => after_code(
                exception_chain_parse(s.skip(k as int)),
                k,
                |l: Seq<ExceptionModel>| ServerPacketModel::Exception(l),
            ),
            _ => Parsed::Fail(ClickHouseClientError::UnexpectedPacket(c.spec_code()), k),
        },
        Parsed::NeedMore => Parsed::NeedMore,
        Parsed::Fail(e, n) => Parsed::Fail(e, n),
    }
}

/// More bytes after a server packet do not change how it decodes, nor
/// how its code does.
pub proof fn lemma_server_packet_settled(s: Seq<u8>, t: Seq<u8>)
    ensures
        settled(packet_code_parse(s), packet_code_parse(s + t), s.len()),
        settled(server_packet_parse(s), server_packet_parse(s + t), s.len()),
{
    lemma_fixed_settled(s, t);
    if s.len() >= 1 {
        lemma_skip_append(s, t, 1);
        lemma_server_hello_settled(s.skip(1), t);
        lemma_exception_chain_settled(s.skip(1), t);
    }
}

/// A decoded or refused server packet takes some of the bytes at hand and
/// no more.
pub proof fn lemma_server_packet_bounds(s: Seq<u8>)
    ensures
        packet_code_parse(s) matches Parsed::Done(_, n) ==> n == 1 && n <= s.len(),
        packet_code_parse(s) matches Parsed::Fail(_, n) ==> n == 1 && n <= s.len(),
        server_packet_parse(s) matches Parsed::Done(_, n) ==> 1 <= n <= s.len(),
        server_packet_parse(s) matches Parsed::Fail(_, n) ==> 1 <= n <= s.len(),
{
    if s.len() >= 1 {
        lemma_server_hello_parse_bounds(s.skip(1));
        lemma_exception_chain_bounds(s.skip(1));
    }
}

/// Decodes a whole server packet from `s` at `pos`.
#[verifier::rlimit(40)]
pub fn parse_server_packet(s: &[u8], pos: usize) -> (r: ParseResult<ServerPacket>)
    requires
        pos <= s@.len(),
    ensures
        reports(r, pos as int, server_packet_parse(s@.skip(pos as int))),
        r matches Ok(Some((_, q))) ==> pos < q <= s@.len(),
        r matches Err((_, q)) ==> pos < q <= s@.len(),
{
    let ghost t = s@.skip(pos as int);
    let (code, p) = match parse_packet_code(s, pos) {
        Ok(Some(x)) => x,
        Ok(None) => return Ok(None),
        Err(e) => return Err(e),
    };
    assert(s@.skip(p as int) =~= t.skip(p - pos));
    match code {
        ServerPacketCode::Hello => match parse_server_hello(s, p) {
            Ok(Some((h, q))) => Ok(Some((ServerPacket::Hello(h), q))),
            Ok(None) => Ok(None),
            Err(e) => Err(e),
        },
        ServerPacketCode::Pong => Ok(Some((ServerPacket::Pong(PongPacket {}), p))),
        ServerPacketCode::Exception => match parse_exception_chain(s, p) {
            Ok(Some((list, q))) => {
                let ghost l = list@.map_values(|x: ExceptionPacket| x@);
                proof {
                    if let Parsed::Done(l2, m) = exception_chain_parse(s@.skip(p as int)) {
                        assert(l =~= l2);
                    }
                }
                Ok(Some((ServerPacket::Exception(list), q)))
            },
            Ok(None) => Ok(None),
            Err(e) => Err(e),
        },
        _ => Err((ClickHouseClientError::UnexpectedPacket(code.code()), p)),
    }
}

} // verus!
