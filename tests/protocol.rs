use clickhouse_client::client::{ClientPacketCode, HelloPacket};
use clickhouse_client::decoder::ClickHouseDecoder;
use clickhouse_client::encoder::ClickHouseEncoder;
use clickhouse_client::error::ClickHouseClientError;
use clickhouse_client::query::{BlockInfo, Modes};
use clickhouse_client::server::{ServerPacket, ServerPacketCode};
use clickhouse_client::session::{Session, SessionState};

const DEFAULT_HELLO: [u8; 48] = [
    0, 24, 99, 108, 105, 99, 107, 104, 111, 117, 115, 101, 45, 110, 97, 116, 105, 118, 101, 45,
    99, 108, 105, 101, 110, 116, 0, 1, 179, 169, 3, 7, 100, 101, 102, 97, 117, 108, 116, 7, 100,
    101, 102, 97, 117, 108, 116, 0,
];

fn vec_compare(va: &[u8], vb: &[u8]) -> bool {
    (va.len() == vb.len()) && va.iter().zip(vb).all(|(a, b)| *a == *b)
}

#[test]
fn client_test_default_client_hello() {
    let mut enc = ClickHouseEncoder::new();

    let len = enc.write_hello_packet(HelloPacket::default());

    assert!(len == 48, "written hello packet size is: {}", len);
    assert!(vec_compare(enc.as_bytes(), &DEFAULT_HELLO));
}

#[test]
fn hello_test_default_client_hello() {
    let mut buf = ClickHouseEncoder::new();

    let len = buf.write_hello_packet(HelloPacket::default());

    assert!(len == 48, "written hello packet size is: {}", len);
    assert!(vec_compare(&buf.into_bytes(), &DEFAULT_HELLO));
}

#[test]
fn hello_builders_replace_credentials() {
    let packet = HelloPacket::default().database("db").username("u").password("pw");
    assert_eq!(packet.database, "db");
    assert_eq!(packet.username, "u");
    assert_eq!(packet.password, "pw");
    let mut enc = ClickHouseEncoder::new();
    let len = enc.write_hello_packet(packet);
    let bytes = enc.into_bytes();
    assert_eq!(len, bytes.len());
    assert_eq!(&bytes[31..], &[2, b'd', b'b', 1, b'u', 2, b'p', b'w']);
}

#[test]
fn ping_is_its_code_alone() {
    let mut enc = ClickHouseEncoder::new();
    assert_eq!(enc.write_ping_packet(), 1);
    assert_eq!(enc.as_bytes(), &[4]);
}

#[test]
fn client_packet_codes() {
    let codes = [
        ClientPacketCode::Hello,
        ClientPacketCode::Query,
        ClientPacketCode::Data,
        ClientPacketCode::Cancel,
        ClientPacketCode::Ping,
        ClientPacketCode::TableStatus,
    ];
    for (i, c) in codes.iter().enumerate() {
        assert_eq!(c.code() as usize, i);
    }
}

#[test]
fn server_packet_codes_round_trip() {
    for b in 0u8..=14 {
        assert_eq!(ServerPacketCode::from_code(b).unwrap().code(), b);
    }
    assert_eq!(ServerPacketCode::from_code(15), Err(ClickHouseClientError::UnknownPacketCode(15)));
}

fn server_hello_bytes() -> Vec<u8> {
    let mut enc = ClickHouseEncoder::new();
    enc.encode_u8(0);
    enc.encode_utf8_string("ClickHouse");
    enc.encode_var_uint(23);
    enc.encode_var_uint(8);
    enc.encode_var_uint(54465);
    enc.encode_utf8_string("UTC");
    enc.encode_utf8_string("server-1");
    enc.encode_var_uint(2);
    enc.into_bytes()
}

fn exception_record(enc: &mut ClickHouseEncoder, code: i32, name: &str, nested: bool) {
    enc.encode_i32(code);
    enc.encode_utf8_string(name);
    enc.encode_utf8_string("message");
    enc.encode_utf8_string("trace");
    enc.encode_bool(nested);
}

#[test]
fn server_hello_is_decoded() {
    let mut dec = ClickHouseDecoder::from_bytes(server_hello_bytes());
    assert_eq!(dec.read_packet_code(), Ok(Some(ServerPacketCode::Hello)));
    let hello = dec.read_hello_packet().unwrap().unwrap();
    assert_eq!(hello.name, "ClickHouse");
    assert_eq!(hello.version_major, 23);
    assert_eq!(hello.version_minor, 8);
    assert_eq!(hello.revision, 54465);
    assert_eq!(hello.tz, "UTC");
    assert_eq!(hello.display_name, "server-1");
    assert_eq!(hello.version_patch, 2);
    assert_eq!(dec.available(), 0);
}

#[test]
fn server_hello_arriving_in_pieces() {
    let bytes = server_hello_bytes();
    let mut dec = ClickHouseDecoder::new();
    let mut packet = None;
    for chunk in bytes.chunks(3) {
        assert!(packet.is_none());
        dec.feed(chunk);
        packet = dec.read_server_packet().unwrap();
    }
    match packet {
        Some(ServerPacket::Hello(h)) => assert_eq!(h.version_patch, 2),
        other => panic!("unexpected packet code {:?}", other),
    }
}

#[test]
fn exception_chain_stops_at_first_unnested_record() {
    let mut enc = ClickHouseEncoder::new();
    exception_record(&mut enc, 1, "outer", true);
    exception_record(&mut enc, 2, "middle", true);
    exception_record(&mut enc, 3, "inner", false);
    exception_record(&mut enc, 4, "unrelated", false);
    let mut dec = ClickHouseDecoder::from_bytes(enc.into_bytes());
    let list = dec.read_exception_packet().unwrap().unwrap();
    assert_eq!(list.len(), 3);
    assert_eq!(list[0].code, 1);
    assert_eq!(list[1].name, "middle");
    assert!(list[1].nested);
    assert_eq!(list[2].code, 3);
    assert!(!list[2].nested);
    let rest = dec.read_exception_packet().unwrap().unwrap();
    assert_eq!(rest.len(), 1);
    assert_eq!(rest[0].code, 4);
}

#[test]
fn exception_chain_waits_for_its_last_record() {
    let mut enc = ClickHouseEncoder::new();
    exception_record(&mut enc, 1, "outer", true);
    let mut dec = ClickHouseDecoder::from_bytes(enc.into_bytes());
    assert!(dec.read_exception_packet().unwrap().is_none());
    let mut more = ClickHouseEncoder::new();
    exception_record(&mut more, 2, "inner", false);
    dec.feed(more.as_bytes());
    assert_eq!(dec.read_exception_packet().unwrap().unwrap().len(), 2);
}

#[test]
fn pong_and_unknown_codes() {
    let mut dec = ClickHouseDecoder::from_bytes(vec![4, 99]);
    assert!(matches!(dec.read_server_packet(), Ok(Some(ServerPacket::Pong(_)))));
    assert_eq!(dec.read_server_packet().unwrap_err(), ClickHouseClientError::UnknownPacketCode(99));
    assert_eq!(dec.available(), 0);
    let mut dec = ClickHouseDecoder::from_bytes(vec![1]);
    assert_eq!(dec.read_server_packet().unwrap_err(), ClickHouseClientError::UnexpectedPacket(1));
}

#[test]
fn unknown_packet_code_is_consumed() {
    let mut dec = ClickHouseDecoder::from_bytes(vec![15, 4]);
    assert_eq!(dec.read_packet_code(), Err(ClickHouseClientError::UnknownPacketCode(15)));
    assert_eq!(dec.available(), 1);
    assert_eq!(dec.read_packet_code(), Ok(Some(ServerPacketCode::Pong)));
}

#[test]
fn error_in_a_record_takes_what_was_read() {
    let mut enc = ClickHouseEncoder::new();
    enc.encode_i32(7);
    enc.encode_utf8_string("n");
    enc.encode_utf8_string("m");
    enc.encode_utf8_string("t");
    enc.encode_u8(9);
    enc.encode_u8(4);
    let mut dec = ClickHouseDecoder::from_bytes(enc.into_bytes());
    assert_eq!(dec.read_exception_packet().unwrap_err(), ClickHouseClientError::MalformedBool(9));
    assert_eq!(dec.available(), 1);
    assert_eq!(dec.read_packet_code(), Ok(Some(ServerPacketCode::Pong)));
}

#[test]
fn session_handshake_then_ping() {
    let mut session = Session::new();
    assert_eq!(session.state(), SessionState::Idle);
    session.hello_sent();
    let hello = ClickHouseDecoder::from_bytes(server_hello_bytes()).read_server_packet().unwrap().unwrap();
    assert_eq!(session.on_packet(&hello), Ok(()));
    assert_eq!(session.state(), SessionState::Ready);
    session.ping_sent();
    assert_eq!(session.state(), SessionState::AwaitingPongResponse);
    assert_eq!(
        session.on_packet(&hello),
        Err(ClickHouseClientError::UnexpectedPacket(0))
    );
    assert_eq!(session.on_packet(&ServerPacket::Pong(clickhouse_client::server::PongPacket {})), Ok(()));
    assert_eq!(session.state(), SessionState::Ready);
    session.close();
    assert_eq!(session.state(), SessionState::Closed);
}

#[test]
fn session_exception_fails_the_handshake() {
    let mut enc = ClickHouseEncoder::new();
    enc.encode_u8(2);
    exception_record(&mut enc, 516, "AUTHENTICATION_FAILED", false);
    let packet = ClickHouseDecoder::from_bytes(enc.into_bytes()).read_server_packet().unwrap().unwrap();
    let mut session = Session::new();
    session.hello_sent();
    assert_eq!(
        session.on_packet(&packet),
        Err(ClickHouseClientError::ServerException {
            code: 516,
            name: "AUTHENTICATION_FAILED".to_string(),
            message: "message".to_string(),
            stack_trace: "trace".to_string(),
        })
    );
    assert_eq!(session.state(), SessionState::AwaitingHelloResponse);
}

#[test]
fn block_defaults_and_modes() {
    let info = BlockInfo::default();
    assert!(!info.is_overflows);
    assert_eq!(info.bucket_num, -1);
    assert_eq!(Modes::NONE.code(), 0x02);
    assert_eq!(Modes::LZ4.code(), 0x82);
    assert_eq!(Modes::ZSTD.code(), 0x90);
}
