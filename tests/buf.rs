use bytes::{Bytes, BytesMut};
use clickhouse_client::buf::{
    new_write_buffer, read_bool, read_string, read_uvarint, write_bool, write_string, write_uvarint,
};
use clickhouse_client::error::ClickHouseClientError;
use clickhouse_client::varint::MAX_VARINT_LEN64;

#[test]
fn test_read_uvarint() {
    let mut buf = BytesMut::with_capacity(10);
    for expected in 0..10240 {
        let _ = write_uvarint(&mut buf, expected);

        let mut buffer = buf.clone().freeze();
        buf.clear();

        let actual = read_uvarint(&mut buffer);

        assert_eq!(actual.unwrap(), expected);
    }
}

#[test]
fn test_write_then_read_uvarint() {
    const MAX: usize = 10000;
    let mut buf = BytesMut::with_capacity(MAX);
    for expected in 0..(MAX / MAX_VARINT_LEN64) {
        let _ = write_uvarint(&mut buf, expected as u64);
    }
    let mut buffer = buf.freeze();
    for expected in 0..(MAX / MAX_VARINT_LEN64) {
        let actual = read_uvarint(&mut buffer);
        assert_eq!(actual.unwrap(), expected as u64);
    }
}

#[test]
fn test_read_string() {
    let mut buf = BytesMut::with_capacity(1024);

    for expected in vec!["hello world", "rust!", "‰Ω†Â•Ω", "‚ù§Ô∏è‚Äçüî•"] {
        let _ = write_string(&mut buf, expected);

        let mut buffer = buf.clone().freeze();
        buf.clear();

        let actual = read_string(&mut buffer);

        assert_eq!(actual.unwrap(), expected);
    }
}

#[test]
fn test_read_bool() {
    let mut buf = BytesMut::with_capacity(1024);

    for expected in vec![true, false] {
        let _ = write_bool(&mut buf, expected);

        let mut buffer = buf.clone().freeze();
        buf.clear();

        let actual = read_bool(&mut buffer);

        assert_eq!(actual.unwrap(), expected);
    }
}

#[test]
fn test_write_uvarint_1() {
    let mut buf = BytesMut::with_capacity(10);

    let length = write_uvarint(&mut buf, 1);

    assert_eq!(length, 1);
    assert_eq!(buf, vec![0x01]);
}

#[test]
fn test_write_uvarint_2() {
    let mut buf = BytesMut::with_capacity(10);

    let length = write_uvarint(&mut buf, 2);

    assert_eq!(length, 1);
    assert_eq!(buf, vec![0x02]);
}

#[test]
fn test_write_uvarint_127() {
    let mut buf = BytesMut::with_capacity(10);

    let length = write_uvarint(&mut buf, 127);

    assert_eq!(length, 1);
    assert_eq!(buf, vec![0x7f]);
}

#[test]
fn test_write_uvarint_128() {
    let mut buf = BytesMut::with_capacity(10);

    let length = write_uvarint(&mut buf, 128);

    assert_eq!(length, 2);
    assert_eq!(buf, vec![0x80, 0x01]);
}

#[test]
fn test_write_uvarint_255() {
    let mut buf = BytesMut::with_capacity(10);

    let length = write_uvarint(&mut buf, 255);

    assert_eq!(length, 2);
    assert_eq!(buf, vec![0xff, 0x01]);
}

#[test]
fn test_write_uvarint_256() {
    let mut buf = BytesMut::with_capacity(10);

    let length = write_uvarint(&mut buf, 256);

    assert_eq!(length, 2);
    assert_eq!(buf, vec![0x80, 0x02]);
}

#[test]
fn write_test_write_string() {
    let mut buf = BytesMut::with_capacity(1024);

    let length = write_string(&mut buf, "Hi");

    assert_eq!(length, 3);
    assert_eq!(buf, vec![0x02, 0x48, 0x69]);
}

#[test]
fn test_write_bool_true() {
    let mut buf = BytesMut::with_capacity(1);

    let length = write_bool(&mut buf, true);

    assert_eq!(length, 1);
    assert_eq!(buf, vec![0x01]);
}

#[test]
fn test_write_bool_false() {
    let mut buf = BytesMut::with_capacity(1);

    let length = write_bool(&mut buf, false);

    assert_eq!(length, 1);
    assert_eq!(buf, vec![0x00]);
}

#[test]
fn read_uvarint_of_a_cut_message_fails_and_keeps_the_bytes() {
    let mut buffer = Bytes::from(vec![0x80, 0x80]);
    assert_eq!(read_uvarint(&mut buffer), Err(ClickHouseClientError::UnexpectedEndOfStream));
    assert_eq!(buffer.len(), 2);
}

#[test]
fn read_uvarint_consumes_only_its_bytes() {
    let mut buffer = Bytes::from(vec![0x94, 0x91, 0x06, 0x07]);
    assert_eq!(read_uvarint(&mut buffer), Ok(100500));
    assert_eq!(buffer.as_ref(), &[0x07]);
}

#[test]
fn read_bool_refuses_other_bytes() {
    let mut buffer = Bytes::from(vec![0x05, 0x00]);
    assert_eq!(read_bool(&mut buffer), Err(ClickHouseClientError::MalformedBool(5)));
    assert_eq!(read_bool(&mut buffer), Ok(false));
}

#[test]
fn read_string_refuses_invalid_utf8() {
    let mut buffer = Bytes::from(vec![0x01, 0xff]);
    assert_eq!(read_string(&mut buffer), Err(ClickHouseClientError::InvalidUtf8));
}

#[test]
fn new_write_buffer_starts_empty() {
    let mut buf = new_write_buffer();
    assert!(buf.is_empty());
    assert_eq!(write_uvarint(&mut buf, 300), 2);
    assert_eq!(buf, vec![0xac, 0x02]);
}
