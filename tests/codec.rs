use clickhouse_client::decoder::{ClickHouseDecoder, FillEvent, READ_TIMEOUT_MS};
use clickhouse_client::encoder::ClickHouseEncoder;
use clickhouse_client::error::ClickHouseClientError;
use clickhouse_client::varint::MAX_VARINT_LEN64;
use clickhouse_client::MAX_STRING_SIZE;

fn encoded_var_uint(x: u64) -> (usize, Vec<u8>) {
    let mut enc = ClickHouseEncoder::new();
    let len = enc.encode_var_uint(x);
    (len, enc.into_bytes())
}

#[test]
fn test_decode_uvarint() {
    for expected in 0..10240u64 {
        let mut enc = ClickHouseEncoder::new();
        let _ = enc.encode_var_uint(expected);

        let mut dec = ClickHouseDecoder::from_bytes(enc.into_bytes());
        let actual = dec.decode_var_uint().unwrap().unwrap();

        assert_eq!(actual, expected);
    }
}

#[test]
fn test_decode_continus_uvarint() {
    const MAX: usize = 10000;
    let mut enc = ClickHouseEncoder::new();
    for expected in 0..(MAX / MAX_VARINT_LEN64) {
        enc.encode_var_uint(expected as u64);
    }

    let mut dec = ClickHouseDecoder::from_bytes(enc.into_bytes());
    for expected in 0..(MAX / MAX_VARINT_LEN64) {
        let actual = dec.decode_var_uint().unwrap().unwrap();
        assert_eq!(actual, expected as u64);
    }
}

#[test]
fn test_decode_string() {
    for expected in ["â¤ï¸â€ðŸ”¥",
            "Hello",
            "ä½ å¥½",
            "ã“ã‚“ã«ã¡ã¯",
            "ì•ˆë…•í•˜ì„¸ìš”",
            "ÐŸÑ€Ð¸Ð²ÐµÑ‚"] {
        let mut enc = ClickHouseEncoder::new();
        let _ = enc.encode_utf8_string(expected);

        let mut dec = ClickHouseDecoder::from_bytes(enc.into_bytes());
        let actual = dec.decode_utf8_string().unwrap().unwrap();

        assert_eq!(actual, expected);
    }
}

#[test]
fn test_decode_bool() {
    let mut enc = ClickHouseEncoder::new();
    enc.encode_bool(true);
    enc.encode_bool(false);

    let mut dec = ClickHouseDecoder::from_bytes(enc.into_bytes());

    let actual = dec.decode_bool().unwrap().unwrap();
    assert!(actual);
    let actual = dec.decode_bool().unwrap().unwrap();
    assert!(!actual);
}

#[test]
fn test_write_var_uint_1() {
    let mut enc = ClickHouseEncoder::new();
    let len = enc.encode_var_uint(1);

    assert_eq!(len, 1);
    assert_eq!(enc.as_bytes(), &[0x01]);
}

#[test]
fn test_write_var_uint_2() {
    let mut enc = ClickHouseEncoder::new();
    let len = enc.encode_var_uint(2);

    assert_eq!(len, 1);
    assert_eq!(enc.as_bytes(), &[0x02]);
}

#[test]
fn test_write_var_uint_127() {
    let mut enc = ClickHouseEncoder::new();
    let len = enc.encode_var_uint(127);

    assert_eq!(len, 1);
    assert_eq!(enc.as_bytes(), &[0x7f]);
}

#[test]
fn test_write_var_uint_128() {
    let mut enc = ClickHouseEncoder::new();
    let len = enc.encode_var_uint(128);

    assert_eq!(len, 2);
    assert_eq!(enc.as_bytes(), &[0x80, 0x01]);
}

#[test]
fn test_write_var_uint_255() {
    let mut enc = ClickHouseEncoder::new();
    let len = enc.encode_var_uint(255);

    assert_eq!(len, 2);
    assert_eq!(enc.as_bytes(), &[0xff, 0x01]);
}

#[test]
fn test_write_var_uint_256() {
    let mut enc = ClickHouseEncoder::new();
    let len = enc.encode_var_uint(256);

    assert_eq!(len, 2);
    assert_eq!(enc.as_bytes(), &[0x80, 0x02]);
}

#[test]
fn test_write_var_uint_100500() {
    let mut enc = ClickHouseEncoder::new();
    let len = enc.encode_var_uint(100500);

    assert_eq!(len, 3);
    assert_eq!(enc.as_bytes(), &[0x94, 0x91, 0x06]);
}

#[test]
fn encode_test_write_string() {
    let mut enc = ClickHouseEncoder::new();
    let len = enc.encode_utf8_string("Hi");

    assert_eq!(len, 3);
    assert_eq!(enc.as_bytes(), &[0x02, 0x48, 0x69]);
}

#[test]
fn test_write_bool() {
    let mut enc = ClickHouseEncoder::new();
    let len = enc.encode_bool(true) + enc.encode_bool(false);

    assert_eq!(len, 2);
    assert_eq!(enc.as_bytes(), &[0x01, 0x00]);
}

#[test]
fn var_uint_largest_value_takes_ten_bytes() {
    let (len, bytes) = encoded_var_uint(u64::MAX);
    assert_eq!(len, 10);
    assert_eq!(bytes, vec![0xff, 0xff, 0xff, 0xff, 0xff, 0xff, 0xff, 0xff, 0xff, 0x01]);
    let mut dec = ClickHouseDecoder::from_bytes(bytes);
    assert_eq!(dec.decode_var_uint(), Ok(Some(u64::MAX)));
    assert_eq!(dec.available(), 0);
}

#[test]
fn var_uint_zero_takes_one_byte() {
    assert_eq!(encoded_var_uint(0), (1, vec![0x00]));
}

#[test]
fn var_uint_lengths_follow_significant_bits() {
    for (value, expected) in [(1u64 << 7, 2usize), ((1u64 << 14) - 1, 2), (1u64 << 14, 3), (1u64 << 35, 6), (1u64 << 63, 10)] {
        assert_eq!(encoded_var_uint(value).0, expected);
    }
}

#[test]
fn var_uint_round_trips_edge_values() {
    for value in [0u64, 1, 127, 128, 255, 256, 16383, 16384, 100500, u32::MAX as u64, (1u64 << 63) - 1, 1u64 << 63, u64::MAX] {
        let (_, bytes) = encoded_var_uint(value);
        let mut dec = ClickHouseDecoder::from_bytes(bytes);
        assert_eq!(dec.decode_var_uint(), Ok(Some(value)));
    }
}

#[test]
fn var_uint_tenth_byte_above_one_overflows() {
    let bytes = vec![0xff, 0xff, 0xff, 0xff, 0xff, 0xff, 0xff, 0xff, 0xff, 0x02, 0x07];
    let mut dec = ClickHouseDecoder::from_bytes(bytes);
    assert_eq!(dec.decode_var_uint(), Err(ClickHouseClientError::VarintOverflow));
    assert_eq!(dec.available(), 1);
    assert_eq!(dec.decode_u8(), Ok(Some(0x07)));
}

#[test]
fn var_uint_eleven_bytes_overflow() {
    let bytes = vec![0x80, 0x80, 0x80, 0x80, 0x80, 0x80, 0x80, 0x80, 0x80, 0x80, 0x00];
    let mut dec = ClickHouseDecoder::from_bytes(bytes);
    assert_eq!(dec.decode_var_uint(), Err(ClickHouseClientError::VarintOverflow));
}

#[test]
fn var_uint_waits_for_its_last_byte() {
    let mut dec = ClickHouseDecoder::from_bytes(vec![0x94, 0x91]);
    assert_eq!(dec.decode_var_uint(), Ok(None));
    assert_eq!(dec.available(), 2);
    dec.feed(&[0x06]);
    assert_eq!(dec.decode_var_uint(), Ok(Some(100500)));
}

#[test]
fn string_encoding_length_is_prefix_plus_bytes() {
    let text = "\u{4f60}\u{597d}, \u{1f600}";
    let mut enc = ClickHouseEncoder::new();
    let len = enc.encode_utf8_string(text);
    assert_eq!(len, 1 + text.len());
    assert_eq!(enc.as_bytes()[0] as usize, text.len());
    let long = "x".repeat(300);
    let mut enc = ClickHouseEncoder::new();
    assert_eq!(enc.encode_utf8_string(&long), 2 + 300);
    assert_eq!(&enc.as_bytes()[..2], &[0xac, 0x02]);
}

#[test]
fn empty_string_round_trips() {
    let mut enc = ClickHouseEncoder::new();
    assert_eq!(enc.encode_utf8_string(""), 1);
    assert_eq!(enc.as_bytes(), &[0x00]);
    let mut dec = ClickHouseDecoder::from_bytes(enc.into_bytes());
    assert_eq!(dec.decode_utf8_string(), Ok(Some(String::new())));
}

#[test]
fn byte_string_round_trips() {
    let mut enc = ClickHouseEncoder::new();
    enc.encode_string(&[0xff, 0x00, 0x80]);
    assert_eq!(enc.as_bytes(), &[0x03, 0xff, 0x00, 0x80]);
    let mut dec = ClickHouseDecoder::from_bytes(enc.into_bytes());
    assert_eq!(dec.decode_string(), Ok(Some(vec![0xff, 0x00, 0x80])));
}

#[test]
fn invalid_utf8_is_refused() {
    let mut dec = ClickHouseDecoder::from_bytes(vec![0x02, 0xc3, 0x28, 0x09]);
    assert_eq!(dec.decode_utf8_string(), Err(ClickHouseClientError::InvalidUtf8));
    assert_eq!(dec.available(), 1);
    assert_eq!(dec.decode_u8(), Ok(Some(0x09)));
}

#[test]
fn largest_string_length_is_accepted() {
    let mut enc = ClickHouseEncoder::new();
    enc.encode_var_uint(MAX_STRING_SIZE as u64);
    let mut dec = ClickHouseDecoder::from_bytes(enc.into_bytes());
    assert_eq!(dec.decode_string(), Ok(None));
    assert_eq!(dec.available(), 5);
}

#[test]
fn oversized_string_is_refused_before_its_bytes_arrive() {
    let mut enc = ClickHouseEncoder::new();
    let prefix = enc.encode_var_uint(MAX_STRING_SIZE as u64 + 1);
    assert_eq!(prefix, 5);
    enc.encode_u8(0x41);
    enc.encode_u8(0x42);
    let mut dec = ClickHouseDecoder::from_bytes(enc.into_bytes());
    assert_eq!(dec.decode_string(), Err(ClickHouseClientError::OversizedField));
    assert_eq!(dec.available(), 2);
    assert_eq!(dec.decode_u8(), Ok(Some(0x41)));
}

#[test]
fn string_waits_for_all_its_bytes() {
    let mut dec = ClickHouseDecoder::from_bytes(vec![0x05, b'h', b'e']);
    assert_eq!(dec.decode_utf8_string(), Ok(None));
    dec.feed(b"llo!");
    assert_eq!(dec.decode_utf8_string(), Ok(Some("hello".to_string())));
    assert_eq!(dec.available(), 1);
}

#[test]
fn bool_other_bytes_are_refused() {
    let mut dec = ClickHouseDecoder::from_bytes(vec![0x02, 0x01]);
    assert_eq!(dec.decode_bool(), Err(ClickHouseClientError::MalformedBool(2)));
    assert_eq!(dec.decode_bool(), Ok(Some(true)));
}

#[test]
fn bool_encodings_are_one_and_zero() {
    let mut enc = ClickHouseEncoder::new();
    assert_eq!(enc.encode_bool(true), 1);
    assert_eq!(enc.as_bytes(), &[0x01]);
    let mut enc = ClickHouseEncoder::new();
    assert_eq!(enc.encode_bool(false), 1);
    assert_eq!(enc.as_bytes(), &[0x00]);
}

#[test]
fn i32_is_little_endian_twos_complement() {
    let mut enc = ClickHouseEncoder::new();
    assert_eq!(enc.encode_i32(-2), 4);
    enc.encode_i32(0x01020304);
    assert_eq!(enc.as_bytes(), &[0xfe, 0xff, 0xff, 0xff, 0x04, 0x03, 0x02, 0x01]);
    let mut dec = ClickHouseDecoder::from_bytes(enc.into_bytes());
    assert_eq!(dec.decode_i32(), Ok(Some(-2)));
    assert_eq!(dec.decode_i32(), Ok(Some(0x01020304)));
    assert_eq!(dec.decode_i32(), Ok(None));
}

#[test]
fn u8_round_trips() {
    let mut enc = ClickHouseEncoder::new();
    assert_eq!(enc.encode_u8(0xab), 1);
    let mut dec = ClickHouseDecoder::from_bytes(enc.into_bytes());
    assert_eq!(dec.decode_u8(), Ok(Some(0xab)));
    assert_eq!(dec.decode_u8(), Ok(None));
}

#[test]
fn fill_outcomes_map_to_their_errors() {
    let mut dec = ClickHouseDecoder::new();
    assert_eq!(dec.on_fill(FillEvent::TimedOut), Err(ClickHouseClientError::ReadTimeout));
    assert_eq!(dec.on_fill(FillEvent::Data(Vec::new())), Err(ClickHouseClientError::UnexpectedEndOfStream));
    assert_eq!(
        dec.on_fill(FillEvent::Failed("reset".to_string())),
        Err(ClickHouseClientError::TransportError("reset".to_string()))
    );
    assert_eq!(dec.available(), 0);
    assert_eq!(dec.on_fill(FillEvent::Data(vec![1, 2])), Ok(()));
    assert!(dec.has_bytes(2));
    assert!(!dec.has_bytes(3));
}

#[test]
fn decoding_survives_one_byte_deliveries() {
    let mut enc = ClickHouseEncoder::new();
    enc.encode_var_uint(100500);
    enc.encode_utf8_string("partial reads");
    enc.encode_bool(true);
    let bytes = enc.into_bytes();

    let mut dec = ClickHouseDecoder::new();
    let mut values = Vec::new();
    let mut text = None;
    let mut flag = None;
    for b in bytes {
        dec.on_fill(FillEvent::Data(vec![b])).unwrap();
        if values.is_empty() {
            if let Some(v) = dec.decode_var_uint().unwrap() {
                values.push(v);
            }
        } else if text.is_none() {
            text = dec.decode_utf8_string().unwrap();
        } else if flag.is_none() {
            flag = dec.decode_bool().unwrap();
        }
    }
    assert_eq!(values, vec![100500]);
    assert_eq!(text.as_deref(), Some("partial reads"));
    assert_eq!(flag, Some(true));
    assert_eq!(dec.available(), 0);
}

#[test]
fn fill_attempts_wait_a_tenth_of_a_second() {
    assert_eq!(READ_TIMEOUT_MS, 100);
}
