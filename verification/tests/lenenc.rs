use bytes::Buf;
use bytes::Bytes;
use mysql_lenenc::buf::MySqlBufExt;
use mysql_lenenc::error::DecodeError;

/// The minimal-width length encoding of `v`.
fn encode_uint_lenenc(v: u64) -> Vec<u8> {
    if v <= 0xFB {
        vec![v as u8]
    } else if v <= 0xFFFF {
        let mut out = vec![0xFC];
        out.extend_from_slice(&(v as u16).to_le_bytes());
        out
    } else if v <= 0xFF_FFFF {
        let mut out = vec![0xFD];
        out.extend_from_slice(&v.to_le_bytes()[..3]);
        out
    } else {
        let mut out = vec![0xFE];
        out.extend_from_slice(&v.to_le_bytes());
        out
    }
}

#[test]
fn single_bytes_decode_to_themselves() {
    for v in 0x00..=0xFBu8 {
        let mut buf = Bytes::from(vec![v]);
        assert_eq!(buf.get_uint_lenenc(), Ok(v as u64));
        assert_eq!(buf.remaining(), 0);
    }
}

#[test]
fn sentinel_bytes_decode_as_literals() {
    let mut buf = Bytes::from(vec![0xFB]);
    assert_eq!(buf.get_uint_lenenc(), Ok(251));
    let mut buf = Bytes::from(vec![0xFF]);
    assert_eq!(buf.get_uint_lenenc(), Ok(255));
    assert_eq!(buf.remaining(), 0);
}

#[test]
fn two_byte_marker_decodes_little_endian() {
    let mut buf = Bytes::from(vec![0xFC, 0x34, 0x12]);
    assert_eq!(buf.get_uint_lenenc(), Ok(0x1234));
    assert_eq!(buf.remaining(), 0);
}

#[test]
fn three_byte_marker_decodes_little_endian() {
    let mut buf = Bytes::from(vec![0xFD, 0x01, 0x00, 0x01]);
    assert_eq!(buf.get_uint_lenenc(), Ok(0x01_0001));
    assert_eq!(buf.remaining(), 0);
}

#[test]
fn eight_byte_marker_decodes_little_endian() {
    let mut buf = Bytes::from(vec![0xFE, 0x08, 0x07, 0x06, 0x05, 0x04, 0x03, 0x02, 0x01]);
    assert_eq!(buf.get_uint_lenenc(), Ok(0x0102_0304_0506_0708));
    assert_eq!(buf.remaining(), 0);
}

#[test]
fn decode_leaves_trailing_bytes() {
    let mut buf = Bytes::from(vec![0xFC, 0x34, 0x12, 0x99]);
    assert_eq!(buf.get_uint_lenenc(), Ok(0x1234));
    assert_eq!(buf.remaining(), 1);
    assert_eq!(buf.get_uint_lenenc(), Ok(0x99));
}

#[test]
fn empty_buffer_fails() {
    let mut buf = Bytes::new();
    assert_eq!(
        buf.get_uint_lenenc(),
        Err(DecodeError::NeedBytes { needed: 1, have: 0 })
    );
}

#[test]
fn truncated_two_byte_payload_fails() {
    let mut buf = Bytes::from(vec![0xFC]);
    assert_eq!(
        buf.get_uint_lenenc(),
        Err(DecodeError::NeedBytes { needed: 2, have: 0 })
    );
}

#[test]
fn truncated_three_byte_payload_fails() {
    let mut buf = Bytes::from(vec![0xFD, 0x01, 0x02]);
    assert_eq!(
        buf.get_uint_lenenc(),
        Err(DecodeError::NeedBytes { needed: 3, have: 2 })
    );
}

#[test]
fn truncated_eight_byte_payload_fails() {
    let mut buf = Bytes::from(vec![0xFE, 0x01, 0x02, 0x03, 0x04, 0x05]);
    assert_eq!(
        buf.get_uint_lenenc(),
        Err(DecodeError::NeedBytes { needed: 8, have: 5 })
    );
}

#[test]
fn round_trip_minimal_encodings() {
    let samples: [u64; 16] = [
        0,
        1,
        0xFA,
        0xFB,
        0xFC,
        0xFF,
        0x100,
        0x1234,
        0xFFFF,
        0x1_0000,
        0x1_0001,
        0xFF_FFFF,
        0x100_0000,
        0x0102_0304_0506_0708,
        u64::MAX - 1,
        u64::MAX,
    ];
    for v in samples {
        let mut buf = Bytes::from(encode_uint_lenenc(v));
        assert_eq!(buf.get_uint_lenenc(), Ok(v));
        assert_eq!(buf.remaining(), 0);
    }
}

#[test]
fn string_decode() {
    let mut buf = Bytes::from(vec![0x03, b'a', b'b', b'c']);
    assert_eq!(buf.get_str_lenenc(), Ok(String::from("abc")));
    assert_eq!(buf.remaining(), 0);
}

#[test]
fn byte_sequence_decode() {
    let mut buf = Bytes::from(vec![0x03, b'a', b'b', b'c']);
    assert_eq!(buf.get_bytes_lenenc(), Ok(Bytes::from_static(b"abc")));
    assert_eq!(buf.remaining(), 0);
}

#[test]
fn byte_sequence_decode_skips_utf8_validation() {
    let mut buf = Bytes::from(vec![0x02, 0xFF, 0xFE]);
    let payload = buf.get_bytes_lenenc().unwrap();
    assert_eq!(payload, Bytes::from(vec![0xFF, 0xFE]));
    assert_eq!(buf.remaining(), 0);
}

#[test]
fn string_decode_rejects_invalid_utf8() {
    let mut buf = Bytes::from(vec![0x02, 0xFF, 0xFE]);
    let r = buf.get_str_lenenc();
    assert!(matches!(r, Err(DecodeError::InvalidUtf8 { .. })));
}

#[test]
fn zero_length_yields_empty_values() {
    let mut buf = Bytes::from(vec![0x00]);
    assert_eq!(buf.get_uint_lenenc(), Ok(0));
    let mut buf = Bytes::from(vec![0x00]);
    assert_eq!(buf.get_str_lenenc(), Ok(String::new()));
    assert_eq!(buf.remaining(), 0);
    let mut buf = Bytes::from(vec![0x00]);
    assert_eq!(buf.get_bytes_lenenc(), Ok(Bytes::new()));
    assert_eq!(buf.remaining(), 0);
}

#[test]
fn string_decode_overlong_length_fails() {
    let mut buf = Bytes::from(vec![0x05, b'a', b'b']);
    assert_eq!(
        buf.get_str_lenenc(),
        Err(DecodeError::NeedBytes { needed: 5, have: 2 })
    );
}

#[test]
fn byte_sequence_decode_overlong_length_fails() {
    let mut buf = Bytes::from(vec![0x05, b'a', b'b']);
    assert_eq!(
        buf.get_bytes_lenenc(),
        Err(DecodeError::NeedBytes { needed: 5, have: 2 })
    );
}

#[test]
fn string_decode_propagates_integer_errors() {
    let mut buf = Bytes::new();
    assert_eq!(
        buf.get_str_lenenc(),
        Err(DecodeError::NeedBytes { needed: 1, have: 0 })
    );
    let mut buf = Bytes::from(vec![0xFC]);
    assert_eq!(
        buf.get_bytes_lenenc(),
        Err(DecodeError::NeedBytes { needed: 2, have: 0 })
    );
}

#[test]
fn length_exactly_remaining_exhausts_cursor() {
    let mut buf = Bytes::from(vec![0x04, 1, 2, 3, 4]);
    assert_eq!(buf.get_bytes_lenenc(), Ok(Bytes::from(vec![1, 2, 3, 4])));
    assert_eq!(buf.remaining(), 0);
}

#[test]
fn error_messages_name_the_counts() {
    let need = DecodeError::NeedBytes { needed: 2, have: 0 };
    assert_eq!(need.message(), "lenenc value: need 2 more bytes, have 0");
    let overflow = DecodeError::LengthOverflow { length: 7 };
    assert_eq!(overflow.message(), "length does not fit in usize: 7");
    let invalid = DecodeError::InvalidUtf8 {
        reason: String::from("bad bytes"),
    };
    assert_eq!(invalid.message(), "bad bytes");
}
