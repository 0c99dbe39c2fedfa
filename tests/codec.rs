use tl_codec::de::Deserializer;
use tl_codec::error::Error;
use tl_codec::ser::Serializer;

fn encoder() -> Serializer {
    Serializer::new(Vec::new())
}

#[test]
fn numeric_round_trip_all_widths() {
    let mut s = encoder();
    s.serialize_u8(0xab).unwrap();
    s.serialize_i8(-5).unwrap();
    s.serialize_u16(0xbeef).unwrap();
    s.serialize_i16(i16::MIN).unwrap();
    s.serialize_u32(u32::MAX).unwrap();
    s.serialize_i32(-123456).unwrap();
    s.serialize_u64(0x0102_0304_0506_0708).unwrap();
    s.serialize_i64(i64::MIN).unwrap();
    let bytes = s.into_inner();
    assert_eq!(bytes.len(), 1 + 1 + 2 + 2 + 4 + 4 + 8 + 8);
    let mut d = Deserializer::new(bytes);
    assert_eq!(d.deserialize_u8(), Ok(0xab));
    assert_eq!(d.deserialize_i8(), Ok(-5));
    assert_eq!(d.deserialize_u16(), Ok(0xbeef));
    assert_eq!(d.deserialize_i16(), Ok(i16::MIN));
    assert_eq!(d.deserialize_u32(), Ok(u32::MAX));
    assert_eq!(d.deserialize_i32(), Ok(-123456));
    assert_eq!(d.deserialize_u64(), Ok(0x0102_0304_0506_0708));
    assert_eq!(d.deserialize_i64(), Ok(i64::MIN));
    assert_eq!(d.remaining(), 0);
}

#[test]
fn integers_are_little_endian() {
    let mut s = encoder();
    s.serialize_u32(0x0102_0304).unwrap();
    s.serialize_i16(-2).unwrap();
    s.serialize_u64(0x1122_3344_5566_7788).unwrap();
    assert_eq!(
        s.into_inner(),
        vec![4, 3, 2, 1, 0xfe, 0xff, 0x88, 0x77, 0x66, 0x55, 0x44, 0x33, 0x22, 0x11]
    );
    let mut d = Deserializer::new(vec![0x78, 0x56, 0x34, 0x12]);
    assert_eq!(d.deserialize_u32(), Ok(0x1234_5678));
}

fn string_of_len(n: usize) -> String {
    let mut s = String::new();
    for i in 0..n {
        s.push((b'a' + (i % 26) as u8) as char);
    }
    s
}

#[test]
fn string_lengths_round_trip_and_align() {
    for n in [0usize, 1, 253, 254, 255, 1000] {
        let text = string_of_len(n);
        let mut s = encoder();
        s.serialize_str(&text).unwrap();
        let bytes = s.into_inner();
        assert_eq!(bytes.len() % 4, 0, "length {}", n);
        if n <= 253 {
            assert_eq!(bytes[0] as usize, n);
            assert_eq!(bytes.len(), (1 + n + 3) / 4 * 4);
        } else {
            assert_eq!(bytes[0], 254);
            assert_eq!(bytes[1] as usize + ((bytes[2] as usize) << 8) + ((bytes[3] as usize) << 16), n);
            assert_eq!(bytes.len(), (4 + n + 3) / 4 * 4);
        }
        let mut d = Deserializer::new(bytes);
        assert_eq!(d.deserialize_str(), Ok(text));
        assert_eq!(d.remaining(), 0);
    }
}

#[test]
fn string_253_uses_short_header_and_254_long() {
    let mut s = encoder();
    s.serialize_str(&string_of_len(253)).unwrap();
    let short = s.into_inner();
    assert_eq!(short[0], 253);
    assert_eq!(short.len(), 256);
    let mut s = encoder();
    s.serialize_str(&string_of_len(254)).unwrap();
    let long = s.into_inner();
    assert_eq!(&long[0..4], &[254, 254, 0, 0]);
    assert_eq!(long.len(), 260);
}

#[test]
fn string_padding_is_skipped_before_next_field() {
    let mut s = encoder();
    s.serialize_str("abcd").unwrap();
    s.serialize_i32(77).unwrap();
    let bytes = s.into_inner();
    assert_eq!(bytes, vec![4, b'a', b'b', b'c', b'd', 0, 0, 0, 77, 0, 0, 0]);
    let mut d = Deserializer::new(bytes);
    assert_eq!(d.deserialize_str(), Ok("abcd".to_string()));
    assert_eq!(d.deserialize_i32(), Ok(77));
}

#[test]
fn multibyte_text_round_trips() {
    let text = "héllo wörld";
    let mut s = encoder();
    s.serialize_str(text).unwrap();
    let bytes = s.into_inner();
    assert_eq!(bytes[0] as usize, text.len());
    let mut d = Deserializer::new(bytes);
    assert_eq!(d.deserialize_str(), Ok(text.to_string()));
}

#[test]
fn record_of_int_and_string() {
    let mut s = encoder();
    s.serialize_i32(5).unwrap();
    s.serialize_str("hi").unwrap();
    let bytes = s.into_inner();
    assert_eq!(bytes, vec![5, 0, 0, 0, 2, b'h', b'i', 0]);
    let mut d = Deserializer::new(bytes);
    assert_eq!(d.deserialize_i32(), Ok(5));
    assert_eq!(d.deserialize_str(), Ok("hi".to_string()));
    assert_eq!(d.remaining(), 0);
}

#[test]
fn tagged_union_round_trip_and_unknown_id() {
    let ids = [0x1u32, 0x2u32];
    for (variant, field) in [(0usize, 10i32), (1usize, -20i32)] {
        let mut s = encoder();
        s.serialize_variant(ids[variant]).unwrap();
        s.serialize_i32(field).unwrap();
        let mut d = Deserializer::new(s.into_inner());
        assert_eq!(d.deserialize_variant(&ids), Ok(variant));
        assert_eq!(d.deserialize_i32(), Ok(field));
    }
    let mut d = Deserializer::new(vec![3, 0, 0, 0, 1, 0, 0, 0]);
    assert_eq!(d.deserialize_variant(&ids), Err(Error::UnknownDiscriminator(3)));
    assert_eq!(d.remaining(), 8);
}

#[test]
fn sequence_of_three_ints() {
    let items = [1i32, 2, 3];
    let mut s = encoder();
    s.serialize_seq(items.len()).unwrap();
    for v in items {
        s.serialize_i32(v).unwrap();
    }
    let bytes = s.into_inner();
    assert_eq!(bytes.len(), 16);
    assert_eq!(&bytes[0..4], &[3, 0, 0, 0]);
    let mut d = Deserializer::new(bytes);
    let n = d.deserialize_seq().unwrap();
    let mut back = Vec::new();
    for _ in 0..n {
        back.push(d.deserialize_i32().unwrap());
    }
    assert_eq!(back, vec![1, 2, 3]);
}

#[test]
fn short_reads_fail_without_consuming() {
    let mut d = Deserializer::new(vec![1, 2, 3]);
    assert_eq!(d.deserialize_i32(), Err(Error::ShortRead));
    assert_eq!(d.deserialize_u64(), Err(Error::ShortRead));
    assert_eq!(d.deserialize_variant(&[1]), Err(Error::ShortRead));
    assert_eq!(d.remaining(), 3);
    assert_eq!(d.deserialize_u16(), Ok(0x0201));
    assert_eq!(d.deserialize_u16(), Err(Error::ShortRead));
    let mut empty = Deserializer::new(Vec::new());
    assert_eq!(empty.deserialize_u8(), Err(Error::ShortRead));
    assert_eq!(empty.deserialize_str(), Err(Error::ShortRead));
}

#[test]
fn truncated_string_frames_are_short_reads() {
    // Declares five bytes but holds two.
    let mut d = Deserializer::new(vec![5, b'a', b'b']);
    assert_eq!(d.deserialize_str(), Err(Error::ShortRead));
    assert_eq!(d.remaining(), 3);
    // Missing padding after a one-byte string.
    let mut d = Deserializer::new(vec![1, b'a']);
    assert_eq!(d.deserialize_str(), Err(Error::ShortRead));
    // Long header cut short.
    let mut d = Deserializer::new(vec![254, 0]);
    assert_eq!(d.deserialize_str(), Err(Error::ShortRead));
}

#[test]
fn invalid_utf8_is_rejected() {
    let mut d = Deserializer::new(vec![2, 0xff, 0xfe, 0]);
    assert_eq!(d.deserialize_str(), Err(Error::InvalidUtf8));
    assert_eq!(d.remaining(), 4);
}

#[test]
fn unsupported_values_fail_explicitly() {
    let mut s = encoder();
    assert_eq!(s.serialize_bool(true), Err(Error::Unsupported));
    assert_eq!(s.serialize_char('x'), Err(Error::Unsupported));
    assert_eq!(s.serialize_bytes(&[1, 2]), Err(Error::Unsupported));
    assert_eq!(s.serialize_none(), Err(Error::Unsupported));
    assert_eq!(s.serialize_unit(), Err(Error::Unsupported));
    assert_eq!(s.serialize_map(0), Err(Error::Unsupported));
    assert!(s.into_inner().is_empty());
    let mut d = Deserializer::new(vec![1, 0, 0, 0]);
    assert_eq!(d.deserialize_bool(), Err(Error::Unsupported));
    assert_eq!(d.deserialize_char(), Err(Error::Unsupported));
    assert_eq!(d.deserialize_bytes(), Err(Error::Unsupported));
    assert_eq!(d.deserialize_option(), Err(Error::Unsupported));
    assert_eq!(d.deserialize_unit(), Err(Error::Unsupported));
    assert_eq!(d.deserialize_map(), Err(Error::Unsupported));
    assert_eq!(d.remaining(), 4);
}

#[test]
fn oversized_lengths_are_rejected() {
    let mut s = encoder();
    assert_eq!(s.serialize_seq(u32::MAX as usize + 1), Err(Error::TooLong));
    let big = "x".repeat(0x100_0000);
    assert_eq!(s.serialize_str(&big), Err(Error::TooLong));
    assert!(s.as_bytes().is_empty());
    s.serialize_seq(u32::MAX as usize).unwrap();
    assert_eq!(s.as_bytes(), &[0xff, 0xff, 0xff, 0xff]);
}

#[test]
fn error_messages_are_distinct() {
    let all = [
        Error::Unsupported,
        Error::ShortRead,
        Error::UnknownDiscriminator(1),
        Error::TooLong,
        Error::InvalidUtf8,
    ];
    for (i, a) in all.iter().enumerate() {
        for b in all.iter().skip(i + 1) {
            assert_ne!(a.message(), b.message());
        }
    }
}
