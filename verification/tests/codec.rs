use tars::codec::decode::FloatBits;
use tars::codec::{
    parse_package, Buffer, PackageStatus, Reader, StringMap, TarsDecode, TarsEncode, TarsType,
};
use tars::error::{CodecError, TarsError};

#[test]
fn test_tars_type_conversion() {
    assert_eq!(TarsType::Byte.as_u8(), 0);
    assert_eq!(TarsType::from_u8(0), Some(TarsType::Byte));
    assert_eq!(TarsType::from_u8(99), None);
}

#[test]
fn test_parse_package() {
    // Too short
    let (_, status) = parse_package(&[0, 0, 1]);
    assert_eq!(status, PackageStatus::Less);

    // Complete package (length = 8)
    let data = [0, 0, 0, 8, 1, 2, 3, 4];
    let (len, status) = parse_package(&data);
    assert_eq!(status, PackageStatus::Full);
    assert_eq!(len, 8);

    // Incomplete
    let data = [0, 0, 0, 10, 1, 2, 3, 4];
    let (_, status) = parse_package(&data);
    assert_eq!(status, PackageStatus::Less);
}

#[test]
fn test_write_head_small_tag() {
    let mut buf = Buffer::new();
    buf.write_head(TarsType::Int, 5).unwrap();
    let bytes = buf.to_bytes();
    assert_eq!(bytes.len(), 1);
    assert_eq!(bytes[0], (5 << 4) | TarsType::Int.as_u8());
}

#[test]
fn test_write_head_large_tag() {
    let mut buf = Buffer::new();
    buf.write_head(TarsType::Int, 20).unwrap();
    let bytes = buf.to_bytes();
    assert_eq!(bytes.len(), 2);
    assert_eq!(bytes[0], (15 << 4) | TarsType::Int.as_u8());
    assert_eq!(bytes[1], 20);
}

#[test]
fn test_write_int_optimization() {
    // Zero should use ZeroTag
    let mut buf = Buffer::new();
    buf.write_int32(0, 0).unwrap();
    let bytes = buf.to_bytes();
    assert_eq!(bytes[0] & 0x0F, TarsType::ZeroTag.as_u8());

    // Small value should use Byte
    let mut buf = Buffer::new();
    buf.write_int32(100, 0).unwrap();
    let bytes = buf.to_bytes();
    assert_eq!(bytes[0] & 0x0F, TarsType::Byte.as_u8());

    // Large value should use Int
    let mut buf = Buffer::new();
    buf.write_int32(100000, 0).unwrap();
    let bytes = buf.to_bytes();
    assert_eq!(bytes[0] & 0x0F, TarsType::Int.as_u8());
}

#[test]
fn test_write_string() {
    // Short string (< 256)
    let mut buf = Buffer::new();
    buf.write_string("hello", 0).unwrap();
    let bytes = buf.to_bytes();
    assert_eq!(bytes[0] & 0x0F, TarsType::String1.as_u8());
    assert_eq!(bytes[1], 5); // length

    // Long string (>= 256)
    let long_str = "x".repeat(300);
    let mut buf = Buffer::new();
    buf.write_string(&long_str, 0).unwrap();
    let bytes = buf.to_bytes();
    assert_eq!(bytes[0] & 0x0F, TarsType::String4.as_u8());
}

#[test]
fn test_to_bytes_with_length() {
    let mut buf = Buffer::new();
    buf.write_int32(123, 0).unwrap();
    let bytes = buf.to_bytes_with_length();

    let len = u32::from_be_bytes([bytes[0], bytes[1], bytes[2], bytes[3]]) as usize;
    assert_eq!(len, bytes.len());
}

#[test]
fn test_encode_decode_int() {
    let mut buf = Buffer::new();
    buf.write_int32(12345, 0).unwrap();
    buf.write_int64(-9876543210, 1).unwrap();

    let data = buf.to_bytes();
    let mut reader = Reader::new(&data);

    let v1: i32 = reader.read_int32(0, true).unwrap();
    let v2: i64 = reader.read_int64(1, true).unwrap();

    assert_eq!(v1, 12345);
    assert_eq!(v2, -9876543210);
}

#[test]
fn test_encode_decode_string() {
    let mut buf = Buffer::new();
    buf.write_string("hello", 0).unwrap();
    buf.write_string(
        "world with longer text that exceeds 255 characters... ".repeat(10).as_str(),
        1,
    )
    .unwrap();

    let data = buf.to_bytes();
    let mut reader = Reader::new(&data);

    let s1: String = reader.read_string(0, true).unwrap();
    let s2: String = reader.read_string(1, true).unwrap();

    assert_eq!(s1, "hello");
    assert!(s2.starts_with("world with longer"));
}

#[test]
fn test_zero_value() {
    let mut buf = Buffer::new();
    buf.write_int32(0, 0).unwrap();
    buf.write_int64(0, 1).unwrap();

    let data = buf.to_bytes();
    let mut reader = Reader::new(&data);

    let v1: i32 = reader.read_int32(0, true).unwrap();
    let v2: i64 = reader.read_int64(1, true).unwrap();

    assert_eq!(v1, 0);
    assert_eq!(v2, 0);
}

#[test]
fn test_read_int() {
    let mut buf = Buffer::new();
    buf.write_int8(10, 0).unwrap();
    buf.write_int16(1000, 1).unwrap();
    buf.write_int32(100000, 2).unwrap();
    buf.write_int64(10000000000i64, 3).unwrap();

    let data = buf.to_bytes();
    let mut reader = Reader::new(&data);

    assert_eq!(reader.read_int8(0, true).unwrap(), 10);
    assert_eq!(reader.read_int16(1, true).unwrap(), 1000);
    assert_eq!(reader.read_int32(2, true).unwrap(), 100000);
    assert_eq!(reader.read_int64(3, true).unwrap(), 10000000000i64);
}

#[test]
fn test_read_optional() {
    let mut buf = Buffer::new();
    buf.write_int32(100, 0).unwrap();

    let data = buf.to_bytes();
    let mut reader = Reader::new(&data);

    // Required tag exists
    assert_eq!(reader.read_int32(0, true).unwrap(), 100);

    // Optional tag doesn't exist
    let data = buf.to_bytes();
    let mut reader = Reader::new(&data);
    assert_eq!(reader.read_int32(0, true).unwrap(), 100);
    assert_eq!(reader.read_int32(1, false).unwrap(), 0);
}

#[test]
fn test_read_string() {
    let mut buf = Buffer::new();
    buf.write_string("hello world", 0).unwrap();

    let data = buf.to_bytes();
    let mut reader = Reader::new(&data);

    assert_eq!(reader.read_string(0, true).unwrap(), "hello world");
}

#[test]
fn test_read_bytes() {
    let mut buf = Buffer::new();
    buf.write_bytes(&[1, 2, 3, 4, 5], 0).unwrap();

    let data = buf.to_bytes();
    let mut reader = Reader::new(&data);

    assert_eq!(reader.read_bytes(0, true).unwrap(), vec![1, 2, 3, 4, 5]);
}

// ---- exact bytes of the wire format ----

#[test]
fn small_integer_is_two_bytes() {
    let mut buf = Buffer::new();
    buf.write_int32(42, 0).unwrap();
    assert_eq!(buf.to_bytes(), vec![0x00, 0x2A]);
    let data = buf.to_bytes();
    let mut reader = Reader::new(&data);
    assert_eq!(reader.read_int32(0, true).unwrap(), 42);
    assert_eq!(reader.position(), 2);
}

#[test]
fn int64_compacts_to_its_smallest_type() {
    let mut buf = Buffer::new();
    buf.write_int64(42, 0).unwrap();
    assert_eq!(buf.len(), 2);
    let mut buf = Buffer::new();
    buf.write_int64(0, 0).unwrap();
    assert_eq!(buf.to_bytes(), vec![0x0C]);
}

#[test]
fn zero_tag_for_int64_zero() {
    let mut buf = Buffer::new();
    buf.write_int64(0, 3).unwrap();
    assert_eq!(buf.to_bytes(), vec![0x3C]);
    let data = buf.to_bytes();
    let mut reader = Reader::new(&data);
    assert_eq!(reader.read_int64(3, true).unwrap(), 0);
    assert_eq!(reader.position(), 1);
}

#[test]
fn zero_elision_for_every_numeric_type() {
    for tag in [0u8, 1, 7, 14] {
        let expected = vec![(tag << 4) | 12];
        let mut buf = Buffer::new();
        buf.write_int8(0, tag).unwrap();
        assert_eq!(buf.to_bytes(), expected);
        let mut buf = Buffer::new();
        buf.write_int16(0, tag).unwrap();
        assert_eq!(buf.to_bytes(), expected);
        let mut buf = Buffer::new();
        buf.write_uint32(0, tag).unwrap();
        assert_eq!(buf.to_bytes(), expected);
        let mut buf = Buffer::new();
        buf.write_float(0.0f32.to_bits(), tag).unwrap();
        assert_eq!(buf.to_bytes(), expected);
        let mut buf = Buffer::new();
        buf.write_float((-0.0f32).to_bits(), tag).unwrap();
        assert_eq!(buf.to_bytes(), expected);
        let mut buf = Buffer::new();
        buf.write_double(0.0f64.to_bits(), tag).unwrap();
        assert_eq!(buf.to_bytes(), expected);
        let mut buf = Buffer::new();
        buf.write_bool(false, tag).unwrap();
        assert_eq!(buf.to_bytes(), expected);
    }
}

#[test]
fn extended_tag_boundary() {
    let mut buf = Buffer::new();
    buf.write_head(TarsType::ZeroTag, 14).unwrap();
    assert_eq!(buf.to_bytes(), vec![0xEC]);
    let mut buf = Buffer::new();
    buf.write_head(TarsType::ZeroTag, 15).unwrap();
    assert_eq!(buf.to_bytes(), vec![0xFC, 15]);
    let mut buf = Buffer::new();
    buf.write_int32(0, 255).unwrap();
    assert_eq!(buf.to_bytes(), vec![0xFC, 255]);
}

#[test]
fn extended_tag_string() {
    let mut buf = Buffer::new();
    buf.write_string("hi", 20).unwrap();
    assert_eq!(buf.to_bytes(), vec![0xF6, 0x14, 0x02, 0x68, 0x69]);
    let data = buf.to_bytes();
    let mut reader = Reader::new(&data);
    assert_eq!(reader.read_string(20, true).unwrap(), "hi");
    assert_eq!(reader.position(), 5);
}

#[test]
fn integers_are_big_endian_twos_complement() {
    let mut buf = Buffer::new();
    buf.write_int16(-2, 1).unwrap();
    assert_eq!(buf.to_bytes(), vec![0x10, 0xFE]);
    let mut buf = Buffer::new();
    buf.write_int16(0x1234, 1).unwrap();
    assert_eq!(buf.to_bytes(), vec![0x11, 0x12, 0x34]);
    let mut buf = Buffer::new();
    buf.write_int32(-100000, 2).unwrap();
    assert_eq!(buf.to_bytes(), vec![0x22, 0xFF, 0xFE, 0x79, 0x60]);
    let mut buf = Buffer::new();
    buf.write_int64(0x0102030405060708, 3).unwrap();
    assert_eq!(buf.to_bytes(), vec![0x33, 1, 2, 3, 4, 5, 6, 7, 8]);
    let mut buf = Buffer::new();
    buf.write_int64(i64::MIN, 3).unwrap();
    assert_eq!(buf.to_bytes(), vec![0x33, 0x80, 0, 0, 0, 0, 0, 0, 0]);
}

#[test]
fn unsigned_values_are_promoted() {
    let mut buf = Buffer::new();
    buf.write_uint8(200, 0).unwrap();
    assert_eq!(buf.to_bytes(), vec![0x01, 0x00, 0xC8]);
    let mut buf = Buffer::new();
    buf.write_uint16(40000, 0).unwrap();
    assert_eq!(buf.to_bytes(), vec![0x02, 0x00, 0x00, 0x9C, 0x40]);
    let mut buf = Buffer::new();
    buf.write_uint32(u32::MAX, 0).unwrap();
    assert_eq!(buf.to_bytes(), vec![0x03, 0, 0, 0, 0, 0xFF, 0xFF, 0xFF, 0xFF]);
}

#[test]
fn integer_round_trip_at_the_edges() {
    let values: [i64; 15] = [
        i64::MIN,
        -2147483649,
        -2147483648,
        -32769,
        -32768,
        -129,
        -128,
        -1,
        0,
        127,
        128,
        32767,
        32768,
        2147483648,
        i64::MAX,
    ];
    for v in values {
        for tag in [0u8, 14, 15, 200] {
            let mut buf = Buffer::new();
            buf.write_int64(v, tag).unwrap();
            let data = buf.to_bytes();
            let mut reader = Reader::new(&data);
            assert_eq!(reader.read_int64(tag, true).unwrap(), v);
            assert_eq!(reader.position(), data.len());
        }
    }
    for v in [i32::MIN, -32769, -1, 0, 1, 32768, i32::MAX] {
        let mut buf = Buffer::new();
        buf.write_int32(v, 9).unwrap();
        let data = buf.to_bytes();
        let mut reader = Reader::new(&data);
        assert_eq!(reader.read_int32(9, true).unwrap(), v);
    }
    for v in [i16::MIN, -129, 0, 128, i16::MAX] {
        let mut buf = Buffer::new();
        buf.write_int16(v, 9).unwrap();
        let data = buf.to_bytes();
        let mut reader = Reader::new(&data);
        assert_eq!(reader.read_int16(9, true).unwrap(), v);
    }
    for v in [i8::MIN, -1, 0, 1, i8::MAX] {
        let mut buf = Buffer::new();
        buf.write_int8(v, 9).unwrap();
        let data = buf.to_bytes();
        let mut reader = Reader::new(&data);
        assert_eq!(reader.read_int8(9, true).unwrap(), v);
    }
}

#[test]
fn float_round_trip() {
    let mut buf = Buffer::new();
    buf.write_float(1.2f32.to_bits(), 0).unwrap();
    assert_eq!(buf.to_bytes(), vec![0x04, 0x3F, 0x99, 0x99, 0x9A]);
    buf.write_double(2.5f64.to_bits(), 1).unwrap();
    buf.write_float(3.5f32.to_bits(), 2).unwrap();
    let data = buf.to_bytes();
    let mut reader = Reader::new(&data);
    assert_eq!(f32::from_bits(reader.read_float(0, true).unwrap()), 1.2f32);
    assert_eq!(reader.read_double(1, true).unwrap(), FloatBits::Double(2.5f64.to_bits()));
    // a float on the wire read as a double keeps its four bytes
    assert_eq!(reader.read_double(2, true).unwrap(), FloatBits::Single(3.5f32.to_bits()));
    assert_eq!(reader.read_float(3, false).unwrap(), 0);
}

#[test]
fn bool_round_trip() {
    let mut buf = Buffer::new();
    buf.write_bool(true, 0).unwrap();
    buf.write_bool(false, 1).unwrap();
    assert_eq!(buf.to_bytes(), vec![0x00, 0x01, 0x1C]);
    let data = buf.to_bytes();
    let mut reader = Reader::new(&data);
    assert!(reader.read_bool(0, true).unwrap());
    assert!(!reader.read_bool(1, true).unwrap());
}

#[test]
fn bytes_field_layout() {
    let mut buf = Buffer::new();
    buf.write_bytes(&[9, 8], 7).unwrap();
    assert_eq!(buf.to_bytes(), vec![0x7D, 0x00, 0x00, 0x02, 9, 8]);
    let mut other = Buffer::new();
    other.write_bytes_as_int8_vec(&[9, 8], 7).unwrap();
    assert_eq!(other.to_bytes(), buf.to_bytes());
    let mut empty = Buffer::new();
    empty.write_bytes(&[], 1).unwrap();
    assert_eq!(empty.to_bytes(), vec![0x1D, 0x00, 0x0C]);
}

#[test]
fn bytes_are_read_from_a_list_of_int8_too() {
    let mut buf = Buffer::new();
    buf.write_list(3, 4).unwrap();
    buf.write_int8(5, 0).unwrap();
    buf.write_int8(0, 0).unwrap();
    buf.write_int8(-1, 0).unwrap();
    let data = buf.to_bytes();
    let mut reader = Reader::new(&data);
    assert_eq!(reader.read_bytes(4, true).unwrap(), vec![5, 0, 255]);
    assert_eq!(reader.position(), data.len());
}

#[test]
fn string_length_boundary() {
    let s255 = "a".repeat(255);
    let s256 = "a".repeat(256);
    let mut buf = Buffer::new();
    buf.write_string(&s255, 0).unwrap();
    assert_eq!(buf.len(), 1 + 1 + 255);
    assert_eq!(buf.to_bytes()[0], 0x06);
    assert_eq!(buf.to_bytes()[1], 255);
    let mut buf = Buffer::new();
    buf.write_string(&s256, 0).unwrap();
    assert_eq!(buf.len(), 1 + 4 + 256);
    assert_eq!(&buf.to_bytes()[0..5], &[0x07, 0, 0, 1, 0]);
    let data = buf.to_bytes();
    let mut reader = Reader::new(&data);
    assert_eq!(reader.read_string(0, true).unwrap(), s256);
}

#[test]
fn non_ascii_string_round_trip() {
    let text = "héllo wörld ✓ 日本語";
    let mut buf = Buffer::new();
    buf.write_string(text, 3).unwrap();
    let data = buf.to_bytes();
    assert_eq!(data[1] as usize, text.len());
    let mut reader = Reader::new(&data);
    assert_eq!(reader.read_string(3, true).unwrap(), text);
}

#[test]
fn containers_and_structs() {
    let mut buf = Buffer::new();
    buf.write_map(2, 1).unwrap();
    assert_eq!(buf.to_bytes(), vec![0x18, 0x00, 0x02]);
    let mut buf = Buffer::new();
    buf.write_list(0, 2).unwrap();
    assert_eq!(buf.to_bytes(), vec![0x29, 0x0C]);
    let mut buf = Buffer::new();
    buf.write_struct_begin(3).unwrap();
    buf.write_struct_end().unwrap();
    assert_eq!(buf.to_bytes(), vec![0x3A, 0x0B]);
}

#[test]
fn string_map_round_trip_keeps_the_order() {
    let mut map = StringMap::new();
    map.insert("b".to_string(), "2".to_string());
    map.insert("a".to_string(), "1".to_string());
    assert_eq!(map.insert("b".to_string(), "3".to_string()), Some("2".to_string()));
    assert_eq!(map.len(), 2);
    let mut buf = Buffer::new();
    buf.write_string_map(&map, 9).unwrap();
    assert_eq!(
        buf.to_bytes(),
        vec![0x98, 0x00, 0x02, 0x06, 1, b'b', 0x16, 1, b'3', 0x06, 1, b'a', 0x16, 1, b'1']
    );
    let data = buf.to_bytes();
    let mut reader = Reader::new(&data);
    let back = reader.read_string_map(9, true).unwrap();
    assert_eq!(back.len(), 2);
    assert_eq!(back.key_at(0), "b");
    assert_eq!(back.value_at(0), "3");
    assert_eq!(back.get("a"), Some(&"1".to_string()));
    assert_eq!(back.get("zz"), None);
    assert!(back.contains_key("b"));
}

#[test]
fn string_map_remove() {
    let mut map = StringMap::new();
    assert!(map.is_empty());
    map.insert("k".to_string(), "v".to_string());
    map.insert("l".to_string(), "w".to_string());
    assert_eq!(map.remove("k"), Some("v".to_string()));
    assert_eq!(map.remove("k"), None);
    assert_eq!(map.len(), 1);
    assert_eq!(map.key_at(0), "l");
    let copy = map.clone();
    assert_eq!(copy.get("l"), Some(&"w".to_string()));
}

#[test]
fn absent_optional_field_does_not_move_the_cursor() {
    let mut buf = Buffer::new();
    buf.write_int32(7, 5).unwrap();
    let data = buf.to_bytes();
    let mut reader = Reader::new(&data);
    assert_eq!(reader.read_int32(2, false).unwrap(), 0);
    assert_eq!(reader.position(), 0);
    assert_eq!(reader.read_string(3, false).unwrap(), "");
    assert_eq!(reader.position(), 0);
    assert_eq!(reader.read_bytes(4, false).unwrap(), Vec::<u8>::new());
    assert_eq!(reader.position(), 0);
    assert!(!reader.read_bool(4, false).unwrap());
    assert_eq!(reader.read_map_begin(4, false).unwrap(), 0);
    assert!(!reader.read_struct_begin(4, false).unwrap());
    assert_eq!(reader.position(), 0);
    assert_eq!(reader.read_int32(5, true).unwrap(), 7);
    assert_eq!(reader.position(), data.len());
    assert!(!reader.has_more());
    assert_eq!(reader.remaining(), 0);
}

#[test]
fn skip_passes_over_every_field_type() {
    let mut map = StringMap::new();
    map.insert("key".to_string(), "value".to_string());
    let mut buf = Buffer::new();
    buf.write_int8(1, 0).unwrap();
    buf.write_int16(1000, 1).unwrap();
    buf.write_int32(100000, 2).unwrap();
    buf.write_int64(1 << 40, 3).unwrap();
    buf.write_float(1.5f32.to_bits(), 4).unwrap();
    buf.write_double(1.5f64.to_bits(), 5).unwrap();
    buf.write_string("short", 6).unwrap();
    buf.write_string(&"long".repeat(100), 7).unwrap();
    buf.write_string_map(&map, 8).unwrap();
    buf.write_list(2, 9).unwrap();
    buf.write_int32(5, 0).unwrap();
    buf.write_string("x", 0).unwrap();
    buf.write_struct_begin(10).unwrap();
    buf.write_int32(1, 0).unwrap();
    buf.write_struct_begin(1).unwrap();
    buf.write_string("nested", 0).unwrap();
    buf.write_struct_end().unwrap();
    buf.write_struct_end().unwrap();
    buf.write_int32(0, 11).unwrap();
    buf.write_bytes(&[1, 2, 3], 12).unwrap();
    let before_target = buf.len();
    buf.write_int32(4711, 13).unwrap();
    let data = buf.to_bytes();
    let mut reader = Reader::new(&data);
    assert_eq!(reader.read_int32(13, true).unwrap(), 4711);
    assert_eq!(reader.position(), data.len());
    // the search stops in front of the target's head when the tag is absent
    let mut reader = Reader::new(&data[..before_target]);
    assert_eq!(reader.read_int32(13, false).unwrap(), 0);
    assert_eq!(reader.position(), before_target);
}

#[test]
fn struct_end_is_found_through_nested_structs() {
    let mut buf = Buffer::new();
    buf.write_struct_begin(0).unwrap();
    buf.write_int32(1, 0).unwrap();
    buf.write_struct_begin(1).unwrap();
    buf.write_struct_end().unwrap();
    buf.write_int32(2, 2).unwrap();
    buf.write_struct_end().unwrap();
    buf.write_int32(9, 1).unwrap();
    let data = buf.to_bytes();
    let mut reader = Reader::new(&data);
    assert!(reader.skip_to_struct_begin(0, true).unwrap());
    reader.read_struct_end().unwrap();
    assert_eq!(reader.read_int32(1, true).unwrap(), 9);
}

#[test]
fn heads_are_peeked_and_read() {
    let data = [0xF6u8, 0x14, 0x00];
    let mut reader = Reader::new(&data);
    let head = reader.peek_head().unwrap();
    assert_eq!(head.ty, TarsType::String1);
    assert_eq!(head.tag, 20);
    assert_eq!(reader.position(), 0);
    let head = reader.read_head().unwrap();
    assert_eq!(head.tag, 20);
    assert!(!head.is_zero());
    assert!(!head.is_struct_end());
    assert_eq!(reader.position(), 2);
}

#[test]
fn codec_errors() {
    // unexpected end of input inside a payload
    let mut reader = Reader::new(&[0x02, 0x00]);
    assert_eq!(
        reader.read_int32(0, true),
        Err(TarsError::Codec(CodecError::UnexpectedEof))
    );
    assert_eq!(reader.position(), 0);
    // unknown type code
    let mut reader = Reader::new(&[0x0E]);
    assert_eq!(reader.read_head(), Err(TarsError::Codec(CodecError::UnknownType(14))));
    // type mismatch
    let mut reader = Reader::new(&[0x06, 0x00]);
    assert_eq!(
        reader.read_int32(0, true),
        Err(TarsError::Codec(CodecError::TypeMismatch(TarsType::String1)))
    );
    // an int64 on the wire does not fit an int32
    let mut buf = Buffer::new();
    buf.write_int64(1 << 40, 0).unwrap();
    let data = buf.to_bytes();
    let mut reader = Reader::new(&data);
    assert_eq!(
        reader.read_int32(0, true),
        Err(TarsError::Codec(CodecError::TypeMismatch(TarsType::Long)))
    );
    // required tag not found
    let mut reader = Reader::new(&[0x50, 0x01]);
    assert_eq!(
        reader.read_int32(1, true),
        Err(TarsError::Codec(CodecError::RequiredTagNotFound(1)))
    );
    let mut reader = Reader::new(&[]);
    assert_eq!(
        reader.read_string(0, true),
        Err(TarsError::Codec(CodecError::RequiredTagNotFound(0)))
    );
    // invalid UTF-8
    let mut reader = Reader::new(&[0x06, 0x02, 0xC3, 0x28]);
    assert_eq!(reader.read_string(0, true), Err(TarsError::Codec(CodecError::InvalidUtf8)));
    // negative length
    let mut reader = Reader::new(&[0x0D, 0x00, 0x00, 0xFF]);
    assert_eq!(reader.read_bytes(0, true), Err(TarsError::Codec(CodecError::NegativeLength)));
    // a struct that never ends
    let mut reader = Reader::new(&[0x0A, 0x00, 0x01]);
    assert!(reader.read_struct_begin(0, true).unwrap());
    assert_eq!(
        reader.skip_to_struct_end(),
        Err(TarsError::Codec(CodecError::UnexpectedEof))
    );
}

#[test]
fn package_boundaries() {
    assert_eq!(parse_package(&[0, 0, 0, 3, 1, 2]), (0, PackageStatus::Error));
    assert_eq!(parse_package(&[0, 0, 0, 4]), (0, PackageStatus::Error));
    assert_eq!(parse_package(&[0, 0, 0, 4, 9]), (0, PackageStatus::Error));
    assert_eq!(parse_package(&[0, 0, 0, 0]), (0, PackageStatus::Error));
    assert_eq!(parse_package(&[0x06, 0x40, 0x00, 0x01]), (0, PackageStatus::Error));
    assert_eq!(parse_package(&[0x06, 0x40, 0x00, 0x00]), (0, PackageStatus::Less));
    assert_eq!(parse_package(&[]), (0, PackageStatus::Less));
    assert_eq!(parse_package(&[0, 0, 0, 5, 9, 7, 7]), (5, PackageStatus::Full));
}

#[test]
fn buffer_housekeeping() {
    let mut buf = Buffer::with_capacity(16);
    assert!(buf.is_empty());
    buf.reserve(100);
    buf.write_raw(&[1, 2, 3]).unwrap();
    assert_eq!(buf.len(), 3);
    assert_eq!(buf.to_bytes(), vec![1, 2, 3]);
    assert_eq!(buf.as_bytes(), &[1u8, 2, 3][..]);
    assert_eq!(buf.to_bytes_with_length(), vec![0, 0, 0, 7, 1, 2, 3]);
    buf.clear();
    assert_eq!(buf.as_bytes().len(), 0);
    assert!(buf.is_empty());
}

#[test]
fn values_encode_by_their_type() {
    let mut buf = Buffer::new();
    65535u16.encode(&mut buf, 0).unwrap();
    4294967295u32.encode(&mut buf, 1).unwrap();
    40000u16.encode(&mut buf, 2).unwrap();
    "hi".encode(&mut buf, 3).unwrap();
    assert_eq!(
        buf.to_bytes(),
        vec![0x00, 0xFF, 0x10, 0xFF, 0x21, 0x9C, 0x40, 0x36, 0x02, b'h', b'i']
    );
    let bytes = buf.to_bytes();
    let mut reader = Reader::new(&bytes);
    assert_eq!(u16::decode(&mut reader, 0, true).unwrap(), 65535);
    assert_eq!(u32::decode(&mut reader, 1, true).unwrap(), 4294967295);
    assert_eq!(u16::decode(&mut reader, 2, true).unwrap(), 40000);
    assert_eq!(String::decode(&mut reader, 3, true).unwrap(), "hi");
    assert_eq!(u32::decode(&mut reader, 9, false).unwrap(), 0);
}

#[test]
fn lists_and_maps_encode_by_their_type() {
    let mut buf = Buffer::new();
    vec![1i32, 300].encode(&mut buf, 2).unwrap();
    assert_eq!(buf.to_bytes(), vec![0x29, 0x00, 0x02, 0x00, 0x01, 0x01, 0x01, 0x2C]);

    let mut buf = Buffer::new();
    vec![0i64, -1, 1 << 40].encode(&mut buf, 0).unwrap();
    assert_eq!(
        buf.to_bytes(),
        vec![0x09, 0x00, 0x03, 0x0C, 0x00, 0xFF, 0x03, 0, 0, 1, 0, 0, 0, 0, 0]
    );

    let mut buf = Buffer::new();
    vec!["a".to_string(), "".to_string()].encode(&mut buf, 1).unwrap();
    assert_eq!(buf.to_bytes(), vec![0x19, 0x00, 0x02, 0x06, 0x01, b'a', 0x06, 0x00]);
    let mut direct = Buffer::new();
    direct.write_string_list(&["a".to_string(), "".to_string()], 1).unwrap();
    assert_eq!(direct.to_bytes(), buf.to_bytes());

    let mut map = StringMap::new();
    map.insert("k".to_string(), "v".to_string());
    let mut buf = Buffer::new();
    map.encode(&mut buf, 4).unwrap();
    assert_eq!(buf.to_bytes(), vec![0x48, 0x00, 0x01, 0x06, 0x01, b'k', 0x16, 0x01, b'v']);
    let bytes = buf.to_bytes();
    let mut reader = Reader::new(&bytes);
    assert_eq!(reader.read_string_map(4, true).unwrap().get("k"), Some(&"v".to_string()));

    let mut buf = Buffer::new();
    Vec::<i32>::new().encode(&mut buf, 0).unwrap();
    assert_eq!(buf.to_bytes(), vec![0x09, 0x0C]);
    let mut buf = Buffer::new();
    buf.write_int_list(&[7], 15).unwrap();
    assert_eq!(buf.to_bytes(), vec![0xF9, 0x0F, 0x00, 0x01, 0x00, 0x07]);
}

#[test]
fn a_vector_of_pairs_is_written_as_a_map() {
    let entries: Vec<(i32, String)> = vec![(1, "a".to_string()), (300, "".to_string())];
    let mut buf = Buffer::new();
    buf.write_raw(&[9, 9]).unwrap();
    entries.encode(&mut buf, 3).unwrap();
    assert_eq!(
        buf.to_bytes(),
        vec![
            9, 9, 0x38, 0x00, 0x02, 0x00, 0x01, 0x16, 0x01, b'a', 0x01, 0x01, 0x2C, 0x16, 0x00
        ]
    );

    let strings: Vec<(String, String)> = vec![("k".to_string(), "v".to_string())];
    let mut map = StringMap::new();
    map.insert("k".to_string(), "v".to_string());
    let mut as_pairs = Buffer::new();
    strings.encode(&mut as_pairs, 4).unwrap();
    let mut as_map = Buffer::new();
    map.encode(&mut as_map, 4).unwrap();
    assert_eq!(as_pairs.to_bytes(), as_map.to_bytes());

    let nested: Vec<(u8, Vec<i32>)> = vec![(7, vec![1])];
    let mut buf = Buffer::new();
    nested.encode(&mut buf, 0).unwrap();
    assert_eq!(buf.to_bytes(), vec![0x08, 0x00, 0x01, 0x00, 0x07, 0x19, 0x00, 0x01, 0x00, 0x01]);

    let none: Vec<(i8, i8)> = Vec::new();
    let mut buf = Buffer::new();
    none.encode(&mut buf, 1).unwrap();
    assert_eq!(buf.to_bytes(), vec![0x18, 0x0C]);
}

#[test]
fn what_was_written_can_be_taken_back() {
    let mut buf = Buffer::new();
    buf.write_raw(&[1, 2, 3, 4]).unwrap();
    buf.truncate(9);
    assert_eq!(buf.to_bytes(), vec![1, 2, 3, 4]);
    buf.truncate(4);
    assert_eq!(buf.to_bytes(), vec![1, 2, 3, 4]);
    buf.truncate(1);
    assert_eq!(buf.to_bytes(), vec![1]);
    buf.truncate(0);
    assert!(buf.is_empty());
}
