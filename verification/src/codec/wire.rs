//! The wire format as mathematics: what each field looks like in bytes.
//!
//! All multi-byte integers are big-endian. Signed integers are two's
//! complement. Every writer of the `Buffer` appends exactly the bytes that a
//! function here gives, and every reader of the `Reader` is specified against
//! them.

use vstd::prelude::*;
use vstd::utf8::encode_utf8;

use super::types::TarsType;

verus! {

/// The two bytes that spell `v` (0 ≤ v < 2^16), most significant first.
pub open spec fn be16(v: int) -> Seq<u8> {
    seq![(v / 256) as u8, (v % 256) as u8]
}

/// The four bytes that spell `v` (0 ≤ v < 2^32), most significant first.
pub open spec fn be32(v: int) -> Seq<u8> {
    seq![
        (v / 16777216) as u8,
        ((v / 65536) % 256) as u8,
        ((v / 256) % 256) as u8,
        (v % 256) as u8,
    ]
}

/// The eight bytes that spell `v` (0 ≤ v < 2^64), most significant first.
pub open spec fn be64(v: int) -> Seq<u8> {
    seq![
        (v / 72057594037927936) as u8,
        ((v / 281474976710656) % 256) as u8,
        ((v / 1099511627776) % 256) as u8,
        ((v / 4294967296) % 256) as u8,
        ((v / 16777216) % 256) as u8,
        ((v / 65536) % 256) as u8,
        ((v / 256) % 256) as u8,
        (v % 256) as u8,
    ]
}

/// The number that two bytes spell, most significant first.
pub open spec fn from_be16(b0: u8, b1: u8) -> int {
    b0 as int * 256 + b1 as int
}

/// The number that four bytes spell, most significant first.
pub open spec fn from_be32(b0: u8, b1: u8, b2: u8, b3: u8) -> int {
    b0 as int * 16777216 + b1 as int * 65536 + b2 as int * 256 + b3 as int
}

/// The number that eight bytes spell, most significant first.
pub open spec fn from_be64(b: Seq<u8>) -> int
    recommends
        b.len() >= 8,
{
    b[0] as int * 72057594037927936 + b[1] as int * 281474976710656 + b[2] as int * 1099511627776
        + b[3] as int * 4294967296 + b[4] as int * 16777216 + b[5] as int * 65536 + b[6] as int
        * 256 + b[7] as int
}

/// Two's complement of `v` in `2^bits = modulus`: the unsigned number with
/// the same bit pattern.
pub open spec fn to_unsigned(v: int, modulus: int) -> int {
    if v < 0 {
        v + modulus
    } else {
        v
    }
}

/// The signed number with the bit pattern of `u` in `2^bits = modulus`.
pub open spec fn to_signed(u: int, modulus: int) -> int {
    if 2 * u >= modulus {
        u - modulus
    } else {
        u
    }
}

pub open spec fn pow2_8() -> int {
    256
}

pub open spec fn pow2_16() -> int {
    65536
}

pub open spec fn pow2_32() -> int {
    4294967296
}

pub open spec fn pow2_64() -> int {
    18446744073709551616
}

/// Payload of an int8 field.
pub open spec fn i8_bytes(v: int) -> Seq<u8> {
    seq![to_unsigned(v, pow2_8()) as u8]
}

/// Payload of an int16 field.
pub open spec fn i16_bytes(v: int) -> Seq<u8> {
    be16(to_unsigned(v, pow2_16()))
}

/// Payload of an int32 field.
pub open spec fn i32_bytes(v: int) -> Seq<u8> {
    be32(to_unsigned(v, pow2_32()))
}

/// Payload of an int64 field.
pub open spec fn i64_bytes(v: int) -> Seq<u8> {
    be64(to_unsigned(v, pow2_64()))
}

/// A head: one byte `(tag << 4) | type` for tags below 15, else the byte
/// `(15 << 4) | type` followed by the tag.
pub open spec fn head_bytes(ty: TarsType, tag: u8) -> Seq<u8> {
    if tag < 15 {
        seq![(tag * 16 + ty.code()) as u8]
    } else {
        seq![(240 + ty.code()) as u8, tag]
    }
}

/// An integer field: the head of the smallest type that holds `v`, then its
/// payload; zero is a head of type zero-tag alone. The same for every width
/// the value was written with.
pub open spec fn int_field(v: int, tag: u8) -> Seq<u8> {
    if v == 0 {
        head_bytes(TarsType::ZeroTag, tag)
    } else if -128 <= v <= 127 {
        head_bytes(TarsType::Byte, tag) + i8_bytes(v)
    } else if -32768 <= v <= 32767 {
        head_bytes(TarsType::Short, tag) + i16_bytes(v)
    } else if -2147483648 <= v <= 2147483647 {
        head_bytes(TarsType::Int, tag) + i32_bytes(v)
    } else {
        head_bytes(TarsType::Long, tag) + i64_bytes(v)
    }
}

/// A float field, the value given by its IEEE-754 bit pattern: positive and
/// negative zero are a zero-tag head alone, anything else four bytes.
pub open spec fn float_field(bits: u32, tag: u8) -> Seq<u8> {
    if is_float_zero(bits) {
        head_bytes(TarsType::ZeroTag, tag)
    } else {
        head_bytes(TarsType::Float, tag) + be32(bits as int)
    }
}

/// A double field, the value given by its IEEE-754 bit pattern.
pub open spec fn double_field(bits: u64, tag: u8) -> Seq<u8> {
    if is_double_zero(bits) {
        head_bytes(TarsType::ZeroTag, tag)
    } else {
        head_bytes(TarsType::Double, tag) + be64(bits as int)
    }
}

/// Whether a single-precision bit pattern is +0.0 or -0.0.
pub open spec fn is_float_zero(bits: u32) -> bool {
    bits == 0 || bits == 0x8000_0000u32
}

/// Whether a double-precision bit pattern is +0.0 or -0.0.
pub open spec fn is_double_zero(bits: u64) -> bool {
    bits == 0 || bits == 0x8000_0000_0000_0000u64
}

/// A string field whose UTF-8 bytes are `s`: one length byte below 256
/// bytes, four otherwise.
pub open spec fn raw_string_field(s: Seq<u8>, tag: u8) -> Seq<u8> {
    if s.len() > 255 {
        head_bytes(TarsType::String4, tag) + be32(s.len() as int) + s
    } else {
        head_bytes(TarsType::String1, tag) + seq![s.len() as u8] + s
    }
}

/// A string field: the text in UTF-8 behind its length.
pub open spec fn string_field(s: Seq<char>, tag: u8) -> Seq<u8> {
    raw_string_field(encode_utf8(s), tag)
}

/// Whether a text fits a string field: its UTF-8 length fits four bytes.
pub open spec fn encodable_text(s: Seq<char>) -> bool {
    encode_utf8(s).len() <= u32::MAX
}

/// A byte-array field: simple-list head, an int8 head at tag 0, the length
/// as an integer field at tag 0, the raw bytes.
pub open spec fn bytes_field(data: Seq<u8>, tag: u8) -> Seq<u8> {
    head_bytes(TarsType::SimpleList, tag) + head_bytes(TarsType::Byte, 0) + int_field(
        data.len() as int,
        0,
    ) + data
}

/// The opening of a map of `size` entries.
pub open spec fn map_header(size: int, tag: u8) -> Seq<u8> {
    head_bytes(TarsType::Mapping, tag) + int_field(size, 0)
}

/// The opening of a list of `size` elements.
pub open spec fn list_header(size: int, tag: u8) -> Seq<u8> {
    head_bytes(TarsType::List, tag) + int_field(size, 0)
}

/// The entries of a string-to-string map, in their order: each key at tag
/// 0, each value at tag 1.
pub open spec fn string_entries(entries: Seq<(Seq<char>, Seq<char>)>) -> Seq<u8>
    decreases entries.len(),
{
    if entries.len() == 0 {
        Seq::empty()
    } else {
        string_entries(entries.drop_last()) + string_field(entries.last().0, 0) + string_field(
            entries.last().1,
            1,
        )
    }
}

/// A string-to-string map field.
pub open spec fn string_map_field(entries: Seq<(Seq<char>, Seq<char>)>, tag: u8) -> Seq<u8> {
    map_header(entries.len() as int, tag) + string_entries(entries)
}

/// Whether a map fits a map field: its size fits an int32 and every key and
/// value fits a string field.
pub open spec fn encodable_entries(entries: Seq<(Seq<char>, Seq<char>)>) -> bool {
    &&& entries.len() <= i32::MAX
    &&& forall|i: int|
        0 <= i < entries.len() ==> encodable_text((#[trigger] entries[i]).0) && encodable_text(
            entries[i].1,
        )
}

/// The elements of a list of strings, each at tag 0.
pub open spec fn string_items(items: Seq<Seq<char>>) -> Seq<u8>
    decreases items.len(),
{
    if items.len() == 0 {
        Seq::empty()
    } else {
        string_items(items.drop_last()) + string_field(items.last(), 0)
    }
}

/// A list-of-strings field.
pub open spec fn string_list_field(items: Seq<Seq<char>>, tag: u8) -> Seq<u8> {
    list_header(items.len() as int, tag) + string_items(items)
}

/// Whether a list of strings fits a list field.
pub open spec fn encodable_items(items: Seq<Seq<char>>) -> bool {
    &&& items.len() <= i32::MAX
    &&& forall|i: int| 0 <= i < items.len() ==> encodable_text(#[trigger] items[i])
}

/// The numbers of a vector of 64-bit integers.
pub open spec fn numbers(v: Seq<i64>) -> Seq<int> {
    Seq::new(v.len(), |i: int| v[i] as int)
}

/// The elements of a list of integers, each at tag 0.
pub open spec fn int_items(items: Seq<int>) -> Seq<u8>
    decreases items.len(),
{
    if items.len() == 0 {
        Seq::empty()
    } else {
        int_items(items.drop_last()) + int_field(items.last(), 0)
    }
}

/// A list-of-integers field.
pub open spec fn int_list_field(items: Seq<int>, tag: u8) -> Seq<u8> {
    list_header(items.len() as int, tag) + int_items(items)
}

/// A struct field: struct-begin at `tag`, the fields, struct-end at tag 0.
pub open spec fn struct_field(body: Seq<u8>, tag: u8) -> Seq<u8> {
    head_bytes(TarsType::StructBegin, tag) + body + head_bytes(TarsType::StructEnd, 0)
}

/// A frame: the total length, these four bytes included, then the body.
pub open spec fn framed(body: Seq<u8>) -> Seq<u8> {
    be32(body.len() as int + 4) + body
}

} // verus!
