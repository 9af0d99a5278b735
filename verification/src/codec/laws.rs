//! What holds between writing and reading.
//!
//! Each statement here takes any input `data` that holds, at some position,
//! the bytes that a writer gives, and says what the reader finds there.

use vstd::arithmetic::div_mod::lemma_div_denominator;
use vstd::prelude::*;
use vstd::utf8::{encode_utf8, encode_utf8_decode_utf8, encode_utf8_valid_utf8};

use super::decode::{
    field_end, fields_end, int_payload, seek, spec_read_bool, spec_read_bytes, spec_read_count,
    spec_read_double, spec_read_float, spec_read_head, spec_read_int, spec_read_string,
    spec_read_string_map, string_pair, string_pairs, string_payload, take, text_at, FloatBits,
    Seek,
};
use super::string_map::{distinct_keys, find_from, has_key, lemma_find_from, put, Entries};
use super::reader::fits;
use super::types::{Head, TarsType};
use super::wire::{
    be32, be64, bytes_field, double_field, encodable_entries, encodable_text, float_field,
    from_be16, from_be32, from_be64, head_bytes, i16_bytes, i32_bytes, i64_bytes, i8_bytes,
    int_field, is_double_zero, is_float_zero, list_header, map_header, pow2_16, pow2_32,
    pow2_64, string_entries, string_field, string_map_field, to_unsigned,
};
use crate::error::CodecError;

verus! {

/// The bytes `enc` stand in `data` from `pos` on.
pub open spec fn holds_at(data: Seq<u8>, pos: int, enc: Seq<u8>) -> bool {
    &&& 0 <= pos
    &&& pos + enc.len() <= data.len()
    &&& data.subrange(pos, pos + enc.len()) == enc
}

/// What stands at `pos` can be read byte by byte.
pub proof fn lemma_holds_at_index(data: Seq<u8>, pos: int, enc: Seq<u8>, i: int)
    requires
        holds_at(data, pos, enc),
        0 <= i < enc.len(),
    ensures
        data[pos + i] == enc[i],
{
    assert(data.subrange(pos, pos + enc.len())[i] == data[pos + i]);
}

/// Where `a + b` stands, `a` stands, and `b` stands behind it.
pub proof fn lemma_holds_at_split(data: Seq<u8>, pos: int, a: Seq<u8>, b: Seq<u8>)
    requires
        holds_at(data, pos, a + b),
    ensures
        holds_at(data, pos, a),
        holds_at(data, pos + a.len(), b),
{
    let whole = data.subrange(pos, pos + (a + b).len());
    assert(data.subrange(pos, pos + a.len()) =~= whole.subrange(0, a.len() as int));
    assert(whole.subrange(0, a.len() as int) =~= a);
    assert(data.subrange(pos + a.len(), pos + a.len() + b.len()) =~= whole.subrange(
        a.len() as int,
        (a + b).len() as int,
    ));
    assert(whole.subrange(a.len() as int, (a + b).len() as int) =~= b);
}

/// A head takes one byte for tags below 15 and two from 15 on: the
/// extended-tag boundary.
pub proof fn law_head_length(ty: TarsType, tag: u8)
    ensures
        tag < 15 ==> head_bytes(ty, tag).len() == 1,
        tag >= 15 ==> head_bytes(ty, tag).len() == 2,
        tag < 15 ==> head_bytes(ty, tag)[0] == tag * 16 + ty.code(),
        tag >= 15 ==> head_bytes(ty, tag)[0] == 240 + ty.code() && head_bytes(ty, tag)[1] == tag,
{
}

/// A head that was written is read back, and the cursor moves behind it.
pub proof fn law_head_roundtrip(data: Seq<u8>, pos: int, ty: TarsType, tag: u8)
    requires
        holds_at(data, pos, head_bytes(ty, tag)),
    ensures
        spec_read_head(data, pos) == Ok::<(Head, int), CodecError>(
            (Head { ty, tag }, pos + head_bytes(ty, tag).len()),
        ),
{
    let enc = head_bytes(ty, tag);
    lemma_holds_at_index(data, pos, enc, 0);
    if tag >= 15 {
        lemma_holds_at_index(data, pos, enc, 1);
    }
    let b = data[pos];
    let c = ty.code();
    assert(c <= 13);
    if tag < 15 {
        assert(b == tag * 16 + c);
        assert(b % 16 == c && b / 16 == tag) by (nonlinear_arith)
            requires
                b == tag * 16 + c,
                0 <= c <= 13,
                0 <= tag < 15,
        ;
    } else {
        assert(b == 240 + c);
        assert(b % 16 == c && b / 16 == 15) by (nonlinear_arith)
            requires
                b == 240 + c,
                0 <= c <= 13,
        ;
    }
    assert(TarsType::of_code(c) == Some(ty));
}

/// Zero elision: an integer zero, and a float or double zero of either
/// sign, is one head of type zero-tag and nothing else.
pub proof fn law_zero_elision(tag: u8)
    ensures
        int_field(0, tag) == head_bytes(TarsType::ZeroTag, tag),
        float_field(0, tag) == head_bytes(TarsType::ZeroTag, tag),
        float_field(0x8000_0000u32, tag) == head_bytes(TarsType::ZeroTag, tag),
        double_field(0, tag) == head_bytes(TarsType::ZeroTag, tag),
        double_field(0x8000_0000_0000_0000u64, tag) == head_bytes(TarsType::ZeroTag, tag),
        tag < 15 ==> int_field(0, tag) == seq![(tag * 16 + 12) as u8],
{
}

/// The payload of an integer that was written reads back as the integer,
/// into any target that holds it.
pub proof fn lemma_int_payload_roundtrip(data: Seq<u8>, pos: int, v: int, width: int)
    requires
        fits(v, width),
        width == 1 || width == 2 || width == 4 || width == 8,
        0 <= pos,
        v != 0,
        -128 <= v <= 127 ==> holds_at(data, pos, i8_bytes(v)),
        !(-128 <= v <= 127) && -32768 <= v <= 32767 ==> holds_at(data, pos, i16_bytes(v)),
        !(-32768 <= v <= 32767) && -2147483648 <= v <= 2147483647 ==> holds_at(
            data,
            pos,
            i32_bytes(v),
        ),
        !(-2147483648 <= v <= 2147483647) ==> holds_at(data, pos, i64_bytes(v)),
    ensures
        int_payload(data, pos, smallest_type(v), width) == Ok::<(int, int), CodecError>(
            (v, pos + payload_length(v)),
        ),
{
    if -128 <= v <= 127 {
        lemma_holds_at_index(data, pos, i8_bytes(v), 0);
    } else if -32768 <= v <= 32767 {
        let u = to_unsigned(v, pow2_16());
        lemma_holds_at_index(data, pos, i16_bytes(v), 0);
        lemma_holds_at_index(data, pos, i16_bytes(v), 1);
        assert(from_be16(data[pos], data[pos + 1]) == u);
    } else if -2147483648 <= v <= 2147483647 {
        let u = to_unsigned(v, pow2_32());
        lemma_holds_at_index(data, pos, i32_bytes(v), 0);
        lemma_holds_at_index(data, pos, i32_bytes(v), 1);
        lemma_holds_at_index(data, pos, i32_bytes(v), 2);
        lemma_holds_at_index(data, pos, i32_bytes(v), 3);
        lemma_be32_roundtrip(u);
    } else {
        let u = to_unsigned(v, pow2_64());
        assert(data.subrange(pos, pos + 8) == be64(u));
        lemma_be64_roundtrip(u);
    }
}

/// Four bytes spell the number they were made from.
pub proof fn lemma_be32_roundtrip(u: int)
    requires
        0 <= u < 4294967296,
    ensures
        from_be32(be32(u)[0], be32(u)[1], be32(u)[2], be32(u)[3]) == u,
{
    let b0 = u / 16777216;
    let r0 = u % 16777216;
    let b1 = r0 / 65536;
    let r1 = r0 % 65536;
    let b2 = r1 / 256;
    let b3 = r1 % 256;
    assert((u / 65536) % 256 == b1);
    assert((u / 256) % 256 == b2);
    assert(u % 256 == b3);
}

/// Eight bytes spell the number they were made from.
pub proof fn lemma_be64_roundtrip(u: int)
    requires
        0 <= u < 18446744073709551616,
    ensures
        from_be64(be64(u)) == u,
{
    let q1 = u / 256;
    let q2 = q1 / 256;
    let q3 = q2 / 256;
    let q4 = q3 / 256;
    let q5 = q4 / 256;
    let q6 = q5 / 256;
    let q7 = q6 / 256;
    lemma_div_denominator(u, 256, 256);
    lemma_div_denominator(u, 65536, 256);
    lemma_div_denominator(u, 16777216, 256);
    lemma_div_denominator(u, 4294967296, 256);
    lemma_div_denominator(u, 1099511627776, 256);
    lemma_div_denominator(u, 281474976710656, 256);
    assert(u / 65536 == q2);
    assert(u / 16777216 == q3);
    assert(u / 4294967296 == q4);
    assert(u / 1099511627776 == q5);
    assert(u / 281474976710656 == q6);
    assert(u / 72057594037927936 == q7);
    let b = be64(u);
    assert(b[0] == q7);
    assert(b[1] == q6 % 256);
    assert(b[2] == q5 % 256);
    assert(b[3] == q4 % 256);
    assert(b[4] == q3 % 256);
    assert(b[5] == q2 % 256);
    assert(b[6] == q1 % 256);
    assert(b[7] == u % 256);
}

/// The smallest integer type that holds `v`; zero-tag for zero.
pub open spec fn smallest_type(v: int) -> TarsType {
    if v == 0 {
        TarsType::ZeroTag
    } else if -128 <= v <= 127 {
        TarsType::Byte
    } else if -32768 <= v <= 32767 {
        TarsType::Short
    } else if -2147483648 <= v <= 2147483647 {
        TarsType::Int
    } else {
        TarsType::Long
    }
}

/// The number of payload bytes of `v` in its smallest type.
pub open spec fn payload_length(v: int) -> int {
    if v == 0 {
        0
    } else if -128 <= v <= 127 {
        1
    } else if -32768 <= v <= 32767 {
        2
    } else if -2147483648 <= v <= 2147483647 {
        4
    } else {
        8
    }
}

/// An integer field is the head of the smallest type and the payload.
pub proof fn lemma_int_field_shape(v: int, tag: u8)
    requires
        fits(v, 8),
    ensures
        int_field(v, tag).len() == head_bytes(smallest_type(v), tag).len() + payload_length(v),
        int_field(v, tag).subrange(0, head_bytes(smallest_type(v), tag).len() as int)
            == head_bytes(smallest_type(v), tag),
{
    let h = head_bytes(smallest_type(v), tag);
    assert(int_field(v, tag).subrange(0, h.len() as int) =~= h);
}

/// A field whose head stands at the cursor with the tag looked for is found
/// there, whatever follows.
pub proof fn lemma_seek_found(data: Seq<u8>, pos: int, ty: TarsType, tag: u8)
    requires
        holds_at(data, pos, head_bytes(ty, tag)),
        ty != TarsType::StructEnd,
    ensures
        seek(data, pos, tag) == Ok::<Seek, CodecError>(
            Seek::Found { head: Head { ty, tag }, at: pos + head_bytes(ty, tag).len() },
        ),
{
    law_head_roundtrip(data, pos, ty, tag);
}

/// Optional field absence: where the next head has a greater tag, or closes
/// a struct, or the input has ended, a search for `tag` ends at once and the
/// cursor does not move.
pub proof fn law_absent_stays(data: Seq<u8>, pos: int, tag: u8)
    requires
        0 <= pos,
        pos >= data.len() || (spec_read_head(data, pos) is Ok && (spec_read_head(
            data,
            pos,
        )->Ok_0.0.tag > tag || spec_read_head(data, pos)->Ok_0.0.ty == TarsType::StructEnd)),
    ensures
        seek(data, pos, tag) == Ok::<Seek, CodecError>(Seek::Absent { at: pos }),
        spec_read_int(data, pos, tag, false, 1) == Ok::<(int, int), CodecError>((0, pos)),
        spec_read_int(data, pos, tag, false, 2) == Ok::<(int, int), CodecError>((0, pos)),
        spec_read_int(data, pos, tag, false, 4) == Ok::<(int, int), CodecError>((0, pos)),
        spec_read_int(data, pos, tag, false, 8) == Ok::<(int, int), CodecError>((0, pos)),
        spec_read_bool(data, pos, tag, false) == Ok::<(bool, int), CodecError>((false, pos)),
        spec_read_float(data, pos, tag, false) == Ok::<(int, int), CodecError>((0, pos)),
        spec_read_double(data, pos, tag, false) == Ok::<(FloatBits, int), CodecError>(
            (FloatBits::Double(0), pos),
        ),
        spec_read_string(data, pos, tag, false) == Ok::<(Seq<char>, int), CodecError>(
            (Seq::empty(), pos),
        ),
        spec_read_bytes(data, pos, tag, false) == Ok::<(Seq<u8>, int), CodecError>(
            (Seq::empty(), pos),
        ),
        spec_read_int(data, pos, tag, true, 4) == Err::<(int, int), CodecError>(
            CodecError::RequiredTagNotFound(tag),
        ),
{
}

/// Codec round-trip for integers: an integer written at `tag`, with any
/// width, reads back at `tag` into every width that holds it, and the cursor
/// moves behind the field.
pub proof fn law_int_roundtrip(data: Seq<u8>, pos: int, v: int, tag: u8, require: bool, width: int)
    requires
        fits(v, width),
        width == 1 || width == 2 || width == 4 || width == 8,
        holds_at(data, pos, int_field(v, tag)),
    ensures
        spec_read_int(data, pos, tag, require, width) == Ok::<(int, int), CodecError>(
            (v, pos + int_field(v, tag).len()),
        ),
{
    let ty = smallest_type(v);
    let h = head_bytes(ty, tag);
    if v == 0 {
        lemma_seek_found(data, pos, ty, tag);
    } else {
        let payload = if -128 <= v <= 127 {
            i8_bytes(v)
        } else if -32768 <= v <= 32767 {
            i16_bytes(v)
        } else if -2147483648 <= v <= 2147483647 {
            i32_bytes(v)
        } else {
            i64_bytes(v)
        };
        assert(int_field(v, tag) == h + payload);
        lemma_holds_at_split(data, pos, h, payload);
        lemma_seek_found(data, pos, ty, tag);
        lemma_int_payload_roundtrip(data, pos + h.len(), v, width);
    }
}

/// Codec round-trip for bools.
pub proof fn law_bool_roundtrip(data: Seq<u8>, pos: int, v: bool, tag: u8, require: bool)
    requires
        holds_at(data, pos, int_field(if v { 1int } else { 0int }, tag)),
    ensures
        spec_read_bool(data, pos, tag, require) == Ok::<(bool, int), CodecError>(
            (v, pos + int_field(if v { 1int } else { 0int }, tag).len()),
        ),
{
    law_int_roundtrip(data, pos, if v { 1int } else { 0int }, tag, require, 1);
}

/// An element count that was written reads back.
pub proof fn lemma_count_roundtrip(data: Seq<u8>, pos: int, n: int)
    requires
        fits(n, 4),
        holds_at(data, pos, int_field(n, 0)),
    ensures
        spec_read_count(data, pos) == Ok::<(int, int), CodecError>(
            (n, pos + int_field(n, 0).len()),
        ),
{
    let ty = smallest_type(n);
    let h = head_bytes(ty, 0);
    if n == 0 {
        law_head_roundtrip(data, pos, ty, 0);
    } else {
        let payload = if -128 <= n <= 127 {
            i8_bytes(n)
        } else if -32768 <= n <= 32767 {
            i16_bytes(n)
        } else {
            i32_bytes(n)
        };
        assert(int_field(n, 0) == h + payload);
        lemma_holds_at_split(data, pos, h, payload);
        law_head_roundtrip(data, pos, ty, 0);
        lemma_int_payload_roundtrip(data, pos + h.len(), n, 4);
    }
}

/// Codec round-trip for floats, by bit pattern: what was written reads
/// back, a zero of either sign as +0.0.
pub proof fn law_float_roundtrip(data: Seq<u8>, pos: int, bits: u32, tag: u8, require: bool)
    requires
        holds_at(data, pos, float_field(bits, tag)),
    ensures
        spec_read_float(data, pos, tag, require) == Ok::<(int, int), CodecError>(
            (if is_float_zero(bits) { 0int } else { bits as int }, pos + float_field(bits, tag).len()),
        ),
{
    if is_float_zero(bits) {
        lemma_seek_found(data, pos, TarsType::ZeroTag, tag);
    } else {
        let h = head_bytes(TarsType::Float, tag);
        lemma_holds_at_split(data, pos, h, be32(bits as int));
        lemma_seek_found(data, pos, TarsType::Float, tag);
        let at = pos + h.len();
        lemma_holds_at_index(data, at, be32(bits as int), 0);
        lemma_holds_at_index(data, at, be32(bits as int), 1);
        lemma_holds_at_index(data, at, be32(bits as int), 2);
        lemma_holds_at_index(data, at, be32(bits as int), 3);
        lemma_be32_roundtrip(bits as int);
    }
}

/// Codec round-trip for doubles, by bit pattern: what was written reads
/// back, a zero of either sign as +0.0.
pub proof fn law_double_roundtrip(data: Seq<u8>, pos: int, bits: u64, tag: u8, require: bool)
    requires
        holds_at(data, pos, double_field(bits, tag)),
    ensures
        spec_read_double(data, pos, tag, require) == Ok::<(FloatBits, int), CodecError>(
            (
                FloatBits::Double(if is_double_zero(bits) { 0u64 } else { bits }),
                pos + double_field(bits, tag).len(),
            ),
        ),
{
    if is_double_zero(bits) {
        lemma_seek_found(data, pos, TarsType::ZeroTag, tag);
    } else {
        let h = head_bytes(TarsType::Double, tag);
        lemma_holds_at_split(data, pos, h, be64(bits as int));
        lemma_seek_found(data, pos, TarsType::Double, tag);
        let at = pos + h.len();
        assert(data.subrange(at, at + 8) == be64(bits as int));
        lemma_be64_roundtrip(bits as int);
    }
}

/// The shape of a string field: its head, its length field and its bytes.
pub open spec fn string_type(s: Seq<char>) -> TarsType {
    if encode_utf8(s).len() > 255 {
        TarsType::String4
    } else {
        TarsType::String1
    }
}

/// The length field of a string field.
pub open spec fn string_length_bytes(s: Seq<char>) -> Seq<u8> {
    if encode_utf8(s).len() > 255 {
        be32(encode_utf8(s).len() as int)
    } else {
        seq![encode_utf8(s).len() as u8]
    }
}

/// The payload of a string that was written reads back as the string.
pub proof fn lemma_string_payload_roundtrip(data: Seq<u8>, pos: int, s: Seq<char>)
    requires
        encodable_text(s),
        holds_at(data, pos, string_length_bytes(s) + encode_utf8(s)),
    ensures
        string_payload(data, pos, string_type(s)) == Ok::<(Seq<char>, int), CodecError>(
            (s, pos + string_length_bytes(s).len() + encode_utf8(s).len()),
        ),
        field_end(data, pos, string_type(s)) == Ok::<int, CodecError>(
            pos + string_length_bytes(s).len() + encode_utf8(s).len(),
        ),
{
    let bytes = encode_utf8(s);
    let lb = string_length_bytes(s);
    lemma_holds_at_split(data, pos, lb, bytes);
    encode_utf8_valid_utf8(s);
    encode_utf8_decode_utf8(s);
    let at = pos + lb.len();
    if bytes.len() > 255 {
        lemma_holds_at_index(data, pos, lb, 0);
        lemma_holds_at_index(data, pos, lb, 1);
        lemma_holds_at_index(data, pos, lb, 2);
        lemma_holds_at_index(data, pos, lb, 3);
        lemma_be32_roundtrip(bytes.len() as int);
        assert(text_at(data, at, bytes.len() as int) == Ok::<(Seq<char>, int), CodecError>(
            (s, at + bytes.len()),
        ));
    } else {
        lemma_holds_at_index(data, pos, lb, 0);
        assert(data[pos] as int == bytes.len());
        assert(text_at(data, at, bytes.len() as int) == Ok::<(Seq<char>, int), CodecError>(
            (s, at + bytes.len()),
        ));
    }
}

/// Codec round-trip for strings: a string written at `tag` reads back at
/// `tag`, and the cursor moves behind the field.
pub proof fn law_string_roundtrip(data: Seq<u8>, pos: int, s: Seq<char>, tag: u8, require: bool)
    requires
        encodable_text(s),
        holds_at(data, pos, string_field(s, tag)),
    ensures
        spec_read_string(data, pos, tag, require) == Ok::<(Seq<char>, int), CodecError>(
            (s, pos + string_field(s, tag).len()),
        ),
{
    let h = head_bytes(string_type(s), tag);
    let rest = string_length_bytes(s) + encode_utf8(s);
    assert(string_field(s, tag) =~= h + rest);
    lemma_holds_at_split(data, pos, h, rest);
    lemma_seek_found(data, pos, string_type(s), tag);
    lemma_string_payload_roundtrip(data, pos + h.len(), s);
}

/// Codec round-trip for byte arrays: bytes written at `tag` read back at
/// `tag`, and the cursor moves behind the field.
pub proof fn law_bytes_roundtrip(data: Seq<u8>, pos: int, b: Seq<u8>, tag: u8, require: bool)
    requires
        b.len() <= i32::MAX,
        holds_at(data, pos, bytes_field(b, tag)),
    ensures
        spec_read_bytes(data, pos, tag, require) == Ok::<(Seq<u8>, int), CodecError>(
            (b, pos + bytes_field(b, tag).len()),
        ),
        field_end(data, pos + head_bytes(TarsType::SimpleList, tag).len(), TarsType::SimpleList)
            == Ok::<int, CodecError>(pos + bytes_field(b, tag).len()),
{
    let h = head_bytes(TarsType::SimpleList, tag);
    let inner = head_bytes(TarsType::Byte, 0);
    let count = int_field(b.len() as int, 0);
    assert(bytes_field(b, tag) =~= h + (inner + (count + b)));
    lemma_holds_at_split(data, pos, h, inner + (count + b));
    lemma_holds_at_split(data, pos + h.len(), inner, count + b);
    lemma_holds_at_split(data, pos + h.len() + inner.len(), count, b);
    lemma_seek_found(data, pos, TarsType::SimpleList, tag);
    law_head_roundtrip(data, pos + h.len(), TarsType::Byte, 0);
    lemma_count_roundtrip(data, pos + h.len() + inner.len(), b.len() as int);
}

/// A field whose head stands at `pos` and whose payload ends at `end` is
/// skipped as one field, head included.
pub proof fn lemma_skip_one(data: Seq<u8>, pos: int, ty: TarsType, tag: u8, end: int)
    requires
        holds_at(data, pos, head_bytes(ty, tag)),
        field_end(data, pos + head_bytes(ty, tag).len(), ty) == Ok::<int, CodecError>(end),
        pos + head_bytes(ty, tag).len() <= end <= data.len(),
    ensures
        fields_end(data, pos, 1) == Ok::<int, CodecError>(end),
{
    law_head_roundtrip(data, pos, ty, tag);
    assert(fields_end(data, end, 0) == Ok::<int, CodecError>(end));
}

/// Skipping `a` fields and then `b` more is skipping `a + b` fields.
pub proof fn lemma_skip_append(data: Seq<u8>, pos: int, a: int, b: int)
    requires
        0 <= a,
        0 <= b,
        fields_end(data, pos, a) is Ok,
    ensures
        fields_end(data, pos, a + b) == fields_end(data, fields_end(data, pos, a)->Ok_0, b),
    decreases a,
{
    if a > 0 {
        let (head, next) = spec_read_head(data, pos)->Ok_0;
        let end = field_end(data, next, head.ty)->Ok_0;
        lemma_skip_append(data, end, a - 1, b);
    }
}

/// Skip correctness for integers: skipping an integer field moves the
/// cursor by exactly the bytes that writing it gave.
pub proof fn law_skip_int(data: Seq<u8>, pos: int, v: int, tag: u8)
    requires
        fits(v, 8),
        holds_at(data, pos, int_field(v, tag)),
    ensures
        fields_end(data, pos, 1) == Ok::<int, CodecError>(pos + int_field(v, tag).len()),
{
    let ty = smallest_type(v);
    let h = head_bytes(ty, tag);
    lemma_int_field_shape(v, tag);
    assert(holds_at(data, pos, h)) by {
        assert(data.subrange(pos, pos + h.len()) =~= data.subrange(
            pos,
            pos + int_field(v, tag).len(),
        ).subrange(0, h.len() as int));
    }
    lemma_skip_one(data, pos, ty, tag, pos + int_field(v, tag).len());
}

/// Skip correctness for floats.
pub proof fn law_skip_float(data: Seq<u8>, pos: int, bits: u32, tag: u8)
    requires
        holds_at(data, pos, float_field(bits, tag)),
    ensures
        fields_end(data, pos, 1) == Ok::<int, CodecError>(pos + float_field(bits, tag).len()),
{
    if is_float_zero(bits) {
        lemma_skip_one(data, pos, TarsType::ZeroTag, tag, pos + float_field(bits, tag).len());
    } else {
        let h = head_bytes(TarsType::Float, tag);
        lemma_holds_at_split(data, pos, h, be32(bits as int));
        lemma_skip_one(data, pos, TarsType::Float, tag, pos + float_field(bits, tag).len());
    }
}

/// Skip correctness for doubles.
pub proof fn law_skip_double(data: Seq<u8>, pos: int, bits: u64, tag: u8)
    requires
        holds_at(data, pos, double_field(bits, tag)),
    ensures
        fields_end(data, pos, 1) == Ok::<int, CodecError>(pos + double_field(bits, tag).len()),
{
    if is_double_zero(bits) {
        lemma_skip_one(data, pos, TarsType::ZeroTag, tag, pos + double_field(bits, tag).len());
    } else {
        let h = head_bytes(TarsType::Double, tag);
        lemma_holds_at_split(data, pos, h, be64(bits as int));
        lemma_skip_one(data, pos, TarsType::Double, tag, pos + double_field(bits, tag).len());
    }
}

/// Skip correctness for strings.
pub proof fn law_skip_string(data: Seq<u8>, pos: int, s: Seq<char>, tag: u8)
    requires
        encodable_text(s),
        holds_at(data, pos, string_field(s, tag)),
    ensures
        fields_end(data, pos, 1) == Ok::<int, CodecError>(pos + string_field(s, tag).len()),
{
    let h = head_bytes(string_type(s), tag);
    let rest = string_length_bytes(s) + encode_utf8(s);
    assert(string_field(s, tag) =~= h + rest);
    lemma_holds_at_split(data, pos, h, rest);
    lemma_string_payload_roundtrip(data, pos + h.len(), s);
    lemma_skip_one(data, pos, string_type(s), tag, pos + string_field(s, tag).len());
}

/// Skip correctness for byte arrays.
pub proof fn law_skip_bytes(data: Seq<u8>, pos: int, b: Seq<u8>, tag: u8)
    requires
        b.len() <= i32::MAX,
        holds_at(data, pos, bytes_field(b, tag)),
    ensures
        fields_end(data, pos, 1) == Ok::<int, CodecError>(pos + bytes_field(b, tag).len()),
{
    let h = head_bytes(TarsType::SimpleList, tag);
    law_bytes_roundtrip(data, pos, b, tag, false);
    assert(holds_at(data, pos, h)) by {
        assert(bytes_field(b, tag) =~= h + (head_bytes(TarsType::Byte, 0) + int_field(
            b.len() as int,
            0,
        ) + b));
        lemma_holds_at_split(
            data,
            pos,
            h,
            head_bytes(TarsType::Byte, 0) + int_field(b.len() as int, 0) + b,
        );
    }
    lemma_skip_one(data, pos, TarsType::SimpleList, tag, pos + bytes_field(b, tag).len());
}

/// `k` fields stand from `pos` on, none of them a struct-end, and they end
/// at `end`.
pub open spec fn plain_fields(data: Seq<u8>, pos: int, k: int, end: int) -> bool
    decreases k,
{
    if k <= 0 {
        pos == end
    } else {
        &&& spec_read_head(data, pos) is Ok
        &&& spec_read_head(data, pos)->Ok_0.0.ty != TarsType::StructEnd
        &&& field_end(
            data,
            spec_read_head(data, pos)->Ok_0.1,
            spec_read_head(data, pos)->Ok_0.0.ty,
        ) is Ok
        &&& spec_read_head(data, pos)->Ok_0.1 <= field_end(
            data,
            spec_read_head(data, pos)->Ok_0.1,
            spec_read_head(data, pos)->Ok_0.0.ty,
        )->Ok_0 <= data.len()
        &&& plain_fields(
            data,
            field_end(
                data,
                spec_read_head(data, pos)->Ok_0.1,
                spec_read_head(data, pos)->Ok_0.0.ty,
            )->Ok_0,
            k - 1,
            end,
        )
    }
}

/// From the start of a struct's fields, the search for the struct-end goes
/// through the fields and on from where they end.
pub proof fn lemma_struct_end_through(data: Seq<u8>, pos: int, k: int, end: int)
    requires
        0 <= pos,
        plain_fields(data, pos, k, end),
    ensures
        super::decode::struct_end(data, pos) == super::decode::struct_end(data, end),
    decreases k,
{
    if k > 0 {
        let (head, next) = spec_read_head(data, pos)->Ok_0;
        let mid = field_end(data, next, head.ty)->Ok_0;
        lemma_struct_end_through(data, mid, k - 1, end);
    }
}

/// Skip correctness for structs: a struct-begin head, any number of fields
/// and a struct-end head are skipped as one field, by exactly their length.
pub proof fn law_skip_struct(data: Seq<u8>, pos: int, tag: u8, k: int, body_end: int)
    requires
        holds_at(data, pos, head_bytes(TarsType::StructBegin, tag)),
        plain_fields(data, pos + head_bytes(TarsType::StructBegin, tag).len(), k, body_end),
        holds_at(data, body_end, head_bytes(TarsType::StructEnd, 0)),
        pos + head_bytes(TarsType::StructBegin, tag).len() <= body_end,
    ensures
        fields_end(data, pos, 1) == Ok::<int, CodecError>(body_end + 1),
{
    let h = head_bytes(TarsType::StructBegin, tag);
    lemma_struct_end_through(data, pos + h.len(), k, body_end);
    law_head_roundtrip(data, body_end, TarsType::StructEnd, 0);
    lemma_skip_one(data, pos, TarsType::StructBegin, tag, body_end + 1);
}

/// Skip correctness for lists: the opening of a list of `n` elements and
/// the `n` element fields behind it are skipped as one field, by exactly
/// their length.
pub proof fn law_skip_list(data: Seq<u8>, pos: int, tag: u8, n: int, body_end: int)
    requires
        0 <= n,
        fits(n, 4),
        holds_at(data, pos, list_header(n, tag)),
        fields_end(data, pos + list_header(n, tag).len(), n) == Ok::<int, CodecError>(body_end),
        pos + list_header(n, tag).len() <= body_end <= data.len(),
    ensures
        fields_end(data, pos, 1) == Ok::<int, CodecError>(body_end),
{
    let h = head_bytes(TarsType::List, tag);
    lemma_holds_at_split(data, pos, h, int_field(n, 0));
    lemma_count_roundtrip(data, pos + h.len(), n);
    lemma_skip_one(data, pos, TarsType::List, tag, body_end);
}

/// Skip correctness for maps: the opening of a map of `n` entries and the
/// `2n` fields behind it, a key and a value for each entry, are skipped as
/// one field, by exactly their length.
pub proof fn law_skip_map(data: Seq<u8>, pos: int, tag: u8, n: int, body_end: int)
    requires
        0 <= n,
        fits(n, 4),
        holds_at(data, pos, map_header(n, tag)),
        fields_end(data, pos + map_header(n, tag).len(), 2 * n) == Ok::<int, CodecError>(
            body_end,
        ),
        pos + map_header(n, tag).len() <= body_end <= data.len(),
    ensures
        fields_end(data, pos, 1) == Ok::<int, CodecError>(body_end),
{
    let h = head_bytes(TarsType::Mapping, tag);
    lemma_holds_at_split(data, pos, h, int_field(n, 0));
    lemma_count_roundtrip(data, pos + h.len(), n);
    lemma_skip_one(data, pos, TarsType::Mapping, tag, body_end);
}

/// The entries of a map are written one after the other.
pub proof fn lemma_string_entries_step(m: Entries, k: int)
    requires
        0 <= k < m.len(),
    ensures
        string_entries(m.take(k + 1)) == string_entries(m.take(k)) + string_field(m[k].0, 0)
            + string_field(m[k].1, 1),
{
    assert(m.take(k + 1).drop_last() =~= m.take(k));
    assert(m.take(k + 1).last() == m[k]);
}

/// Where all entries of a map stand, its first `k` entries stand.
pub proof fn lemma_string_entries_prefix(data: Seq<u8>, at: int, m: Entries, k: int)
    requires
        0 <= k <= m.len(),
        holds_at(data, at, string_entries(m)),
    ensures
        holds_at(data, at, string_entries(m.take(k))),
    decreases m.len() - k,
{
    if k == m.len() {
        assert(m.take(k) =~= m);
    } else {
        lemma_string_entries_prefix(data, at, m, k + 1);
        lemma_string_entries_step(m, k);
        let front = string_entries(m.take(k));
        let key = string_field(m[k].0, 0);
        let value = string_field(m[k].1, 1);
        assert(front + key + value =~= front + (key + value));
        lemma_holds_at_split(data, at, front, key + value);
    }
}

/// One entry of a written map reads back as it was written, and is skipped
/// as two fields.
pub proof fn lemma_string_pair_roundtrip(data: Seq<u8>, at0: int, key: Seq<char>, value: Seq<char>)
    requires
        encodable_text(key),
        encodable_text(value),
        holds_at(data, at0, string_field(key, 0) + string_field(value, 1)),
    ensures
        string_pair(data, at0) == Ok::<((Seq<char>, Seq<char>), int), CodecError>(
            ((key, value), at0 + string_field(key, 0).len() + string_field(value, 1).len()),
        ),
        fields_end(data, at0, 2) == Ok::<int, CodecError>(
            at0 + string_field(key, 0).len() + string_field(value, 1).len(),
        ),
{
    let kf = string_field(key, 0);
    let vf = string_field(value, 1);
    lemma_holds_at_split(data, at0, kf, vf);
    let at1 = at0 + kf.len();
    law_string_roundtrip(data, at0, key, 0, true);
    law_string_roundtrip(data, at1, value, 1, true);
    reveal(string_pair);
    law_skip_string(data, at0, key, 0);
    law_skip_string(data, at1, value, 1);
    lemma_skip_append(data, at0, 1, 1);
}

/// The first `k` entries of a written map read back as they were written,
/// and are skipped as `2k` fields.
pub proof fn lemma_string_pairs_roundtrip(data: Seq<u8>, at: int, m: Entries, k: int)
    requires
        0 <= k <= m.len(),
        distinct_keys(m),
        encodable_entries(m),
        holds_at(data, at, string_entries(m)),
    ensures
        string_pairs(data, at, k) == Ok::<(Entries, int), CodecError>(
            (m.take(k), at + string_entries(m.take(k)).len()),
        ),
        fields_end(data, at, 2 * k) == Ok::<int, CodecError>(
            at + string_entries(m.take(k)).len(),
        ),
    decreases k,
{
    if k == 0 {
        assert(m.take(0) =~= Seq::<(Seq<char>, Seq<char>)>::empty());
    } else {
        let j = k - 1;
        lemma_string_pairs_roundtrip(data, at, m, j);
        lemma_string_entries_prefix(data, at, m, k);
        lemma_string_entries_step(m, j);
        let front = string_entries(m.take(j));
        let key = string_field(m[j].0, 0);
        let value = string_field(m[j].1, 1);
        assert(front + key + value =~= front + (key + value));
        lemma_holds_at_split(data, at, front, key + value);
        let at0 = at + front.len();
        lemma_string_pair_roundtrip(data, at0, m[j].0, m[j].1);
        // the key is new among the entries before it
        lemma_find_from(m.take(j), m[j].0, 0);
        if has_key(m.take(j), m[j].0) {
            let i = find_from(m.take(j), m[j].0, 0);
            assert(m.take(j)[i] == m[i]);
            assert(m[i].0 != m[j].0);
        }
        assert(put(m.take(j), m[j].0, m[j].1) =~= m.take(k));
        lemma_skip_append(data, at, 2 * j, 2);
    }
}

/// Codec round-trip for string maps: a map written at `tag` reads back at
/// `tag` with its entries in their order, and the cursor moves behind the
/// field.
pub proof fn law_string_map_roundtrip(
    data: Seq<u8>,
    pos: int,
    m: Entries,
    tag: u8,
    require: bool,
)
    requires
        distinct_keys(m),
        encodable_entries(m),
        holds_at(data, pos, string_map_field(m, tag)),
    ensures
        spec_read_string_map(data, pos, tag, require) == Ok::<(Entries, int), CodecError>(
            (m, pos + string_map_field(m, tag).len()),
        ),
        fields_end(data, pos, 1) == Ok::<int, CodecError>(pos + string_map_field(m, tag).len()),
{
    let h = head_bytes(TarsType::Mapping, tag);
    let count = int_field(m.len() as int, 0);
    let body = string_entries(m);
    assert(string_map_field(m, tag) =~= h + (count + body));
    lemma_holds_at_split(data, pos, h, count + body);
    lemma_holds_at_split(data, pos + h.len(), count, body);
    lemma_seek_found(data, pos, TarsType::Mapping, tag);
    lemma_count_roundtrip(data, pos + h.len(), m.len() as int);
    let at = pos + h.len() + count.len();
    lemma_string_pairs_roundtrip(data, at, m, m.len() as int);
    assert(m.take(m.len() as int) =~= m);
    lemma_skip_one(data, pos, TarsType::Mapping, tag, at + body.len());
}

} // verus!
