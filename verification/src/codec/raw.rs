//! The growable byte store behind the `Buffer`, and big-endian reads.
//!
//! Nothing in this file is proved: each function states what the crate it
//! calls documents.

use byteorder::{BigEndian, ByteOrder};
use bytes::{BufMut, BytesMut};
use vstd::prelude::*;

use super::wire::{
    be32, be64, from_be16, from_be32, from_be64, i16_bytes, i32_bytes, i64_bytes, i8_bytes,
    pow2_16, pow2_32, pow2_64, to_signed,
};

verus! {

/// `bytes::BytesMut`: a growable store of bytes, carried as it is.
#[verifier::external_type_specification]
#[verifier::external_body]
pub struct ExBytesMut(bytes::BytesMut);

/// The bytes that a `BytesMut` holds, first written first.
pub uninterp spec fn stored(b: BytesMut) -> Seq<u8>;

/// The first `len` of some bytes; all of them where there are no more.
pub open spec fn shortened(bytes: Seq<u8>, len: usize) -> Seq<u8> {
    if len <= bytes.len() {
        bytes.take(len as int)
    } else {
        bytes
    }
}

/// `BytesMut::new`: a store that holds nothing.
#[verifier::external_body]
pub(crate) fn store_new() -> (b: BytesMut)
    ensures
        stored(b) == Seq::<u8>::empty(),
{
    BytesMut::new()
}

/// `BytesMut::with_capacity`: a store that holds nothing, with room set
/// aside. The allocation behind it, like that of a `Vec`, takes at most
/// `isize::MAX` bytes.
#[verifier::external_body]
pub(crate) fn store_with_capacity(capacity: usize) -> (b: BytesMut)
    requires
        capacity <= isize::MAX,
    ensures
        stored(b) == Seq::<u8>::empty(),
{
    BytesMut::with_capacity(capacity)
}

/// `BytesMut::reserve`: sets room aside; what is held stays.
#[verifier::external_body]
pub(crate) fn store_reserve(b: &mut BytesMut, additional: usize)
    requires
        stored(*old(b)).len() + additional <= isize::MAX,
    ensures
        stored(*final(b)) == stored(*old(b)),
{
    b.reserve(additional)
}

/// `BytesMut::len`: the number of bytes held.
#[verifier::external_body]
pub(crate) fn store_len(b: &BytesMut) -> (n: usize)
    ensures
        n == stored(*b).len(),
{
    b.len()
}

/// `BytesMut::is_empty`: whether nothing is held.
#[verifier::external_body]
pub(crate) fn store_is_empty(b: &BytesMut) -> (r: bool)
    ensures
        r == (stored(*b).len() == 0),
{
    b.is_empty()
}

/// `BytesMut::truncate`: keeps the first `len` bytes and drops the rest;
/// nothing changes where no more than `len` bytes are held.
#[verifier::external_body]
pub(crate) fn store_truncate(b: &mut BytesMut, len: usize)
    ensures
        stored(*final(b)) == shortened(stored(*old(b)), len),
{
    b.truncate(len)
}

/// `BytesMut::clear`: afterwards nothing is held.
#[verifier::external_body]
pub(crate) fn store_clear(b: &mut BytesMut)
    ensures
        stored(*final(b)) == Seq::<u8>::empty(),
{
    b.clear()
}

/// `<[u8]>::to_vec` through `BytesMut`'s `Deref`: a copy of what is held.
#[verifier::external_body]
pub(crate) fn store_to_vec(b: &BytesMut) -> (v: Vec<u8>)
    ensures
        v@ == stored(*b),
{
    b.to_vec()
}

/// `Deref` of `BytesMut` to `[u8]`: what is held, as a slice.
#[verifier::external_body]
pub(crate) fn store_as_slice(b: &BytesMut) -> (s: &[u8])
    ensures
        s@ == stored(*b),
{
    b
}

/// `BytesMut::extend_from_slice`: appends the slice. A `BytesMut` grows as
/// a `Vec` does.
#[verifier::external_body]
pub(crate) fn store_extend(b: &mut BytesMut, data: &[u8])
    ensures
        stored(*final(b)) == stored(*old(b)) + data@,
{
    b.extend_from_slice(data)
}

/// `BufMut::put_u8`: appends one byte.
#[verifier::external_body]
pub(crate) fn store_put_u8(b: &mut BytesMut, n: u8)
    ensures
        stored(*final(b)) == stored(*old(b)).push(n),
{
    b.put_u8(n)
}

/// `BufMut::put_i8`: appends the byte with the bit pattern of `n`.
#[verifier::external_body]
pub(crate) fn store_put_i8(b: &mut BytesMut, n: i8)
    ensures
        stored(*final(b)) == stored(*old(b)) + i8_bytes(n as int),
{
    b.put_i8(n)
}

/// `BufMut::put_i16`: appends `n` in big-endian byte order.
#[verifier::external_body]
pub(crate) fn store_put_i16(b: &mut BytesMut, n: i16)
    ensures
        stored(*final(b)) == stored(*old(b)) + i16_bytes(n as int),
{
    b.put_i16(n)
}

/// `BufMut::put_i32`: appends `n` in big-endian byte order.
#[verifier::external_body]
pub(crate) fn store_put_i32(b: &mut BytesMut, n: i32)
    ensures
        stored(*final(b)) == stored(*old(b)) + i32_bytes(n as int),
{
    b.put_i32(n)
}

/// `BufMut::put_i64`: appends `n` in big-endian byte order.
#[verifier::external_body]
pub(crate) fn store_put_i64(b: &mut BytesMut, n: i64)
    ensures
        stored(*final(b)) == stored(*old(b)) + i64_bytes(n as int),
{
    b.put_i64(n)
}

/// `BufMut::put_u32`: appends `n` in big-endian byte order.
#[verifier::external_body]
pub(crate) fn store_put_u32(b: &mut BytesMut, n: u32)
    ensures
        stored(*final(b)) == stored(*old(b)) + be32(n as int),
{
    b.put_u32(n)
}

/// `BufMut::put_u64`: appends `n` in big-endian byte order.
#[verifier::external_body]
pub(crate) fn store_put_u64(b: &mut BytesMut, n: u64)
    ensures
        stored(*final(b)) == stored(*old(b)) + be64(n as int),
{
    b.put_u64(n)
}

/// `ByteOrder::read_i16` of `BigEndian`: the signed number that the first
/// two bytes spell.
#[verifier::external_body]
pub(crate) fn read_i16_be(buf: &[u8]) -> (r: i16)
    requires
        buf@.len() >= 2,
    ensures
        r as int == to_signed(from_be16(buf@[0], buf@[1]), pow2_16()),
{
    BigEndian::read_i16(buf)
}

/// `ByteOrder::read_i32` of `BigEndian`: the signed number that the first
/// four bytes spell.
#[verifier::external_body]
pub(crate) fn read_i32_be(buf: &[u8]) -> (r: i32)
    requires
        buf@.len() >= 4,
    ensures
        r as int == to_signed(from_be32(buf@[0], buf@[1], buf@[2], buf@[3]), pow2_32()),
{
    BigEndian::read_i32(buf)
}

/// `ByteOrder::read_i64` of `BigEndian`: the signed number that the first
/// eight bytes spell.
#[verifier::external_body]
pub(crate) fn read_i64_be(buf: &[u8]) -> (r: i64)
    requires
        buf@.len() >= 8,
    ensures
        r as int == to_signed(from_be64(buf@), pow2_64()),
{
    BigEndian::read_i64(buf)
}

/// `ByteOrder::read_u32` of `BigEndian`: the number that the first four
/// bytes spell.
#[verifier::external_body]
pub(crate) fn read_u32_be(buf: &[u8]) -> (r: u32)
    requires
        buf@.len() >= 4,
    ensures
        r as int == from_be32(buf@[0], buf@[1], buf@[2], buf@[3]),
{
    BigEndian::read_u32(buf)
}

/// `ByteOrder::read_u64` of `BigEndian`: the number that the first eight
/// bytes spell.
#[verifier::external_body]
pub(crate) fn read_u64_be(buf: &[u8]) -> (r: u64)
    requires
        buf@.len() >= 8,
    ensures
        r as int == from_be64(buf@),
{
    BigEndian::read_u64(buf)
}

/// `String::from_utf8`: the string that the bytes spell, or nothing where
/// they are not valid UTF-8.
#[verifier::external_body]
pub(crate) fn string_from_utf8(bytes: Vec<u8>) -> (r: Option<String>)
    ensures
        r is Some <==> vstd::utf8::valid_utf8(bytes@),
        r is Some ==> r->0@ == vstd::utf8::decode_utf8(bytes@),
{
    String::from_utf8(bytes).ok()
}

/// `==` on `str`: whether two strings hold the same characters.
#[verifier::external_body]
pub(crate) fn str_eq(a: &str, b: &str) -> (r: bool)
    ensures
        r == (a@ == b@),
{
    a == b
}

} // verus!
