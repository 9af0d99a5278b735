//! Buffer for writing encoded data.

use bytes::BytesMut;
use vstd::prelude::*;
use vstd::string::*;

use super::raw::{
    shortened, store_as_slice, store_clear, store_extend, store_is_empty, store_len, store_new,
    store_put_i16, store_put_i32, store_put_i64, store_put_i8, store_put_u32, store_put_u64,
    store_put_u8, store_reserve, store_to_vec, store_truncate, store_with_capacity, stored,
};
use super::types::TarsType;
use super::string_map::StringMap;
use super::wire::{
    bytes_field, double_field, encodable_entries, encodable_items, encodable_text, float_field,
    framed, head_bytes, int_field, int_items, int_list_field, list_header, map_header, numbers,
    string_entries, string_field, string_items, string_list_field, string_map_field,
};
use crate::error::{CodecError, TarsError};
use crate::util::text::texts;

verus! {

/// A growing sequence of encoded bytes. Every write appends; nothing written
/// is ever changed.
pub struct Buffer {
    buf: BytesMut,
}

impl View for Buffer {
    type V = Seq<u8>;

    /// The bytes written so far.
    closed spec fn view(&self) -> Seq<u8> {
        stored(self.buf)
    }
}

impl Buffer {
    /// A new empty buffer.
    pub fn new() -> (b: Buffer)
        ensures
            b@ == Seq::<u8>::empty(),
    {
        Buffer { buf: store_new() }
    }

    /// A new empty buffer with room for `capacity` bytes.
    pub fn with_capacity(capacity: usize) -> (b: Buffer)
        requires
            capacity <= isize::MAX,
        ensures
            b@ == Seq::<u8>::empty(),
    {
        Buffer { buf: store_with_capacity(capacity) }
    }

    /// Sets room aside for `additional` more bytes.
    pub fn reserve(&mut self, additional: usize)
        requires
            old(self)@.len() + additional <= isize::MAX,
        ensures
            final(self)@ == old(self)@,
    {
        store_reserve(&mut self.buf, additional);
    }

    /// The number of bytes written.
    pub fn len(&self) -> (n: usize)
        ensures
            n == self@.len(),
    {
        store_len(&self.buf)
    }

    /// Whether nothing was written.
    pub fn is_empty(&self) -> (r: bool)
        ensures
            r == (self@.len() == 0),
    {
        store_is_empty(&self.buf)
    }

    /// Forgets everything written.
    pub fn clear(&mut self)
        ensures
            final(self)@ == Seq::<u8>::empty(),
    {
        store_clear(&mut self.buf);
    }

    /// Takes back what was written behind the first `len` bytes; nothing
    /// changes where no more than `len` bytes were written.
    pub fn truncate(&mut self, len: usize)
        ensures
            final(self)@ == shortened(old(self)@, len),
    {
        store_truncate(&mut self.buf, len);
    }

    /// The bytes written.
    pub fn as_bytes(&self) -> (s: &[u8])
        ensures
            s@ == self@,
    {
        store_as_slice(&self.buf)
    }

    /// A copy of the bytes written.
    pub fn to_bytes(&self) -> (v: Vec<u8>)
        ensures
            v@ == self@,
    {
        store_to_vec(&self.buf)
    }

    /// Appends `data` as it is.
    pub fn write_raw(&mut self, data: &[u8]) -> (r: Result<(), TarsError>)
        ensures
            r is Ok,
            final(self)@ == old(self)@ + data@,
    {
        store_extend(&mut self.buf, data);
        Ok(())
    }

    /// Appends a head: the tag in the high nibble and the type in the low
    /// one, or the marker 15 and the tag in a second byte.
    pub fn write_head(&mut self, ty: TarsType, tag: u8) -> (r: Result<(), TarsError>)
        ensures
            r is Ok,
            final(self)@ == old(self)@ + head_bytes(ty, tag),
    {
        let code: u8 = ty.as_u8();
        if tag < 15 {
            assert((tag << 4) | code == tag * 16 + code) by (bit_vector)
                requires
                    tag < 15,
                    code <= 13,
            ;
            store_put_u8(&mut self.buf, (tag << 4) | code);
            assert(self@ =~= old(self)@ + head_bytes(ty, tag));
        } else {
            assert((15u8 << 4) | code == 240 + code) by (bit_vector)
                requires
                    code <= 13,
            ;
            store_put_u8(&mut self.buf, (15u8 << 4) | code);
            store_put_u8(&mut self.buf, tag);
            assert(self@ =~= old(self)@ + head_bytes(ty, tag));
        }
        Ok(())
    }

    /// Appends an int8 field; zero is a zero-tag head alone.
    pub fn write_int8(&mut self, data: i8, tag: u8) -> (r: Result<(), TarsError>)
        ensures
            r is Ok,
            final(self)@ == old(self)@ + int_field(data as int, tag),
    {
        if data == 0 {
            return self.write_head(TarsType::ZeroTag, tag);
        }
        let _ = self.write_head(TarsType::Byte, tag);
        store_put_i8(&mut self.buf, data);
        assert(self@ =~= old(self)@ + int_field(data as int, tag));
        Ok(())
    }

    /// Appends an int16 field, as an int8 field where the value fits.
    pub fn write_int16(&mut self, data: i16, tag: u8) -> (r: Result<(), TarsError>)
        ensures
            r is Ok,
            final(self)@ == old(self)@ + int_field(data as int, tag),
    {
        if data >= -128 && data <= 127 {
            return self.write_int8(data as i8, tag);
        }
        let _ = self.write_head(TarsType::Short, tag);
        store_put_i16(&mut self.buf, data);
        assert(self@ =~= old(self)@ + int_field(data as int, tag));
        Ok(())
    }

    /// Appends an int32 field, as an int16 field where the value fits.
    pub fn write_int32(&mut self, data: i32, tag: u8) -> (r: Result<(), TarsError>)
        ensures
            r is Ok,
            final(self)@ == old(self)@ + int_field(data as int, tag),
    {
        if data >= -32768 && data <= 32767 {
            return self.write_int16(data as i16, tag);
        }
        let _ = self.write_head(TarsType::Int, tag);
        store_put_i32(&mut self.buf, data);
        assert(self@ =~= old(self)@ + int_field(data as int, tag));
        Ok(())
    }

    /// Appends an int64 field, as an int32 field where the value fits.
    pub fn write_int64(&mut self, data: i64, tag: u8) -> (r: Result<(), TarsError>)
        ensures
            r is Ok,
            final(self)@ == old(self)@ + int_field(data as int, tag),
    {
        if data >= -2147483648 && data <= 2147483647 {
            return self.write_int32(data as i32, tag);
        }
        let _ = self.write_head(TarsType::Long, tag);
        store_put_i64(&mut self.buf, data);
        assert(self@ =~= old(self)@ + int_field(data as int, tag));
        Ok(())
    }

    /// Appends an unsigned 8-bit value, promoted to int16.
    pub fn write_uint8(&mut self, data: u8, tag: u8) -> (r: Result<(), TarsError>)
        ensures
            r is Ok,
            final(self)@ == old(self)@ + int_field(data as int, tag),
    {
        self.write_int16(data as i16, tag)
    }

    /// Appends an unsigned 16-bit value, promoted to int32.
    pub fn write_uint16(&mut self, data: u16, tag: u8) -> (r: Result<(), TarsError>)
        ensures
            r is Ok,
            final(self)@ == old(self)@ + int_field(data as int, tag),
    {
        self.write_int32(data as i32, tag)
    }

    /// Appends an unsigned 32-bit value, promoted to int64.
    pub fn write_uint32(&mut self, data: u32, tag: u8) -> (r: Result<(), TarsError>)
        ensures
            r is Ok,
            final(self)@ == old(self)@ + int_field(data as int, tag),
    {
        self.write_int64(data as i64, tag)
    }

    /// Appends a float field. `bits` is the value's IEEE-754 bit pattern;
    /// both zeros are a zero-tag head alone.
    pub fn write_float(&mut self, bits: u32, tag: u8) -> (r: Result<(), TarsError>)
        ensures
            r is Ok,
            final(self)@ == old(self)@ + float_field(bits, tag),
    {
        if bits == 0 || bits == 0x8000_0000u32 {
            return self.write_head(TarsType::ZeroTag, tag);
        }
        let _ = self.write_head(TarsType::Float, tag);
        store_put_u32(&mut self.buf, bits);
        assert(self@ =~= old(self)@ + float_field(bits, tag));
        Ok(())
    }

    /// Appends a double field. `bits` is the value's IEEE-754 bit pattern;
    /// both zeros are a zero-tag head alone.
    pub fn write_double(&mut self, bits: u64, tag: u8) -> (r: Result<(), TarsError>)
        ensures
            r is Ok,
            final(self)@ == old(self)@ + double_field(bits, tag),
    {
        if bits == 0 || bits == 0x8000_0000_0000_0000u64 {
            return self.write_head(TarsType::ZeroTag, tag);
        }
        let _ = self.write_head(TarsType::Double, tag);
        store_put_u64(&mut self.buf, bits);
        assert(self@ =~= old(self)@ + double_field(bits, tag));
        Ok(())
    }

    /// Appends a bool as the int8 1 or 0.
    pub fn write_bool(&mut self, data: bool, tag: u8) -> (r: Result<(), TarsError>)
        ensures
            r is Ok,
            final(self)@ == old(self)@ + int_field(if data { 1int } else { 0int }, tag),
    {
        self.write_int8(if data { 1 } else { 0 }, tag)
    }

    /// Appends a string field: a one-byte length below 256 bytes, a
    /// four-byte length otherwise. A string too long for four bytes is
    /// refused and nothing is written.
    pub fn write_string(&mut self, data: &str, tag: u8) -> (r: Result<(), TarsError>)
        ensures
            encodable_text(data@) ==> r is Ok && final(self)@ == old(self)@ + string_field(
                data@,
                tag,
            ),
            !encodable_text(data@) ==> r == Err::<(), TarsError>(
                TarsError::Codec(CodecError::LengthOverflow),
            ) && final(self)@ == old(self)@,
    {
        let bytes = data.as_bytes();
        if bytes.len() > 255 {
            if bytes.len() > u32::MAX as usize {
                return Err(TarsError::Codec(CodecError::LengthOverflow));
            }
            let _ = self.write_head(TarsType::String4, tag);
            store_put_u32(&mut self.buf, bytes.len() as u32);
        } else {
            let _ = self.write_head(TarsType::String1, tag);
            store_put_u8(&mut self.buf, bytes.len() as u8);
        }
        store_extend(&mut self.buf, bytes);
        assert(self@ =~= old(self)@ + string_field(data@, tag));
        Ok(())
    }

    /// Appends a byte array as a simple list. An array with more than
    /// `i32::MAX` bytes is refused and nothing is written.
    pub fn write_bytes(&mut self, data: &[u8], tag: u8) -> (r: Result<(), TarsError>)
        ensures
            data@.len() <= i32::MAX ==> r is Ok && final(self)@ == old(self)@ + bytes_field(
                data@,
                tag,
            ),
            data@.len() > i32::MAX ==> r == Err::<(), TarsError>(
                TarsError::Codec(CodecError::LengthOverflow),
            ) && final(self)@ == old(self)@,
    {
        if data.len() > i32::MAX as usize {
            return Err(TarsError::Codec(CodecError::LengthOverflow));
        }
        let _ = self.write_head(TarsType::SimpleList, tag);
        let _ = self.write_head(TarsType::Byte, 0);
        let _ = self.write_int32(data.len() as i32, 0);
        store_extend(&mut self.buf, data);
        assert(self@ =~= old(self)@ + bytes_field(data@, tag));
        Ok(())
    }

    /// Appends a byte array as a simple list of int8, as `write_bytes` does.
    pub fn write_bytes_as_int8_vec(&mut self, data: &[u8], tag: u8) -> (r: Result<(), TarsError>)
        ensures
            data@.len() <= i32::MAX ==> r is Ok && final(self)@ == old(self)@ + bytes_field(
                data@,
                tag,
            ),
            data@.len() > i32::MAX ==> r == Err::<(), TarsError>(
                TarsError::Codec(CodecError::LengthOverflow),
            ) && final(self)@ == old(self)@,
    {
        self.write_bytes(data, tag)
    }

    /// Appends the opening of a map of `size` entries. A size above
    /// `i32::MAX` is refused and nothing is written.
    pub fn write_map(&mut self, size: usize, tag: u8) -> (r: Result<(), TarsError>)
        ensures
            size <= i32::MAX ==> r is Ok && final(self)@ == old(self)@ + map_header(
                size as int,
                tag,
            ),
            size > i32::MAX ==> r == Err::<(), TarsError>(
                TarsError::Codec(CodecError::LengthOverflow),
            ) && final(self)@ == old(self)@,
    {
        if size > i32::MAX as usize {
            return Err(TarsError::Codec(CodecError::LengthOverflow));
        }
        let _ = self.write_head(TarsType::Mapping, tag);
        let r = self.write_int32(size as i32, 0);
        assert(self@ =~= old(self)@ + map_header(size as int, tag));
        r
    }

    /// Appends the opening of a list of `size` elements. A size above
    /// `i32::MAX` is refused and nothing is written.
    pub fn write_list(&mut self, size: usize, tag: u8) -> (r: Result<(), TarsError>)
        ensures
            size <= i32::MAX ==> r is Ok && final(self)@ == old(self)@ + list_header(
                size as int,
                tag,
            ),
            size > i32::MAX ==> r == Err::<(), TarsError>(
                TarsError::Codec(CodecError::LengthOverflow),
            ) && final(self)@ == old(self)@,
    {
        if size > i32::MAX as usize {
            return Err(TarsError::Codec(CodecError::LengthOverflow));
        }
        let _ = self.write_head(TarsType::List, tag);
        let r = self.write_int32(size as i32, 0);
        assert(self@ =~= old(self)@ + list_header(size as int, tag));
        r
    }

    /// Appends a struct-begin head.
    pub fn write_struct_begin(&mut self, tag: u8) -> (r: Result<(), TarsError>)
        ensures
            r is Ok,
            final(self)@ == old(self)@ + head_bytes(TarsType::StructBegin, tag),
    {
        self.write_head(TarsType::StructBegin, tag)
    }

    /// Appends a struct-end head at tag 0.
    pub fn write_struct_end(&mut self) -> (r: Result<(), TarsError>)
        ensures
            r is Ok,
            final(self)@ == old(self)@ + head_bytes(TarsType::StructEnd, 0),
    {
        self.write_head(TarsType::StructEnd, 0)
    }

    /// Appends a string-to-string map: the size, then each entry in the
    /// map's order, key at tag 0 and value at tag 1. A map that does not fit
    /// is refused; what was written before the entry that does not fit stays.
    pub fn write_string_map(&mut self, data: &StringMap, tag: u8) -> (r: Result<(), TarsError>)
        ensures
            encodable_entries(data@) ==> r is Ok && final(self)@ == old(self)@ + string_map_field(
                data@,
                tag,
            ),
            !encodable_entries(data@) ==> r == Err::<(), TarsError>(
                TarsError::Codec(CodecError::LengthOverflow),
            ),
            old(self)@.is_prefix_of(final(self)@),
    {
        let n: usize = data.len();
        match self.write_map(n, tag) {
            Ok(()) => {},
            Err(e) => {
                return Err(e);
            },
        }
        let mut i: usize = 0;
        while i < n
            invariant
                n == data@.len(),
                n <= i32::MAX,
                0 <= i <= n,
                self@ == old(self)@ + map_header(n as int, tag) + string_entries(
                    data@.take(i as int),
                ),
                forall|j: int|
                    0 <= j < i ==> encodable_text((#[trigger] data@[j]).0) && encodable_text(
                        data@[j].1,
                    ),
            decreases n - i,
        {
            let ghost before = self@;
            proof {
                assert(data@.take(i as int + 1).drop_last() =~= data@.take(i as int));
                assert(data@.take(i as int + 1).last() == data@[i as int]);
            }
            match self.write_string(data.key_at(i), 0) {
                Ok(()) => {},
                Err(e) => {
                    return Err(e);
                },
            }
            match self.write_string(data.value_at(i), 1) {
                Ok(()) => {},
                Err(e) => {
                    return Err(e);
                },
            }
            assert(self@ =~= old(self)@ + map_header(n as int, tag) + string_entries(
                data@.take(i as int + 1),
            ));
            i = i + 1;
        }
        assert(data@.take(n as int) =~= data@);
        assert(self@ =~= old(self)@ + string_map_field(data@, tag));
        Ok(())
    }

    /// Appends a list of strings: the size, then each string at tag 0. A
    /// list that does not fit is refused; what was written before the string
    /// that does not fit stays.
    pub fn write_string_list(&mut self, items: &[String], tag: u8) -> (r: Result<(), TarsError>)
        ensures
            encodable_items(texts(items@)) ==> r is Ok && final(self)@ == old(self)@
                + string_list_field(texts(items@), tag),
            !encodable_items(texts(items@)) ==> r == Err::<(), TarsError>(
                TarsError::Codec(CodecError::LengthOverflow),
            ),
            old(self)@.is_prefix_of(final(self)@),
    {
        let n: usize = items.len();
        match self.write_list(n, tag) {
            Ok(()) => {},
            Err(e) => {
                return Err(e);
            },
        }
        let ghost all = texts(items@);
        let mut i: usize = 0;
        while i < n
            invariant
                n == items@.len(),
                all == texts(items@),
                n <= i32::MAX,
                0 <= i <= n,
                self@ == old(self)@ + list_header(n as int, tag) + string_items(
                    all.take(i as int),
                ),
                forall|j: int| 0 <= j < i ==> encodable_text(#[trigger] all[j]),
            decreases n - i,
        {
            proof {
                assert(all.take(i as int + 1).drop_last() =~= all.take(i as int));
                assert(all.take(i as int + 1).last() == all[i as int]);
            }
            match self.write_string(items[i].as_str(), 0) {
                Ok(()) => {},
                Err(e) => {
                    return Err(e);
                },
            }
            assert(self@ =~= old(self)@ + list_header(n as int, tag) + string_items(
                all.take(i as int + 1),
            ));
            i = i + 1;
        }
        assert(all.take(n as int) =~= all);
        assert(self@ =~= old(self)@ + string_list_field(all, tag));
        Ok(())
    }

    /// Appends a list of integers: the size, then each integer at tag 0 in
    /// its smallest form. A list of more than `i32::MAX` integers is refused
    /// and nothing is written.
    pub fn write_int_list(&mut self, items: &[i64], tag: u8) -> (r: Result<(), TarsError>)
        ensures
            items@.len() <= i32::MAX ==> r is Ok && final(self)@ == old(self)@ + int_list_field(
                numbers(items@),
                tag,
            ),
            items@.len() > i32::MAX ==> r == Err::<(), TarsError>(
                TarsError::Codec(CodecError::LengthOverflow),
            ) && final(self)@ == old(self)@,
    {
        let n: usize = items.len();
        match self.write_list(n, tag) {
            Ok(()) => {},
            Err(e) => {
                return Err(e);
            },
        }
        let ghost all = numbers(items@);
        let mut i: usize = 0;
        while i < n
            invariant
                n == items@.len(),
                all == numbers(items@),
                0 <= i <= n,
                self@ == old(self)@ + list_header(n as int, tag) + int_items(all.take(i as int)),
            decreases n - i,
        {
            proof {
                assert(all.take(i as int + 1).drop_last() =~= all.take(i as int));
                assert(all.take(i as int + 1).last() == all[i as int]);
            }
            let _ = self.write_int64(items[i], 0);
            assert(self@ =~= old(self)@ + list_header(n as int, tag) + int_items(
                all.take(i as int + 1),
            ));
            i = i + 1;
        }
        assert(all.take(n as int) =~= all);
        assert(self@ =~= old(self)@ + int_list_field(all, tag));
        Ok(())
    }

    /// The bytes written, behind a four-byte big-endian length that counts
    /// itself.
    pub fn to_bytes_with_length(&self) -> (v: Vec<u8>)
        requires
            self@.len() + 4 <= u32::MAX,
        ensures
            v@ == framed(self@),
    {
        let data = store_to_vec(&self.buf);
        let total_len: usize = data.len() + 4;
        let total: u32 = total_len as u32;
        let mut result: Vec<u8> = Vec::with_capacity(total_len);
        result.push((total / 16777216) as u8);
        result.push(((total / 65536) % 256) as u8);
        result.push(((total / 256) % 256) as u8);
        result.push((total % 256) as u8);
        let mut data = data;
        result.append(&mut data);
        assert(result@ =~= framed(self@));
        result
    }
}

} // verus!
