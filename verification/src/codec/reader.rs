//! Reader for encoded data.

use vstd::prelude::*;
use vstd::slice::slice_subrange;

use vstd::slice::slice_to_vec;

use super::decode::{
    byte_elements, field_end, fields_end, int_payload, lemma_string_pairs_error, seek, spec_enter,
    spec_read_begin, spec_read_bool, spec_read_bytes, spec_read_count, spec_read_double,
    spec_read_float, spec_read_head, spec_read_int, spec_read_string, spec_read_string_map,
    string_pair, string_pairs, struct_end, take, text_at, FloatBits, Seek,
};
use super::raw::{
    read_i16_be, read_i32_be, read_i64_be, read_u32_be, read_u64_be, string_from_utf8,
};
use super::string_map::{Entries, StringMap};
use super::types::{Head, TarsType};
use super::wire::from_be32;
use crate::error::{CodecError, TarsError};

verus! {

/// A cursor over encoded bytes. The cursor never leaves the input.
pub struct Reader<'a> {
    data: &'a [u8],
    pos: usize,
}

impl<'a> Reader<'a> {
    #[verifier::type_invariant]
    spec fn in_bounds(self) -> bool {
        self.pos <= self.data@.len()
    }

    /// The bytes being read.
    pub closed spec fn input(self) -> Seq<u8> {
        self.data@
    }

    /// The cursor: the index of the next byte to read.
    pub closed spec fn offset(self) -> int {
        self.pos as int
    }

    /// A reader at the start of `data`.
    pub fn new(data: &'a [u8]) -> (r: Self)
        ensures
            r.input() == data@,
            r.offset() == 0,
    {
        Reader { data, pos: 0 }
    }

    /// The cursor position.
    pub fn position(&self) -> (p: usize)
        ensures
            p == self.offset(),
            p <= self.input().len(),
    {
        proof {
            use_type_invariant(self);
        }
        self.pos
    }

    /// The number of bytes behind the cursor.
    pub fn remaining(&self) -> (n: usize)
        ensures
            n == self.input().len() - self.offset(),
    {
        proof {
            use_type_invariant(self);
        }
        self.data.len() - self.pos
    }

    /// Whether any byte is left.
    pub fn has_more(&self) -> (r: bool)
        ensures
            r == (self.offset() < self.input().len()),
    {
        self.remaining() > 0
    }

    /// Decodes the head at `pos`: the low nibble is the type, the high one
    /// the tag, and a high nibble of 15 sends the tag to the next byte.
    fn read_head_at(data: &[u8], pos: usize) -> (r: Result<(Head, usize), TarsError>)
        requires
            pos <= data@.len(),
        ensures
            match spec_read_head(data@, pos as int) {
                Ok((h, next)) => r == Ok::<(Head, usize), TarsError>((h, next as usize)) && pos
                    < next <= data@.len() && next <= usize::MAX,
                Err(e) => r == Err::<(Head, usize), TarsError>(TarsError::Codec(e)),
            },
    {
        if pos >= data.len() {
            return Err(TarsError::Codec(CodecError::UnexpectedEof));
        }
        let byte: u8 = data[pos];
        let code: u8 = byte & 0x0F;
        let nibble: u8 = (byte >> 4) & 0x0F;
        assert(byte & 0x0F == byte % 16) by (bit_vector);
        assert((byte >> 4) & 0x0F == byte / 16) by (bit_vector);
        let ty = match TarsType::from_u8(code) {
            Some(ty) => ty,
            None => {
                return Err(TarsError::Codec(CodecError::UnknownType(code)));
            },
        };
        if nibble == 0x0F {
            if pos + 1 >= data.len() {
                return Err(TarsError::Codec(CodecError::UnexpectedEof));
            }
            let tag: u8 = data[pos + 1];
            Ok((Head::new(ty, tag), pos + 2))
        } else {
            Ok((Head::new(ty, nibble), pos + 1))
        }
    }

    /// The next head, without consuming it.
    pub fn peek_head(&self) -> (r: Result<Head, TarsError>)
        ensures
            match spec_read_head(self.input(), self.offset()) {
                Ok((h, _)) => r == Ok::<Head, TarsError>(h),
                Err(e) => r == Err::<Head, TarsError>(TarsError::Codec(e)),
            },
    {
        proof {
            use_type_invariant(self);
        }
        match Self::read_head_at(self.data, self.pos) {
            Ok((h, _)) => Ok(h),
            Err(e) => Err(e),
        }
    }

    /// Reads a head and moves behind it. On an error the cursor stays.
    pub fn read_head(&mut self) -> (r: Result<Head, TarsError>)
        ensures
            final(self).input() == old(self).input(),
            match spec_read_head(old(self).input(), old(self).offset()) {
                Ok((h, next)) => r == Ok::<Head, TarsError>(h) && final(self).offset() == next,
                Err(e) => r == Err::<Head, TarsError>(TarsError::Codec(e)) && final(self).offset()
                    == old(self).offset(),
            },
    {
        proof {
            use_type_invariant(&*self);
        }
        match Self::read_head_at(self.data, self.pos) {
            Ok((h, next)) => {
                self.pos = next;
                Ok(h)
            },
            Err(e) => Err(e),
        }
    }

    /// Moves `n` bytes on, if the input reaches that far.
    fn advance(&mut self, n: usize) -> (r: Result<(), TarsError>)
        ensures
            final(self).input() == old(self).input(),
            match take(old(self).input(), old(self).offset(), n as int) {
                Ok(end) => r is Ok && final(self).offset() == end,
                Err(e) => r == Err::<(), TarsError>(TarsError::Codec(e)) && final(self).offset()
                    == old(self).offset(),
            },
    {
        proof {
            use_type_invariant(&*self);
        }
        if n > self.data.len() - self.pos {
            return Err(TarsError::Codec(CodecError::UnexpectedEof));
        }
        self.pos = self.pos + n;
        Ok(())
    }

    /// Reads the payload of an integer field of type `ty` into a target of
    /// `width` bytes.
    fn read_int_payload(&mut self, ty: TarsType, width: u8) -> (r: Result<i64, TarsError>)
        requires
            width == 1 || width == 2 || width == 4 || width == 8,
        ensures
            final(self).input() == old(self).input(),
            match int_payload(old(self).input(), old(self).offset(), ty, width as int) {
                Ok((v, end)) => r == Ok::<i64, TarsError>(v as i64) && final(self).offset() == end
                    && fits(v, width as int),
                Err(e) => r == Err::<i64, TarsError>(TarsError::Codec(e)),
            },
    {
        proof {
            use_type_invariant(&*self);
        }
        let left: usize = self.data.len() - self.pos;
        match ty {
            TarsType::ZeroTag => Ok(0),
            TarsType::Byte => {
                if left < 1 {
                    return Err(TarsError::Codec(CodecError::UnexpectedEof));
                }
                let b: u8 = self.data[self.pos];
                self.pos = self.pos + 1;
                if b >= 128 {
                    Ok(b as i64 - 256)
                } else {
                    Ok(b as i64)
                }
            },
            TarsType::Short => {
                if width < 2 {
                    return Err(TarsError::Codec(CodecError::TypeMismatch(ty)));
                }
                if left < 2 {
                    return Err(TarsError::Codec(CodecError::UnexpectedEof));
                }
                let v: i16 = read_i16_be(slice_subrange(self.data, self.pos, self.pos + 2));
                self.pos = self.pos + 2;
                Ok(v as i64)
            },
            TarsType::Int => {
                if width < 4 {
                    return Err(TarsError::Codec(CodecError::TypeMismatch(ty)));
                }
                if left < 4 {
                    return Err(TarsError::Codec(CodecError::UnexpectedEof));
                }
                let v: i32 = read_i32_be(slice_subrange(self.data, self.pos, self.pos + 4));
                self.pos = self.pos + 4;
                Ok(v as i64)
            },
            TarsType::Long => {
                if width < 8 {
                    return Err(TarsError::Codec(CodecError::TypeMismatch(ty)));
                }
                if left < 8 {
                    return Err(TarsError::Codec(CodecError::UnexpectedEof));
                }
                let v: i64 = read_i64_be(slice_subrange(self.data, self.pos, self.pos + 8));
                self.pos = self.pos + 8;
                Ok(v)
            },
            _ => Err(TarsError::Codec(CodecError::TypeMismatch(ty))),
        }
    }

    /// Reads an element count: a required int32 field at tag 0, which must
    /// be the very next field.
    fn read_count(&mut self) -> (r: Result<i32, TarsError>)
        ensures
            final(self).input() == old(self).input(),
            match spec_read_count(old(self).input(), old(self).offset()) {
                Ok((v, end)) => r == Ok::<i32, TarsError>(v as i32) && final(self).offset() == end
                    && fits(v, 4) && old(self).offset() < end <= old(self).input().len(),
                Err(e) => r == Err::<i32, TarsError>(TarsError::Codec(e)),
            },
    {
        proof {
            use_type_invariant(&*self);
        }
        if !self.has_more() {
            return Err(TarsError::Codec(CodecError::RequiredTagNotFound(0)));
        }
        let head = match self.peek_head() {
            Ok(h) => h,
            Err(e) => {
                return Err(e);
            },
        };
        if head.is_struct_end() || head.tag > 0 {
            return Err(TarsError::Codec(CodecError::RequiredTagNotFound(0)));
        }
        let _ = self.read_head();
        match self.read_int_payload(head.ty, 4) {
            Ok(v) => {
                proof {
                    use_type_invariant(&*self);
                }
                Ok(v as i32)
            },
            Err(e) => Err(e),
        }
    }

    /// Skips `count` fields, each with its head. A count below one skips
    /// nothing.
    fn skip_fields(&mut self, count: i64) -> (r: Result<(), TarsError>)
        ensures
            final(self).input() == old(self).input(),
            match fields_end(old(self).input(), old(self).offset(), count as int) {
                Ok(end) => r is Ok && final(self).offset() == end && old(self).offset() <= end,
                Err(e) => r == Err::<(), TarsError>(TarsError::Codec(e)),
            },
        decreases old(self).input().len() - old(self).offset(), 1int, count as int,
    {
        proof {
            use_type_invariant(&*self);
        }
        let mut i: i64 = 0;
        while i < count
            invariant
                self.input() == old(self).input(),
                old(self).offset() <= self.offset() <= self.input().len(),
                0 <= i,
                fields_end(self.input(), self.offset(), count - i) == fields_end(
                    old(self).input(),
                    old(self).offset(),
                    count as int,
                ),
            decreases count - i,
        {
            let head = match self.read_head() {
                Ok(h) => h,
                Err(e) => {
                    return Err(e);
                },
            };
            match self.skip_field(&head) {
                Ok(()) => {},
                Err(e) => {
                    return Err(e);
                },
            }
            proof {
                use_type_invariant(&*self);
            }
            i = i + 1;
        }
        Ok(())
    }

    /// Skips the payload of a field whose head was just read, by its type.
    fn skip_field(&mut self, head: &Head) -> (r: Result<(), TarsError>)
        ensures
            final(self).input() == old(self).input(),
            match field_end(old(self).input(), old(self).offset(), head.ty) {
                Ok(end) => r is Ok && final(self).offset() == end && old(self).offset() <= end,
                Err(e) => r == Err::<(), TarsError>(TarsError::Codec(e)),
            },
        decreases old(self).input().len() - old(self).offset(), 2int, 0int,
    {
        proof {
            use_type_invariant(&*self);
        }
        match head.ty {
            TarsType::Byte => self.advance(1),
            TarsType::Short => self.advance(2),
            TarsType::Int => self.advance(4),
            TarsType::Long => self.advance(8),
            TarsType::Float => self.advance(4),
            TarsType::Double => self.advance(8),
            TarsType::String1 => {
                if self.data.len() - self.pos < 1 {
                    return Err(TarsError::Codec(CodecError::UnexpectedEof));
                }
                let len: usize = self.data[self.pos] as usize;
                self.pos = self.pos + 1;
                self.advance(len)
            },
            TarsType::String4 => {
                if self.data.len() - self.pos < 4 {
                    return Err(TarsError::Codec(CodecError::UnexpectedEof));
                }
                let len: u32 = read_u32_be(slice_subrange(self.data, self.pos, self.pos + 4));
                self.pos = self.pos + 4;
                self.advance(len as usize)
            },
            TarsType::Mapping => {
                let size: i32 = match self.read_count() {
                    Ok(n) => n,
                    Err(e) => {
                        return Err(e);
                    },
                };
                self.skip_fields(2 * (size as i64))
            },
            TarsType::List => {
                let size: i32 = match self.read_count() {
                    Ok(n) => n,
                    Err(e) => {
                        return Err(e);
                    },
                };
                self.skip_fields(size as i64)
            },
            TarsType::StructBegin => self.skip_to_struct_end_inner(),
            TarsType::StructEnd => Ok(()),
            TarsType::ZeroTag => Ok(()),
            TarsType::SimpleList => {
                match self.read_head() {
                    Ok(_) => {},
                    Err(e) => {
                        return Err(e);
                    },
                }
                let len: i32 = match self.read_count() {
                    Ok(n) => n,
                    Err(e) => {
                        return Err(e);
                    },
                };
                if len < 0 {
                    return Err(TarsError::Codec(CodecError::NegativeLength));
                }
                self.advance(len as usize)
            },
        }
    }

    /// The work of `skip_to_struct_end`, without the return to the start on an error.
    fn skip_to_struct_end_inner(&mut self) -> (r: Result<(), TarsError>)
        ensures
            final(self).input() == old(self).input(),
            match struct_end(old(self).input(), old(self).offset()) {
                Ok(end) => r is Ok && final(self).offset() == end && old(self).offset() <= end,
                Err(e) => r == Err::<(), TarsError>(TarsError::Codec(e)),
            },
        decreases old(self).input().len() - old(self).offset(), 1int, 0int,
    {
        proof {
            use_type_invariant(&*self);
        }
        while self.has_more()
            invariant
                self.input() == old(self).input(),
                old(self).offset() <= self.offset() <= self.input().len(),
                struct_end(self.input(), self.offset()) == struct_end(
                    old(self).input(),
                    old(self).offset(),
                ),
            decreases self.input().len() - self.offset(),
        {
            let head = match self.read_head() {
                Ok(h) => h,
                Err(e) => {
                    return Err(e);
                },
            };
            if head.is_struct_end() {
                return Ok(());
            }
            match self.skip_field(&head) {
                Ok(()) => {},
                Err(e) => {
                    return Err(e);
                },
            }
            proof {
                use_type_invariant(&*self);
            }
        }
        Err(TarsError::Codec(CodecError::UnexpectedEof))
    }

    /// Searches for `target_tag`: skips fields with a smaller tag, stops in
    /// front of a greater tag or a struct-end, and consumes the head of the
    /// field when it finds it.
    fn skip_to_tag(&mut self, target_tag: u8) -> (r: Result<Option<Head>, TarsError>)
        ensures
            final(self).input() == old(self).input(),
            match seek(old(self).input(), old(self).offset(), target_tag) {
                Ok(Seek::Found { head, at }) => r == Ok::<Option<Head>, TarsError>(Some(head))
                    && final(self).offset() == at,
                Ok(Seek::Absent { at }) => r == Ok::<Option<Head>, TarsError>(None)
                    && final(self).offset() == at,
                Err(e) => r == Err::<Option<Head>, TarsError>(TarsError::Codec(e)),
            },
    {
        proof {
            use_type_invariant(&*self);
        }
        while self.has_more()
            invariant
                self.input() == old(self).input(),
                self.offset() <= self.input().len(),
                seek(self.input(), self.offset(), target_tag) == seek(
                    old(self).input(),
                    old(self).offset(),
                    target_tag,
                ),
            decreases self.input().len() - self.offset(),
        {
            let head = match self.peek_head() {
                Ok(h) => h,
                Err(e) => {
                    return Err(e);
                },
            };
            if head.is_struct_end() || head.tag > target_tag {
                return Ok(None);
            }
            let _ = self.read_head();
            if head.tag == target_tag {
                return Ok(Some(head));
            }
            match self.skip_field(&head) {
                Ok(()) => {},
                Err(e) => {
                    return Err(e);
                },
            }
            proof {
                use_type_invariant(&*self);
            }
        }
        Ok(None)
    }

    /// The work of `read_int8`, without the return to the start on an error.
    fn read_int8_inner(&mut self, tag: u8, require: bool) -> (r: Result<i8, TarsError>)
        ensures
            final(self).input() == old(self).input(),
            match spec_read_int(old(self).input(), old(self).offset(), tag, require, 1) {
                Ok((v, end)) => r == Ok::<i8, TarsError>(v as i8) && final(self).offset() == end
                    && fits(v, 1),
                Err(e) => r == Err::<i8, TarsError>(TarsError::Codec(e)),
            },
    {
        match self.skip_to_tag(tag) {
            Err(e) => Err(e),
            Ok(None) => {
                if require {
                    Err(TarsError::Codec(CodecError::RequiredTagNotFound(tag)))
                } else {
                    Ok(0)
                }
            },
            Ok(Some(head)) => match self.read_int_payload(head.ty, 1) {
                Ok(v) => Ok(v as i8),
                Err(e) => Err(e),
            },
        }
    }

    /// The work of `read_int16`, without the return to the start on an error.
    fn read_int16_inner(&mut self, tag: u8, require: bool) -> (r: Result<i16, TarsError>)
        ensures
            final(self).input() == old(self).input(),
            match spec_read_int(old(self).input(), old(self).offset(), tag, require, 2) {
                Ok((v, end)) => r == Ok::<i16, TarsError>(v as i16) && final(self).offset() == end
                    && fits(v, 2),
                Err(e) => r == Err::<i16, TarsError>(TarsError::Codec(e)),
            },
    {
        match self.skip_to_tag(tag) {
            Err(e) => Err(e),
            Ok(None) => {
                if require {
                    Err(TarsError::Codec(CodecError::RequiredTagNotFound(tag)))
                } else {
                    Ok(0)
                }
            },
            Ok(Some(head)) => match self.read_int_payload(head.ty, 2) {
                Ok(v) => Ok(v as i16),
                Err(e) => Err(e),
            },
        }
    }

    /// The work of `read_int32`, without the return to the start on an error.
    fn read_int32_inner(&mut self, tag: u8, require: bool) -> (r: Result<i32, TarsError>)
        ensures
            final(self).input() == old(self).input(),
            match spec_read_int(old(self).input(), old(self).offset(), tag, require, 4) {
                Ok((v, end)) => r == Ok::<i32, TarsError>(v as i32) && final(self).offset() == end
                    && fits(v, 4),
                Err(e) => r == Err::<i32, TarsError>(TarsError::Codec(e)),
            },
    {
        match self.skip_to_tag(tag) {
            Err(e) => Err(e),
            Ok(None) => {
                if require {
                    Err(TarsError::Codec(CodecError::RequiredTagNotFound(tag)))
                } else {
                    Ok(0)
                }
            },
            Ok(Some(head)) => match self.read_int_payload(head.ty, 4) {
                Ok(v) => Ok(v as i32),
                Err(e) => Err(e),
            },
        }
    }

    /// The work of `read_int64`, without the return to the start on an error.
    fn read_int64_inner(&mut self, tag: u8, require: bool) -> (r: Result<i64, TarsError>)
        ensures
            final(self).input() == old(self).input(),
            match spec_read_int(old(self).input(), old(self).offset(), tag, require, 8) {
                Ok((v, end)) => r == Ok::<i64, TarsError>(v as i64) && final(self).offset() == end
                    && fits(v, 8),
                Err(e) => r == Err::<i64, TarsError>(TarsError::Codec(e)),
            },
    {
        match self.skip_to_tag(tag) {
            Err(e) => Err(e),
            Ok(None) => {
                if require {
                    Err(TarsError::Codec(CodecError::RequiredTagNotFound(tag)))
                } else {
                    Ok(0)
                }
            },
            Ok(Some(head)) => self.read_int_payload(head.ty, 8),
        }
    }

    /// Reads a bool field: an int8 field that is not zero.
    pub fn read_bool(&mut self, tag: u8, require: bool) -> (r: Result<bool, TarsError>)
        ensures
            final(self).input() == old(self).input(),
            match spec_read_bool(old(self).input(), old(self).offset(), tag, require) {
                Ok((v, end)) => r == Ok::<bool, TarsError>(v) && final(self).offset() == end,
                Err(e) => r == Err::<bool, TarsError>(TarsError::Codec(e))
                    && final(self).offset() == old(self).offset(),
            },
    {
        match self.read_int8(tag, require) {
            Ok(v) => Ok(v != 0),
            Err(e) => Err(e),
        }
    }

    /// The work of `read_float`, without the return to the start on an error.
    fn read_float_inner(&mut self, tag: u8, require: bool) -> (r: Result<u32, TarsError>)
        ensures
            final(self).input() == old(self).input(),
            match spec_read_float(old(self).input(), old(self).offset(), tag, require) {
                Ok((bits, end)) => r == Ok::<u32, TarsError>(bits as u32) && final(self).offset()
                    == end && 0 <= bits <= u32::MAX,
                Err(e) => r == Err::<u32, TarsError>(TarsError::Codec(e)),
            },
    {
        match self.skip_to_tag(tag) {
            Err(e) => Err(e),
            Ok(None) => {
                if require {
                    Err(TarsError::Codec(CodecError::RequiredTagNotFound(tag)))
                } else {
                    Ok(0)
                }
            },
            Ok(Some(head)) => match head.ty {
                TarsType::ZeroTag => Ok(0),
                TarsType::Float => self.read_raw_u32(),
                _ => Err(TarsError::Codec(CodecError::TypeMismatch(head.ty))),
            },
        }
    }

    /// The work of `read_double`, without the return to the start on an error.
    fn read_double_inner(&mut self, tag: u8, require: bool) -> (r: Result<FloatBits, TarsError>)
        ensures
            final(self).input() == old(self).input(),
            match spec_read_double(old(self).input(), old(self).offset(), tag, require) {
                Ok((bits, end)) => r == Ok::<FloatBits, TarsError>(bits) && final(self).offset()
                    == end,
                Err(e) => r == Err::<FloatBits, TarsError>(TarsError::Codec(e)),
            },
    {
        match self.skip_to_tag(tag) {
            Err(e) => Err(e),
            Ok(None) => {
                if require {
                    Err(TarsError::Codec(CodecError::RequiredTagNotFound(tag)))
                } else {
                    Ok(FloatBits::Double(0))
                }
            },
            Ok(Some(head)) => match head.ty {
                TarsType::ZeroTag => Ok(FloatBits::Double(0)),
                TarsType::Float => match self.read_raw_u32() {
                    Ok(bits) => Ok(FloatBits::Single(bits)),
                    Err(e) => Err(e),
                },
                TarsType::Double => {
                    proof {
                        use_type_invariant(&*self);
                    }
                    if self.data.len() - self.pos < 8 {
                        return Err(TarsError::Codec(CodecError::UnexpectedEof));
                    }
                    let bits: u64 = read_u64_be(
                        slice_subrange(self.data, self.pos, self.pos + 8),
                    );
                    self.pos = self.pos + 8;
                    Ok(FloatBits::Double(bits))
                },
                _ => Err(TarsError::Codec(CodecError::TypeMismatch(head.ty))),
            },
        }
    }

    /// Reads four bytes as a big-endian unsigned number.
    fn read_raw_u32(&mut self) -> (r: Result<u32, TarsError>)
        ensures
            final(self).input() == old(self).input(),
            match take(old(self).input(), old(self).offset(), 4) {
                Ok(end) => r == Ok::<u32, TarsError>(
                    from_be32(
                        old(self).input()[old(self).offset()],
                        old(self).input()[old(self).offset() + 1],
                        old(self).input()[old(self).offset() + 2],
                        old(self).input()[old(self).offset() + 3],
                    ) as u32,
                ) && final(self).offset() == end && from_be32(
                    old(self).input()[old(self).offset()],
                    old(self).input()[old(self).offset() + 1],
                    old(self).input()[old(self).offset() + 2],
                    old(self).input()[old(self).offset() + 3],
                ) <= u32::MAX,
                Err(e) => r == Err::<u32, TarsError>(TarsError::Codec(e)) && final(self).offset()
                    == old(self).offset(),
            },
    {
        proof {
            use_type_invariant(&*self);
        }
        if self.data.len() - self.pos < 4 {
            return Err(TarsError::Codec(CodecError::UnexpectedEof));
        }
        let v: u32 = read_u32_be(slice_subrange(self.data, self.pos, self.pos + 4));
        self.pos = self.pos + 4;
        Ok(v)
    }

    /// Reads `len` bytes as UTF-8 text.
    fn read_text(&mut self, len: usize) -> (r: Result<String, TarsError>)
        ensures
            final(self).input() == old(self).input(),
            match text_at(old(self).input(), old(self).offset(), len as int) {
                Ok((s, end)) => r is Ok && r->Ok_0@ == s && final(self).offset() == end,
                Err(e) => r == Err::<String, TarsError>(TarsError::Codec(e)),
            },
    {
        proof {
            use_type_invariant(&*self);
        }
        if len > self.data.len() - self.pos {
            return Err(TarsError::Codec(CodecError::UnexpectedEof));
        }
        let bytes: Vec<u8> = slice_to_vec(slice_subrange(self.data, self.pos, self.pos + len));
        match string_from_utf8(bytes) {
            Some(s) => {
                self.pos = self.pos + len;
                Ok(s)
            },
            None => Err(TarsError::Codec(CodecError::InvalidUtf8)),
        }
    }

    /// The work of `read_string`, without the return to the start on an error.
    fn read_string_inner(&mut self, tag: u8, require: bool) -> (r: Result<String, TarsError>)
        ensures
            final(self).input() == old(self).input(),
            match spec_read_string(old(self).input(), old(self).offset(), tag, require) {
                Ok((s, end)) => r is Ok && r->Ok_0@ == s && final(self).offset() == end,
                Err(e) => r == Err::<String, TarsError>(TarsError::Codec(e)),
            },
    {
        match self.skip_to_tag(tag) {
            Err(e) => Err(e),
            Ok(None) => {
                if require {
                    Err(TarsError::Codec(CodecError::RequiredTagNotFound(tag)))
                } else {
                    Ok(String::new())
                }
            },
            Ok(Some(head)) => {
                proof {
                    use_type_invariant(&*self);
                }
                let len: usize = match head.ty {
                    TarsType::String1 => {
                        if self.data.len() - self.pos < 1 {
                            return Err(TarsError::Codec(CodecError::UnexpectedEof));
                        }
                        let l: u8 = self.data[self.pos];
                        self.pos = self.pos + 1;
                        l as usize
                    },
                    TarsType::String4 => match self.read_raw_u32() {
                        Ok(l) => l as usize,
                        Err(e) => {
                            return Err(e);
                        },
                    },
                    _ => {
                        return Err(TarsError::Codec(CodecError::TypeMismatch(head.ty)));
                    },
                };
                self.read_text(len)
            },
        }
    }

    /// The work of `read_bytes`, without the return to the start on an error.
    fn read_bytes_inner(&mut self, tag: u8, require: bool) -> (r: Result<Vec<u8>, TarsError>)
        ensures
            final(self).input() == old(self).input(),
            match spec_read_bytes(old(self).input(), old(self).offset(), tag, require) {
                Ok((b, end)) => r is Ok && r->Ok_0@ == b && final(self).offset() == end,
                Err(e) => r == Err::<Vec<u8>, TarsError>(TarsError::Codec(e)),
            },
    {
        match self.skip_to_tag(tag) {
            Err(e) => Err(e),
            Ok(None) => {
                if require {
                    Err(TarsError::Codec(CodecError::RequiredTagNotFound(tag)))
                } else {
                    Ok(Vec::new())
                }
            },
            Ok(Some(head)) => {
                match head.ty {
                    TarsType::SimpleList => {
                        match self.read_head() {
                            Ok(_) => {},
                            Err(e) => {
                                return Err(e);
                            },
                        }
                        let len: i32 = match self.read_count() {
                            Ok(n) => n,
                            Err(e) => {
                                return Err(e);
                            },
                        };
                        if len < 0 {
                            return Err(TarsError::Codec(CodecError::NegativeLength));
                        }
                        proof {
                            use_type_invariant(&*self);
                        }
                        let len: usize = len as usize;
                        if len > self.data.len() - self.pos {
                            return Err(TarsError::Codec(CodecError::UnexpectedEof));
                        }
                        let buf: Vec<u8> = slice_to_vec(
                            slice_subrange(self.data, self.pos, self.pos + len),
                        );
                        self.pos = self.pos + len;
                        Ok(buf)
                    },
                    TarsType::List => {
                        let len: i32 = match self.read_count() {
                            Ok(n) => n,
                            Err(e) => {
                                return Err(e);
                            },
                        };
                        if len < 0 {
                            return Err(TarsError::Codec(CodecError::NegativeLength));
                        }
                        self.read_byte_elements(len)
                    },
                    _ => Err(TarsError::Codec(CodecError::TypeMismatch(head.ty))),
                }
            },
        }
    }

    /// Reads `len` list elements, each a zero-tag or an int8, as bytes.
    fn read_byte_elements(&mut self, len: i32) -> (r: Result<Vec<u8>, TarsError>)
        requires
            len >= 0,
        ensures
            final(self).input() == old(self).input(),
            match byte_elements(old(self).input(), old(self).offset(), len as int) {
                Ok((b, end)) => r is Ok && r->Ok_0@ == b && final(self).offset() == end,
                Err(e) => r == Err::<Vec<u8>, TarsError>(TarsError::Codec(e)),
            },
    {
        let mut buf: Vec<u8> = Vec::new();
        let mut i: i32 = 0;
        while i < len
            invariant
                self.input() == old(self).input(),
                0 <= i <= len,
                byte_elements(old(self).input(), old(self).offset(), i as int) == Ok::<
                    (Seq<u8>, int),
                    CodecError,
                >((buf@, self.offset())),
            decreases len - i,
        {
            proof {
                lemma_byte_elements_error(
                    old(self).input(),
                    old(self).offset(),
                    i as int + 1,
                    len as int,
                );
                use_type_invariant(&*self);
            }
            let item_head = match self.read_head() {
                Ok(h) => h,
                Err(e) => {
                    return Err(e);
                },
            };
            match item_head.ty {
                TarsType::ZeroTag => {
                    buf.push(0);
                },
                TarsType::Byte => {
                    proof {
                        use_type_invariant(&*self);
                    }
                    if self.data.len() - self.pos < 1 {
                        return Err(TarsError::Codec(CodecError::UnexpectedEof));
                    }
                    buf.push(self.data[self.pos]);
                    self.pos = self.pos + 1;
                },
                _ => {
                    return Err(TarsError::Codec(CodecError::TypeMismatch(item_head.ty)));
                },
            }
            i = i + 1;
        }
        Ok(buf)
    }

    /// The work of `read_map_begin`, without the return to the start on an error.
    fn read_map_begin_inner(&mut self, tag: u8, require: bool) -> (r: Result<i32, TarsError>)
        ensures
            final(self).input() == old(self).input(),
            match spec_read_begin(
                old(self).input(),
                old(self).offset(),
                tag,
                require,
                TarsType::Mapping,
            ) {
                Ok((Some(n), end)) => r == Ok::<i32, TarsError>(n as i32) && fits(n, 4)
                    && final(self).offset() == end,
                Ok((None, end)) => r == Ok::<i32, TarsError>(0) && final(self).offset() == end,
                Err(e) => r == Err::<i32, TarsError>(TarsError::Codec(e)),
            },
    {
        match self.skip_to_tag(tag) {
            Err(e) => Err(e),
            Ok(None) => {
                if require {
                    Err(TarsError::Codec(CodecError::RequiredTagNotFound(tag)))
                } else {
                    Ok(0)
                }
            },
            Ok(Some(head)) => {
                if head.ty != TarsType::Mapping {
                    return Err(TarsError::Codec(CodecError::TypeMismatch(head.ty)));
                }
                self.read_count()
            },
        }
    }

    /// The work of `read_list_begin`, without the return to the start on an error.
    fn read_list_begin_inner(&mut self, tag: u8, require: bool) -> (r: Result<i32, TarsError>)
        ensures
            final(self).input() == old(self).input(),
            match spec_read_begin(
                old(self).input(),
                old(self).offset(),
                tag,
                require,
                TarsType::List,
            ) {
                Ok((Some(n), end)) => r == Ok::<i32, TarsError>(n as i32) && fits(n, 4)
                    && final(self).offset() == end,
                Ok((None, end)) => r == Ok::<i32, TarsError>(0) && final(self).offset() == end,
                Err(e) => r == Err::<i32, TarsError>(TarsError::Codec(e)),
            },
    {
        match self.skip_to_tag(tag) {
            Err(e) => Err(e),
            Ok(None) => {
                if require {
                    Err(TarsError::Codec(CodecError::RequiredTagNotFound(tag)))
                } else {
                    Ok(0)
                }
            },
            Ok(Some(head)) => {
                if head.ty != TarsType::List {
                    return Err(TarsError::Codec(CodecError::TypeMismatch(head.ty)));
                }
                self.read_count()
            },
        }
    }

    /// The work of `read_struct_begin`, without the return to the start on an error.
    fn read_struct_begin_inner(&mut self, tag: u8, require: bool) -> (r: Result<bool, TarsError>)
        ensures
            final(self).input() == old(self).input(),
            match spec_enter(
                old(self).input(),
                old(self).offset(),
                tag,
                require,
                TarsType::StructBegin,
            ) {
                Ok((found, end)) => r == Ok::<bool, TarsError>(found) && final(self).offset()
                    == end,
                Err(e) => r == Err::<bool, TarsError>(TarsError::Codec(e)),
            },
    {
        match self.skip_to_tag(tag) {
            Err(e) => Err(e),
            Ok(None) => {
                if require {
                    Err(TarsError::Codec(CodecError::RequiredTagNotFound(tag)))
                } else {
                    Ok(false)
                }
            },
            Ok(Some(head)) => {
                if head.ty != TarsType::StructBegin {
                    return Err(TarsError::Codec(CodecError::TypeMismatch(head.ty)));
                }
                Ok(true)
            },
        }
    }

    /// Leaves the struct the cursor is in, skipping what is left of it.
    pub fn read_struct_end(&mut self) -> (r: Result<(), TarsError>)
        ensures
            final(self).input() == old(self).input(),
            match struct_end(old(self).input(), old(self).offset()) {
                Ok(end) => r is Ok && final(self).offset() == end,
                Err(e) => r == Err::<(), TarsError>(TarsError::Codec(e))
                    && final(self).offset() == old(self).offset(),
            },
    {
        self.skip_to_struct_end()
    }

    /// Enters the struct at `tag`, as `read_struct_begin` does.
    pub fn skip_to_struct_begin(&mut self, tag: u8, require: bool) -> (r: Result<bool, TarsError>)
        ensures
            final(self).input() == old(self).input(),
            match spec_enter(
                old(self).input(),
                old(self).offset(),
                tag,
                require,
                TarsType::StructBegin,
            ) {
                Ok((found, end)) => r == Ok::<bool, TarsError>(found) && final(self).offset()
                    == end,
                Err(e) => r == Err::<bool, TarsError>(TarsError::Codec(e))
                    && final(self).offset() == old(self).offset(),
            },
    {
        self.read_struct_begin(tag, require)
    }

    /// The work of `skip_to_list`, without the return to the start on an error.
    fn skip_to_list_inner(&mut self, tag: u8, require: bool) -> (r: Result<bool, TarsError>)
        ensures
            final(self).input() == old(self).input(),
            match spec_enter(old(self).input(), old(self).offset(), tag, require, TarsType::List) {
                Ok((found, end)) => r == Ok::<bool, TarsError>(found) && final(self).offset()
                    == end,
                Err(e) => r == Err::<bool, TarsError>(TarsError::Codec(e)),
            },
    {
        match self.skip_to_tag(tag) {
            Err(e) => Err(e),
            Ok(None) => {
                if require {
                    Err(TarsError::Codec(CodecError::RequiredTagNotFound(tag)))
                } else {
                    Ok(false)
                }
            },
            Ok(Some(head)) => {
                if head.ty != TarsType::List {
                    return Err(TarsError::Codec(CodecError::TypeMismatch(head.ty)));
                }
                Ok(true)
            },
        }
    }

    /// Reads one map entry: a required string at tag 0, then a required
    /// string at tag 1.
    fn read_string_pair(&mut self) -> (r: Result<(String, String), TarsError>)
        ensures
            final(self).input() == old(self).input(),
            match string_pair(old(self).input(), old(self).offset()) {
                Ok((entry, end)) => r is Ok && r->Ok_0.0@ == entry.0 && r->Ok_0.1@ == entry.1
                    && final(self).offset() == end,
                Err(e) => r == Err::<(String, String), TarsError>(TarsError::Codec(e)),
            },
    {
        reveal(string_pair);
        let key = match self.read_string(0, true) {
            Ok(s) => s,
            Err(e) => {
                return Err(e);
            },
        };
        let value = match self.read_string(1, true) {
            Ok(s) => s,
            Err(e) => {
                return Err(e);
            },
        };
        Ok((key, value))
    }

    /// The work of `read_string_map`, without the return to the start on an error.
    fn read_string_map_inner(&mut self, tag: u8, require: bool) -> (r: Result<StringMap, TarsError>)
        ensures
            final(self).input() == old(self).input(),
            match spec_read_string_map(old(self).input(), old(self).offset(), tag, require) {
                Ok((m, end)) => r is Ok && r->Ok_0@ == m && final(self).offset() == end,
                Err(e) => r == Err::<StringMap, TarsError>(TarsError::Codec(e)),
            },
    {
        let size: i32 = match self.read_map_begin(tag, require) {
            Ok(n) => n,
            Err(e) => {
                return Err(e);
            },
        };
        if size < 0 {
            return Err(TarsError::Codec(CodecError::NegativeLength));
        }
        let ghost data = self.input();
        let ghost start = self.offset();
        let mut map = StringMap::new();
        let mut i: i32 = 0;
        assert(spec_read_string_map(old(self).input(), old(self).offset(), tag, require)
            == string_pairs(data, start, size as int));
        while i < size
            invariant
                self.input() == data,
                data == old(self).input(),
                spec_read_string_map(old(self).input(), old(self).offset(), tag, require)
                    == string_pairs(data, start, size as int),
                0 <= i <= size,
                string_pairs(data, start, i as int) == Ok::<(Entries, int), CodecError>(
                    (map@, self.offset()),
                ),
            decreases size - i,
        {
            proof {
                lemma_string_pairs_error(data, start, i as int + 1, size as int);
            }
            let (key, value) = match self.read_string_pair() {
                Ok(entry) => entry,
                Err(e) => {
                    return Err(e);
                },
            };
            map.insert(key, value);
            i = i + 1;
        }
        Ok(map)
    }

    /// Skips to behind the struct-end that closes the struct the cursor is
    /// in. The input ending first is an unexpected end of input.
    ///
    /// On an error the cursor stays where it was.
    pub fn skip_to_struct_end(&mut self) -> (r: Result<(), TarsError>)
        ensures
            final(self).input() == old(self).input(),
            match struct_end(old(self).input(), old(self).offset()) {
                Ok(end) => r is Ok && final(self).offset() == end && old(self).offset() <= end,
                Err(e) => r == Err::<(), TarsError>(TarsError::Codec(e))
                    && final(self).offset() == old(self).offset(),
            },
    {
        proof {
            use_type_invariant(&*self);
        }
        let start: usize = self.pos;
        match self.skip_to_struct_end_inner() {
            Ok(v) => Ok(v),
            Err(e) => {
                self.pos = start;
                Err(e)
            },
        }
    }

    /// Reads an int8 field. Accepts a zero-tag and an int8 on the wire.
    ///
    /// On an error the cursor stays where it was.
    pub fn read_int8(&mut self, tag: u8, require: bool) -> (r: Result<i8, TarsError>)
        ensures
            final(self).input() == old(self).input(),
            match spec_read_int(old(self).input(), old(self).offset(), tag, require, 1) {
                Ok((v, end)) => r == Ok::<i8, TarsError>(v as i8) && final(self).offset() == end
                    && fits(v, 1),
                Err(e) => r == Err::<i8, TarsError>(TarsError::Codec(e))
                    && final(self).offset() == old(self).offset(),
            },
    {
        proof {
            use_type_invariant(&*self);
        }
        let start: usize = self.pos;
        match self.read_int8_inner(tag, require) {
            Ok(v) => Ok(v),
            Err(e) => {
                self.pos = start;
                Err(e)
            },
        }
    }

    /// Reads an int16 field. Accepts a zero-tag, an int8 and an int16 on the
    /// wire.
    ///
    /// On an error the cursor stays where it was.
    pub fn read_int16(&mut self, tag: u8, require: bool) -> (r: Result<i16, TarsError>)
        ensures
            final(self).input() == old(self).input(),
            match spec_read_int(old(self).input(), old(self).offset(), tag, require, 2) {
                Ok((v, end)) => r == Ok::<i16, TarsError>(v as i16) && final(self).offset() == end
                    && fits(v, 2),
                Err(e) => r == Err::<i16, TarsError>(TarsError::Codec(e))
                    && final(self).offset() == old(self).offset(),
            },
    {
        proof {
            use_type_invariant(&*self);
        }
        let start: usize = self.pos;
        match self.read_int16_inner(tag, require) {
            Ok(v) => Ok(v),
            Err(e) => {
                self.pos = start;
                Err(e)
            },
        }
    }

    /// Reads an int32 field. Accepts a zero-tag and every integer type up to
    /// int32 on the wire.
    ///
    /// On an error the cursor stays where it was.
    pub fn read_int32(&mut self, tag: u8, require: bool) -> (r: Result<i32, TarsError>)
        ensures
            final(self).input() == old(self).input(),
            match spec_read_int(old(self).input(), old(self).offset(), tag, require, 4) {
                Ok((v, end)) => r == Ok::<i32, TarsError>(v as i32) && final(self).offset() == end
                    && fits(v, 4),
                Err(e) => r == Err::<i32, TarsError>(TarsError::Codec(e))
                    && final(self).offset() == old(self).offset(),
            },
    {
        proof {
            use_type_invariant(&*self);
        }
        let start: usize = self.pos;
        match self.read_int32_inner(tag, require) {
            Ok(v) => Ok(v),
            Err(e) => {
                self.pos = start;
                Err(e)
            },
        }
    }

    /// Reads an int64 field. Accepts a zero-tag and every integer type on
    /// the wire.
    ///
    /// On an error the cursor stays where it was.
    pub fn read_int64(&mut self, tag: u8, require: bool) -> (r: Result<i64, TarsError>)
        ensures
            final(self).input() == old(self).input(),
            match spec_read_int(old(self).input(), old(self).offset(), tag, require, 8) {
                Ok((v, end)) => r == Ok::<i64, TarsError>(v as i64) && final(self).offset() == end
                    && fits(v, 8),
                Err(e) => r == Err::<i64, TarsError>(TarsError::Codec(e))
                    && final(self).offset() == old(self).offset(),
            },
    {
        proof {
            use_type_invariant(&*self);
        }
        let start: usize = self.pos;
        match self.read_int64_inner(tag, require) {
            Ok(v) => Ok(v),
            Err(e) => {
                self.pos = start;
                Err(e)
            },
        }
    }

    /// Reads a float field as its IEEE-754 bit pattern. Accepts a zero-tag
    /// and a float on the wire.
    ///
    /// On an error the cursor stays where it was.
    pub fn read_float(&mut self, tag: u8, require: bool) -> (r: Result<u32, TarsError>)
        ensures
            final(self).input() == old(self).input(),
            match spec_read_float(old(self).input(), old(self).offset(), tag, require) {
                Ok((bits, end)) => r == Ok::<u32, TarsError>(bits as u32) && final(self).offset()
                    == end && 0 <= bits <= u32::MAX,
                Err(e) => r == Err::<u32, TarsError>(TarsError::Codec(e))
                    && final(self).offset() == old(self).offset(),
            },
    {
        proof {
            use_type_invariant(&*self);
        }
        let start: usize = self.pos;
        match self.read_float_inner(tag, require) {
            Ok(v) => Ok(v),
            Err(e) => {
                self.pos = start;
                Err(e)
            },
        }
    }

    /// Reads a double field as an IEEE-754 bit pattern. Accepts a zero-tag,
    /// a float and a double on the wire; a float keeps its four bytes, and
    /// the caller widens it.
    ///
    /// On an error the cursor stays where it was.
    pub fn read_double(&mut self, tag: u8, require: bool) -> (r: Result<FloatBits, TarsError>)
        ensures
            final(self).input() == old(self).input(),
            match spec_read_double(old(self).input(), old(self).offset(), tag, require) {
                Ok((bits, end)) => r == Ok::<FloatBits, TarsError>(bits) && final(self).offset()
                    == end,
                Err(e) => r == Err::<FloatBits, TarsError>(TarsError::Codec(e))
                    && final(self).offset() == old(self).offset(),
            },
    {
        proof {
            use_type_invariant(&*self);
        }
        let start: usize = self.pos;
        match self.read_double_inner(tag, require) {
            Ok(v) => Ok(v),
            Err(e) => {
                self.pos = start;
                Err(e)
            },
        }
    }

    /// Reads a string field. Accepts both string types on the wire; the
    /// bytes must be valid UTF-8.
    ///
    /// On an error the cursor stays where it was.
    pub fn read_string(&mut self, tag: u8, require: bool) -> (r: Result<String, TarsError>)
        ensures
            final(self).input() == old(self).input(),
            match spec_read_string(old(self).input(), old(self).offset(), tag, require) {
                Ok((s, end)) => r is Ok && r->Ok_0@ == s && final(self).offset() == end,
                Err(e) => r == Err::<String, TarsError>(TarsError::Codec(e))
                    && final(self).offset() == old(self).offset(),
            },
    {
        proof {
            use_type_invariant(&*self);
        }
        let start: usize = self.pos;
        match self.read_string_inner(tag, require) {
            Ok(v) => Ok(v),
            Err(e) => {
                self.pos = start;
                Err(e)
            },
        }
    }

    /// Reads a byte-array field. Accepts a simple list and a list of int8
    /// elements on the wire.
    ///
    /// On an error the cursor stays where it was.
    pub fn read_bytes(&mut self, tag: u8, require: bool) -> (r: Result<Vec<u8>, TarsError>)
        ensures
            final(self).input() == old(self).input(),
            match spec_read_bytes(old(self).input(), old(self).offset(), tag, require) {
                Ok((b, end)) => r is Ok && r->Ok_0@ == b && final(self).offset() == end,
                Err(e) => r == Err::<Vec<u8>, TarsError>(TarsError::Codec(e))
                    && final(self).offset() == old(self).offset(),
            },
    {
        proof {
            use_type_invariant(&*self);
        }
        let start: usize = self.pos;
        match self.read_bytes_inner(tag, require) {
            Ok(v) => Ok(v),
            Err(e) => {
                self.pos = start;
                Err(e)
            },
        }
    }

    /// Reads the opening of a map and returns its size; 0 where the field is
    /// absent.
    ///
    /// On an error the cursor stays where it was.
    pub fn read_map_begin(&mut self, tag: u8, require: bool) -> (r: Result<i32, TarsError>)
        ensures
            final(self).input() == old(self).input(),
            match spec_read_begin(
                old(self).input(),
                old(self).offset(),
                tag,
                require,
                TarsType::Mapping,
            ) {
                Ok((Some(n), end)) => r == Ok::<i32, TarsError>(n as i32) && fits(n, 4)
                    && final(self).offset() == end,
                Ok((None, end)) => r == Ok::<i32, TarsError>(0) && final(self).offset() == end,
                Err(e) => r == Err::<i32, TarsError>(TarsError::Codec(e))
                    && final(self).offset() == old(self).offset(),
            },
    {
        proof {
            use_type_invariant(&*self);
        }
        let start: usize = self.pos;
        match self.read_map_begin_inner(tag, require) {
            Ok(v) => Ok(v),
            Err(e) => {
                self.pos = start;
                Err(e)
            },
        }
    }

    /// Reads the opening of a list and returns its size; 0 where the field
    /// is absent.
    ///
    /// On an error the cursor stays where it was.
    pub fn read_list_begin(&mut self, tag: u8, require: bool) -> (r: Result<i32, TarsError>)
        ensures
            final(self).input() == old(self).input(),
            match spec_read_begin(
                old(self).input(),
                old(self).offset(),
                tag,
                require,
                TarsType::List,
            ) {
                Ok((Some(n), end)) => r == Ok::<i32, TarsError>(n as i32) && fits(n, 4)
                    && final(self).offset() == end,
                Ok((None, end)) => r == Ok::<i32, TarsError>(0) && final(self).offset() == end,
                Err(e) => r == Err::<i32, TarsError>(TarsError::Codec(e))
                    && final(self).offset() == old(self).offset(),
            },
    {
        proof {
            use_type_invariant(&*self);
        }
        let start: usize = self.pos;
        match self.read_list_begin_inner(tag, require) {
            Ok(v) => Ok(v),
            Err(e) => {
                self.pos = start;
                Err(e)
            },
        }
    }

    /// Enters the struct at `tag`: true where it is there, false where it is
    /// absent and not required.
    ///
    /// On an error the cursor stays where it was.
    pub fn read_struct_begin(&mut self, tag: u8, require: bool) -> (r: Result<bool, TarsError>)
        ensures
            final(self).input() == old(self).input(),
            match spec_enter(
                old(self).input(),
                old(self).offset(),
                tag,
                require,
                TarsType::StructBegin,
            ) {
                Ok((found, end)) => r == Ok::<bool, TarsError>(found) && final(self).offset()
                    == end,
                Err(e) => r == Err::<bool, TarsError>(TarsError::Codec(e))
                    && final(self).offset() == old(self).offset(),
            },
    {
        proof {
            use_type_invariant(&*self);
        }
        let start: usize = self.pos;
        match self.read_struct_begin_inner(tag, require) {
            Ok(v) => Ok(v),
            Err(e) => {
                self.pos = start;
                Err(e)
            },
        }
    }

    /// Moves behind the head of the list at `tag`: true where it is there,
    /// false where it is absent and not required. The size is not read.
    ///
    /// On an error the cursor stays where it was.
    pub fn skip_to_list(&mut self, tag: u8, require: bool) -> (r: Result<bool, TarsError>)
        ensures
            final(self).input() == old(self).input(),
            match spec_enter(old(self).input(), old(self).offset(), tag, require, TarsType::List) {
                Ok((found, end)) => r == Ok::<bool, TarsError>(found) && final(self).offset()
                    == end,
                Err(e) => r == Err::<bool, TarsError>(TarsError::Codec(e))
                    && final(self).offset() == old(self).offset(),
            },
    {
        proof {
            use_type_invariant(&*self);
        }
        let start: usize = self.pos;
        match self.skip_to_list_inner(tag, require) {
            Ok(v) => Ok(v),
            Err(e) => {
                self.pos = start;
                Err(e)
            },
        }
    }

    /// Reads a string-to-string map field. Of two entries with one key the
    /// later one stays.
    ///
    /// On an error the cursor stays where it was.
    pub fn read_string_map(&mut self, tag: u8, require: bool) -> (r: Result<StringMap, TarsError>)
        ensures
            final(self).input() == old(self).input(),
            match spec_read_string_map(old(self).input(), old(self).offset(), tag, require) {
                Ok((m, end)) => r is Ok && r->Ok_0@ == m && final(self).offset() == end,
                Err(e) => r == Err::<StringMap, TarsError>(TarsError::Codec(e))
                    && final(self).offset() == old(self).offset(),
            },
    {
        proof {
            use_type_invariant(&*self);
        }
        let start: usize = self.pos;
        match self.read_string_map_inner(tag, require) {
            Ok(v) => Ok(v),
            Err(e) => {
                self.pos = start;
                Err(e)
            },
        }
    }
}

/// Whether `v` is a value of the signed integer type of `width` bytes.
pub open spec fn fits(v: int, width: int) -> bool {
    if width == 1 {
        -128 <= v <= 127
    } else if width == 2 {
        -32768 <= v <= 32767
    } else if width == 4 {
        -2147483648 <= v <= 2147483647
    } else {
        -9223372036854775808 <= v <= 9223372036854775807
    }
}

/// An error among the first `n` elements is the error of any longer read.
pub proof fn lemma_byte_elements_error(data: Seq<u8>, pos: int, n: int, m: int)
    requires
        n <= m,
    ensures
        byte_elements(data, pos, n) is Err ==> byte_elements(data, pos, m) == byte_elements(
            data,
            pos,
            n,
        ),
    decreases m - n,
{
    if n < m {
        lemma_byte_elements_error(data, pos, n, m - 1);
        if byte_elements(data, pos, n) is Err {
            assert(m > 0) by {
                if n <= 0 {
                    assert(byte_elements(data, pos, n) is Ok);
                }
            }
        }
    }
}

} // verus!
