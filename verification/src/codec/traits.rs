//! Encoding and decoding by type.

use vstd::prelude::*;

use super::decode::{spec_read_bool, spec_read_bytes, spec_read_int, spec_read_string};
use super::reader::fits;
use super::wire::{
    bytes_field, encodable_entries, encodable_items, encodable_text, int_field, int_list_field,
    map_header, numbers, string_field, string_list_field, string_map_field,
};
use super::{Buffer, Reader, StringMap};
use crate::error::{CodecError, TarsError};
use crate::util::text::texts;
use crate::util::{as_signed, as_unsigned};

verus! {

/// Types that can be written as one field.
pub trait TarsEncode {
    /// The field that the value is written as.
    spec fn wire(&self, tag: u8) -> Seq<u8>;

    /// Whether the value fits its field.
    spec fn encodable(&self) -> bool;

    /// Appends the value as a field at `tag`. A value that does not fit is
    /// refused and nothing is written.
    fn encode(&self, buf: &mut Buffer, tag: u8) -> (r: Result<(), TarsError>)
        ensures
            self.encodable() ==> r is Ok && final(buf)@ == old(buf)@ + self.wire(tag),
            !self.encodable() ==> r == Err::<(), TarsError>(
                TarsError::Codec(CodecError::LengthOverflow),
            ) && final(buf)@ == old(buf)@,
    ;
}

/// Types that can be read from one field.
pub trait TarsDecode: Sized {
    /// Reads the value from the field at `tag`.
    fn decode(reader: &mut Reader, tag: u8, require: bool) -> (r: Result<Self, TarsError>)
        ensures
            final(reader).input() == old(reader).input(),
    ;
}

/// Struct types: their fields are written one after the other, and read
/// back from where the cursor stands.
pub trait TarsStruct: TarsEncode + TarsDecode {
    /// Appends the fields.
    fn write_to(&self, buf: &mut Buffer) -> (r: Result<(), TarsError>)
        ensures
            old(buf)@.is_prefix_of(final(buf)@),
    ;

    /// Reads the fields.
    fn read_from(reader: &mut Reader) -> (r: Result<Self, TarsError>)
        ensures
            final(reader).input() == old(reader).input(),
    ;
}

impl TarsEncode for i8 {
    open spec fn wire(&self, tag: u8) -> Seq<u8> {
        int_field(*self as int, tag)
    }

    open spec fn encodable(&self) -> bool {
        true
    }

    fn encode(&self, buf: &mut Buffer, tag: u8) -> (r: Result<(), TarsError>) {
        buf.write_int8(*self, tag)
    }
}

impl TarsEncode for i16 {
    open spec fn wire(&self, tag: u8) -> Seq<u8> {
        int_field(*self as int, tag)
    }

    open spec fn encodable(&self) -> bool {
        true
    }

    fn encode(&self, buf: &mut Buffer, tag: u8) -> (r: Result<(), TarsError>) {
        buf.write_int16(*self, tag)
    }
}

impl TarsEncode for i32 {
    open spec fn wire(&self, tag: u8) -> Seq<u8> {
        int_field(*self as int, tag)
    }

    open spec fn encodable(&self) -> bool {
        true
    }

    fn encode(&self, buf: &mut Buffer, tag: u8) -> (r: Result<(), TarsError>) {
        buf.write_int32(*self, tag)
    }
}

impl TarsEncode for i64 {
    open spec fn wire(&self, tag: u8) -> Seq<u8> {
        int_field(*self as int, tag)
    }

    open spec fn encodable(&self) -> bool {
        true
    }

    fn encode(&self, buf: &mut Buffer, tag: u8) -> (r: Result<(), TarsError>) {
        buf.write_int64(*self, tag)
    }
}

impl TarsEncode for u8 {
    /// An unsigned byte is written as the int8 with its bit pattern.
    open spec fn wire(&self, tag: u8) -> Seq<u8> {
        int_field(as_signed(*self) as int, tag)
    }

    open spec fn encodable(&self) -> bool {
        true
    }

    fn encode(&self, buf: &mut Buffer, tag: u8) -> (r: Result<(), TarsError>) {
        let v: i8 = if *self >= 128 {
            (*self as i16 - 256) as i8
        } else {
            *self as i8
        };
        buf.write_int8(v, tag)
    }
}

/// The signed 16-bit number with the bit pattern of an unsigned one.
pub open spec fn signed16(v: u16) -> i16 {
    if v >= 32768 {
        (v - 65536) as i16
    } else {
        v as i16
    }
}

/// The unsigned 16-bit number with the bit pattern of a signed one.
pub open spec fn unsigned16(v: i16) -> u16 {
    if v < 0 {
        (v + 65536) as u16
    } else {
        v as u16
    }
}

/// The signed 32-bit number with the bit pattern of an unsigned one.
pub open spec fn signed32(v: u32) -> i32 {
    if v >= 2147483648 {
        (v - 4294967296) as i32
    } else {
        v as i32
    }
}

/// The unsigned 32-bit number with the bit pattern of a signed one.
pub open spec fn unsigned32(v: i32) -> u32 {
    if v < 0 {
        (v + 4294967296) as u32
    } else {
        v as u32
    }
}

impl TarsEncode for u16 {
    /// An unsigned 16-bit number is written as the int16 with its bit
    /// pattern.
    open spec fn wire(&self, tag: u8) -> Seq<u8> {
        int_field(signed16(*self) as int, tag)
    }

    open spec fn encodable(&self) -> bool {
        true
    }

    fn encode(&self, buf: &mut Buffer, tag: u8) -> (r: Result<(), TarsError>) {
        let v: i16 = if *self >= 32768 {
            (*self as i32 - 65536) as i16
        } else {
            *self as i16
        };
        buf.write_int16(v, tag)
    }
}

impl TarsEncode for u32 {
    /// An unsigned 32-bit number is written as the int32 with its bit
    /// pattern.
    open spec fn wire(&self, tag: u8) -> Seq<u8> {
        int_field(signed32(*self) as int, tag)
    }

    open spec fn encodable(&self) -> bool {
        true
    }

    fn encode(&self, buf: &mut Buffer, tag: u8) -> (r: Result<(), TarsError>) {
        let v: i32 = if *self >= 2147483648 {
            (*self as i64 - 4294967296) as i32
        } else {
            *self as i32
        };
        buf.write_int32(v, tag)
    }
}

impl TarsEncode for bool {
    open spec fn wire(&self, tag: u8) -> Seq<u8> {
        int_field(
            if *self {
                1int
            } else {
                0int
            },
            tag,
        )
    }

    open spec fn encodable(&self) -> bool {
        true
    }

    fn encode(&self, buf: &mut Buffer, tag: u8) -> (r: Result<(), TarsError>) {
        buf.write_bool(*self, tag)
    }
}

impl TarsEncode for String {
    open spec fn wire(&self, tag: u8) -> Seq<u8> {
        string_field(self@, tag)
    }

    open spec fn encodable(&self) -> bool {
        encodable_text(self@)
    }

    fn encode(&self, buf: &mut Buffer, tag: u8) -> (r: Result<(), TarsError>) {
        buf.write_string(self.as_str(), tag)
    }
}

impl TarsEncode for Vec<u8> {
    open spec fn wire(&self, tag: u8) -> Seq<u8> {
        bytes_field(self@, tag)
    }

    open spec fn encodable(&self) -> bool {
        self@.len() <= i32::MAX
    }

    fn encode(&self, buf: &mut Buffer, tag: u8) -> (r: Result<(), TarsError>) {
        buf.write_bytes(self.as_slice(), tag)
    }
}

impl TarsEncode for &str {
    open spec fn wire(&self, tag: u8) -> Seq<u8> {
        string_field((*self)@, tag)
    }

    open spec fn encodable(&self) -> bool {
        encodable_text((*self)@)
    }

    fn encode(&self, buf: &mut Buffer, tag: u8) -> (r: Result<(), TarsError>) {
        buf.write_string(*self, tag)
    }
}

/// The numbers of a vector of 32-bit integers.
pub open spec fn numbers32(v: Seq<i32>) -> Seq<int> {
    Seq::new(v.len(), |i: int| v[i] as int)
}

impl TarsEncode for Vec<i32> {
    /// A list of integers, each at tag 0.
    open spec fn wire(&self, tag: u8) -> Seq<u8> {
        int_list_field(numbers32(self@), tag)
    }

    open spec fn encodable(&self) -> bool {
        self@.len() <= i32::MAX
    }

    fn encode(&self, buf: &mut Buffer, tag: u8) -> (r: Result<(), TarsError>) {
        let mut wide: Vec<i64> = Vec::new();
        let mut i: usize = 0;
        while i < self.len()
            invariant
                0 <= i <= self@.len(),
                wide@.len() == i,
                forall|j: int| 0 <= j < i ==> wide@[j] == self@[j],
            decreases self@.len() - i,
        {
            wide.push(self[i] as i64);
            i = i + 1;
        }
        assert(numbers(wide@) =~= numbers32(self@));
        buf.write_int_list(wide.as_slice(), tag)
    }
}

impl TarsEncode for Vec<i64> {
    /// A list of integers, each at tag 0.
    open spec fn wire(&self, tag: u8) -> Seq<u8> {
        int_list_field(numbers(self@), tag)
    }

    open spec fn encodable(&self) -> bool {
        self@.len() <= i32::MAX
    }

    fn encode(&self, buf: &mut Buffer, tag: u8) -> (r: Result<(), TarsError>) {
        buf.write_int_list(self.as_slice(), tag)
    }
}

/// Whether every string fits a string field.
fn all_fit(items: &Vec<String>) -> (r: bool)
    ensures
        r == (forall|i: int| 0 <= i < items@.len() ==> encodable_text(#[trigger] texts(items@)[i])),
{
    let mut i: usize = 0;
    while i < items.len()
        invariant
            0 <= i <= items@.len(),
            forall|j: int| 0 <= j < i ==> encodable_text(#[trigger] texts(items@)[j]),
        decreases items@.len() - i,
    {
        if items[i].as_str().as_bytes().len() > u32::MAX as usize {
            assert(!encodable_text(texts(items@)[i as int]));
            return false;
        }
        i = i + 1;
    }
    true
}

impl TarsEncode for Vec<String> {
    /// A list of strings, each at tag 0.
    open spec fn wire(&self, tag: u8) -> Seq<u8> {
        string_list_field(texts(self@), tag)
    }

    open spec fn encodable(&self) -> bool {
        encodable_items(texts(self@))
    }

    fn encode(&self, buf: &mut Buffer, tag: u8) -> (r: Result<(), TarsError>) {
        if self.len() > i32::MAX as usize || !all_fit(self) {
            return Err(TarsError::Codec(CodecError::LengthOverflow));
        }
        buf.write_string_list(self.as_slice(), tag)
    }
}

/// Whether every key and value fits a string field.
fn all_entries_fit(map: &StringMap) -> (r: bool)
    ensures
        r == (forall|i: int|
            0 <= i < map@.len() ==> encodable_text((#[trigger] map@[i]).0) && encodable_text(
                map@[i].1,
            )),
{
    let mut i: usize = 0;
    while i < map.len()
        invariant
            0 <= i <= map@.len(),
            forall|j: int|
                0 <= j < i ==> encodable_text((#[trigger] map@[j]).0) && encodable_text(
                    map@[j].1,
                ),
        decreases map@.len() - i,
    {
        if map.key_at(i).as_bytes().len() > u32::MAX as usize || map.value_at(i).as_bytes().len()
            > u32::MAX as usize {
            assert(!(encodable_text(map@[i as int].0) && encodable_text(map@[i as int].1)));
            return false;
        }
        i = i + 1;
    }
    true
}

impl TarsEncode for StringMap {
    /// A map of strings: each key at tag 0 and each value at tag 1, in the
    /// map's order.
    open spec fn wire(&self, tag: u8) -> Seq<u8> {
        string_map_field(self@, tag)
    }

    open spec fn encodable(&self) -> bool {
        encodable_entries(self@)
    }

    fn encode(&self, buf: &mut Buffer, tag: u8) -> (r: Result<(), TarsError>) {
        if self.len() > i32::MAX as usize || !all_entries_fit(self) {
            return Err(TarsError::Codec(CodecError::LengthOverflow));
        }
        buf.write_string_map(self, tag)
    }
}

/// The entries of a map one after the other: each key at tag 0 and each
/// value at tag 1.
pub open spec fn pair_items<K: TarsEncode, V: TarsEncode>(entries: Seq<(K, V)>) -> Seq<u8>
    decreases entries.len(),
{
    if entries.len() == 0 {
        Seq::empty()
    } else {
        pair_items(entries.drop_last()) + entries.last().0.wire(0) + entries.last().1.wire(1)
    }
}

impl<K: TarsEncode, V: TarsEncode> TarsEncode for Vec<(K, V)> {
    /// A map of any keys and values that can be written, as a vector of its
    /// entries: the size, then each entry in the vector's order, key at tag
    /// 0 and value at tag 1.
    open spec fn wire(&self, tag: u8) -> Seq<u8> {
        map_header(self@.len() as int, tag) + pair_items(self@)
    }

    open spec fn encodable(&self) -> bool {
        &&& self@.len() <= i32::MAX
        &&& forall|i: int|
            0 <= i < self@.len() ==> (#[trigger] self@[i]).0.encodable() && self@[i].1.encodable()
    }

    fn encode(&self, buf: &mut Buffer, tag: u8) -> (r: Result<(), TarsError>) {
        let start: usize = buf.len();
        let n: usize = self.len();
        match buf.write_map(n, tag) {
            Ok(()) => {},
            Err(e) => {
                return Err(e);
            },
        }
        let mut i: usize = 0;
        while i < n
            invariant
                n == self@.len(),
                n <= i32::MAX,
                0 <= i <= n,
                start == old(buf)@.len(),
                buf@ == old(buf)@ + map_header(n as int, tag) + pair_items(self@.take(i as int)),
                forall|j: int|
                    0 <= j < i ==> (#[trigger] self@[j]).0.encodable() && self@[j].1.encodable(),
            decreases n - i,
        {
            proof {
                assert(self@.take(i as int + 1).drop_last() =~= self@.take(i as int));
                assert(self@.take(i as int + 1).last() == self@[i as int]);
            }
            match self[i].0.encode(buf, 0) {
                Ok(()) => {},
                Err(e) => {
                    buf.truncate(start);
                    assert(buf@ =~= old(buf)@);
                    return Err(e);
                },
            }
            match self[i].1.encode(buf, 1) {
                Ok(()) => {},
                Err(e) => {
                    buf.truncate(start);
                    assert(buf@ =~= old(buf)@);
                    return Err(e);
                },
            }
            assert(buf@ =~= old(buf)@ + map_header(n as int, tag) + pair_items(
                self@.take(i as int + 1),
            ));
            i = i + 1;
        }
        assert(self@.take(n as int) =~= self@);
        assert(buf@ =~= old(buf)@ + (map_header(n as int, tag) + pair_items(self@)));
        Ok(())
    }
}

impl TarsDecode for i8 {
    fn decode(reader: &mut Reader, tag: u8, require: bool) -> (r: Result<i8, TarsError>)
        ensures
            match spec_read_int(old(reader).input(), old(reader).offset(), tag, require, 1) {
                Ok((v, end)) => r == Ok::<i8, TarsError>(v as i8) && final(reader).offset() == end,
                Err(e) => r == Err::<i8, TarsError>(TarsError::Codec(e)),
            },
    {
        reader.read_int8(tag, require)
    }
}

impl TarsDecode for i16 {
    fn decode(reader: &mut Reader, tag: u8, require: bool) -> (r: Result<i16, TarsError>)
        ensures
            match spec_read_int(old(reader).input(), old(reader).offset(), tag, require, 2) {
                Ok((v, end)) => r == Ok::<i16, TarsError>(v as i16) && final(reader).offset()
                    == end,
                Err(e) => r == Err::<i16, TarsError>(TarsError::Codec(e)),
            },
    {
        reader.read_int16(tag, require)
    }
}

impl TarsDecode for i32 {
    fn decode(reader: &mut Reader, tag: u8, require: bool) -> (r: Result<i32, TarsError>)
        ensures
            match spec_read_int(old(reader).input(), old(reader).offset(), tag, require, 4) {
                Ok((v, end)) => r == Ok::<i32, TarsError>(v as i32) && final(reader).offset()
                    == end,
                Err(e) => r == Err::<i32, TarsError>(TarsError::Codec(e)),
            },
    {
        reader.read_int32(tag, require)
    }
}

impl TarsDecode for i64 {
    fn decode(reader: &mut Reader, tag: u8, require: bool) -> (r: Result<i64, TarsError>)
        ensures
            match spec_read_int(old(reader).input(), old(reader).offset(), tag, require, 8) {
                Ok((v, end)) => r == Ok::<i64, TarsError>(v as i64) && final(reader).offset()
                    == end,
                Err(e) => r == Err::<i64, TarsError>(TarsError::Codec(e)),
            },
    {
        reader.read_int64(tag, require)
    }
}

impl TarsDecode for u8 {
    /// An unsigned byte is read as the int8 with its bit pattern.
    fn decode(reader: &mut Reader, tag: u8, require: bool) -> (r: Result<u8, TarsError>)
        ensures
            match spec_read_int(old(reader).input(), old(reader).offset(), tag, require, 1) {
                Ok((v, end)) => r == Ok::<u8, TarsError>(as_unsigned(v as i8))
                    && final(reader).offset() == end,
                Err(e) => r == Err::<u8, TarsError>(TarsError::Codec(e)),
            },
    {
        match reader.read_int8(tag, require) {
            Ok(v) => {
                let b: u8 = if v < 0 {
                    (v as i16 + 256) as u8
                } else {
                    v as u8
                };
                Ok(b)
            },
            Err(e) => Err(e),
        }
    }
}

impl TarsDecode for u16 {
    /// An unsigned 16-bit number is read as the int16 with its bit pattern.
    fn decode(reader: &mut Reader, tag: u8, require: bool) -> (r: Result<u16, TarsError>)
        ensures
            match spec_read_int(old(reader).input(), old(reader).offset(), tag, require, 2) {
                Ok((v, end)) => r == Ok::<u16, TarsError>(unsigned16(v as i16))
                    && final(reader).offset() == end,
                Err(e) => r == Err::<u16, TarsError>(TarsError::Codec(e)),
            },
    {
        match reader.read_int16(tag, require) {
            Ok(v) => {
                let b: u16 = if v < 0 {
                    (v as i32 + 65536) as u16
                } else {
                    v as u16
                };
                Ok(b)
            },
            Err(e) => Err(e),
        }
    }
}

impl TarsDecode for u32 {
    /// An unsigned 32-bit number is read as the int32 with its bit pattern.
    fn decode(reader: &mut Reader, tag: u8, require: bool) -> (r: Result<u32, TarsError>)
        ensures
            match spec_read_int(old(reader).input(), old(reader).offset(), tag, require, 4) {
                Ok((v, end)) => r == Ok::<u32, TarsError>(unsigned32(v as i32))
                    && final(reader).offset() == end,
                Err(e) => r == Err::<u32, TarsError>(TarsError::Codec(e)),
            },
    {
        match reader.read_int32(tag, require) {
            Ok(v) => {
                let b: u32 = if v < 0 {
                    (v as i64 + 4294967296) as u32
                } else {
                    v as u32
                };
                Ok(b)
            },
            Err(e) => Err(e),
        }
    }
}

impl TarsDecode for bool {
    fn decode(reader: &mut Reader, tag: u8, require: bool) -> (r: Result<bool, TarsError>)
        ensures
            match spec_read_bool(old(reader).input(), old(reader).offset(), tag, require) {
                Ok((v, end)) => r == Ok::<bool, TarsError>(v) && final(reader).offset() == end,
                Err(e) => r == Err::<bool, TarsError>(TarsError::Codec(e)),
            },
    {
        reader.read_bool(tag, require)
    }
}

impl TarsDecode for String {
    fn decode(reader: &mut Reader, tag: u8, require: bool) -> (r: Result<String, TarsError>)
        ensures
            match spec_read_string(old(reader).input(), old(reader).offset(), tag, require) {
                Ok((s, end)) => r is Ok && r->Ok_0@ == s && final(reader).offset() == end,
                Err(e) => r == Err::<String, TarsError>(TarsError::Codec(e)),
            },
    {
        reader.read_string(tag, require)
    }
}

impl TarsDecode for Vec<u8> {
    fn decode(reader: &mut Reader, tag: u8, require: bool) -> (r: Result<Vec<u8>, TarsError>)
        ensures
            match spec_read_bytes(old(reader).input(), old(reader).offset(), tag, require) {
                Ok((b, end)) => r is Ok && r->Ok_0@ == b && final(reader).offset() == end,
                Err(e) => r == Err::<Vec<u8>, TarsError>(TarsError::Codec(e)),
            },
    {
        reader.read_bytes(tag, require)
    }
}

} // verus!
