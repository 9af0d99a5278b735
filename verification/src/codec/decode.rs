//! What reading means: the value and the new cursor position that each read
//! yields on given bytes, or the error it ends with.
//!
//! A position is an index into the input; a read that succeeds never moves
//! the cursor past the end of the input.

use vstd::prelude::*;
use vstd::utf8::{decode_utf8, valid_utf8};

use super::string_map::{put, Entries};
use super::types::{Head, TarsType};
use super::wire::{from_be16, from_be32, from_be64, pow2_16, pow2_32, pow2_64, pow2_8, to_signed};
use crate::error::CodecError;

verus! {

/// The head at `pos` and the position behind it.
pub open spec fn spec_read_head(data: Seq<u8>, pos: int) -> Result<(Head, int), CodecError> {
    if pos < 0 || pos >= data.len() {
        Err(CodecError::UnexpectedEof)
    } else {
        match TarsType::of_code(data[pos] % 16) {
            None => Err(CodecError::UnknownType(data[pos] % 16)),
            Some(ty) => if data[pos] / 16 == 15 {
                if pos + 1 >= data.len() {
                    Err(CodecError::UnexpectedEof)
                } else {
                    Ok((Head { ty, tag: data[pos + 1] }, pos + 2))
                }
            } else {
                Ok((Head { ty, tag: data[pos] / 16 }, pos + 1))
            },
        }
    }
}

/// The position `n` bytes behind `pos`, if the input reaches that far.
pub open spec fn take(data: Seq<u8>, pos: int, n: int) -> Result<int, CodecError> {
    if 0 <= pos && 0 <= n && pos + n <= data.len() {
        Ok(pos + n)
    } else {
        Err(CodecError::UnexpectedEof)
    }
}

/// The integer whose payload of type `ty` starts at `pos`, read into a
/// target of `width` bytes: zero-tag and every integer type up to that width
/// are accepted.
pub open spec fn int_payload(data: Seq<u8>, pos: int, ty: TarsType, width: int) -> Result<
    (int, int),
    CodecError,
> {
    match ty {
        TarsType::ZeroTag => Ok((0, pos)),
        TarsType::Byte => match take(data, pos, 1) {
            Ok(end) => Ok((to_signed(data[pos] as int, pow2_8()), end)),
            Err(e) => Err(e),
        },
        TarsType::Short => if width < 2 {
            Err(CodecError::TypeMismatch(ty))
        } else {
            match take(data, pos, 2) {
                Ok(end) => Ok((to_signed(from_be16(data[pos], data[pos + 1]), pow2_16()), end)),
                Err(e) => Err(e),
            }
        },
        TarsType::Int => if width < 4 {
            Err(CodecError::TypeMismatch(ty))
        } else {
            match take(data, pos, 4) {
                Ok(end) => Ok(
                    (
                        to_signed(
                            from_be32(data[pos], data[pos + 1], data[pos + 2], data[pos + 3]),
                            pow2_32(),
                        ),
                        end,
                    ),
                ),
                Err(e) => Err(e),
            }
        },
        TarsType::Long => if width < 8 {
            Err(CodecError::TypeMismatch(ty))
        } else {
            match take(data, pos, 8) {
                Ok(end) => Ok((to_signed(from_be64(data.subrange(pos, pos + 8)), pow2_64()), end)),
                Err(e) => Err(e),
            }
        },
        _ => Err(CodecError::TypeMismatch(ty)),
    }
}

/// An element count at `pos`: a required int32 field at tag 0.
pub open spec fn spec_read_count(data: Seq<u8>, pos: int) -> Result<(int, int), CodecError> {
    if pos >= data.len() {
        Err(CodecError::RequiredTagNotFound(0))
    } else {
        match spec_read_head(data, pos) {
            Err(e) => Err(e),
            Ok((head, next)) => if head.ty == TarsType::StructEnd || head.tag > 0 {
                Err(CodecError::RequiredTagNotFound(0))
            } else {
                int_payload(data, next, head.ty, 4)
            },
        }
    }
}

/// Where the payload of a field of type `ty` ends, when it starts at `pos`.
///
/// Integers and floats have fixed sizes; strings carry their length; a map
/// of N entries is 2N fields and a list of N elements N fields, each with
/// its head (a negative N counts as none); a simple list is an inner head, a
/// length and that many bytes; a struct runs to its matching struct-end.
pub open spec fn field_end(data: Seq<u8>, pos: int, ty: TarsType) -> Result<int, CodecError>
    decreases data.len() - pos, 2int, 0int,
{
    match ty {
        TarsType::Byte => take(data, pos, 1),
        TarsType::Short => take(data, pos, 2),
        TarsType::Int => take(data, pos, 4),
        TarsType::Long => take(data, pos, 8),
        TarsType::Float => take(data, pos, 4),
        TarsType::Double => take(data, pos, 8),
        TarsType::String1 => match take(data, pos, 1) {
            Ok(at) => take(data, at, data[pos] as int),
            Err(e) => Err(e),
        },
        TarsType::String4 => match take(data, pos, 4) {
            Ok(at) => take(
                data,
                at,
                from_be32(data[pos], data[pos + 1], data[pos + 2], data[pos + 3]),
            ),
            Err(e) => Err(e),
        },
        TarsType::Mapping => match spec_read_count(data, pos) {
            Ok((size, at)) => if at >= pos {
                fields_end(data, at, 2 * size)
            } else {
                Err(CodecError::UnexpectedEof)
            },
            Err(e) => Err(e),
        },
        TarsType::List => match spec_read_count(data, pos) {
            Ok((size, at)) => if at >= pos {
                fields_end(data, at, size)
            } else {
                Err(CodecError::UnexpectedEof)
            },
            Err(e) => Err(e),
        },
        TarsType::StructBegin => struct_end(data, pos),
        TarsType::StructEnd => Ok(pos),
        TarsType::ZeroTag => Ok(pos),
        TarsType::SimpleList => match spec_read_head(data, pos) {
            Ok((_, at)) => match spec_read_count(data, at) {
                Ok((len, start)) => if len < 0 {
                    Err(CodecError::NegativeLength)
                } else {
                    take(data, start, len)
                },
                Err(e) => Err(e),
            },
            Err(e) => Err(e),
        },
    }
}

/// Where `n` fields, each with its head, end when the first head is at `pos`.
pub open spec fn fields_end(data: Seq<u8>, pos: int, n: int) -> Result<int, CodecError>
    decreases data.len() - pos, 1int, n,
{
    if n <= 0 {
        Ok(pos)
    } else {
        match spec_read_head(data, pos) {
            Err(e) => Err(e),
            Ok((head, next)) => match field_end(data, next, head.ty) {
                Err(e) => Err(e),
                Ok(end) => if next <= end <= data.len() {
                    fields_end(data, end, n - 1)
                } else {
                    Err(CodecError::UnexpectedEof)
                },
            },
        }
    }
}

/// The position behind the struct-end that closes the struct whose fields
/// start at `pos`.
pub open spec fn struct_end(data: Seq<u8>, pos: int) -> Result<int, CodecError>
    decreases data.len() - pos, 1int, 0int,
{
    if pos >= data.len() {
        Err(CodecError::UnexpectedEof)
    } else {
        match spec_read_head(data, pos) {
            Err(e) => Err(e),
            Ok((head, next)) => if head.ty == TarsType::StructEnd {
                Ok(next)
            } else {
                match field_end(data, next, head.ty) {
                    Err(e) => Err(e),
                    Ok(end) => if next <= end <= data.len() {
                        struct_end(data, end)
                    } else {
                        Err(CodecError::UnexpectedEof)
                    },
                }
            },
        }
    }
}

/// How a search for a tag ends.
pub enum Seek {
    /// The field is there: its head, and the position of its payload.
    Found { head: Head, at: int },
    /// The field is absent: the cursor rests at the end of the input, or at
    /// the head of a greater tag or of a struct-end, which it did not consume.
    Absent { at: int },
}

/// Searches for `tag` from `pos` on: fields with a smaller tag are skipped
/// whole, a greater tag or a struct-end ends the search.
pub open spec fn seek(data: Seq<u8>, pos: int, tag: u8) -> Result<Seek, CodecError>
    decreases data.len() - pos,
{
    if pos >= data.len() {
        Ok(Seek::Absent { at: pos })
    } else {
        match spec_read_head(data, pos) {
            Err(e) => Err(e),
            Ok((head, next)) => if head.ty == TarsType::StructEnd || head.tag > tag {
                Ok(Seek::Absent { at: pos })
            } else if head.tag == tag {
                Ok(Seek::Found { head, at: next })
            } else {
                match field_end(data, next, head.ty) {
                    Err(e) => Err(e),
                    Ok(end) => if next <= end <= data.len() {
                        seek(data, end, tag)
                    } else {
                        Err(CodecError::UnexpectedEof)
                    },
                }
            },
        }
    }
}

/// An integer field read at `tag` into a target of `width` bytes: the value
/// and the new position. An absent field reads as zero, or fails if required.
pub open spec fn spec_read_int(data: Seq<u8>, pos: int, tag: u8, require: bool, width: int)
    -> Result<(int, int), CodecError> {
    match seek(data, pos, tag) {
        Err(e) => Err(e),
        Ok(Seek::Absent { at }) => if require {
            Err(CodecError::RequiredTagNotFound(tag))
        } else {
            Ok((0, at))
        },
        Ok(Seek::Found { head, at }) => int_payload(data, at, head.ty, width),
    }
}

/// A bool field: an int8 field that is not zero.
pub open spec fn spec_read_bool(data: Seq<u8>, pos: int, tag: u8, require: bool) -> Result<
    (bool, int),
    CodecError,
> {
    match spec_read_int(data, pos, tag, require, 1) {
        Ok((v, end)) => Ok((v != 0, end)),
        Err(e) => Err(e),
    }
}

/// A floating-point number as it stands on the wire: its IEEE-754 bit
/// pattern, in single or in double precision.
#[derive(Debug, Clone, Copy, PartialEq, Eq, Structural)]
pub enum FloatBits {
    /// Four bytes.
    Single(u32),
    /// Eight bytes.
    Double(u64),
}

/// A float field read at `tag`: the bit pattern and the new position. An
/// absent field and a zero-tag read as +0.0.
pub open spec fn spec_read_float(data: Seq<u8>, pos: int, tag: u8, require: bool) -> Result<
    (int, int),
    CodecError,
> {
    match seek(data, pos, tag) {
        Err(e) => Err(e),
        Ok(Seek::Absent { at }) => if require {
            Err(CodecError::RequiredTagNotFound(tag))
        } else {
            Ok((0, at))
        },
        Ok(Seek::Found { head, at }) => match head.ty {
            TarsType::ZeroTag => Ok((0, at)),
            TarsType::Float => match take(data, at, 4) {
                Ok(end) => Ok(
                    (from_be32(data[at], data[at + 1], data[at + 2], data[at + 3]), end),
                ),
                Err(e) => Err(e),
            },
            _ => Err(CodecError::TypeMismatch(head.ty)),
        },
    }
}

/// A double field read at `tag`: a float on the wire is accepted and keeps
/// its precision. An absent field and a zero-tag read as +0.0.
pub open spec fn spec_read_double(data: Seq<u8>, pos: int, tag: u8, require: bool) -> Result<
    (FloatBits, int),
    CodecError,
> {
    match seek(data, pos, tag) {
        Err(e) => Err(e),
        Ok(Seek::Absent { at }) => if require {
            Err(CodecError::RequiredTagNotFound(tag))
        } else {
            Ok((FloatBits::Double(0), at))
        },
        Ok(Seek::Found { head, at }) => match head.ty {
            TarsType::ZeroTag => Ok((FloatBits::Double(0), at)),
            TarsType::Float => match take(data, at, 4) {
                Ok(end) => Ok(
                    (
                        FloatBits::Single(
                            from_be32(data[at], data[at + 1], data[at + 2], data[at + 3]) as u32,
                        ),
                        end,
                    ),
                ),
                Err(e) => Err(e),
            },
            TarsType::Double => match take(data, at, 8) {
                Ok(end) => Ok((FloatBits::Double(from_be64(data.subrange(at, at + 8)) as u64), end)),
                Err(e) => Err(e),
            },
            _ => Err(CodecError::TypeMismatch(head.ty)),
        },
    }
}

/// The `len` bytes at `pos` as text.
pub open spec fn text_at(data: Seq<u8>, pos: int, len: int) -> Result<(Seq<char>, int), CodecError> {
    match take(data, pos, len) {
        Err(e) => Err(e),
        Ok(end) => if valid_utf8(data.subrange(pos, end)) {
            Ok((decode_utf8(data.subrange(pos, end)), end))
        } else {
            Err(CodecError::InvalidUtf8)
        },
    }
}

/// The string whose payload of type `ty` starts at `pos`.
pub open spec fn string_payload(data: Seq<u8>, pos: int, ty: TarsType) -> Result<
    (Seq<char>, int),
    CodecError,
> {
    match ty {
        TarsType::String1 => match take(data, pos, 1) {
            Ok(at) => text_at(data, at, data[pos] as int),
            Err(e) => Err(e),
        },
        TarsType::String4 => match take(data, pos, 4) {
            Ok(at) => text_at(
                data,
                at,
                from_be32(data[pos], data[pos + 1], data[pos + 2], data[pos + 3]),
            ),
            Err(e) => Err(e),
        },
        _ => Err(CodecError::TypeMismatch(ty)),
    }
}

/// A string field read at `tag`. An absent field reads as the empty string.
pub open spec fn spec_read_string(data: Seq<u8>, pos: int, tag: u8, require: bool) -> Result<
    (Seq<char>, int),
    CodecError,
> {
    match seek(data, pos, tag) {
        Err(e) => Err(e),
        Ok(Seek::Absent { at }) => if require {
            Err(CodecError::RequiredTagNotFound(tag))
        } else {
            Ok((Seq::empty(), at))
        },
        Ok(Seek::Found { head, at }) => string_payload(data, at, head.ty),
    }
}

/// `n` list elements from `pos` on, each an int8 or a zero-tag with its
/// head, as bytes.
pub open spec fn byte_elements(data: Seq<u8>, pos: int, n: int) -> Result<
    (Seq<u8>, int),
    CodecError,
>
    decreases n,
{
    if n <= 0 {
        Ok((Seq::empty(), pos))
    } else {
        match byte_elements(data, pos, n - 1) {
            Err(e) => Err(e),
            Ok((front, at)) => match spec_read_head(data, at) {
                Err(e) => Err(e),
                Ok((head, next)) => match head.ty {
                    TarsType::ZeroTag => Ok((front.push(0u8), next)),
                    TarsType::Byte => match take(data, next, 1) {
                        Ok(end) => Ok((front.push(data[next]), end)),
                        Err(e) => Err(e),
                    },
                    _ => Err(CodecError::TypeMismatch(head.ty)),
                },
            },
        }
    }
}

/// The byte array whose payload of type `ty` starts at `pos`: a simple list
/// (inner head, length, raw bytes) or a list of int8 elements.
pub open spec fn bytes_payload(data: Seq<u8>, pos: int, ty: TarsType) -> Result<
    (Seq<u8>, int),
    CodecError,
> {
    match ty {
        TarsType::SimpleList => match spec_read_head(data, pos) {
            Err(e) => Err(e),
            Ok((_, at)) => match spec_read_count(data, at) {
                Err(e) => Err(e),
                Ok((len, start)) => if len < 0 {
                    Err(CodecError::NegativeLength)
                } else {
                    match take(data, start, len) {
                        Ok(end) => Ok((data.subrange(start, end), end)),
                        Err(e) => Err(e),
                    }
                },
            },
        },
        TarsType::List => match spec_read_count(data, pos) {
            Err(e) => Err(e),
            Ok((len, start)) => if len < 0 {
                Err(CodecError::NegativeLength)
            } else {
                byte_elements(data, start, len)
            },
        },
        _ => Err(CodecError::TypeMismatch(ty)),
    }
}

/// A byte-array field read at `tag`. An absent field reads as no bytes.
pub open spec fn spec_read_bytes(data: Seq<u8>, pos: int, tag: u8, require: bool) -> Result<
    (Seq<u8>, int),
    CodecError,
> {
    match seek(data, pos, tag) {
        Err(e) => Err(e),
        Ok(Seek::Absent { at }) => if require {
            Err(CodecError::RequiredTagNotFound(tag))
        } else {
            Ok((Seq::empty(), at))
        },
        Ok(Seek::Found { head, at }) => bytes_payload(data, at, head.ty),
    }
}

/// The opening of a container of type `ty` read at `tag`: its element
/// count, or `None` where the field is absent.
pub open spec fn spec_read_begin(data: Seq<u8>, pos: int, tag: u8, require: bool, ty: TarsType)
    -> Result<(Option<int>, int), CodecError> {
    match seek(data, pos, tag) {
        Err(e) => Err(e),
        Ok(Seek::Absent { at }) => if require {
            Err(CodecError::RequiredTagNotFound(tag))
        } else {
            Ok((None, at))
        },
        Ok(Seek::Found { head, at }) => if head.ty != ty {
            Err(CodecError::TypeMismatch(head.ty))
        } else {
            match spec_read_count(data, at) {
                Ok((n, end)) => Ok((Some(n), end)),
                Err(e) => Err(e),
            }
        },
    }
}

/// Whether a field of type `ty` stands at `tag`: the cursor then rests
/// behind its head.
pub open spec fn spec_enter(data: Seq<u8>, pos: int, tag: u8, require: bool, ty: TarsType)
    -> Result<(bool, int), CodecError> {
    match seek(data, pos, tag) {
        Err(e) => Err(e),
        Ok(Seek::Absent { at }) => if require {
            Err(CodecError::RequiredTagNotFound(tag))
        } else {
            Ok((false, at))
        },
        Ok(Seek::Found { head, at }) => if head.ty != ty {
            Err(CodecError::TypeMismatch(head.ty))
        } else {
            Ok((true, at))
        },
    }
}

/// One map entry at `pos`: a required string at tag 0, then a required
/// string at tag 1.
#[verifier::opaque]
pub open spec fn string_pair(data: Seq<u8>, pos: int) -> Result<
    ((Seq<char>, Seq<char>), int),
    CodecError,
> {
    match spec_read_string(data, pos, 0, true) {
        Err(e) => Err(e),
        Ok((key, mid)) => match spec_read_string(data, mid, 1, true) {
            Err(e) => Err(e),
            Ok((value, end)) => Ok(((key, value), end)),
        },
    }
}

/// The map that `n` entries from `pos` on build: each entry is set in turn,
/// so of two entries with one key the later value stays, at the place of
/// the earlier.
pub open spec fn string_pairs(data: Seq<u8>, pos: int, n: int) -> Result<(Entries, int), CodecError>
    decreases n,
{
    if n <= 0 {
        Ok((Seq::empty(), pos))
    } else {
        match string_pairs(data, pos, n - 1) {
            Err(e) => Err(e),
            Ok((front, at)) => match string_pair(data, at) {
                Err(e) => Err(e),
                Ok((entry, end)) => Ok((put(front, entry.0, entry.1), end)),
            },
        }
    }
}

/// A string-to-string map field read at `tag`. An absent field reads as the
/// empty map; a negative size is an error.
pub open spec fn spec_read_string_map(data: Seq<u8>, pos: int, tag: u8, require: bool) -> Result<
    (Entries, int),
    CodecError,
> {
    match spec_read_begin(data, pos, tag, require, TarsType::Mapping) {
        Err(e) => Err(e),
        Ok((None, at)) => Ok((Seq::empty(), at)),
        Ok((Some(n), at)) => if n < 0 {
            Err(CodecError::NegativeLength)
        } else {
            string_pairs(data, at, n)
        },
    }
}

/// An error among the first `n` entries is the error of any longer read.
pub proof fn lemma_string_pairs_error(data: Seq<u8>, pos: int, n: int, m: int)
    requires
        n <= m,
    ensures
        string_pairs(data, pos, n) is Err ==> string_pairs(data, pos, m) == string_pairs(
            data,
            pos,
            n,
        ),
    decreases m - n,
{
    if n < m {
        lemma_string_pairs_error(data, pos, n, m - 1);
        if string_pairs(data, pos, n) is Err {
            assert(m > 0) by {
                if n <= 0 {
                    assert(string_pairs(data, pos, n) is Ok);
                }
            }
        }
    }
}

} // verus!
