//! Wire type codes, heads and frame boundaries.

use vstd::prelude::*;

use super::wire::from_be32;
use crate::consts::MAX_PACKAGE_LENGTH;

verus! {

/// The fourteen wire type codes.
#[derive(Debug, Clone, Copy, PartialEq, Eq, Structural)]
pub enum TarsType {
    /// int8
    Byte,
    /// int16
    Short,
    /// int32
    Int,
    /// int64
    Long,
    /// float32
    Float,
    /// float64
    Double,
    /// String with a one-byte length
    String1,
    /// String with a four-byte length
    String4,
    /// Map
    Mapping,
    /// List
    List,
    /// Struct begin marker
    StructBegin,
    /// Struct end marker
    StructEnd,
    /// Numeric zero, no payload
    ZeroTag,
    /// Byte array
    SimpleList,
}

impl TarsType {
    /// The wire code of this type.
    pub open spec fn code(self) -> u8 {
        match self {
            TarsType::Byte => 0,
            TarsType::Short => 1,
            TarsType::Int => 2,
            TarsType::Long => 3,
            TarsType::Float => 4,
            TarsType::Double => 5,
            TarsType::String1 => 6,
            TarsType::String4 => 7,
            TarsType::Mapping => 8,
            TarsType::List => 9,
            TarsType::StructBegin => 10,
            TarsType::StructEnd => 11,
            TarsType::ZeroTag => 12,
            TarsType::SimpleList => 13,
        }
    }

    /// The type with the given wire code, if there is one.
    pub open spec fn of_code(value: u8) -> Option<TarsType> {
        match value {
            0 => Some(TarsType::Byte),
            1 => Some(TarsType::Short),
            2 => Some(TarsType::Int),
            3 => Some(TarsType::Long),
            4 => Some(TarsType::Float),
            5 => Some(TarsType::Double),
            6 => Some(TarsType::String1),
            7 => Some(TarsType::String4),
            8 => Some(TarsType::Mapping),
            9 => Some(TarsType::List),
            10 => Some(TarsType::StructBegin),
            11 => Some(TarsType::StructEnd),
            12 => Some(TarsType::ZeroTag),
            13 => Some(TarsType::SimpleList),
            _ => None,
        }
    }

    /// Type for a wire code; `None` for codes above 13.
    pub fn from_u8(value: u8) -> (r: Option<TarsType>)
        ensures
            r == TarsType::of_code(value),
            r is Some <==> value <= 13,
    {
        match value {
            0 => Some(TarsType::Byte),
            1 => Some(TarsType::Short),
            2 => Some(TarsType::Int),
            3 => Some(TarsType::Long),
            4 => Some(TarsType::Float),
            5 => Some(TarsType::Double),
            6 => Some(TarsType::String1),
            7 => Some(TarsType::String4),
            8 => Some(TarsType::Mapping),
            9 => Some(TarsType::List),
            10 => Some(TarsType::StructBegin),
            11 => Some(TarsType::StructEnd),
            12 => Some(TarsType::ZeroTag),
            13 => Some(TarsType::SimpleList),
            _ => None,
        }
    }

    /// Wire code of this type.
    pub fn as_u8(self) -> (r: u8)
        ensures
            r == self.code(),
            r <= 13,
    {
        match self {
            TarsType::Byte => 0,
            TarsType::Short => 1,
            TarsType::Int => 2,
            TarsType::Long => 3,
            TarsType::Float => 4,
            TarsType::Double => 5,
            TarsType::String1 => 6,
            TarsType::String4 => 7,
            TarsType::Mapping => 8,
            TarsType::List => 9,
            TarsType::StructBegin => 10,
            TarsType::StructEnd => 11,
            TarsType::ZeroTag => 12,
            TarsType::SimpleList => 13,
        }
    }
}

/// Every type is found again from its code.
pub proof fn law_type_code_roundtrip(ty: TarsType)
    ensures
        TarsType::of_code(ty.code()) == Some(ty),
        ty.code() <= 13,
{
}

/// Every valid code is the code of the type it names.
pub proof fn law_code_type_roundtrip(value: u8)
    requires
        value <= 13,
    ensures
        TarsType::of_code(value) is Some,
        TarsType::of_code(value)->0.code() == value,
{
}

/// A field's type and tag.
#[derive(Debug, Clone, Copy, PartialEq, Eq, Structural)]
pub struct Head {
    /// Data type
    pub ty: TarsType,
    /// Field tag
    pub tag: u8,
}

impl Head {
    /// A head of the given type and tag.
    pub fn new(ty: TarsType, tag: u8) -> (h: Head)
        ensures
            h.ty == ty,
            h.tag == tag,
    {
        Head { ty, tag }
    }

    /// Whether this head stands for a numeric zero.
    pub fn is_zero(&self) -> (r: bool)
        ensures
            r == (self.ty == TarsType::ZeroTag),
    {
        self.ty == TarsType::ZeroTag
    }

    /// Whether this head closes a struct.
    pub fn is_struct_end(&self) -> (r: bool)
        ensures
            r == (self.ty == TarsType::StructEnd),
    {
        self.ty == TarsType::StructEnd
    }
}

/// What a buffer holds at its front.
#[derive(Debug, Clone, Copy, PartialEq, Eq, Structural)]
pub enum PackageStatus {
    /// A whole frame is there.
    Full,
    /// More bytes are needed.
    Less,
    /// The length prefix is out of range.
    Error,
}

/// The length a frame announces in its first four bytes.
pub open spec fn frame_length(data: Seq<u8>) -> int
    recommends
        data.len() >= 4,
{
    from_be32(data[0], data[1], data[2], data[3])
}

/// Frame boundary of `data`: the frame's length and `Full`, or 0 with `Less`
/// or `Error`. A frame is its four-byte prefix and a body that is not
/// empty: a length of 4 or less is an error, and so is one over 100 MiB.
pub open spec fn spec_parse_package(data: Seq<u8>) -> (int, PackageStatus) {
    if data.len() < 4 {
        (0, PackageStatus::Less)
    } else if frame_length(data) <= 4 || frame_length(data) > MAX_PACKAGE_LENGTH {
        (0, PackageStatus::Error)
    } else if data.len() < frame_length(data) {
        (0, PackageStatus::Less)
    } else {
        (frame_length(data), PackageStatus::Full)
    }
}

/// Reads four bytes at `at` as a big-endian unsigned number.
pub fn read_be_u32(data: &[u8], at: usize) -> (r: u32)
    requires
        at + 4 <= data@.len(),
    ensures
        r == from_be32(data@[at as int], data@[at + 1], data@[at + 2], data@[at + 3]),
{
    let b0: u32 = data[at] as u32;
    let b1: u32 = data[at + 1] as u32;
    let b2: u32 = data[at + 2] as u32;
    let b3: u32 = data[at + 3] as u32;
    b0 * 16777216 + b1 * 65536 + b2 * 256 + b3
}

/// Looks for one length-prefixed frame at the front of `data`.
///
/// Returns the frame's total length with `Full`; `Less` when the prefix or
/// the body is not all there yet; `Error` when the announced length leaves
/// no room for a body, being 4 or less, or is over the 100 MiB limit.
pub fn parse_package(data: &[u8]) -> (r: (usize, PackageStatus))
    ensures
        r.0 as int == spec_parse_package(data@).0,
        r.1 == spec_parse_package(data@).1,
        r.1 == PackageStatus::Full ==> 4 < r.0 <= data@.len(),
        r.1 != PackageStatus::Full ==> r.0 == 0,
{
    if data.len() < 4 {
        return (0, PackageStatus::Less);
    }
    let header_len: u32 = read_be_u32(data, 0);
    if header_len <= 4 || header_len > MAX_PACKAGE_LENGTH {
        return (0, PackageStatus::Error);
    }
    if data.len() < header_len as usize {
        return (0, PackageStatus::Less);
    }
    (header_len as usize, PackageStatus::Full)
}

} // verus!
