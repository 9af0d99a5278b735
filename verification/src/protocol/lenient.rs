//! Optional fields that fall back to a default where they cannot be read.

use vstd::prelude::*;

use crate::codec::decode::{spec_read_bool, spec_read_int, spec_read_string};
use crate::codec::Reader;

verus! {

/// An optional int32 field: the value read, or `default` and an unmoved
/// cursor where the read fails.
pub open spec fn int_or(data: Seq<u8>, pos: int, tag: u8, default: int) -> (int, int) {
    match spec_read_int(data, pos, tag, false, 4) {
        Ok((v, end)) => (v, end),
        Err(_) => (default, pos),
    }
}

/// An optional bool field: the value read, or `default` and an unmoved
/// cursor where the read fails.
pub open spec fn bool_or(data: Seq<u8>, pos: int, tag: u8, default: bool) -> (bool, int) {
    match spec_read_bool(data, pos, tag, false) {
        Ok((v, end)) => (v, end),
        Err(_) => (default, pos),
    }
}

/// An optional string field: the value read, or `default` and an unmoved
/// cursor where the read fails.
pub open spec fn string_or(data: Seq<u8>, pos: int, tag: u8, default: Seq<char>) -> (
    Seq<char>,
    int,
) {
    match spec_read_string(data, pos, tag, false) {
        Ok((v, end)) => (v, end),
        Err(_) => (default, pos),
    }
}

/// Reads an optional int32 field, or gives `default` where the read fails.
pub fn read_int32_or(reader: &mut Reader, tag: u8, default: i32) -> (v: i32)
    ensures
        final(reader).input() == old(reader).input(),
        v == int_or(old(reader).input(), old(reader).offset(), tag, default as int).0,
        final(reader).offset() == int_or(
            old(reader).input(),
            old(reader).offset(),
            tag,
            default as int,
        ).1,
{
    match reader.read_int32(tag, false) {
        Ok(v) => v,
        Err(_) => default,
    }
}

/// Reads an optional bool field, or gives `default` where the read fails.
pub fn read_bool_or(reader: &mut Reader, tag: u8, default: bool) -> (v: bool)
    ensures
        final(reader).input() == old(reader).input(),
        v == bool_or(old(reader).input(), old(reader).offset(), tag, default).0,
        final(reader).offset() == bool_or(
            old(reader).input(),
            old(reader).offset(),
            tag,
            default,
        ).1,
{
    match reader.read_bool(tag, false) {
        Ok(v) => v,
        Err(_) => default,
    }
}

/// Reads an optional string field, or gives `default` where the read fails.
pub fn read_string_or(reader: &mut Reader, tag: u8, default: &str) -> (v: String)
    ensures
        final(reader).input() == old(reader).input(),
        v@ == string_or(old(reader).input(), old(reader).offset(), tag, default@).0,
        final(reader).offset() == string_or(
            old(reader).input(),
            old(reader).offset(),
            tag,
            default@,
        ).1,
{
    match reader.read_string(tag, false) {
        Ok(v) => v,
        Err(_) => default.to_owned(),
    }
}

} // verus!
