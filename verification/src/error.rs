//! Error types of the framework.

use vstd::prelude::*;

use crate::codec::types::TarsType;

verus! {

/// What went wrong while encoding or decoding tag-length-value bytes.
#[derive(Debug, Clone, Copy, PartialEq, Eq, Structural)]
pub enum CodecError {
    /// The input ended inside a head or a payload.
    UnexpectedEof,
    /// The low nibble of a head byte is not one of the fourteen type codes.
    UnknownType(u8),
    /// The field is present but its wire type cannot represent the requested value.
    TypeMismatch(TarsType),
    /// A string payload is not valid UTF-8.
    InvalidUtf8,
    /// A required field is absent.
    RequiredTagNotFound(u8),
    /// A length or element count on the wire is negative.
    NegativeLength,
    /// A length or element count does not fit the wire's length field.
    LengthOverflow,
}

/// Error kinds of the framework.
#[derive(Debug, Clone, PartialEq, Eq)]
pub enum TarsError {
    /// Malformed bytes, type mismatch, missing required tag, invalid UTF-8.
    Codec(CodecError),
    /// Frame length out of range, parse error on an assembled packet.
    Protocol(String),
    /// Underlying I/O failure, described by its message.
    Transport(String),
    /// A dial, read, write or invoke ran out of time (milliseconds).
    Timeout(u64),
    /// The selector had no endpoint to offer.
    NoEndpoint,
    /// The object name has no registry entry.
    ServiceNotFound(String),
    /// The peer answered with a non-zero return code.
    ServerError { code: i32, message: String },
    /// Invalid locator, malformed certificate, invalid address.
    Config(String),
    /// The per-proxy in-flight cap was hit.
    QueueFull,
    /// A pending entry was abandoned because the connection ended.
    ConnectionClosed,
    /// An argument was rejected.
    InvalidArgument(String),
}

} // verus!
