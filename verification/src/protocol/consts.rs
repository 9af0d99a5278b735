//! Protocol constants.

use vstd::prelude::*;

verus! {

/// Protocol version.
#[derive(Debug, Clone, Copy, PartialEq, Eq, Structural)]
pub enum TarsVersion {
    /// Standard protocol, 1 on the wire
    Tars,
    /// TUP protocol, 2 on the wire
    Tup,
    /// JSON protocol, 3 on the wire
    Json,
}

impl TarsVersion {
    /// The number that stands for this version on the wire.
    pub open spec fn number(self) -> i16 {
        match self {
            TarsVersion::Tars => 1,
            TarsVersion::Tup => 2,
            TarsVersion::Json => 3,
        }
    }

    /// The version that a number stands for; none for numbers other than 1,
    /// 2 and 3.
    pub fn from_i16(value: i16) -> (r: Option<TarsVersion>)
        ensures
            r is Some <==> 1 <= value <= 3,
            r is Some ==> r->0.number() == value,
    {
        match value {
            1 => Some(TarsVersion::Tars),
            2 => Some(TarsVersion::Tup),
            3 => Some(TarsVersion::Json),
            _ => None,
        }
    }

    /// The number that stands for this version.
    pub fn as_i16(self) -> (r: i16)
        ensures
            r == self.number(),
    {
        match self {
            TarsVersion::Tars => 1,
            TarsVersion::Tup => 2,
            TarsVersion::Json => 3,
        }
    }
}

/// Packet type.
#[derive(Debug, Clone, Copy, PartialEq, Eq, Structural)]
pub enum PacketType {
    /// Request that expects a response, 0 on the wire
    Normal,
    /// Request without a response, 1 on the wire
    Oneway,
}

impl PacketType {
    /// The number that stands for this packet type on the wire.
    pub open spec fn number(self) -> i8 {
        match self {
            PacketType::Normal => 0,
            PacketType::Oneway => 1,
        }
    }

    /// The packet type that a number stands for; none for numbers other
    /// than 0 and 1.
    pub fn from_i8(value: i8) -> (r: Option<PacketType>)
        ensures
            r is Some <==> 0 <= value <= 1,
            r is Some ==> r->0.number() == value,
    {
        match value {
            0 => Some(PacketType::Normal),
            1 => Some(PacketType::Oneway),
            _ => None,
        }
    }

    /// The number that stands for this packet type.
    pub fn as_i8(self) -> (r: i8)
        ensures
            r == self.number(),
    {
        match self {
            PacketType::Normal => 0,
            PacketType::Oneway => 1,
        }
    }
}

/// Message type flags, a set of bits.
#[derive(Debug, Clone, Copy, PartialEq, Eq, Structural)]
pub struct MessageType(pub i32);

impl MessageType {
    /// No flag.
    pub fn null() -> (m: MessageType)
        ensures
            m.0 == 0,
    {
        MessageType(0)
    }

    /// The request is dyed.
    pub fn dyed() -> (m: MessageType)
        ensures
            m.0 == 4,
    {
        MessageType(4)
    }

    /// The request is traced.
    pub fn trace() -> (m: MessageType)
        ensures
            m.0 == 8,
    {
        MessageType(8)
    }

    /// Whether any bit of `flag` is set.
    pub fn has_flag(&self, flag: MessageType) -> (r: bool)
        ensures
            r == ((self.0 & flag.0) != 0),
    {
        (self.0 & flag.0) != 0
    }

    /// Sets the bits of `flag`.
    pub fn add_flag(&mut self, flag: MessageType)
        ensures
            final(self).0 == old(self).0 | flag.0,
    {
        self.0 = self.0 | flag.0;
    }

    /// Clears the bits of `flag`.
    pub fn remove_flag(&mut self, flag: MessageType)
        ensures
            final(self).0 == old(self).0 & !flag.0,
    {
        self.0 = self.0 & !flag.0;
    }
}

/// A flag that was added is set, whatever was set before; other single-bit
/// flags stay as they were.
pub proof fn law_add_flag(bits: i32, flag: i32, other: i32)
    requires
        flag != 0,
    ensures
        ((bits | flag) & flag) != 0,
        (other & flag) == 0 ==> ((bits | flag) & other) == (bits & other),
{
    assert(((bits | flag) & flag) != 0) by (bit_vector)
        requires
            flag != 0,
    ;
    assert((other & flag) == 0 ==> ((bits | flag) & other) == (bits & other)) by (bit_vector);
}

/// A flag that was removed is no longer set; flags that share no bit with
/// it stay as they were.
pub proof fn law_remove_flag(bits: i32, flag: i32, other: i32)
    ensures
        ((bits & !flag) & flag) == 0,
        (other & flag) == 0 ==> ((bits & !flag) & other) == (bits & other),
{
    assert(((bits & !flag) & flag) == 0) by (bit_vector);
    assert((other & flag) == 0 ==> ((bits & !flag) & other) == (bits & other)) by (bit_vector);
}

/// Return codes.
#[derive(Debug, Clone, Copy, PartialEq, Eq, Structural)]
pub enum ReturnCode {
    /// Success, 0
    Success,
    /// Decode error, -1
    DecodeError,
    /// Queue timeout, -2
    QueueTimeout,
    /// Invoke timeout, -3
    InvokeTimeout,
    /// Unknown error, -99
    UnknownError,
}

impl ReturnCode {
    /// The number that stands for this return code on the wire.
    pub open spec fn number(self) -> i32 {
        match self {
            ReturnCode::Success => 0i32,
            ReturnCode::DecodeError => (-1i32),
            ReturnCode::QueueTimeout => (-2i32),
            ReturnCode::InvokeTimeout => (-3i32),
            ReturnCode::UnknownError => (-99i32),
        }
    }

    /// The return code that a number stands for, if it is one of the five.
    pub fn from_i32(value: i32) -> (r: Option<ReturnCode>)
        ensures
            r is Some <==> (value == 0 || value == -1 || value == -2 || value == -3 || value
                == -99),
            r is Some ==> r->0.number() == value,
    {
        match value {
            0 => Some(ReturnCode::Success),
            -1 => Some(ReturnCode::DecodeError),
            -2 => Some(ReturnCode::QueueTimeout),
            -3 => Some(ReturnCode::InvokeTimeout),
            -99 => Some(ReturnCode::UnknownError),
            _ => None,
        }
    }

    /// The number that stands for this return code.
    pub fn as_i32(self) -> (r: i32)
        ensures
            r == self.number(),
    {
        match self {
            ReturnCode::Success => 0,
            ReturnCode::DecodeError => -1,
            ReturnCode::QueueTimeout => -2,
            ReturnCode::InvokeTimeout => -3,
            ReturnCode::UnknownError => -99,
        }
    }

    /// Whether a return code on the wire means success.
    pub fn is_success(value: i32) -> (r: bool)
        ensures
            r == (value == 0),
    {
        value == 0
    }
}

/// Transport protocol types.
#[derive(Debug, Clone, Copy, PartialEq, Eq, Structural)]
pub enum TransportProtocol {
    /// UDP, 0
    Udp,
    /// TCP, 1
    Tcp,
    /// SSL/TLS, 2
    Ssl,
}

impl TransportProtocol {
    /// The number that stands for this transport.
    pub open spec fn number(self) -> i32 {
        match self {
            TransportProtocol::Udp => 0,
            TransportProtocol::Tcp => 1,
            TransportProtocol::Ssl => 2,
        }
    }

    /// The name of this transport in endpoint strings.
    pub open spec fn name(self) -> Seq<char> {
        match self {
            TransportProtocol::Udp => "udp"@,
            TransportProtocol::Tcp => "tcp"@,
            TransportProtocol::Ssl => "ssl"@,
        }
    }

    /// The transport that a number stands for; none for numbers other than
    /// 0, 1 and 2.
    pub fn from_i32(value: i32) -> (r: Option<TransportProtocol>)
        ensures
            r is Some <==> 0 <= value <= 2,
            r is Some ==> r->0.number() == value,
    {
        match value {
            0 => Some(TransportProtocol::Udp),
            1 => Some(TransportProtocol::Tcp),
            2 => Some(TransportProtocol::Ssl),
            _ => None,
        }
    }

    /// The number that stands for this transport.
    pub fn as_i32(self) -> (r: i32)
        ensures
            r == self.number(),
    {
        match self {
            TransportProtocol::Udp => 0,
            TransportProtocol::Tcp => 1,
            TransportProtocol::Ssl => 2,
        }
    }

    /// The name of this transport: "udp", "tcp" or "ssl".
    pub fn as_str(&self) -> (r: &'static str)
        ensures
            r@ == self.name(),
    {
        match self {
            TransportProtocol::Udp => "udp",
            TransportProtocol::Tcp => "tcp",
            TransportProtocol::Ssl => "ssl",
        }
    }
}

} // verus!
