//! Request and response packets.

use vstd::prelude::*;
use vstd::slice::slice_subrange;

use crate::codec::decode::{
    spec_read_bytes, spec_read_int, spec_read_string, spec_read_string_map,
};
use crate::codec::string_map::Entries;
use crate::codec::types::{frame_length, read_be_u32};
use crate::codec::wire::{
    bytes_field, encodable_entries, encodable_text, framed, int_field, string_field,
    string_map_field,
};
use crate::codec::{Buffer, Reader, StringMap};
use crate::consts::{
    DEFAULT_ASYNC_TIMEOUT, TARS_NORMAL, TARS_ONEWAY, TARS_SERVER_QUEUE_TIMEOUT,
    TARS_SERVER_SUCCESS, TARS_VERSION,
};
use crate::error::{CodecError, TarsError};

verus! {

/// The body of a frame: what stands behind the length prefix, or all of
/// `data` where its first four bytes do not spell its length.
pub open spec fn unframed(data: Seq<u8>) -> Seq<u8> {
    if data.len() >= 4 && frame_length(data) == data.len() {
        data.subrange(4, data.len() as int)
    } else {
        data
    }
}

/// Strips the length prefix where `data` starts with its own length.
pub fn strip_length_prefix(data: &[u8]) -> (body: &[u8])
    ensures
        body@ == unframed(data@),
{
    if data.len() >= 4 {
        let len: u32 = read_be_u32(data, 0);
        if len as usize == data.len() {
            return slice_subrange(data, 4, data.len());
        }
    }
    data
}

/// Request packet.
#[derive(Debug)]
pub struct RequestPacket {
    /// Protocol version (tag 1)
    pub i_version: i16,
    /// Packet type: 0=normal, 1=oneway (tag 2)
    pub c_packet_type: i8,
    /// Message type flags (tag 3)
    pub i_message_type: i32,
    /// Request ID (tag 4)
    pub i_request_id: i32,
    /// Servant name (tag 5)
    pub s_servant_name: String,
    /// Function name (tag 6)
    pub s_func_name: String,
    /// Request buffer (tag 7)
    pub s_buffer: Vec<u8>,
    /// Timeout in milliseconds (tag 8)
    pub i_timeout: i32,
    /// Context map (tag 9)
    pub context: StringMap,
    /// Status map (tag 10)
    pub status: StringMap,
}

/// A request packet as mathematics.
pub struct RequestView {
    pub version: i16,
    pub packet_type: i8,
    pub message_type: i32,
    pub request_id: i32,
    pub servant_name: Seq<char>,
    pub func_name: Seq<char>,
    pub buffer: Seq<u8>,
    pub timeout: i32,
    pub context: Entries,
    pub status: Entries,
}

impl View for RequestPacket {
    type V = RequestView;

    open spec fn view(&self) -> RequestView {
        RequestView {
            version: self.i_version,
            packet_type: self.c_packet_type,
            message_type: self.i_message_type,
            request_id: self.i_request_id,
            servant_name: self.s_servant_name@,
            func_name: self.s_func_name@,
            buffer: self.s_buffer@,
            timeout: self.i_timeout,
            context: self.context@,
            status: self.status@,
        }
    }
}

/// The fields of a request in tag order, without the length prefix.
pub open spec fn request_body(v: RequestView) -> Seq<u8> {
    int_field(v.version as int, 1) + int_field(v.packet_type as int, 2) + int_field(
        v.message_type as int,
        3,
    ) + int_field(v.request_id as int, 4) + string_field(v.servant_name, 5) + string_field(
        v.func_name,
        6,
    ) + bytes_field(v.buffer, 7) + int_field(v.timeout as int, 8) + string_map_field(v.context, 9)
        + string_map_field(v.status, 10)
}

/// Whether every field of a request fits its wire field.
pub open spec fn request_fields_encodable(v: RequestView) -> bool {
    &&& encodable_text(v.servant_name)
    &&& encodable_text(v.func_name)
    &&& v.buffer.len() <= i32::MAX
    &&& encodable_entries(v.context)
    &&& encodable_entries(v.status)
}

/// Whether a request fits a frame: every field fits, and the total length
/// fits the four-byte prefix.
pub open spec fn request_encodable(v: RequestView) -> bool {
    request_fields_encodable(v) && request_body(v).len() + 4 <= u32::MAX
}

/// A request read field by field from `pos` on; every field is optional
/// and reads as its zero where it is absent.
pub open spec fn spec_read_request(data: Seq<u8>, pos: int) -> Result<
    (RequestView, int),
    CodecError,
> {
    match spec_read_int(data, pos, 1, false, 2) {
        Err(e) => Err(e),
        Ok((version, at1)) => match spec_read_int(data, at1, 2, false, 1) {
            Err(e) => Err(e),
            Ok((packet_type, at2)) => match spec_read_int(data, at2, 3, false, 4) {
                Err(e) => Err(e),
                Ok((message_type, at3)) => match spec_read_int(data, at3, 4, false, 4) {
                    Err(e) => Err(e),
                    Ok((request_id, at4)) => match spec_read_string(data, at4, 5, false) {
                        Err(e) => Err(e),
                        Ok((servant_name, at5)) => match spec_read_string(data, at5, 6, false) {
                            Err(e) => Err(e),
                            Ok((func_name, at6)) => match spec_read_bytes(data, at6, 7, false) {
                                Err(e) => Err(e),
                                Ok((buffer, at7)) => match spec_read_int(data, at7, 8, false, 4) {
                                    Err(e) => Err(e),
                                    Ok((timeout, at8)) => match spec_read_string_map(
                                        data,
                                        at8,
                                        9,
                                        false,
                                    ) {
                                        Err(e) => Err(e),
                                        Ok((context, at9)) => match spec_read_string_map(
                                            data,
                                            at9,
                                            10,
                                            false,
                                        ) {
                                            Err(e) => Err(e),
                                            Ok((status, at10)) => Ok(
                                                (
                                                    RequestView {
                                                        version: version as i16,
                                                        packet_type: packet_type as i8,
                                                        message_type: message_type as i32,
                                                        request_id: request_id as i32,
                                                        servant_name,
                                                        func_name,
                                                        buffer,
                                                        timeout: timeout as i32,
                                                        context,
                                                        status,
                                                    },
                                                    at10,
                                                ),
                                            ),
                                        },
                                    },
                                },
                            },
                        },
                    },
                },
            },
        },
    }
}

/// A request decoded from bytes with or without the length prefix.
pub open spec fn spec_decode_request(data: Seq<u8>) -> Result<RequestView, CodecError> {
    match spec_read_request(unframed(data), 0) {
        Ok((v, _)) => Ok(v),
        Err(e) => Err(e),
    }
}

impl RequestPacket {
    /// A request with the protocol's version, packet type normal, the
    /// default timeout and everything else empty.
    pub fn new() -> (p: RequestPacket)
        ensures
            p.i_version == TARS_VERSION,
            p.c_packet_type == TARS_NORMAL,
            p.i_message_type == 0,
            p.i_request_id == 0,
            p.s_servant_name@.len() == 0,
            p.s_func_name@.len() == 0,
            p.s_buffer@.len() == 0,
            p.i_timeout == DEFAULT_ASYNC_TIMEOUT,
            p.context@.len() == 0,
            p.status@.len() == 0,
    {
        RequestPacket {
            i_version: TARS_VERSION,
            c_packet_type: TARS_NORMAL,
            i_message_type: 0,
            i_request_id: 0,
            s_servant_name: String::new(),
            s_func_name: String::new(),
            s_buffer: Vec::new(),
            i_timeout: 3000,
            context: StringMap::new(),
            status: StringMap::new(),
        }
    }

    /// Whether any bit of `msg_type` is set in the message flags.
    pub fn has_message_type(&self, msg_type: i32) -> (r: bool)
        ensures
            r == ((self.i_message_type & msg_type) != 0),
    {
        (self.i_message_type & msg_type) != 0
    }

    /// Sets the bits of `msg_type` in the message flags.
    pub fn add_message_type(&mut self, msg_type: i32)
        ensures
            final(self).i_message_type == old(self).i_message_type | msg_type,
            final(self)@ == (RequestView {
                message_type: old(self).i_message_type | msg_type,
                ..old(self)@
            }),
    {
        self.i_message_type = self.i_message_type | msg_type;
    }

    /// Whether this request expects no response.
    pub fn is_oneway(&self) -> (r: bool)
        ensures
            r == (self.c_packet_type == TARS_ONEWAY),
    {
        self.c_packet_type == TARS_ONEWAY
    }

    /// The request as a frame: the length prefix, then the fields in tag
    /// order. A request that does not fit is refused.
    pub fn encode(&self) -> (r: Result<Vec<u8>, TarsError>)
        ensures
            request_encodable(self@) ==> r is Ok && r->Ok_0@ == framed(request_body(self@)),
            !request_encodable(self@) ==> r == Err::<Vec<u8>, TarsError>(
                TarsError::Codec(CodecError::LengthOverflow),
            ),
    {
        let mut buf = Buffer::with_capacity(256);
        match self.write_to(&mut buf) {
            Ok(()) => {},
            Err(e) => {
                return Err(e);
            },
        }
        assert(buf@ =~= request_body(self@));
        if buf.len() > 0xFFFF_FFFBusize {
            return Err(TarsError::Codec(CodecError::LengthOverflow));
        }
        Ok(buf.to_bytes_with_length())
    }

    /// Appends the fields in tag order, without a length prefix. What was
    /// written before a field that does not fit stays.
    pub fn write_to(&self, buf: &mut Buffer) -> (r: Result<(), TarsError>)
        ensures
            request_fields_encodable(self@) ==> r is Ok && final(buf)@ == old(buf)@
                + request_body(self@),
            !request_fields_encodable(self@) ==> r == Err::<(), TarsError>(
                TarsError::Codec(CodecError::LengthOverflow),
            ),
            old(buf)@.is_prefix_of(final(buf)@),
    {
        let ghost start = buf@;
        let ghost v = self@;
        let _ = buf.write_int16(self.i_version, 1);
        let _ = buf.write_int8(self.c_packet_type, 2);
        let _ = buf.write_int32(self.i_message_type, 3);
        let _ = buf.write_int32(self.i_request_id, 4);
        let ghost ints = int_field(v.version as int, 1) + int_field(v.packet_type as int, 2)
            + int_field(v.message_type as int, 3) + int_field(v.request_id as int, 4);
        assert(buf@ =~= start + ints);
        match buf.write_string(self.s_servant_name.as_str(), 5) {
            Ok(()) => {},
            Err(e) => {
                assert(start.is_prefix_of(buf@));
                return Err(e);
            },
        }
        match buf.write_string(self.s_func_name.as_str(), 6) {
            Ok(()) => {},
            Err(e) => {
                assert(start.is_prefix_of(buf@));
                return Err(e);
            },
        }
        let ghost names = ints + string_field(v.servant_name, 5) + string_field(v.func_name, 6);
        assert(buf@ =~= start + names);
        match buf.write_bytes_as_int8_vec(self.s_buffer.as_slice(), 7) {
            Ok(()) => {},
            Err(e) => {
                assert(start.is_prefix_of(buf@));
                return Err(e);
            },
        }
        let _ = buf.write_int32(self.i_timeout, 8);
        let ghost upto8 = names + bytes_field(v.buffer, 7) + int_field(v.timeout as int, 8);
        assert(buf@ =~= start + upto8);
        match buf.write_string_map(&self.context, 9) {
            Ok(()) => {},
            Err(e) => {
                assert(start.is_prefix_of(buf@));
                return Err(e);
            },
        }
        assert(buf@ =~= start + (upto8 + string_map_field(v.context, 9)));
        match buf.write_string_map(&self.status, 10) {
            Ok(()) => {},
            Err(e) => {
                assert(start.is_prefix_of(buf@));
                return Err(e);
            },
        }
        assert(buf@ =~= start + (upto8 + string_map_field(v.context, 9) + string_map_field(
            v.status,
            10,
        )));
        assert(buf@ =~= old(buf)@ + request_body(self@));
        Ok(())
    }

    /// Decodes a request from bytes with or without the length prefix.
    pub fn decode(data: &[u8]) -> (r: Result<RequestPacket, TarsError>)
        ensures
            match spec_decode_request(data@) {
                Ok(v) => r is Ok && r->Ok_0@ == v,
                Err(e) => r == Err::<RequestPacket, TarsError>(TarsError::Codec(e)),
            },
    {
        let body = strip_length_prefix(data);
        let mut reader = Reader::new(body);
        Self::read_from(&mut reader)
    }

    /// Reads a request field by field; a missing field reads as its zero.
    pub fn read_from(reader: &mut Reader) -> (r: Result<RequestPacket, TarsError>)
        ensures
            final(reader).input() == old(reader).input(),
            match spec_read_request(old(reader).input(), old(reader).offset()) {
                Ok((v, end)) => r is Ok && r->Ok_0@ == v && final(reader).offset() == end,
                Err(e) => r == Err::<RequestPacket, TarsError>(TarsError::Codec(e)),
            },
    {
        let mut packet = Self::new();
        packet.i_version = match reader.read_int16(1, false) {
            Ok(v) => v,
            Err(e) => {
                return Err(e);
            },
        };
        packet.c_packet_type = match reader.read_int8(2, false) {
            Ok(v) => v,
            Err(e) => {
                return Err(e);
            },
        };
        packet.i_message_type = match reader.read_int32(3, false) {
            Ok(v) => v,
            Err(e) => {
                return Err(e);
            },
        };
        packet.i_request_id = match reader.read_int32(4, false) {
            Ok(v) => v,
            Err(e) => {
                return Err(e);
            },
        };
        packet.s_servant_name = match reader.read_string(5, false) {
            Ok(v) => v,
            Err(e) => {
                return Err(e);
            },
        };
        packet.s_func_name = match reader.read_string(6, false) {
            Ok(v) => v,
            Err(e) => {
                return Err(e);
            },
        };
        packet.s_buffer = match reader.read_bytes(7, false) {
            Ok(v) => v,
            Err(e) => {
                return Err(e);
            },
        };
        packet.i_timeout = match reader.read_int32(8, false) {
            Ok(v) => v,
            Err(e) => {
                return Err(e);
            },
        };
        packet.context = match reader.read_string_map(9, false) {
            Ok(v) => v,
            Err(e) => {
                return Err(e);
            },
        };
        packet.status = match reader.read_string_map(10, false) {
            Ok(v) => v,
            Err(e) => {
                return Err(e);
            },
        };
        Ok(packet)
    }
}

/// Response packet.
#[derive(Debug)]
pub struct ResponsePacket {
    /// Protocol version (tag 1)
    pub i_version: i16,
    /// Packet type (tag 2)
    pub c_packet_type: i8,
    /// Request ID (tag 3); 0 marks a push that answers no request
    pub i_request_id: i32,
    /// Message type flags (tag 4)
    pub i_message_type: i32,
    /// Return code: 0=success (tag 5)
    pub i_ret: i32,
    /// Response buffer (tag 6)
    pub s_buffer: Vec<u8>,
    /// Status map (tag 7)
    pub status: StringMap,
    /// Result description (tag 8)
    pub s_result_desc: String,
    /// Context map (tag 9)
    pub context: StringMap,
}

/// A response packet as mathematics.
pub struct ResponseView {
    pub version: i16,
    pub packet_type: i8,
    pub request_id: i32,
    pub message_type: i32,
    pub ret: i32,
    pub buffer: Seq<u8>,
    pub status: Entries,
    pub result_desc: Seq<char>,
    pub context: Entries,
}

impl View for ResponsePacket {
    type V = ResponseView;

    open spec fn view(&self) -> ResponseView {
        ResponseView {
            version: self.i_version,
            packet_type: self.c_packet_type,
            request_id: self.i_request_id,
            message_type: self.i_message_type,
            ret: self.i_ret,
            buffer: self.s_buffer@,
            status: self.status@,
            result_desc: self.s_result_desc@,
            context: self.context@,
        }
    }
}

/// The fields of a response in tag order, without the length prefix.
pub open spec fn response_body(v: ResponseView) -> Seq<u8> {
    int_field(v.version as int, 1) + int_field(v.packet_type as int, 2) + int_field(
        v.request_id as int,
        3,
    ) + int_field(v.message_type as int, 4) + int_field(v.ret as int, 5) + bytes_field(
        v.buffer,
        6,
    ) + string_map_field(v.status, 7) + string_field(v.result_desc, 8) + string_map_field(
        v.context,
        9,
    )
}

/// Whether every field of a response fits its wire field.
pub open spec fn response_fields_encodable(v: ResponseView) -> bool {
    &&& v.buffer.len() <= i32::MAX
    &&& encodable_entries(v.status)
    &&& encodable_text(v.result_desc)
    &&& encodable_entries(v.context)
}

/// Whether a response fits a frame: every field fits, and the total length
/// fits the four-byte prefix.
pub open spec fn response_encodable(v: ResponseView) -> bool {
    response_fields_encodable(v) && response_body(v).len() + 4 <= u32::MAX
}

/// A response read field by field from `pos` on; every field is optional
/// and reads as its zero where it is absent.
pub open spec fn spec_read_response(data: Seq<u8>, pos: int) -> Result<
    (ResponseView, int),
    CodecError,
> {
    match spec_read_int(data, pos, 1, false, 2) {
        Err(e) => Err(e),
        Ok((version, at1)) => match spec_read_int(data, at1, 2, false, 1) {
            Err(e) => Err(e),
            Ok((packet_type, at2)) => match spec_read_int(data, at2, 3, false, 4) {
                Err(e) => Err(e),
                Ok((request_id, at3)) => match spec_read_int(data, at3, 4, false, 4) {
                    Err(e) => Err(e),
                    Ok((message_type, at4)) => match spec_read_int(data, at4, 5, false, 4) {
                        Err(e) => Err(e),
                        Ok((ret, at5)) => match spec_read_bytes(data, at5, 6, false) {
                            Err(e) => Err(e),
                            Ok((buffer, at6)) => match spec_read_string_map(data, at6, 7, false) {
                                Err(e) => Err(e),
                                Ok((status, at7)) => match spec_read_string(data, at7, 8, false) {
                                    Err(e) => Err(e),
                                    Ok((result_desc, at8)) => match spec_read_string_map(
                                        data,
                                        at8,
                                        9,
                                        false,
                                    ) {
                                        Err(e) => Err(e),
                                        Ok((context, at9)) => Ok(
                                            (
                                                ResponseView {
                                                    version: version as i16,
                                                    packet_type: packet_type as i8,
                                                    request_id: request_id as i32,
                                                    message_type: message_type as i32,
                                                    ret: ret as i32,
                                                    buffer,
                                                    status,
                                                    result_desc,
                                                    context,
                                                },
                                                at9,
                                            ),
                                        ),
                                    },
                                },
                            },
                        },
                    },
                },
            },
        },
    }
}

/// A response decoded from bytes with or without the length prefix.
pub open spec fn spec_decode_response(data: Seq<u8>) -> Result<ResponseView, CodecError> {
    match spec_read_response(unframed(data), 0) {
        Ok((v, _)) => Ok(v),
        Err(e) => Err(e),
    }
}

impl ResponsePacket {
    /// A response with the protocol's version, packet type normal, return
    /// code 0 and everything else empty.
    pub fn new() -> (p: ResponsePacket)
        ensures
            p.i_version == TARS_VERSION,
            p.c_packet_type == TARS_NORMAL,
            p.i_request_id == 0,
            p.i_message_type == 0,
            p.i_ret == 0,
            p.s_buffer@.len() == 0,
            p.status@.len() == 0,
            p.s_result_desc@.len() == 0,
            p.context@.len() == 0,
    {
        ResponsePacket {
            i_version: TARS_VERSION,
            c_packet_type: TARS_NORMAL,
            i_request_id: 0,
            i_message_type: 0,
            i_ret: 0,
            s_buffer: Vec::new(),
            status: StringMap::new(),
            s_result_desc: String::new(),
            context: StringMap::new(),
        }
    }

    /// The response that reports success: return code 0, packet type
    /// normal, the given request and payload.
    pub fn success(request_id: i32, buffer: Vec<u8>) -> (p: ResponsePacket)
        ensures
            p.i_version == TARS_VERSION,
            p.c_packet_type == TARS_NORMAL,
            p.i_request_id == request_id,
            p.i_message_type == 0,
            p.i_ret == TARS_SERVER_SUCCESS,
            p.s_buffer == buffer,
            p.status@.len() == 0,
            p.s_result_desc@.len() == 0,
            p.context@.len() == 0,
    {
        ResponsePacket {
            i_version: TARS_VERSION,
            c_packet_type: TARS_NORMAL,
            i_request_id: request_id,
            i_message_type: 0,
            i_ret: TARS_SERVER_SUCCESS,
            s_buffer: buffer,
            status: StringMap::new(),
            s_result_desc: String::new(),
            context: StringMap::new(),
        }
    }

    /// The response that reports an error: the given return code and
    /// description, no payload.
    pub fn error(request_id: i32, ret: i32, desc: &str) -> (p: ResponsePacket)
        ensures
            p.i_version == TARS_VERSION,
            p.c_packet_type == TARS_NORMAL,
            p.i_request_id == request_id,
            p.i_message_type == 0,
            p.i_ret == ret,
            p.s_buffer@.len() == 0,
            p.status@.len() == 0,
            p.s_result_desc@ == desc@,
            p.context@.len() == 0,
    {
        ResponsePacket {
            i_version: TARS_VERSION,
            c_packet_type: TARS_NORMAL,
            i_request_id: request_id,
            i_message_type: 0,
            i_ret: ret,
            s_buffer: Vec::new(),
            status: StringMap::new(),
            s_result_desc: desc.to_owned(),
            context: StringMap::new(),
        }
    }

    /// The response that reports a queue timeout: return code -2 and the
    /// description "server invoke timeout".
    pub fn timeout(request_id: i32) -> (p: ResponsePacket)
        ensures
            p.i_version == TARS_VERSION,
            p.c_packet_type == TARS_NORMAL,
            p.i_request_id == request_id,
            p.i_message_type == 0,
            p.i_ret == TARS_SERVER_QUEUE_TIMEOUT,
            p.s_buffer@.len() == 0,
            p.status@.len() == 0,
            p.s_result_desc@ == "server invoke timeout"@,
            p.context@.len() == 0,
    {
        Self::error(request_id, TARS_SERVER_QUEUE_TIMEOUT, "server invoke timeout")
    }

    /// Whether the return code is 0.
    pub fn is_success(&self) -> (r: bool)
        ensures
            r == (self.i_ret == TARS_SERVER_SUCCESS),
    {
        self.i_ret == TARS_SERVER_SUCCESS
    }

    /// The response as a frame: the length prefix, then the fields in tag
    /// order. A response that does not fit is refused.
    pub fn encode(&self) -> (r: Result<Vec<u8>, TarsError>)
        ensures
            response_encodable(self@) ==> r is Ok && r->Ok_0@ == framed(response_body(self@)),
            !response_encodable(self@) ==> r == Err::<Vec<u8>, TarsError>(
                TarsError::Codec(CodecError::LengthOverflow),
            ),
    {
        let mut buf = Buffer::with_capacity(256);
        match self.write_to(&mut buf) {
            Ok(()) => {},
            Err(e) => {
                return Err(e);
            },
        }
        assert(buf@ =~= response_body(self@));
        if buf.len() > 0xFFFF_FFFBusize {
            return Err(TarsError::Codec(CodecError::LengthOverflow));
        }
        Ok(buf.to_bytes_with_length())
    }

    /// Appends the fields in tag order, without a length prefix. What was
    /// written before a field that does not fit stays.
    pub fn write_to(&self, buf: &mut Buffer) -> (r: Result<(), TarsError>)
        ensures
            response_fields_encodable(self@) ==> r is Ok && final(buf)@ == old(buf)@
                + response_body(self@),
            !response_fields_encodable(self@) ==> r == Err::<(), TarsError>(
                TarsError::Codec(CodecError::LengthOverflow),
            ),
            old(buf)@.is_prefix_of(final(buf)@),
    {
        let ghost start = buf@;
        let ghost v = self@;
        let _ = buf.write_int16(self.i_version, 1);
        let _ = buf.write_int8(self.c_packet_type, 2);
        let _ = buf.write_int32(self.i_request_id, 3);
        let _ = buf.write_int32(self.i_message_type, 4);
        let _ = buf.write_int32(self.i_ret, 5);
        let ghost ints = int_field(v.version as int, 1) + int_field(v.packet_type as int, 2)
            + int_field(v.request_id as int, 3) + int_field(v.message_type as int, 4) + int_field(
            v.ret as int,
            5,
        );
        assert(buf@ =~= start + ints);
        match buf.write_bytes_as_int8_vec(self.s_buffer.as_slice(), 6) {
            Ok(()) => {},
            Err(e) => {
                assert(start.is_prefix_of(buf@));
                return Err(e);
            },
        }
        let ghost upto6 = ints + bytes_field(v.buffer, 6);
        assert(buf@ =~= start + upto6);
        match buf.write_string_map(&self.status, 7) {
            Ok(()) => {},
            Err(e) => {
                assert(start.is_prefix_of(buf@));
                return Err(e);
            },
        }
        assert(buf@ =~= start + (upto6 + string_map_field(v.status, 7)));
        match buf.write_string(self.s_result_desc.as_str(), 8) {
            Ok(()) => {},
            Err(e) => {
                assert(start.is_prefix_of(buf@));
                return Err(e);
            },
        }
        let ghost upto8 = upto6 + string_map_field(v.status, 7) + string_field(v.result_desc, 8);
        assert(buf@ =~= start + upto8);
        match buf.write_string_map(&self.context, 9) {
            Ok(()) => {},
            Err(e) => {
                assert(start.is_prefix_of(buf@));
                return Err(e);
            },
        }
        assert(buf@ =~= start + (upto8 + string_map_field(v.context, 9)));
        assert(buf@ =~= old(buf)@ + response_body(self@));
        Ok(())
    }

    /// Decodes a response from bytes with or without the length prefix.
    pub fn decode(data: &[u8]) -> (r: Result<ResponsePacket, TarsError>)
        ensures
            match spec_decode_response(data@) {
                Ok(v) => r is Ok && r->Ok_0@ == v,
                Err(e) => r == Err::<ResponsePacket, TarsError>(TarsError::Codec(e)),
            },
    {
        let body = strip_length_prefix(data);
        let mut reader = Reader::new(body);
        Self::read_from(&mut reader)
    }

    /// Reads a response field by field; a missing field reads as its zero.
    pub fn read_from(reader: &mut Reader) -> (r: Result<ResponsePacket, TarsError>)
        ensures
            final(reader).input() == old(reader).input(),
            match spec_read_response(old(reader).input(), old(reader).offset()) {
                Ok((v, end)) => r is Ok && r->Ok_0@ == v && final(reader).offset() == end,
                Err(e) => r == Err::<ResponsePacket, TarsError>(TarsError::Codec(e)),
            },
    {
        let mut packet = Self::new();
        packet.i_version = match reader.read_int16(1, false) {
            Ok(v) => v,
            Err(e) => {
                return Err(e);
            },
        };
        packet.c_packet_type = match reader.read_int8(2, false) {
            Ok(v) => v,
            Err(e) => {
                return Err(e);
            },
        };
        packet.i_request_id = match reader.read_int32(3, false) {
            Ok(v) => v,
            Err(e) => {
                return Err(e);
            },
        };
        packet.i_message_type = match reader.read_int32(4, false) {
            Ok(v) => v,
            Err(e) => {
                return Err(e);
            },
        };
        packet.i_ret = match reader.read_int32(5, false) {
            Ok(v) => v,
            Err(e) => {
                return Err(e);
            },
        };
        packet.s_buffer = match reader.read_bytes(6, false) {
            Ok(v) => v,
            Err(e) => {
                return Err(e);
            },
        };
        packet.status = match reader.read_string_map(7, false) {
            Ok(v) => v,
            Err(e) => {
                return Err(e);
            },
        };
        packet.s_result_desc = match reader.read_string(8, false) {
            Ok(v) => v,
            Err(e) => {
                return Err(e);
            },
        };
        packet.context = match reader.read_string_map(9, false) {
            Ok(v) => v,
            Err(e) => {
                return Err(e);
            },
        };
        Ok(packet)
    }
}

} // verus!
