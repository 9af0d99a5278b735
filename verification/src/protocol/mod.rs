//! Request and response envelopes and the payloads of the framework's own
//! services.

pub mod consts;
pub mod laws;
pub mod lenient;
pub mod logf;
pub mod packet;
pub mod queryf;
pub mod statf;

pub use consts::{MessageType, PacketType, ReturnCode, TarsVersion, TransportProtocol};
pub use packet::{RequestPacket, ResponsePacket};
pub use queryf::EndpointF;
pub use logf::LogInfo;
pub use statf::{StatInfo, StatMicMsgBody, StatMicMsgHead};

use vstd::prelude::*;

use crate::codec::types::{parse_package, spec_parse_package, PackageStatus};
use crate::error::{CodecError, TarsError};
use crate::util::Context;
use packet::{request_body, request_encodable, spec_decode_response};

verus! {

/// What a client asks of a protocol: where frames end, how requests are
/// packed and how responses are unpacked.
pub trait Protocol {
    /// Finds the frame boundary at the front of `buff`: the length and the
    /// status.
    fn parse_package(&self, buff: &[u8]) -> (usize, PackageStatus);

    /// Packs a request.
    fn request_pack(&self, req: &RequestPacket) -> Result<Vec<u8>, TarsError>;

    /// Unpacks a response.
    fn response_unpack(&self, pkg: &[u8]) -> Result<ResponsePacket, TarsError>;
}

/// The framework's own protocol.
#[derive(Debug, Default, Clone, Copy)]
pub struct TarsProtocol;

impl TarsProtocol {
    /// The protocol; it has no state.
    pub fn new() -> TarsProtocol {
        TarsProtocol
    }
}

impl Protocol for TarsProtocol {
    /// Finds the frame boundary by the length prefix rule.
    fn parse_package(&self, buff: &[u8]) -> (r: (usize, PackageStatus))
        ensures
            r.0 as int == spec_parse_package(buff@).0,
            r.1 == spec_parse_package(buff@).1,
    {
        parse_package(buff)
    }

    /// Packs a request as a frame.
    fn request_pack(&self, req: &RequestPacket) -> (r: Result<Vec<u8>, TarsError>)
        ensures
            request_encodable(req@) ==> r is Ok && r->Ok_0@ == crate::codec::wire::framed(
                request_body(req@),
            ),
            !request_encodable(req@) ==> r == Err::<Vec<u8>, TarsError>(
                TarsError::Codec(CodecError::LengthOverflow),
            ),
    {
        req.encode()
    }

    /// Unpacks a response from a frame.
    fn response_unpack(&self, pkg: &[u8]) -> (r: Result<ResponsePacket, TarsError>)
        ensures
            match spec_decode_response(pkg@) {
                Ok(v) => r is Ok && r->Ok_0@ == v,
                Err(e) => r == Err::<ResponsePacket, TarsError>(TarsError::Codec(e)),
            },
    {
        ResponsePacket::decode(pkg)
    }
}

/// What a server asks of a protocol.
pub trait ServerProtocol {
    /// Finds the frame boundary at the front of `buff`.
    fn parse_package(&self, buff: &[u8]) -> (usize, PackageStatus);

    /// Handles a request and returns the response bytes.
    fn invoke(&mut self, ctx: &mut Context, pkg: &[u8]) -> Vec<u8>;

    /// The response for a request that ran out of time.
    fn invoke_timeout(&self, pkg: &[u8]) -> Vec<u8>;

    /// The message that tells a peer of the shutdown.
    fn get_close_msg(&self) -> Vec<u8>;

    /// Is told that a connection has closed.
    fn do_close(&mut self, ctx: &Context);
}

} // verus!
