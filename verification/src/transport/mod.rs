//! Transport: configuration, framing and the bookkeeping of connections.
//!
//! The sockets themselves live outside this crate; what is decided about
//! them is decided here.

pub mod client;
pub mod config;
pub mod framing;
pub mod server;
pub mod tls;

pub use client::TarsClient;
pub use config::{TarsClientConfig, TarsServerConfig};
pub use server::TarsServer;

use vstd::prelude::*;

use crate::codec::PackageStatus;
use crate::util::Context;

verus! {

/// What a client connection asks of a protocol.
pub trait ClientProtocol {
    /// Finds the frame boundary at the front of `buff`: the length and the
    /// status.
    fn parse_package(&self, buff: &[u8]) -> (usize, PackageStatus);

    /// Takes a whole frame.
    fn recv(&mut self, pkg: Vec<u8>);
}

/// What a server connection asks of a protocol.
pub trait ServerProtocolHandler {
    /// Finds the frame boundary at the front of `buff`.
    fn parse_package(&self, buff: &[u8]) -> (usize, PackageStatus);

    /// Handles a request and returns the response bytes.
    fn invoke(&mut self, ctx: &mut Context, pkg: &[u8]) -> Vec<u8>;

    /// The response for a request that ran out of time.
    fn invoke_timeout(&self, pkg: &[u8]) -> Vec<u8>;

    /// The message that tells a peer of the shutdown.
    fn get_close_msg(&self) -> Vec<u8>;

    /// Is told that a connection has closed.
    fn do_close(&mut self, ctx: &Context);
}

/// Connection status.
#[derive(Debug, Clone, Copy, PartialEq, Eq, Structural)]
pub enum ConnectionStatus {
    /// Connection is active
    Active,
    /// Connection is idle
    Idle,
    /// Connection is closed
    Closed,
}

} // verus!
