//! Core of an RPC client/server runtime: a compact tag-length-value wire
//! codec, request and response envelopes, endpoint selection, per-endpoint
//! health tracking and the decisions of the transport framing loops.
//!
//! The functions here carry contracts that Verus proves. A call into
//! another crate, or into a part of the standard library that has no
//! contract yet, stands behind a small function whose contract is stated and
//! not proved; its comment names what it calls. Network and timer work lives
//! outside this crate and hands plain values in.

pub mod adapter;
pub mod application;
pub mod codec;
pub mod communicator;
pub mod consts;
pub mod endpoint;
pub mod error;
pub mod filter;
pub mod logger;
pub mod protocol;
pub mod registry;
pub mod selector;
pub mod servant;
pub mod stat;
pub mod transport;
pub mod util;

pub use adapter::AdapterProxy;
pub use codec::{Buffer, Head, PackageStatus, Reader, StringMap, TarsType};
pub use endpoint::Endpoint;
pub use error::{CodecError, TarsError};
pub use protocol::{MessageType, PacketType, ReturnCode, TarsVersion, TransportProtocol};
