//! Constants used throughout the framework.

use vstd::prelude::*;

verus! {

/// Protocol versions.
pub const TARS_VERSION: i16 = 1;

pub const TUP_VERSION: i16 = 2;

pub const JSON_VERSION: i16 = 3;

/// Packet types.
pub const TARS_NORMAL: i8 = 0;

pub const TARS_ONEWAY: i8 = 1;

/// Message type flags.
pub const TARS_MESSAGE_TYPE_NULL: i32 = 0;

pub const TARS_MESSAGE_TYPE_DYED: i32 = 4;

pub const TARS_MESSAGE_TYPE_TRACE: i32 = 8;

/// Return codes.
pub const TARS_SERVER_SUCCESS: i32 = 0;

pub const TARS_SERVER_DECODE_ERR: i32 = -1;

pub const TARS_SERVER_QUEUE_TIMEOUT: i32 = -2;

pub const TARS_INVOKE_TIMEOUT: i32 = -3;

pub const TARS_SERVER_UNKNOWN_ERR: i32 = -99;

/// Transport protocols.
pub const PROTO_TCP: i32 = 1;

pub const PROTO_UDP: i32 = 0;

pub const PROTO_SSL: i32 = 2;

/// Health check: seconds without a success before consecutive failures count.
pub const FAIL_INTERVAL: u64 = 5;

/// Health check: consecutive failures that deactivate an endpoint.
pub const FAIL_N: i32 = 5;

/// Health check: seconds between two looks at the failure ratio.
pub const CHECK_TIME: u64 = 60;

/// Health check: least number of failures for the ratio to count.
pub const OVER_N: i32 = 2;

/// Health check: the failure ratio threshold is `FAIL_RATIO_NUM / FAIL_RATIO_DEN`.
pub const FAIL_RATIO_NUM: i32 = 1;

pub const FAIL_RATIO_DEN: i32 = 2;

/// Health check: seconds between two probes of an inactive endpoint.
pub const TRY_TIME_INTERVAL: u64 = 30;

/// Default timeouts (milliseconds).
pub const DEFAULT_ASYNC_TIMEOUT: u64 = 3000;

pub const DEFAULT_SYNC_TIMEOUT: u64 = 3000;

pub const DEFAULT_CONNECT_TIMEOUT: u64 = 3000;

pub const DEFAULT_IDLE_TIMEOUT: u64 = 600000;

/// Queue limits.
pub const DEFAULT_QUEUE_LEN: usize = 10000;

pub const DEFAULT_MAX_INVOKE: i32 = 200000;

/// Largest accepted frame, length prefix included (100 MiB).
pub const MAX_PACKAGE_LENGTH: u32 = 104857600;

/// Virtual nodes per endpoint on the consistent-hash ring.
pub const CON_HASH_VIRTUAL_NODES: usize = 100;

/// Result description of the push that asks a client to reconnect.
pub fn reconnect_msg() -> (s: &'static str)
    ensures
        s@ == "_reconnect_"@,
{
    "_reconnect_"
}

/// Status key under which the dyeing key travels.
pub fn status_dyed_key() -> (s: &'static str)
    ensures
        s@ == "STATUS_DYED_KEY"@,
{
    "STATUS_DYED_KEY"
}

/// Status key under which the trace key travels.
pub fn status_trace_key() -> (s: &'static str)
    ensures
        s@ == "STATUS_TRACE_KEY"@,
{
    "STATUS_TRACE_KEY"
}

} // verus!
