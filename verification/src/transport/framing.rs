//! The framing loop: from bytes as they arrive to whole frames.

use vstd::prelude::*;
use vstd::slice::{slice_subrange, slice_to_vec};

use vstd::string::StringSliceAdditionalSpecFns;

use crate::codec::types::{parse_package, spec_parse_package, PackageStatus};
use crate::error::TarsError;

verus! {

/// What the bytes gathered so far give.
#[derive(Debug)]
pub enum FrameStep {
    /// One whole frame, length prefix included.
    Frame(Vec<u8>),
    /// More bytes are needed.
    NeedMore,
    /// The length prefix is out of range: the connection is to be dropped.
    Invalid,
}

/// Gathers the bytes of a connection and cuts them into frames.
pub struct FrameAssembler {
    accumulated: Vec<u8>,
}

impl FrameAssembler {
    /// The bytes gathered and not yet handed out.
    pub closed spec fn gathered(&self) -> Seq<u8> {
        self.accumulated@
    }

    /// An assembler that has gathered nothing.
    pub fn new() -> (a: FrameAssembler)
        ensures
            a.gathered().len() == 0,
    {
        FrameAssembler { accumulated: Vec::new() }
    }

    /// The number of bytes gathered.
    pub fn len(&self) -> (n: usize)
        ensures
            n == self.gathered().len(),
    {
        self.accumulated.len()
    }

    /// The bytes gathered and not yet handed out.
    pub fn bytes(&self) -> (b: &[u8])
        ensures
            b@ == self.gathered(),
    {
        self.accumulated.as_slice()
    }

    /// Adds bytes that have arrived.
    pub fn push(&mut self, data: &[u8])
        ensures
            final(self).gathered() == old(self).gathered() + data@,
    {
        let mut copy = slice_to_vec(data);
        self.accumulated.append(&mut copy);
    }

    /// Acts on what a protocol handler has found at the front of the bytes
    /// gathered: on `Full` the first `len` bytes leave as a frame, on `Less`
    /// nothing happens, on `Error` the connection is to be dropped. A `Full`
    /// with a length of nothing, or beyond what was gathered, counts as an
    /// error.
    pub fn take(&mut self, len: usize, status: PackageStatus) -> (step: FrameStep)
        ensures
            match status {
                PackageStatus::Full => if 0 < len <= old(self).gathered().len() {
                    step matches FrameStep::Frame(f) && f@ == old(self).gathered().subrange(
                        0,
                        len as int,
                    ) && final(self).gathered() == old(self).gathered().subrange(
                        len as int,
                        old(self).gathered().len() as int,
                    )
                } else {
                    step is Invalid && final(self).gathered() == old(self).gathered()
                },
                PackageStatus::Less => step is NeedMore
                    && final(self).gathered() == old(self).gathered(),
                PackageStatus::Error => step is Invalid
                    && final(self).gathered() == old(self).gathered(),
            },
    {
        match status {
            PackageStatus::Full => {
                if len == 0 || len > self.accumulated.len() {
                    return FrameStep::Invalid;
                }
                let rest = self.accumulated.split_off(len);
                let mut frame = rest;
                std::mem::swap(&mut frame, &mut self.accumulated);
                FrameStep::Frame(frame)
            },
            PackageStatus::Less => FrameStep::NeedMore,
            PackageStatus::Error => FrameStep::Invalid,
        }
    }

    /// Cuts the next frame off the front of the bytes gathered, by the
    /// length prefix rule: at least 4 bytes, at most 100 MiB.
    pub fn next_frame(&mut self) -> (step: FrameStep)
        ensures
            match spec_parse_package(old(self).gathered()).1 {
                PackageStatus::Full => step matches FrameStep::Frame(f)
                    && f@
                        == old(self).gathered().subrange(0, spec_parse_package(old(self).gathered()).0)
                    && final(self).gathered() == old(self).gathered().subrange(
                    spec_parse_package(old(self).gathered()).0,
                    old(self).gathered().len() as int,
                ),
                PackageStatus::Less => step is NeedMore
                    && final(self).gathered() == old(self).gathered(),
                PackageStatus::Error => step is Invalid
                    && final(self).gathered() == old(self).gathered(),
            },
    {
        let (len, status) = parse_package(self.accumulated.as_slice());
        self.take(len, status)
    }
}

/// Whether the first four bytes of `header` announce a frame of a length
/// that is accepted: more than the 4 bytes of the prefix, so that the body
/// is not empty, and at most 100 MiB.
pub open spec fn announces_frame(header: Seq<u8>) -> bool {
    header.len() >= 4 && 4 < crate::codec::types::frame_length(header)
        <= crate::consts::MAX_PACKAGE_LENGTH
}

/// The number of body bytes that follow a length prefix: the announced
/// length less the four bytes of the prefix. A prefix of fewer than four
/// bytes, a length of 4 or less, which leaves no body, and a length over
/// 100 MiB are refused as a protocol error.
pub fn body_length(header: &[u8]) -> (r: Result<usize, TarsError>)
    ensures
        announces_frame(header@) ==> r == Ok::<usize, TarsError>(
            (crate::codec::types::frame_length(header@) - 4) as usize,
        ),
        !announces_frame(header@) ==> r is Err && r->Err_0 is Protocol && r->Err_0->Protocol_0@
            == (if header@.len() >= 4 && crate::codec::types::frame_length(header@)
            > crate::consts::MAX_PACKAGE_LENGTH {
            "Package too large"@
        } else {
            "Package too small"@
        }),
{
    if header.len() < 4 {
        return Err(TarsError::Protocol("Package too small".to_owned()));
    }
    let len: u32 = crate::codec::types::read_be_u32(header, 0);
    if len > crate::consts::MAX_PACKAGE_LENGTH {
        return Err(TarsError::Protocol("Package too large".to_owned()));
    }
    if len <= 4 {
        return Err(TarsError::Protocol("Package too small".to_owned()));
    }
    Ok((len - 4) as usize)
}

/// The host of an address "host:port": what stands before the first colon,
/// as bytes.
pub fn host_of(addr: &str) -> (host: Vec<u8>)
    ensures
        host@ == addr.spec_bytes().subrange(
            0,
            crate::util::parse::find_byte(addr.spec_bytes(), 58, 0),
        ),
{
    let bytes = addr.as_bytes();
    let end = crate::util::parse::index_of(bytes, 58, 0);
    slice_to_vec(slice_subrange(bytes, 0, end))
}

/// What the connection loop of a client does after an attempt.
#[derive(Debug, Clone, Copy, PartialEq, Eq, Structural)]
pub enum RetryStep {
    /// Connect again at once.
    Again,
    /// Wait this many milliseconds, then connect again.
    Backoff(u64),
    /// Close for good.
    GiveUp,
}

/// The attempts that may fail in a row before a client closes for good.
pub const MAX_RETRIES: u32 = 3;

/// The step after an attempt, and the new count of failures in a row: a
/// success starts the count anew; a failure waits 100 ms times the count,
/// and the fourth in a row gives up.
pub open spec fn retry_after(retry_count: u32, ok: bool) -> (RetryStep, u32) {
    if ok {
        (RetryStep::Again, 0u32)
    } else if retry_count >= MAX_RETRIES {
        (RetryStep::GiveUp, if retry_count == u32::MAX {
            retry_count
        } else {
            (retry_count + 1) as u32
        })
    } else {
        (RetryStep::Backoff((100 * (retry_count + 1)) as u64), (retry_count + 1) as u32)
    }
}

/// Decides what the connection loop does after an attempt.
pub fn after_attempt(retry_count: u32, ok: bool) -> (r: (RetryStep, u32))
    ensures
        r == retry_after(retry_count, ok),
{
    if ok {
        return (RetryStep::Again, 0);
    }
    if retry_count >= MAX_RETRIES {
        let count: u32 = if retry_count == u32::MAX {
            retry_count
        } else {
            retry_count + 1
        };
        return (RetryStep::GiveUp, count);
    }
    let count: u32 = retry_count + 1;
    (RetryStep::Backoff(100 * (count as u64)), count)
}

/// Whether an idle connection is closed: only when no invoke is in flight.
pub fn idle_close(invoke_num: i32) -> (r: bool)
    ensures
        r == (invoke_num == 0),
{
    invoke_num == 0
}

/// Whether the server takes on one more invoke: only below the limit.
pub fn admits(num_invoke: i32, max_invoke: i32) -> (r: bool)
    ensures
        r == (num_invoke < max_invoke),
{
    num_invoke < max_invoke
}

/// What a server that shuts down does about invokes in flight.
#[derive(Debug, Clone, Copy, PartialEq, Eq, Structural)]
pub enum DrainStep {
    /// Nothing is in flight: the shutdown is complete.
    Done,
    /// Wait a little and look again.
    Wait,
    /// The grace has run out: close by force.
    Force,
}

/// The grace, in milliseconds, that invokes in flight get at shutdown.
pub const SHUTDOWN_GRACE_MS: u64 = 30000;

/// Decides the next step of a graceful shutdown.
pub fn drain_step(num_invoke: i32, waited_ms: u64) -> (r: DrainStep)
    ensures
        r == (if num_invoke <= 0 {
            DrainStep::Done
        } else if waited_ms > SHUTDOWN_GRACE_MS {
            DrainStep::Force
        } else {
            DrainStep::Wait
        }),
{
    if num_invoke <= 0 {
        DrainStep::Done
    } else if waited_ms > SHUTDOWN_GRACE_MS {
        DrainStep::Force
    } else {
        DrainStep::Wait
    }
}

/// Whether a connection that has seen no frame for `idle_ms` is closed.
pub fn idle_expired(idle_ms: u64, idle_timeout_ms: u64) -> (r: bool)
    ensures
        r == (idle_ms > idle_timeout_ms),
{
    idle_ms > idle_timeout_ms
}

} // verus!
