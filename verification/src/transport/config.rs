//! Transport configuration structures.

use std::time::Duration;
use vstd::prelude::*;

use crate::codec::raw::str_eq;
use crate::util::duration::{duration_from_secs, millis_of};

verus! {

/// Client transport configuration.
pub struct TarsClientConfig {
    /// Protocol type: tcp, udp, ssl
    pub proto: String,
    /// Send queue length
    pub queue_len: usize,
    /// Idle timeout
    pub idle_timeout: Duration,
    /// Read timeout
    pub read_timeout: Duration,
    /// Write timeout
    pub write_timeout: Duration,
    /// Dial timeout
    pub dial_timeout: Duration,
    /// Whether TLS material was given
    pub has_tls: bool,
}

/// Whether `c` is the standard client configuration of a transport: a
/// queue of 10000, 600 s idle, 3 s to read, write and dial.
pub open spec fn standard_client(c: TarsClientConfig, proto: Seq<char>, has_tls: bool) -> bool {
    &&& c.proto@ == proto
    &&& c.queue_len == 10000
    &&& millis_of(c.idle_timeout) == 600000
    &&& millis_of(c.read_timeout) == 3000
    &&& millis_of(c.write_timeout) == 3000
    &&& millis_of(c.dial_timeout) == 3000
    &&& c.has_tls == has_tls
}

impl Default for TarsClientConfig {
    /// A TCP client: a queue of 10000, 600 s idle, 3 s to read, write and
    /// dial.
    fn default() -> (c: TarsClientConfig)
        ensures
            standard_client(c, "tcp"@, false),
    {
        TarsClientConfig {
            proto: "tcp".to_owned(),
            queue_len: 10000,
            idle_timeout: duration_from_secs(600),
            read_timeout: duration_from_secs(3),
            write_timeout: duration_from_secs(3),
            dial_timeout: duration_from_secs(3),
            has_tls: false,
        }
    }
}

impl TarsClientConfig {
    /// A TCP client configuration.
    pub fn tcp() -> (c: TarsClientConfig)
        ensures
            standard_client(c, "tcp"@, false),
    {
        Self::default()
    }

    /// A UDP client configuration.
    pub fn udp() -> (c: TarsClientConfig)
        ensures
            standard_client(c, "udp"@, false),
    {
        let mut c = Self::default();
        c.proto = "udp".to_owned();
        c
    }

    /// An SSL client configuration, for a client that has TLS material.
    pub fn ssl() -> (c: TarsClientConfig)
        ensures
            standard_client(c, "ssl"@, true),
    {
        let mut c = Self::default();
        c.proto = "ssl".to_owned();
        c.has_tls = true;
        c
    }

    /// The same configuration with another queue length.
    pub fn with_queue_len(self, len: usize) -> (c: TarsClientConfig)
        ensures
            c == (TarsClientConfig { queue_len: len, ..self }),
    {
        let mut c = self;
        c.queue_len = len;
        c
    }

    /// The same configuration with another idle timeout.
    pub fn with_idle_timeout(self, timeout: Duration) -> (c: TarsClientConfig)
        ensures
            c == (TarsClientConfig { idle_timeout: timeout, ..self }),
    {
        let mut c = self;
        c.idle_timeout = timeout;
        c
    }

    /// The same configuration with another read timeout.
    pub fn with_read_timeout(self, timeout: Duration) -> (c: TarsClientConfig)
        ensures
            c == (TarsClientConfig { read_timeout: timeout, ..self }),
    {
        let mut c = self;
        c.read_timeout = timeout;
        c
    }

    /// The same configuration with another write timeout.
    pub fn with_write_timeout(self, timeout: Duration) -> (c: TarsClientConfig)
        ensures
            c == (TarsClientConfig { write_timeout: timeout, ..self }),
    {
        let mut c = self;
        c.write_timeout = timeout;
        c
    }

    /// The same configuration with another dial timeout.
    pub fn with_dial_timeout(self, timeout: Duration) -> (c: TarsClientConfig)
        ensures
            c == (TarsClientConfig { dial_timeout: timeout, ..self }),
    {
        let mut c = self;
        c.dial_timeout = timeout;
        c
    }

    /// Whether the protocol is TCP.
    pub fn is_tcp(&self) -> (r: bool)
        ensures
            r == (self.proto@ == "tcp"@),
    {
        str_eq(self.proto.as_str(), "tcp")
    }

    /// Whether the protocol is UDP.
    pub fn is_udp(&self) -> (r: bool)
        ensures
            r == (self.proto@ == "udp"@),
    {
        str_eq(self.proto.as_str(), "udp")
    }

    /// Whether the protocol is SSL.
    pub fn is_ssl(&self) -> (r: bool)
        ensures
            r == (self.proto@ == "ssl"@),
    {
        str_eq(self.proto.as_str(), "ssl")
    }

    /// A copy of this configuration.
    pub fn duplicate(&self) -> (c: TarsClientConfig)
        ensures
            c.proto@ == self.proto@,
            c.queue_len == self.queue_len,
            c.idle_timeout == self.idle_timeout,
            c.read_timeout == self.read_timeout,
            c.write_timeout == self.write_timeout,
            c.dial_timeout == self.dial_timeout,
            c.has_tls == self.has_tls,
    {
        TarsClientConfig {
            proto: self.proto.clone(),
            queue_len: self.queue_len,
            idle_timeout: self.idle_timeout,
            read_timeout: self.read_timeout,
            write_timeout: self.write_timeout,
            dial_timeout: self.dial_timeout,
            has_tls: self.has_tls,
        }
    }
}

/// Server transport configuration.
pub struct TarsServerConfig {
    /// Protocol type: tcp, udp, ssl
    pub proto: String,
    /// Listen address
    pub address: String,
    /// Max concurrent invokes
    pub max_invoke: i32,
    /// Accept timeout
    pub accept_timeout: Duration,
    /// Read timeout
    pub read_timeout: Duration,
    /// Write timeout
    pub write_timeout: Duration,
    /// Handle timeout
    pub handle_timeout: Duration,
    /// Idle timeout
    pub idle_timeout: Duration,
    /// Queue capacity
    pub queue_cap: usize,
    /// TCP read buffer size
    pub tcp_read_buffer: usize,
    /// TCP write buffer size
    pub tcp_write_buffer: usize,
    /// TCP no delay
    pub tcp_no_delay: bool,
    /// Whether TLS material was given
    pub has_tls: bool,
}

/// Whether `c` is the standard server configuration of a transport at an
/// address: at most 200000 invokes at a time, 10 s to accept, 60 s to read,
/// write and handle, 600 s idle, a backlog of 10000 frames, buffers of
/// 128 KiB, and no `TCP_NODELAY`.
pub open spec fn standard_server(
    c: TarsServerConfig,
    proto: Seq<char>,
    address: Seq<char>,
    has_tls: bool,
) -> bool {
    &&& c.proto@ == proto
    &&& c.address@ == address
    &&& c.max_invoke == 200000
    &&& millis_of(c.accept_timeout) == 10000
    &&& millis_of(c.read_timeout) == 60000
    &&& millis_of(c.write_timeout) == 60000
    &&& millis_of(c.handle_timeout) == 60000
    &&& millis_of(c.idle_timeout) == 600000
    &&& c.queue_cap == 10000
    &&& c.tcp_read_buffer == 131072
    &&& c.tcp_write_buffer == 131072
    &&& !c.tcp_no_delay
    &&& c.has_tls == has_tls
}

impl Default for TarsServerConfig {
    /// A TCP server at "0.0.0.0:10000": at most 200000 invokes at a time,
    /// 10 s to accept, 60 s to read, write and handle, 600 s idle.
    fn default() -> (c: TarsServerConfig)
        ensures
            standard_server(c, "tcp"@, "0.0.0.0:10000"@, false),
    {
        TarsServerConfig {
            proto: "tcp".to_owned(),
            address: "0.0.0.0:10000".to_owned(),
            max_invoke: 200000,
            accept_timeout: duration_from_secs(10),
            read_timeout: duration_from_secs(60),
            write_timeout: duration_from_secs(60),
            handle_timeout: duration_from_secs(60),
            idle_timeout: duration_from_secs(600),
            queue_cap: 10000,
            tcp_read_buffer: 131072,
            tcp_write_buffer: 131072,
            tcp_no_delay: false,
            has_tls: false,
        }
    }
}

impl TarsServerConfig {
    /// A TCP server configuration for the address.
    pub fn tcp(address: &str) -> (c: TarsServerConfig)
        ensures
            standard_server(c, "tcp"@, address@, false),
    {
        let mut c = Self::default();
        c.address = address.to_owned();
        c
    }

    /// A UDP server configuration for the address.
    pub fn udp(address: &str) -> (c: TarsServerConfig)
        ensures
            standard_server(c, "udp"@, address@, false),
    {
        let mut c = Self::default();
        c.proto = "udp".to_owned();
        c.address = address.to_owned();
        c
    }

    /// An SSL server configuration for the address, for a server that has
    /// TLS material.
    pub fn ssl(address: &str) -> (c: TarsServerConfig)
        ensures
            standard_server(c, "ssl"@, address@, true),
    {
        let mut c = Self::default();
        c.proto = "ssl".to_owned();
        c.address = address.to_owned();
        c.has_tls = true;
        c
    }

    /// The same configuration with another invoke limit.
    pub fn with_max_invoke(self, max: i32) -> (c: TarsServerConfig)
        ensures
            c == (TarsServerConfig { max_invoke: max, ..self }),
    {
        let mut c = self;
        c.max_invoke = max;
        c
    }

    /// The same configuration with another accept timeout.
    pub fn with_accept_timeout(self, timeout: Duration) -> (c: TarsServerConfig)
        ensures
            c == (TarsServerConfig { accept_timeout: timeout, ..self }),
    {
        let mut c = self;
        c.accept_timeout = timeout;
        c
    }

    /// The same configuration with another read timeout.
    pub fn with_read_timeout(self, timeout: Duration) -> (c: TarsServerConfig)
        ensures
            c == (TarsServerConfig { read_timeout: timeout, ..self }),
    {
        let mut c = self;
        c.read_timeout = timeout;
        c
    }

    /// The same configuration with another write timeout.
    pub fn with_write_timeout(self, timeout: Duration) -> (c: TarsServerConfig)
        ensures
            c == (TarsServerConfig { write_timeout: timeout, ..self }),
    {
        let mut c = self;
        c.write_timeout = timeout;
        c
    }

    /// The same configuration with another handle timeout.
    pub fn with_handle_timeout(self, timeout: Duration) -> (c: TarsServerConfig)
        ensures
            c == (TarsServerConfig { handle_timeout: timeout, ..self }),
    {
        let mut c = self;
        c.handle_timeout = timeout;
        c
    }

    /// The same configuration with another idle timeout.
    pub fn with_idle_timeout(self, timeout: Duration) -> (c: TarsServerConfig)
        ensures
            c == (TarsServerConfig { idle_timeout: timeout, ..self }),
    {
        let mut c = self;
        c.idle_timeout = timeout;
        c
    }

    /// The same configuration with another queue capacity.
    pub fn with_queue_cap(self, cap: usize) -> (c: TarsServerConfig)
        ensures
            c == (TarsServerConfig { queue_cap: cap, ..self }),
    {
        let mut c = self;
        c.queue_cap = cap;
        c
    }

    /// The same configuration with TCP no delay set or cleared.
    pub fn with_tcp_no_delay(self, no_delay: bool) -> (c: TarsServerConfig)
        ensures
            c == (TarsServerConfig { tcp_no_delay: no_delay, ..self }),
    {
        let mut c = self;
        c.tcp_no_delay = no_delay;
        c
    }

    /// Whether the protocol is TCP.
    pub fn is_tcp(&self) -> (r: bool)
        ensures
            r == (self.proto@ == "tcp"@),
    {
        str_eq(self.proto.as_str(), "tcp")
    }

    /// Whether the protocol is UDP.
    pub fn is_udp(&self) -> (r: bool)
        ensures
            r == (self.proto@ == "udp"@),
    {
        str_eq(self.proto.as_str(), "udp")
    }

    /// Whether the protocol is SSL.
    pub fn is_ssl(&self) -> (r: bool)
        ensures
            r == (self.proto@ == "ssl"@),
    {
        str_eq(self.proto.as_str(), "ssl")
    }
}

} // verus!
