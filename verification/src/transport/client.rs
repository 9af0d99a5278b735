//! The bookkeeping of a client connection.

use vstd::prelude::*;

use super::config::TarsClientConfig;
use crate::error::TarsError;

verus! {

/// What a client connection knows of itself: where it goes, whether it is
/// closed, and how many requests are in flight.
pub struct TarsClient {
    /// Remote address
    address: String,
    /// Client configuration
    config: TarsClientConfig,
    /// Close flag
    closed: bool,
    /// Number of requests in flight
    invoke_num: i32,
}

impl TarsClient {
    /// Whether the client is closed, as mathematics.
    pub closed spec fn is_shut(&self) -> bool {
        self.closed
    }

    /// The requests in flight, as mathematics.
    pub closed spec fn in_flight(&self) -> i32 {
        self.invoke_num
    }

    /// The remote address, as mathematics.
    pub closed spec fn remote(&self) -> Seq<char> {
        self.address@
    }

    /// The configuration, as mathematics.
    pub closed spec fn settings(&self) -> TarsClientConfig {
        self.config
    }

    /// Whether the client is to speak SSL and has no TLS material.
    pub open spec fn lacks_tls(&self) -> bool {
        self.settings().proto@ == "ssl"@ && !self.settings().has_tls
    }

    /// A client for the address: open, nothing in flight.
    pub fn new(address: &str, config: TarsClientConfig) -> (c: TarsClient)
        ensures
            c.remote() == address@,
            !c.is_shut(),
            c.in_flight() == 0,
            c.settings() == config,
    {
        TarsClient { address: address.to_owned(), config, closed: false, invoke_num: 0 }
    }

    /// The remote address.
    pub fn address(&self) -> (a: &str)
        ensures
            a@ == self.remote(),
    {
        self.address.as_str()
    }

    /// The configuration.
    pub fn config(&self) -> (c: &TarsClientConfig)
        ensures
            *c == self.settings(),
    {
        &self.config
    }

    /// Admits data for sending: a closed client refuses with
    /// `ConnectionClosed`; otherwise one more request is in flight.
    pub fn send(&mut self) -> (r: Result<(), TarsError>)
        ensures
            final(self).is_shut() == old(self).is_shut(),
            final(self).remote() == old(self).remote(),
            final(self).settings() == old(self).settings(),
            old(self).is_shut() ==> r == Err::<(), TarsError>(TarsError::ConnectionClosed)
                && final(self).in_flight() == old(self).in_flight(),
            !old(self).is_shut() ==> r is Ok
                && final(self).in_flight() == (if old(self).in_flight() == i32::MAX {
                i32::MIN
            } else {
                (old(self).in_flight() + 1) as i32
            }),
    {
        if self.closed {
            return Err(TarsError::ConnectionClosed);
        }
        self.invoke_num = if self.invoke_num == i32::MAX {
            i32::MIN
        } else {
            self.invoke_num + 1
        };
        Ok(())
    }

    /// Takes one request out of flight, as after a write that failed.
    pub fn write_failed(&mut self)
        ensures
            final(self).is_shut() == old(self).is_shut(),
            final(self).remote() == old(self).remote(),
            final(self).settings() == old(self).settings(),
            final(self).in_flight() == (if old(self).in_flight() == i32::MIN {
                i32::MAX
            } else {
                (old(self).in_flight() - 1) as i32
            }),
    {
        self.invoke_num = if self.invoke_num == i32::MIN {
            i32::MAX
        } else {
            self.invoke_num - 1
        };
    }

    /// Whether the client is closed.
    pub fn is_closed(&self) -> (r: bool)
        ensures
            r == self.is_shut(),
    {
        self.closed
    }

    /// The number of requests in flight.
    pub fn invoke_count(&self) -> (n: i32)
        ensures
            n == self.in_flight(),
    {
        self.invoke_num
    }

    /// Closes the client.
    pub fn close(&mut self)
        ensures
            final(self).is_shut(),
            final(self).in_flight() == old(self).in_flight(),
            final(self).remote() == old(self).remote(),
            final(self).settings() == old(self).settings(),
    {
        self.closed = true;
    }

    /// Asks for a new connection: a closed client refuses with
    /// `ConnectionClosed`; otherwise the connection loop will see to it.
    pub fn reconnect(&self) -> (r: Result<(), TarsError>)
        ensures
            self.is_shut() ==> r == Err::<(), TarsError>(TarsError::ConnectionClosed),
            !self.is_shut() ==> r is Ok,
    {
        if self.closed {
            return Err(TarsError::ConnectionClosed);
        }
        Ok(())
    }

    /// Whether a dial may go ahead: an SSL client needs TLS material.
    pub fn check_tls(&self) -> (r: Result<(), TarsError>)
        ensures
            self.lacks_tls() ==> r is Err && r->Err_0 is Config && r->Err_0->Config_0@
                == "TLS config not set for SSL connection"@,
            !self.lacks_tls() ==> r is Ok,
    {
        if self.config.is_ssl() && !self.config.has_tls {
            return Err(TarsError::Config("TLS config not set for SSL connection".to_owned()));
        }
        Ok(())
    }
}

} // verus!
