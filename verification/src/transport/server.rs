//! The bookkeeping of a server.

use vstd::prelude::*;

use super::config::TarsServerConfig;
use super::framing::admits;

verus! {

/// A counter one higher, wrapping from the greatest value to the least as
/// a counter of the machine does.
pub open spec fn one_more(n: i32) -> i32 {
    if n == i32::MAX {
        i32::MIN
    } else {
        (n + 1) as i32
    }
}

/// A counter one lower, wrapping from the least value to the greatest.
pub open spec fn one_less(n: i32) -> i32 {
    if n == i32::MIN {
        i32::MAX
    } else {
        (n - 1) as i32
    }
}

/// Adds one to a counter.
pub fn count_up(n: i32) -> (r: i32)
    ensures
        r == one_more(n),
{
    if n == i32::MAX {
        i32::MIN
    } else {
        n + 1
    }
}

/// Takes one off a counter.
pub fn count_down(n: i32) -> (r: i32)
    ensures
        r == one_less(n),
{
    if n == i32::MIN {
        i32::MAX
    } else {
        n - 1
    }
}

/// What a server knows of itself: whether it is closed, and how many
/// connections and invokes it has.
pub struct TarsServer {
    /// Server configuration
    config: TarsServerConfig,
    /// Close flag
    closed: bool,
    /// Number of connections
    num_conn: i32,
    /// Number of invokes in flight
    num_invoke: i32,
}

impl TarsServer {
    /// Whether the server is closed, as mathematics.
    pub closed spec fn is_shut(&self) -> bool {
        self.closed
    }

    /// The number of connections, as mathematics.
    pub closed spec fn connections(&self) -> i32 {
        self.num_conn
    }

    /// The number of invokes in flight, as mathematics.
    pub closed spec fn invokes(&self) -> i32 {
        self.num_invoke
    }

    /// The configuration, as mathematics.
    pub closed spec fn settings(&self) -> TarsServerConfig {
        self.config
    }

    /// The limit of invokes in flight, as mathematics.
    pub open spec fn limit(&self) -> i32 {
        self.settings().max_invoke
    }

    /// A server: open, no connection, no invoke.
    pub fn new(config: TarsServerConfig) -> (s: TarsServer)
        ensures
            !s.is_shut(),
            s.connections() == 0,
            s.invokes() == 0,
            s.settings() == config,
    {
        TarsServer { config, closed: false, num_conn: 0, num_invoke: 0 }
    }

    /// The configuration.
    pub fn config(&self) -> (c: &TarsServerConfig)
        ensures
            *c == self.settings(),
    {
        &self.config
    }

    /// Whether the server is closed.
    pub fn is_closed(&self) -> (r: bool)
        ensures
            r == self.is_shut(),
    {
        self.closed
    }

    /// The number of connections.
    pub fn connection_count(&self) -> (n: i32)
        ensures
            n == self.connections(),
    {
        self.num_conn
    }

    /// The number of invokes in flight.
    pub fn invoke_count(&self) -> (n: i32)
        ensures
            n == self.invokes(),
    {
        self.num_invoke
    }

    /// Counts a connection that was accepted.
    pub fn connection_opened(&mut self)
        ensures
            final(self).connections() == one_more(old(self).connections()),
            final(self).invokes() == old(self).invokes(),
            final(self).is_shut() == old(self).is_shut(),
            final(self).settings() == old(self).settings(),
    {
        self.num_conn = count_up(self.num_conn);
    }

    /// Counts a connection that has ended.
    pub fn connection_closed(&mut self)
        ensures
            final(self).connections() == one_less(old(self).connections()),
            final(self).invokes() == old(self).invokes(),
            final(self).is_shut() == old(self).is_shut(),
            final(self).settings() == old(self).settings(),
    {
        self.num_conn = count_down(self.num_conn);
    }

    /// Takes on a frame for handling if the invokes in flight are below
    /// the limit; a frame that is not taken on is dropped, and the
    /// connection stays.
    pub fn begin_invoke(&mut self) -> (taken: bool)
        ensures
            taken == (old(self).invokes() < old(self).limit()),
            final(self).invokes() == (if taken {
                (old(self).invokes() + 1) as i32
            } else {
                old(self).invokes()
            }),
            final(self).connections() == old(self).connections(),
            final(self).is_shut() == old(self).is_shut(),
            final(self).settings() == old(self).settings(),
    {
        if !admits(self.num_invoke, self.config.max_invoke) {
            return false;
        }
        self.num_invoke = self.num_invoke + 1;
        true
    }

    /// Counts an invoke that is done.
    pub fn end_invoke(&mut self)
        ensures
            final(self).invokes() == one_less(old(self).invokes()),
            final(self).connections() == old(self).connections(),
            final(self).is_shut() == old(self).is_shut(),
            final(self).settings() == old(self).settings(),
    {
        self.num_invoke = count_down(self.num_invoke);
    }

    /// Starts the shutdown: no new connection is accepted from now on.
    pub fn shutdown(&mut self)
        ensures
            final(self).is_shut(),
            final(self).invokes() == old(self).invokes(),
            final(self).connections() == old(self).connections(),
            final(self).settings() == old(self).settings(),
    {
        self.closed = true;
    }
}

} // verus!
