//! Request and response context.

use std::time::Duration;
use vstd::prelude::*;

use super::clock::now_millis;
use super::duration::{millis, millis_of};
use crate::codec::string_map::{lookup, put, without, Entries};
use crate::codec::StringMap;

verus! {

/// What travels with a request through the client or the server. Times are
/// milliseconds on the machine's clock.
#[derive(Debug)]
pub struct Context {
    /// Time the context was made
    start_time: i64,
    /// Time by which the request must be done
    deadline: Option<i64>,
    /// Key-value pairs
    values: StringMap,
    /// Server IP (client side)
    server_ip: Option<String>,
    /// Server port
    server_port: Option<u16>,
    /// Client IP (server side)
    client_ip: Option<String>,
    /// Client port
    client_port: Option<u16>,
    /// Dyeing key
    dyeing_key: Option<String>,
    /// Trace key
    trace_key: Option<String>,
    /// Packet type
    packet_type: i8,
    /// Time the package was received (ms)
    recv_pkg_ts: i64,
}

/// The time `span` milliseconds after `now`, at most the greatest time.
pub open spec fn later(now: i64, span: nat) -> i64 {
    if now + span > i64::MAX {
        i64::MAX
    } else {
        (now + span) as i64
    }
}

/// The whole milliseconds of a span, at most the greatest 64-bit number.
pub open spec fn millis_spec(d: Duration) -> nat {
    if millis_of(d) > u64::MAX {
        u64::MAX as nat
    } else {
        millis_of(d)
    }
}

/// The context made at `now`: no deadline, no pairs, no addresses, no
/// keys, packet type 0.
pub open spec fn fresh_context(now: i64) -> ContextView {
    ContextView {
        started: now,
        due: None,
        pairs: Seq::empty(),
        server: (None, None),
        client: (None, None),
        dye: None,
        trace: None,
        packet: (0i8, now),
    }
}

/// The milliseconds from `now` to `deadline`; none where it has passed.
pub open spec fn until(deadline: i64, now: i64) -> int {
    if deadline > now {
        deadline - now
    } else {
        0
    }
}

/// The milliseconds left at `now` until a deadline that may be there: none
/// without a deadline, 0 once it has passed.
pub open spec fn left(due: Option<i64>, now: i64) -> Option<u64> {
    match due {
        Some(d) => Some(until(d, now) as u64),
        None => None,
    }
}

/// Whether a deadline that may be there has passed at `now`; never without
/// a deadline.
pub open spec fn expired(due: Option<i64>, now: i64) -> bool {
    due is Some && now >= due->0
}

/// A context as mathematics.
pub struct ContextView {
    /// The time the context was made
    pub started: i64,
    /// The deadline
    pub due: Option<i64>,
    /// The key-value pairs
    pub pairs: Entries,
    /// The server IP and port
    pub server: (Option<Seq<char>>, Option<u16>),
    /// The client IP and port
    pub client: (Option<Seq<char>>, Option<u16>),
    /// The dyeing key
    pub dye: Option<Seq<char>>,
    /// The trace key
    pub trace: Option<Seq<char>>,
    /// The packet type and the time the package was received
    pub packet: (i8, i64),
}

/// The text of a string that may be there.
pub open spec fn text_in(s: Option<String>) -> Option<Seq<char>> {
    match s {
        Some(k) => Some(k@),
        None => None,
    }
}

impl View for Context {
    type V = ContextView;

    closed spec fn view(&self) -> ContextView {
        ContextView {
            started: self.start_time,
            due: self.deadline,
            pairs: self.values@,
            server: (text_in(self.server_ip), self.server_port),
            client: (text_in(self.client_ip), self.client_port),
            dye: text_in(self.dyeing_key),
            trace: text_in(self.trace_key),
            packet: (self.packet_type, self.recv_pkg_ts),
        }
    }
}

impl Context {
    /// The time the context was made.
    pub open spec fn started(&self) -> i64 {
        self@.started
    }

    /// The deadline.
    pub open spec fn due(&self) -> Option<i64> {
        self@.due
    }

    /// The key-value pairs.
    pub open spec fn pairs(&self) -> Entries {
        self@.pairs
    }

    /// The dyeing key.
    pub open spec fn dye(&self) -> Option<Seq<char>> {
        self@.dye
    }

    /// The trace key.
    pub open spec fn trace(&self) -> Option<Seq<char>> {
        self@.trace
    }

    /// The server address.
    pub open spec fn server(&self) -> (Option<Seq<char>>, Option<u16>) {
        self@.server
    }

    /// The client address.
    pub open spec fn client(&self) -> (Option<Seq<char>>, Option<u16>) {
        self@.client
    }

    /// The packet type and the time the package was received.
    pub open spec fn packet(&self) -> (i8, i64) {
        self@.packet
    }

    /// A context made at the time `now`: no deadline, no pairs, no keys.
    pub fn new_at(now: i64) -> (c: Context)
        ensures
            c@ == fresh_context(now),
    {
        Context {
            start_time: now,
            deadline: None,
            values: StringMap::new(),
            server_ip: None,
            server_port: None,
            client_ip: None,
            client_port: None,
            dyeing_key: None,
            trace_key: None,
            packet_type: 0,
            recv_pkg_ts: now,
        }
    }

    /// A context made now.
    pub fn new() -> (c: Context)
        ensures
            exists|now: i64| c@ == #[trigger] fresh_context(now),
    {
        let now = now_millis();
        let c = Self::new_at(now);
        assert(c@ == fresh_context(now));
        c
    }

    /// A context made now that is due after `timeout`.
    pub fn with_timeout(timeout: Duration) -> (c: Context)
        ensures
            exists|now: i64|
                c@ == (ContextView {
                    due: Some(later(now, millis_spec(timeout))),
                    ..#[trigger] fresh_context(now)
                }),
    {
        let now = now_millis();
        let mut ctx = Self::new_at(now);
        ctx.set_timeout_at(now, millis(&timeout));
        assert(ctx@ == (ContextView {
            due: Some(later(now, millis_spec(timeout))),
            ..fresh_context(now)
        }));
        ctx
    }

    /// A context made now that is due at `deadline`.
    pub fn with_deadline(deadline: i64) -> (c: Context)
        ensures
            exists|now: i64|
                c@ == (ContextView { due: Some(deadline), ..#[trigger] fresh_context(now) }),
    {
        let now = now_millis();
        let mut ctx = Self::new_at(now);
        ctx.deadline = Some(deadline);
        assert(ctx@ == (ContextView { due: Some(deadline), ..fresh_context(now) }));
        ctx
    }

    /// Sets the deadline to `timeout_ms` after `now`.
    pub fn set_timeout_at(&mut self, now: i64, timeout_ms: u64)
        ensures
            final(self)@
                == (ContextView { due: Some(later(now, timeout_ms as nat)), ..old(self)@ }),
    {
        let sum: i128 = now as i128 + timeout_ms as i128;
        self.deadline = Some(
            if sum > i64::MAX as i128 {
                i64::MAX
            } else {
                sum as i64
            },
        );
    }

    /// Sets the deadline to `timeout` after now.
    pub fn set_timeout(&mut self, timeout: Duration)
        ensures
            exists|now: i64|
                final(self)@ == (ContextView {
                    due: Some(#[trigger] later(now, millis_spec(timeout))),
                    ..old(self)@
                }),
    {
        let now = now_millis();
        self.set_timeout_at(now, millis(&timeout));
        assert(self@ == (ContextView {
            due: Some(later(now, millis_spec(timeout))),
            ..old(self)@
        }));
    }

    /// The milliseconds left until the deadline at the time `now`: none
    /// without a deadline, 0 once it has passed.
    pub fn remaining_at(&self, now: i64) -> (r: Option<u64>)
        ensures
            r == left(self.due(), now),
            self.due() is Some ==> until(self.due()->0, now) <= u64::MAX,
    {
        match self.deadline {
            Some(d) => {
                if d > now {
                    let left: i128 = d as i128 - now as i128;
                    Some(left as u64)
                } else {
                    Some(0)
                }
            },
            None => None,
        }
    }

    /// The milliseconds left until the deadline.
    pub fn remaining(&self) -> (r: Option<u64>)
        ensures
            exists|now: i64| r == #[trigger] left(self.due(), now),
    {
        self.remaining_at(now_millis())
    }

    /// Whether the deadline has passed at the time `now`; never without a
    /// deadline.
    pub fn is_expired_at(&self, now: i64) -> (r: bool)
        ensures
            r == expired(self.due(), now),
    {
        match self.deadline {
            Some(d) => now >= d,
            None => false,
        }
    }

    /// Whether the deadline has passed.
    pub fn is_expired(&self) -> (r: bool)
        ensures
            exists|now: i64| r == #[trigger] expired(self.due(), now),
    {
        self.is_expired_at(now_millis())
    }

    /// The milliseconds since the context was made, at the time `now`; 0
    /// for a time before that.
    pub fn elapsed_at(&self, now: i64) -> (r: u64)
        ensures
            r == until(now, self.started()),
    {
        if now > self.start_time {
            let gone: i128 = now as i128 - self.start_time as i128;
            gone as u64
        } else {
            0
        }
    }

    /// The milliseconds since the context was made.
    pub fn elapsed(&self) -> (r: u64)
        ensures
            exists|now: i64| r == #[trigger] until(now, self.started()),
    {
        self.elapsed_at(now_millis())
    }

    /// Sets a value.
    pub fn set(&mut self, key: &str, value: &str)
        ensures
            final(self)@
                == (ContextView { pairs: put(old(self)@.pairs, key@, value@), ..old(self)@ }),
    {
        let mut values = StringMap::new();
        std::mem::swap(&mut values, &mut self.values);
        let _ = values.insert(key.to_owned(), value.to_owned());
        self.values = values;
    }

    /// The value under a key.
    pub fn get(&self, key: &str) -> (r: Option<String>)
        ensures
            match lookup(self.pairs(), key@) {
                Some(v) => r is Some && r->0@ == v,
                None => r is None,
            },
    {
        match self.values.get(key) {
            Some(v) => Some(v.clone()),
            None => None,
        }
    }

    /// Removes a value and returns it.
    pub fn remove(&mut self, key: &str) -> (r: Option<String>)
        ensures
            final(self)@ == (ContextView { pairs: without(old(self)@.pairs, key@), ..old(self)@ }),
            match lookup(old(self).pairs(), key@) {
                Some(v) => r is Some && r->0@ == v,
                None => r is None,
            },
    {
        let mut values = StringMap::new();
        std::mem::swap(&mut values, &mut self.values);
        let r = values.remove(key);
        self.values = values;
        r
    }

    /// A copy of all values.
    pub fn values(&self) -> (r: StringMap)
        ensures
            r@ == self.pairs(),
    {
        self.values.clone()
    }

    /// Sets the server IP.
    pub fn set_server_ip(&mut self, ip: &str)
        ensures
            final(self)@
                == (ContextView { server: (Some(ip@), old(self)@.server.1), ..old(self)@ }),
    {
        self.server_ip = Some(ip.to_owned());
    }

    /// The server IP.
    pub fn server_ip(&self) -> (r: Option<&str>)
        ensures
            match self.server().0 {
                Some(ip) => r is Some && r->0@ == ip,
                None => r is None,
            },
    {
        match &self.server_ip {
            Some(ip) => Some(ip.as_str()),
            None => None,
        }
    }

    /// Sets the server port.
    pub fn set_server_port(&mut self, port: u16)
        ensures
            final(self)@
                == (ContextView { server: (old(self)@.server.0, Some(port)), ..old(self)@ }),
    {
        self.server_port = Some(port);
    }

    /// The server port.
    pub fn server_port(&self) -> (r: Option<u16>)
        ensures
            r == self.server().1,
    {
        self.server_port
    }

    /// Sets the client IP.
    pub fn set_client_ip(&mut self, ip: &str)
        ensures
            final(self)@
                == (ContextView { client: (Some(ip@), old(self)@.client.1), ..old(self)@ }),
    {
        self.client_ip = Some(ip.to_owned());
    }

    /// The client IP.
    pub fn client_ip(&self) -> (r: Option<&str>)
        ensures
            match self.client().0 {
                Some(ip) => r is Some && r->0@ == ip,
                None => r is None,
            },
    {
        match &self.client_ip {
            Some(ip) => Some(ip.as_str()),
            None => None,
        }
    }

    /// Sets the client port.
    pub fn set_client_port(&mut self, port: u16)
        ensures
            final(self)@
                == (ContextView { client: (old(self)@.client.0, Some(port)), ..old(self)@ }),
    {
        self.client_port = Some(port);
    }

    /// The client port.
    pub fn client_port(&self) -> (r: Option<u16>)
        ensures
            r == self.client().1,
    {
        self.client_port
    }

    /// Sets the dyeing key.
    pub fn set_dyeing_key(&mut self, key: &str)
        ensures
            final(self)@ == (ContextView { dye: Some(key@), ..old(self)@ }),
    {
        self.dyeing_key = Some(key.to_owned());
    }

    /// The dyeing key.
    pub fn dyeing_key(&self) -> (r: Option<&str>)
        ensures
            match self.dye() {
                Some(k) => r is Some && r->0@ == k,
                None => r is None,
            },
    {
        match &self.dyeing_key {
            Some(k) => Some(k.as_str()),
            None => None,
        }
    }

    /// Whether the request is dyed.
    pub fn is_dyed(&self) -> (r: bool)
        ensures
            r == self.dye() is Some,
    {
        self.dyeing_key.is_some()
    }

    /// Sets the trace key.
    pub fn set_trace_key(&mut self, key: &str)
        ensures
            final(self)@ == (ContextView { trace: Some(key@), ..old(self)@ }),
    {
        self.trace_key = Some(key.to_owned());
    }

    /// The trace key.
    pub fn trace_key(&self) -> (r: Option<&str>)
        ensures
            match self.trace() {
                Some(k) => r is Some && r->0@ == k,
                None => r is None,
            },
    {
        match &self.trace_key {
            Some(k) => Some(k.as_str()),
            None => None,
        }
    }

    /// Whether the request is traced.
    pub fn is_traced(&self) -> (r: bool)
        ensures
            r == self.trace() is Some,
    {
        self.trace_key.is_some()
    }

    /// Sets the packet type.
    pub fn set_packet_type(&mut self, packet_type: i8)
        ensures
            final(self)@
                == (ContextView { packet: (packet_type, old(self)@.packet.1), ..old(self)@ }),
    {
        self.packet_type = packet_type;
    }

    /// The packet type.
    pub fn packet_type(&self) -> (r: i8)
        ensures
            r == self.packet().0,
    {
        self.packet_type
    }

    /// Sets the time the package was received.
    pub fn set_recv_pkg_ts(&mut self, ts: i64)
        ensures
            final(self)@ == (ContextView { packet: (old(self)@.packet.0, ts), ..old(self)@ }),
    {
        self.recv_pkg_ts = ts;
    }

    /// The time the package was received.
    pub fn recv_pkg_ts(&self) -> (r: i64)
        ensures
            r == self.packet().1,
    {
        self.recv_pkg_ts
    }
}

} // verus!
