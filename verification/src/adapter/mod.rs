//! The adapter: the client's view of one endpoint.
//!
//! An adapter counts what it sends and what comes back, decides from the
//! counts whether its endpoint is still worth sending to, and keeps the
//! table of requests that wait for their response.

pub mod table;

use dashmap::DashMap;
use vstd::prelude::*;

use crate::consts::{CHECK_TIME, FAIL_INTERVAL, FAIL_N, OVER_N, TRY_TIME_INTERVAL};
use crate::endpoint::Endpoint;
use crate::protocol::packet::ResponsePacket;
use crate::util::clock::{elapsed_at_least, has_elapsed, now_secs};
use table::{pending, table_clear, table_insert, table_new, table_remove};

verus! {

/// The health counters of an adapter.
pub struct Health {
    /// Failures since the last reset
    pub fail_count: i32,
    /// Failures in a row
    pub last_fail_count: i32,
    /// Requests sent since the last reset
    pub send_count: i32,
    /// Successes since the last reset
    pub success_count: i32,
    /// Time of the last success (unix seconds)
    pub last_success_time: i64,
    /// Time the endpoint was last blocked or probed
    pub last_block_time: i64,
    /// Time of the last look at the failure ratio
    pub last_check_time: i64,
    /// Whether the endpoint is active
    pub status: bool,
    /// Whether the adapter is closed
    pub closed: bool,
}

/// A counter one higher, wrapping from the greatest value to the least.
pub open spec fn bumped(n: i32) -> i32 {
    if n == i32::MAX {
        i32::MIN
    } else {
        (n + 1) as i32
    }
}

/// Whether the failure ratio `fail / max(send, 1)` has reached one half
/// with at least two failures.
pub open spec fn ratio_reached(fail: i32, send: i32) -> bool {
    fail >= OVER_N && 2 * fail >= (if send >= 1 {
        send as int
    } else {
        1
    })
}

/// Whether an active endpoint is given up at `now` for failures in a row:
/// at least five of them, and no success for five seconds.
pub open spec fn fails_in_a_row(h: Health, now: i64) -> bool {
    elapsed_at_least(now, h.last_success_time, FAIL_INTERVAL as int) && h.last_fail_count
        >= FAIL_N
}

/// Whether the failure ratio is due to be looked at: sixty seconds after
/// the last look.
pub open spec fn ratio_due(h: Health, now: i64) -> bool {
    elapsed_at_least(now, h.last_check_time, CHECK_TIME as int)
}

/// Whether an inactive endpoint is due for a probe: thirty seconds after it
/// was blocked or last probed.
pub open spec fn probe_due(h: Health, now: i64) -> bool {
    elapsed_at_least(now, h.last_block_time, TRY_TIME_INTERVAL as int)
}

/// The health check at `now`: the new counters, whether the endpoint has
/// just become inactive, and whether it should be probed.
///
/// A closed adapter is left alone. An active endpoint becomes inactive for
/// failures in a row, or, when the ratio is due, for the failure ratio; the
/// time of the look at the ratio is kept either way. An inactive endpoint
/// stays inactive; when a probe is due, the time of the probe is kept, and
/// it is the success of the probe that makes the endpoint active again.
///
/// The counts of failures and of requests sent run from the last reset, not
/// over a window of time: on a connection that lives long, failures of long
/// ago still count towards the ratio.
pub open spec fn checked(h: Health, now: i64) -> (Health, bool, bool) {
    if h.closed {
        (h, false, false)
    } else if h.status {
        if fails_in_a_row(h, now) {
            (Health { status: false, last_block_time: now, ..h }, true, false)
        } else if ratio_due(h, now) {
            if ratio_reached(h.fail_count, h.send_count) {
                (
                    Health { status: false, last_block_time: now, last_check_time: now, ..h },
                    true,
                    false,
                )
            } else {
                (Health { last_check_time: now, ..h }, false, false)
            }
        } else {
            (h, false, false)
        }
    } else if probe_due(h, now) {
        (Health { last_block_time: now, ..h }, false, true)
    } else {
        (h, false, false)
    }
}

/// The counters after a success at `now`: the time is kept, the successes
/// count one more, the failures in a row start again at zero, and the
/// endpoint is active, also where the success answers a probe.
pub open spec fn succeeded(h: Health, now: i64) -> Health {
    Health {
        last_success_time: now,
        success_count: bumped(h.success_count),
        last_fail_count: 0,
        status: true,
        ..h
    }
}

/// The counters after a failure.
pub open spec fn failed(h: Health) -> Health {
    Health {
        last_fail_count: bumped(h.last_fail_count),
        fail_count: bumped(h.fail_count),
        ..h
    }
}

/// The counters of a new adapter at `now`.
pub open spec fn fresh(now: i64) -> Health {
    Health {
        fail_count: 0,
        last_fail_count: 0,
        send_count: 0,
        success_count: 0,
        last_success_time: now,
        last_block_time: now,
        last_check_time: now,
        status: true,
        closed: false,
    }
}

/// The counters after a reset at `now`: all counts zero, the endpoint
/// active; the time of the last success stays.
pub open spec fn reset_at(h: Health, now: i64) -> Health {
    Health {
        send_count: 0,
        success_count: 0,
        fail_count: 0,
        last_fail_count: 0,
        last_block_time: now,
        last_check_time: now,
        status: true,
        ..h
    }
}

/// Adds one to a counter, wrapping from the greatest value to the least.
pub fn bump(n: i32) -> (r: i32)
    ensures
        r == bumped(n),
{
    if n == i32::MAX {
        i32::MIN
    } else {
        n + 1
    }
}

/// What to do with a response that has arrived.
#[derive(Debug, Clone, Copy, PartialEq, Eq, Structural)]
pub enum Delivery {
    /// A push that asks to connect anew.
    Reconnect,
    /// A push for the push callback.
    Push,
    /// The response of the request that waits under this ticket.
    Deliver(u64),
    /// A response that nobody waits for: it is dropped.
    Unmatched,
}

/// Where a response goes, given what is pending.
pub open spec fn routed_to(waiting: Map<i32, u64>, request_id: i32, desc: Seq<char>) -> Delivery {
    if request_id == 0 {
        if desc == "_reconnect_"@ {
            Delivery::Reconnect
        } else {
            Delivery::Push
        }
    } else if waiting.contains_key(request_id) {
        Delivery::Deliver(waiting[request_id])
    } else {
        Delivery::Unmatched
    }
}

/// The ticket that follows a ticket: one more, and 0 behind the greatest.
pub open spec fn next_ticket_after(ticket: u64) -> u64 {
    if ticket == u64::MAX {
        0u64
    } else {
        (ticket + 1) as u64
    }
}

/// The client's view of one endpoint.
pub struct AdapterProxy {
    endpoint: Endpoint,
    responses: DashMap<i32, u64>,
    next_ticket: u64,
    health: Health,
}

impl AdapterProxy {
    /// The health counters.
    pub closed spec fn health(&self) -> Health {
        self.health
    }

    /// The requests that wait for a response, each with its ticket.
    pub closed spec fn waiting(&self) -> Map<i32, u64> {
        pending(self.responses)
    }

    /// The ticket that the next registration gets.
    pub closed spec fn upcoming_ticket(&self) -> u64 {
        self.next_ticket
    }

    /// The endpoint as mathematics.
    pub closed spec fn place(&self) -> Endpoint {
        self.endpoint
    }

    /// Whether the adapter is as it is made: active, open, nothing counted,
    /// nothing pending, its first ticket not yet given.
    pub open spec fn just_made(&self) -> bool {
        &&& self.waiting() == Map::<i32, u64>::empty()
        &&& self.upcoming_ticket() == 0
        &&& exists|now: i64| self.health() == #[trigger] fresh(now)
    }

    /// A new adapter for the endpoint: active, open, nothing counted,
    /// nothing pending. The clock is read once.
    pub fn new(endpoint: Endpoint) -> (a: AdapterProxy)
        ensures
            a.place() == endpoint,
            a.just_made(),
    {
        Self::new_at(endpoint, now_secs())
    }

    /// A new adapter for the endpoint at the time `now`.
    pub fn new_at(endpoint: Endpoint, now: i64) -> (a: AdapterProxy)
        ensures
            a.place() == endpoint,
            a.waiting() == Map::<i32, u64>::empty(),
            a.health() == fresh(now),
            a.upcoming_ticket() == 0,
    {
        AdapterProxy {
            endpoint,
            responses: table_new(),
            next_ticket: 0,
            health: Health {
                fail_count: 0,
                last_fail_count: 0,
                send_count: 0,
                success_count: 0,
                last_success_time: now,
                last_block_time: now,
                last_check_time: now,
                status: true,
                closed: false,
            },
        }
    }

    /// The endpoint.
    pub fn endpoint(&self) -> (e: &Endpoint)
        ensures
            *e == self.place(),
    {
        &self.endpoint
    }

    /// Whether the endpoint is active.
    pub fn is_active(&self) -> (r: bool)
        ensures
            r == self.health().status,
    {
        self.health.status
    }

    /// Whether the adapter is closed.
    pub fn is_closed(&self) -> (r: bool)
        ensures
            r == self.health().closed,
    {
        self.health.closed
    }

    /// The number of requests sent.
    pub fn send_count(&self) -> (n: i32)
        ensures
            n == self.health().send_count,
    {
        self.health.send_count
    }

    /// The number of successes.
    pub fn success_count(&self) -> (n: i32)
        ensures
            n == self.health().success_count,
    {
        self.health.success_count
    }

    /// The number of failures.
    pub fn fail_count(&self) -> (n: i32)
        ensures
            n == self.health().fail_count,
    {
        self.health.fail_count
    }

    /// The number of failures in a row since the last success.
    pub fn consecutive_fail_count(&self) -> (n: i32)
        ensures
            n == self.health().last_fail_count,
    {
        self.health.last_fail_count
    }

    /// Counts a request that is about to be sent.
    pub fn send(&mut self)
        ensures
            final(self).health() == (Health {
                send_count: bumped(old(self).health().send_count),
                ..old(self).health()
            }),
            final(self).waiting() == old(self).waiting(),
            final(self).place() == old(self).place(),
            final(self).upcoming_ticket() == old(self).upcoming_ticket(),
    {
        self.health.send_count = bump(self.health.send_count);
    }

    /// Lets the request wait for its response and returns the ticket it
    /// waits under. A request that waited under the same id waits no more.
    pub fn register_response(&mut self, request_id: i32) -> (ticket: u64)
        ensures
            ticket == old(self).upcoming_ticket(),
            final(self).waiting() == old(self).waiting().insert(request_id, ticket),
            final(self).upcoming_ticket() == next_ticket_after(ticket),
            final(self).health() == old(self).health(),
            final(self).place() == old(self).place(),
    {
        let ticket: u64 = self.next_ticket;
        self.next_ticket = if ticket == u64::MAX {
            0
        } else {
            ticket + 1
        };
        let _ = table_insert(&mut self.responses, request_id, ticket);
        ticket
    }

    /// Lets the request wait no more; removing what is not there changes
    /// nothing.
    pub fn unregister_response(&mut self, request_id: i32)
        ensures
            final(self).waiting() == old(self).waiting().remove(request_id),
            final(self).health() == old(self).health(),
            final(self).place() == old(self).place(),
            final(self).upcoming_ticket() == old(self).upcoming_ticket(),
    {
        let _ = table_remove(&mut self.responses, request_id);
    }

    /// Decides where a response goes. A response with request id 0 is a
    /// push, and one described as "_reconnect_" asks to connect anew. Any
    /// other response goes to the request that waits under its id, which
    /// then waits no more; where none waits, the response is dropped.
    pub fn handle_response(&mut self, response: &ResponsePacket) -> (d: Delivery)
        ensures
            d == routed_to(old(self).waiting(), response.i_request_id, response.s_result_desc@),
            final(self).waiting() == (if response.i_request_id == 0 {
                old(self).waiting()
            } else {
                old(self).waiting().remove(response.i_request_id)
            }),
            final(self).health() == old(self).health(),
            final(self).place() == old(self).place(),
            final(self).upcoming_ticket() == old(self).upcoming_ticket(),
    {
        if response.i_request_id == 0 {
            return self.handle_push(response);
        }
        match table_remove(&mut self.responses, response.i_request_id) {
            Some(ticket) => Delivery::Deliver(ticket),
            None => Delivery::Unmatched,
        }
    }

    /// Decides what a push is: the request to connect anew, or data for
    /// the push callback.
    fn handle_push(&self, response: &ResponsePacket) -> (d: Delivery)
        ensures
            d == (if response.s_result_desc@ == "_reconnect_"@ {
                Delivery::Reconnect
            } else {
                Delivery::Push
            }),
    {
        if crate::codec::raw::str_eq(
            response.s_result_desc.as_str(),
            crate::consts::reconnect_msg(),
        ) {
            Delivery::Reconnect
        } else {
            Delivery::Push
        }
    }

    /// Records a success now.
    pub fn success_add(&mut self)
        ensures
            exists|now: i64| final(self).health() == succeeded(old(self).health(), now),
            final(self).waiting() == old(self).waiting(),
            final(self).place() == old(self).place(),
            final(self).upcoming_ticket() == old(self).upcoming_ticket(),
    {
        self.success_add_at(now_secs());
    }

    /// Records a success at the time `now`: the time is kept, the successes
    /// count one more, the failures in a row start again at zero, and an
    /// endpoint that was inactive is active again.
    pub fn success_add_at(&mut self, now: i64)
        ensures
            final(self).health() == succeeded(old(self).health(), now),
            final(self).waiting() == old(self).waiting(),
            final(self).place() == old(self).place(),
            final(self).upcoming_ticket() == old(self).upcoming_ticket(),
    {
        self.health.last_success_time = now;
        self.health.success_count = bump(self.health.success_count);
        self.health.last_fail_count = 0;
        self.health.status = true;
    }

    /// Records a failure: the failures and the failures in a row count one
    /// more.
    pub fn fail_add(&mut self)
        ensures
            final(self).health() == failed(old(self).health()),
            final(self).waiting() == old(self).waiting(),
            final(self).place() == old(self).place(),
            final(self).upcoming_ticket() == old(self).upcoming_ticket(),
    {
        self.health.last_fail_count = bump(self.health.last_fail_count);
        self.health.fail_count = bump(self.health.fail_count);
    }

    /// Checks the health now. Returns whether the endpoint has just become
    /// inactive, and whether it should be probed.
    pub fn check_active(&mut self) -> (r: (bool, bool))
        ensures
            exists|now: i64|
                (final(self).health(), r.0, r.1) == #[trigger] checked(old(self).health(), now),
            final(self).waiting() == old(self).waiting(),
            final(self).place() == old(self).place(),
            final(self).upcoming_ticket() == old(self).upcoming_ticket(),
    {
        self.check_active_at(now_secs())
    }

    /// Checks the health at the time `now`. Returns whether the endpoint
    /// has just become inactive, and whether it should be probed.
    pub fn check_active_at(&mut self, now: i64) -> (r: (bool, bool))
        ensures
            (final(self).health(), r.0, r.1) == checked(old(self).health(), now),
            final(self).waiting() == old(self).waiting(),
            final(self).place() == old(self).place(),
            final(self).upcoming_ticket() == old(self).upcoming_ticket(),
    {
        if self.health.closed {
            return (false, false);
        }
        if self.health.status {
            // failures in a row since the last success
            if has_elapsed(now, self.health.last_success_time, FAIL_INTERVAL as i64)
                && self.health.last_fail_count >= FAIL_N {
                self.health.status = false;
                self.health.last_block_time = now;
                return (true, false);
            }
            // the failure ratio, looked at once per period
            if has_elapsed(now, self.health.last_check_time, CHECK_TIME as i64) {
                self.health.last_check_time = now;
                let fail_count: i32 = self.health.fail_count;
                let send_count: i32 = self.health.send_count;
                let sent: i64 = if send_count >= 1 {
                    send_count as i64
                } else {
                    1
                };
                if fail_count >= OVER_N && 2 * (fail_count as i64) >= sent {
                    self.health.status = false;
                    self.health.last_block_time = now;
                    return (true, false);
                }
            }
            return (false, false);
        }
        // inactive: is it time to try again?
        if has_elapsed(now, self.health.last_block_time, TRY_TIME_INTERVAL as i64) {
            self.health.last_block_time = now;
            return (false, true);
        }
        (false, false)
    }

    /// Resets the counters now.
    pub fn reset(&mut self)
        ensures
            exists|now: i64| final(self).health() == reset_at(old(self).health(), now),
            final(self).waiting() == old(self).waiting(),
            final(self).place() == old(self).place(),
            final(self).upcoming_ticket() == old(self).upcoming_ticket(),
    {
        self.reset_at_time(now_secs());
    }

    /// Resets the counters at the time `now`: all counts zero, the endpoint
    /// active.
    pub fn reset_at_time(&mut self, now: i64)
        ensures
            final(self).health() == reset_at(old(self).health(), now),
            final(self).waiting() == old(self).waiting(),
            final(self).place() == old(self).place(),
            final(self).upcoming_ticket() == old(self).upcoming_ticket(),
    {
        self.health.send_count = 0;
        self.health.success_count = 0;
        self.health.fail_count = 0;
        self.health.last_fail_count = 0;
        self.health.last_block_time = now;
        self.health.last_check_time = now;
        self.health.status = true;
    }

    /// Closes the adapter: nothing waits any more, so every caller that
    /// still waited finds its connection closed.
    pub fn close(&mut self)
        ensures
            final(self).health() == (Health { closed: true, ..old(self).health() }),
            final(self).waiting() == Map::<i32, u64>::empty(),
            final(self).place() == old(self).place(),
            final(self).upcoming_ticket() == old(self).upcoming_ticket(),
    {
        self.health.closed = true;
        table_clear(&mut self.responses);
    }
}

/// Adapter demux: each response goes to the request that waits under its
/// id, in whatever order the responses arrive. Delivering one response
/// leaves every other request waiting under its own ticket, and two
/// deliveries in either order leave the same requests waiting.
pub proof fn law_demux_any_order(waiting: Map<i32, u64>, a: i32, b: i32, desc: Seq<char>)
    requires
        a != 0,
        b != 0,
        a != b,
    ensures
        routed_to(waiting.remove(a), b, desc) == routed_to(waiting, b, desc),
        routed_to(waiting.remove(b), a, desc) == routed_to(waiting, a, desc),
        waiting.contains_key(a) ==> routed_to(waiting, a, desc) == Delivery::Deliver(waiting[a]),
        routed_to(waiting.remove(a), a, desc) == Delivery::Unmatched,
        waiting.remove(a).remove(b) == waiting.remove(b).remove(a),
{
    assert(waiting.remove(a).remove(b) =~= waiting.remove(b).remove(a));
}

/// A request that was registered gets exactly the response with its id:
/// after registration the response is delivered to the ticket that the
/// registration gave.
pub proof fn law_registered_is_delivered(
    waiting: Map<i32, u64>,
    id: i32,
    ticket: u64,
    desc: Seq<char>,
)
    requires
        id != 0,
    ensures
        routed_to(waiting.insert(id, ticket), id, desc) == Delivery::Deliver(ticket),
{
}

} // verus!
