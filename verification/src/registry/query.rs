//! The registry client: which node to ask, what to ask, and what the
//! answer holds.

use vstd::prelude::*;
use vstd::string::StringSliceAdditionalSpecFns;

use super::breaker::{available_among, RegistryCircuitBreaker};
use crate::util::text::texts;
use super::locator::{parse_all_nodes, spec_all_nodes};
use crate::codec::decode::spec_read_int;
use crate::codec::raw::str_eq;
use crate::codec::wire::{encodable_text, string_field};
use crate::codec::{Buffer, Reader};
use crate::endpoint::{Endpoint, EndpointView};
use crate::error::{CodecError, TarsError};
use crate::protocol::packet::{RequestPacket, ResponsePacket};
use crate::protocol::queryf::{
    decode_endpoint_list, endpoint_views, spec_decode_endpoint_list, EndpointF, EndpointFView,
};
use crate::selector::nodes::views;
use crate::util::clock::now_secs;

verus! {

/// The unsigned 16-bit number with the low bits of `n`.
pub open spec fn low16(n: i32) -> int {
    (n as int) % 65536
}

/// The unsigned 32-bit number with the bits of `n`.
pub open spec fn bits32(n: i32) -> int {
    if n >= 0 {
        n as int
    } else {
        n + 4294967296
    }
}

/// The unsigned 64-bit number with the bits of `n`, the sign carried on.
pub open spec fn bits64(n: i32) -> int {
    if n >= 0 {
        n as int
    } else {
        n + 18446744073709551616
    }
}

/// The endpoint that a reported endpoint stands for: transport 1 is TCP, 2
/// is SSL and everything else UDP; port, timeout and weight are taken bit by
/// bit; the SET id is kept; the rest is as for a new endpoint.
pub open spec fn converted(v: EndpointFView) -> EndpointView {
    EndpointView {
        host: v.host,
        port: low16(v.port) as u16,
        timeout: bits64(v.timeout) as u64,
        istcp: if v.istcp == 1 {
            1
        } else if v.istcp == 2 {
            2
        } else {
            0
        },
        grid: 0,
        qos: 0,
        weight: bits32(v.weight) as u32,
        weight_type: 0,
        auth_type: 0,
        set_id: v.set_id,
    }
}

/// The endpoints that reported endpoints stand for.
pub open spec fn converted_all(s: Seq<EndpointFView>) -> Seq<EndpointView> {
    Seq::new(s.len(), |i: int| converted(s[i]))
}

/// The node that a selection lands on: round-robin among the available
/// nodes, or among all nodes where none is available (a forced probe); none
/// where there is no node at all.
pub open spec fn landed(nodes: Seq<Seq<char>>, available: Seq<Seq<char>>, index: usize) -> Option<
    Seq<char>,
> {
    if available.len() == 0 {
        if nodes.len() == 0 {
            None
        } else {
            Some(nodes[(index as int) % (nodes.len() as int)])
        }
    } else {
        Some(available[(index as int) % (available.len() as int)])
    }
}

/// The body of a query: the object id at tag 1, the SET id at tag 2 where
/// one is given.
pub open spec fn query_body(id: Seq<char>, set: Option<Seq<char>>) -> Seq<u8> {
    match set {
        Some(s) => string_field(id, 1) + string_field(s, 2),
        None => string_field(id, 1),
    }
}

/// What the payload of a query response holds: the return value at tag 0,
/// the active endpoints at tag 2 and, optional, the inactive ones at tag 3.
pub open spec fn spec_query_answer(data: Seq<u8>) -> Result<
    (Seq<EndpointFView>, Seq<EndpointFView>),
    CodecError,
> {
    match spec_read_int(data, 0, 0, true, 4) {
        Err(e) => Err(e),
        Ok((_, at0)) => match spec_decode_endpoint_list(data, at0, 2, true) {
            Err(e) => Err(e),
            Ok((active, at2)) => match spec_decode_endpoint_list(data, at2, 3, false) {
                Err(e) => Err(e),
                Ok((inactive, _)) => Ok((active, inactive)),
            },
        },
    }
}

/// Client of the registry service. Knows several registry nodes and keeps
/// a circuit breaker for each.
pub struct TarsRegistry {
    /// Locator string
    locator: String,
    /// All registry node addresses read from the locator
    nodes: Vec<String>,
    /// Circuit breakers of the nodes
    circuit_breaker: RegistryCircuitBreaker,
    /// Counter for round-robin selection
    current_index: usize,
    /// Query timeout in milliseconds
    timeout: i32,
}

impl TarsRegistry {
    /// The node addresses as mathematics.
    pub closed spec fn node_list(&self) -> Seq<Seq<char>> {
        texts(self.nodes@)
    }

    /// The round-robin counter as mathematics.
    pub closed spec fn counter(&self) -> usize {
        self.current_index
    }

    /// The circuit breakers as mathematics.
    pub closed spec fn guard(&self) -> RegistryCircuitBreaker {
        self.circuit_breaker
    }

    /// The query timeout as mathematics.
    pub closed spec fn timeout_ms(&self) -> i32 {
        self.timeout
    }

    /// The locator as mathematics.
    pub closed spec fn locator_text(&self) -> Seq<char> {
        self.locator@
    }

    /// A client for the registry at the locator, with a timeout of five
    /// seconds.
    pub fn new(locator: &str) -> (r: TarsRegistry)
        ensures
            r.locator_text() == locator@,
            r.node_list() == spec_all_nodes(locator.spec_bytes()),
            r.counter() == 0,
            r.timeout_ms() == 5000,
            r.guard().breakers().len() == 0,
    {
        let nodes = parse_all_nodes(locator);
        TarsRegistry {
            locator: locator.to_owned(),
            nodes,
            circuit_breaker: RegistryCircuitBreaker::new(),
            current_index: 0,
            timeout: 5000,
        }
    }

    /// The same client with another timeout.
    pub fn with_timeout(self, timeout_ms: i32) -> (r: TarsRegistry)
        ensures
            r.locator_text() == self.locator_text(),
            r.node_list() == self.node_list(),
            r.counter() == self.counter(),
            r.guard() == self.guard(),
            r.timeout_ms() == timeout_ms,
    {
        let mut r = self;
        r.timeout = timeout_ms;
        r
    }

    /// The locator.
    pub fn locator(&self) -> (s: &str)
        ensures
            s@ == self.locator_text(),
    {
        self.locator.as_str()
    }

    /// The query timeout in milliseconds.
    pub fn timeout(&self) -> (t: i32)
        ensures
            t == self.timeout_ms(),
    {
        self.timeout
    }

    /// The circuit breakers.
    pub fn circuit_breaker(&self) -> (b: &RegistryCircuitBreaker)
        ensures
            *b == self.guard(),
    {
        &self.circuit_breaker
    }

    /// All configured nodes.
    pub fn nodes(&self) -> (n: &Vec<String>)
        ensures
            texts(n@) == self.node_list(),
    {
        &self.nodes
    }

    /// The number of nodes that may be asked now.
    pub fn available_nodes_count(&self) -> (n: usize)
        ensures
            exists|now: i64|
                n == (#[trigger] available_among(
                    self.guard().breakers(),
                    self.node_list(),
                    now,
                )).len(),
    {
        let now = now_secs();
        let n = self.circuit_breaker.available_count_at(self.nodes.as_slice(), now);
        assert(n == available_among(self.guard().breakers(), self.node_list(), now).len());
        n
    }

    /// Selects the node to ask at the time `now`: round-robin among the
    /// nodes that may be asked; where none may, round-robin among all nodes,
    /// to force a probe. The counter moves on by one unless there is no node.
    pub fn select_node_at(&mut self, now: i64) -> (r: Option<String>)
        ensures
            final(self).node_list() == old(self).node_list(),
            final(self).guard() == old(self).guard(),
            final(self).timeout_ms() == old(self).timeout_ms(),
            final(self).locator_text() == old(self).locator_text(),
            match landed(
                old(self).node_list(),
                available_among(old(self).guard().breakers(), old(self).node_list(), now),
                old(self).counter(),
            ) {
                Some(node) => r is Some && r->0@ == node
                    && final(self).counter() == (if old(self).counter() == usize::MAX {
                    0usize
                } else {
                    (old(self).counter() + 1) as usize
                }),
                None => r is None && final(self).counter() == old(self).counter(),
            },
    {
        let available = self.circuit_breaker.filter_available_at(self.nodes.as_slice(), now);
        if available.len() == 0 {
            if self.nodes.len() > 0 {
                let idx: usize = self.current_index % self.nodes.len();
                self.bump_index();
                assert(texts(self.nodes@)[idx as int] == self.nodes@[idx as int]@);
                return Some(self.nodes[idx].clone());
            }
            return None;
        }
        let idx: usize = self.current_index % available.len();
        self.bump_index();
        assert(texts(available@)[idx as int] == available@[idx as int]@);
        Some(available[idx].clone())
    }

    /// Moves the round-robin counter on by one, wrapping at the end.
    fn bump_index(&mut self)
        ensures
            final(self).nodes == old(self).nodes,
            final(self).circuit_breaker == old(self).circuit_breaker,
            final(self).timeout == old(self).timeout,
            final(self).locator == old(self).locator,
            final(self).current_index == (if old(self).current_index == usize::MAX {
                0usize
            } else {
                (old(self).current_index + 1) as usize
            }),
    {
        self.current_index = if self.current_index == usize::MAX {
            0
        } else {
            self.current_index + 1
        };
    }

    /// Selects the node to ask now.
    pub fn select_node(&mut self) -> (r: Option<String>)
        ensures
            final(self).node_list() == old(self).node_list(),
            final(self).guard() == old(self).guard(),
            final(self).timeout_ms() == old(self).timeout_ms(),
            final(self).locator_text() == old(self).locator_text(),
            old(self).node_list().len() == 0 <==> r is None,
            final(self).counter() == (if r is Some {
                counter_after(old(self).counter())
            } else {
                old(self).counter()
            }),
            exists|now: i64|
                (match r {
                    Some(node) => Some(node@),
                    None => None,
                }) == landed(
                    old(self).node_list(),
                    #[trigger] available_among(
                        old(self).guard().breakers(),
                        old(self).node_list(),
                        now,
                    ),
                    old(self).counter(),
                ),
    {
        let now = now_secs();
        let r = self.select_node_at(now);
        proof {
            lemma_available_within(old(self).guard().breakers(), old(self).node_list(), now);
            assert((match r {
                Some(node) => Some(node@),
                None => None,
            }) == landed(
                old(self).node_list(),
                available_among(old(self).guard().breakers(), old(self).node_list(), now),
                old(self).counter(),
            ));
        }
        r
    }

    /// Records how a query at `node` ended at the time `now`: a success
    /// closes its circuit, a failure counts against it.
    pub fn record_outcome_at(&mut self, node: &str, ok: bool, now: i64)
        ensures
            final(self).node_list() == old(self).node_list(),
            final(self).counter() == old(self).counter(),
            final(self).timeout_ms() == old(self).timeout_ms(),
            final(self).locator_text() == old(self).locator_text(),
            super::breaker::changed_at(
                old(self).guard().breakers(),
                final(self).guard().breakers(),
                node@,
                if ok {
                    super::breaker::after_success(
                        super::breaker::prior(old(self).guard().breakers(), node@, now),
                        now,
                    )
                } else {
                    super::breaker::after_failure(
                        super::breaker::prior(old(self).guard().breakers(), node@, now),
                        now,
                    )
                },
            ),
    {
        if ok {
            self.circuit_breaker.record_success_at(node, now);
        } else {
            let _ = self.circuit_breaker.record_failure_at(node, now);
        }
    }

    /// Converts a reported endpoint to an endpoint.
    pub fn convert_endpoint(epf: &EndpointF) -> (ep: Endpoint)
        ensures
            ep@ == converted(epf@),
    {
        let port: u16 = #[verifier::truncate]
        (epf.port as u16);
        let timeout: u64 = #[verifier::truncate]
        (epf.timeout as u64);
        let weight: u32 = #[verifier::truncate]
        (epf.weight as u32);
        proof {
            let p = epf.port;
            let t = epf.timeout;
            let w = epf.weight;
            assert((p as u16) as int == (p as int) % 65536) by (bit_vector);
            assert(t >= 0 ==> (t as u64) as int == t as int) by (bit_vector);
            assert(t < 0 ==> (t as u64) as int == t + 18446744073709551616) by (bit_vector);
            assert(w >= 0 ==> (w as u32) as int == w as int) by (bit_vector);
            assert(w < 0 ==> (w as u32) as int == w + 4294967296) by (bit_vector);
        }
        let mut ep = if epf.istcp == 1 {
            Endpoint::tcp(epf.host.as_str(), port)
        } else if epf.istcp == 2 {
            Endpoint::ssl(epf.host.as_str(), port)
        } else {
            Endpoint::udp(epf.host.as_str(), port)
        };
        ep.timeout = timeout;
        ep.weight = weight;
        ep.set_id = epf.set_id.clone();
        ep.weight = weight;
        ep
    }

    /// Converts reported endpoints to endpoints.
    pub fn convert_endpoints(list: &Vec<EndpointF>) -> (r: Vec<Endpoint>)
        ensures
            views(r@) == converted_all(endpoint_views(list@)),
    {
        let mut out: Vec<Endpoint> = Vec::new();
        let mut i: usize = 0;
        while i < list.len()
            invariant
                0 <= i <= list@.len(),
                out@.len() == i,
                forall|j: int| 0 <= j < i ==> (#[trigger] out@[j])@ == converted(list@[j]@),
            decreases list@.len() - i,
        {
            out.push(Self::convert_endpoint(&list[i]));
            i = i + 1;
        }
        assert(views(out@) =~= converted_all(endpoint_views(list@)));
        out
    }

    /// Builds the request of a query: servant "tars.tarsregistry.QueryObj",
    /// the method, the body and this client's timeout. A text that does not
    /// fit a string field is refused.
    pub fn build_query(&self, id: &str, func: &str, set: Option<&str>) -> (r: Result<
        RequestPacket,
        TarsError,
    >)
        ensures
            match r {
                Ok(req) => encodable_text(id@) && (set is Some ==> encodable_text(set->0@))
                    && req.s_servant_name@ == "tars.tarsregistry.QueryObj"@ && req.s_func_name@
                    == func@ && req.s_buffer@ == query_body(
                    id@,
                    match set {
                        Some(s) => Some(s@),
                        None => None,
                    },
                ) && req.i_timeout == self.timeout_ms() && req.i_version == 1
                    && req.c_packet_type == 0 && req.i_message_type == 0 && req.i_request_id == 0
                    && req.context@.len() == 0 && req.status@.len() == 0,
                Err(e) => e == TarsError::Codec(CodecError::LengthOverflow) && !(encodable_text(
                    id@,
                ) && (set is Some ==> encodable_text(set->0@))),
            },
    {
        let mut body_buf = Buffer::new();
        match body_buf.write_string(id, 1) {
            Ok(()) => {},
            Err(e) => {
                return Err(e);
            },
        }
        match set {
            Some(set_id) => {
                match body_buf.write_string(set_id, 2) {
                    Ok(()) => {},
                    Err(e) => {
                        return Err(e);
                    },
                }
            },
            None => {},
        }
        let mut req = RequestPacket::new();
        req.s_servant_name = "tars.tarsregistry.QueryObj".to_owned();
        req.s_func_name = func.to_owned();
        req.s_buffer = body_buf.to_bytes();
        req.i_timeout = self.timeout;
        assert(req.s_buffer@ =~= query_body(
            id@,
            match set {
                Some(s) => Some(s@),
                None => None,
            },
        ));
        Ok(req)
    }

    /// Reads the answer to a query: a return code other than 0 is a server
    /// error with the response's description; otherwise the payload holds
    /// the active and the inactive endpoints.
    pub fn read_answer(rsp: &ResponsePacket) -> (r: Result<
        (Vec<Endpoint>, Vec<Endpoint>),
        TarsError,
    >)
        ensures
            rsp.i_ret != 0 ==> r == Err::<(Vec<Endpoint>, Vec<Endpoint>), TarsError>(
                TarsError::ServerError { code: rsp.i_ret, message: rsp.s_result_desc },
            ),
            rsp.i_ret == 0 ==> match spec_query_answer(rsp.s_buffer@) {
                Ok((active, inactive)) => r is Ok && views(r->Ok_0.0@) == converted_all(active)
                    && views(r->Ok_0.1@) == converted_all(inactive),
                Err(e) => r == Err::<(Vec<Endpoint>, Vec<Endpoint>), TarsError>(
                    TarsError::Codec(e),
                ),
            },
    {
        if rsp.i_ret != 0 {
            return Err(
                TarsError::ServerError { code: rsp.i_ret, message: rsp.s_result_desc.clone() },
            );
        }
        let mut reader = Reader::new(rsp.s_buffer.as_slice());
        match reader.read_int32(0, true) {
            Ok(_) => {},
            Err(e) => {
                return Err(e);
            },
        }
        let active_epf = match decode_endpoint_list(&mut reader, 2, true) {
            Ok(v) => v,
            Err(e) => {
                return Err(e);
            },
        };
        let inactive_epf = match decode_endpoint_list(&mut reader, 3, false) {
            Ok(v) => v,
            Err(e) => {
                return Err(e);
            },
        };
        let active = Self::convert_endpoints(&active_epf);
        let inactive = Self::convert_endpoints(&inactive_epf);
        Ok((active, inactive))
    }
}

/// The nodes that may be asked are some of the nodes: there are none of
/// them where there is no node.
pub proof fn lemma_available_within(
    breakers: Seq<super::breaker::NodeCircuitBreaker>,
    nodes: Seq<Seq<char>>,
    now: i64,
)
    ensures
        available_among(breakers, nodes, now).len() <= nodes.len(),
    decreases nodes.len(),
{
    if nodes.len() > 0 {
        lemma_available_within(breakers, nodes.drop_last(), now);
    }
}

/// A query with failover: which nodes were asked, and how many selections
/// are left.
pub struct QueryRun {
    tried: Vec<String>,
    rounds_left: usize,
    last_error: Option<TarsError>,
}

/// What to do next in a query with failover.
pub enum QueryStep {
    /// Ask this node.
    Ask(String),
    /// Give up with this error.
    GiveUp(TarsError),
}

/// What a query with failover does next.
pub enum Planned {
    /// Ask this node.
    Ask(Seq<char>),
    /// Give up: there is no node to select.
    NoNode,
    /// Give up: no selection is left.
    Exhausted,
}

/// The counter one higher, wrapping at the greatest value.
pub open spec fn counter_after(counter: usize) -> usize {
    if counter == usize::MAX {
        0usize
    } else {
        (counter + 1) as usize
    }
}

/// What a query does next with `rounds` selections left, together with the
/// round-robin counter and the selections left afterwards: each selection
/// lands on a node; a node that was asked already costs the selection and
/// the next one is made.
pub open spec fn planned(
    nodes: Seq<Seq<char>>,
    available: Seq<Seq<char>>,
    counter: usize,
    tried: Seq<Seq<char>>,
    rounds: nat,
) -> (Planned, usize, nat)
    decreases rounds,
{
    if rounds == 0 {
        (Planned::Exhausted, counter, 0nat)
    } else {
        match landed(nodes, available, counter) {
            None => (Planned::NoNode, counter, (rounds - 1) as nat),
            Some(node) => if was_tried(tried, node) {
                planned(nodes, available, counter_after(counter), tried, (rounds - 1) as nat)
            } else {
                (Planned::Ask(node), counter_after(counter), (rounds - 1) as nat)
            },
        }
    }
}

/// Whether a node was tried already.
pub open spec fn was_tried(tried: Seq<Seq<char>>, node: Seq<char>) -> bool {
    exists|i: int| 0 <= i < tried.len() && tried[i] == node
}

impl QueryRun {
    /// The nodes asked so far.
    pub closed spec fn asked(&self) -> Seq<Seq<char>> {
        texts(self.tried@)
    }

    /// The selections that are left.
    pub closed spec fn rounds(&self) -> usize {
        self.rounds_left
    }

    /// The error of the last node that failed.
    pub closed spec fn failure(&self) -> Option<TarsError> {
        self.last_error
    }

    /// Starts a query: no node asked yet, one selection for each node of
    /// the registry.
    pub fn start(registry: &TarsRegistry) -> (run: QueryRun)
        ensures
            run.asked().len() == 0,
            run.rounds() == registry.node_list().len(),
            run.failure() is None,
    {
        let n = registry.nodes().len();
        QueryRun { tried: Vec::new(), rounds_left: n, last_error: None }
    }

    /// Whether a node was asked already.
    fn has_tried(&self, node: &str) -> (r: bool)
        ensures
            r == was_tried(self.asked(), node@),
    {
        let mut i: usize = 0;
        while i < self.tried.len()
            invariant
                0 <= i <= self.tried@.len(),
                forall|j: int| 0 <= j < i ==> texts(self.tried@)[j] != node@,
            decreases self.tried@.len() - i,
        {
            if str_eq(self.tried[i].as_str(), node) {
                assert(texts(self.tried@)[i as int] == node@);
                return true;
            }
            i = i + 1;
        }
        false
    }

    /// Decides the next step at the time `now`: selects nodes, one
    /// selection at a time, until one comes up that was not asked yet, and
    /// asks it. With no node to select the query gives up with
    /// `NoEndpoint`; with no selection left it gives up with the error of
    /// the last node that failed, or `NoEndpoint` where none has.
    pub fn next(&mut self, registry: &mut TarsRegistry, now: i64) -> (step: QueryStep)
        ensures
            final(registry).node_list() == old(registry).node_list(),
            final(registry).guard() == old(registry).guard(),
            final(registry).timeout_ms() == old(registry).timeout_ms(),
            final(registry).locator_text() == old(registry).locator_text(),
            final(self).failure() == old(self).failure(),
            final(registry).counter() == planned(
                old(registry).node_list(),
                available_among(old(registry).guard().breakers(), old(registry).node_list(), now),
                old(registry).counter(),
                old(self).asked(),
                old(self).rounds() as nat,
            ).1,
            final(self).rounds() == planned(
                old(registry).node_list(),
                available_among(old(registry).guard().breakers(), old(registry).node_list(), now),
                old(registry).counter(),
                old(self).asked(),
                old(self).rounds() as nat,
            ).2,
            match planned(
                old(registry).node_list(),
                available_among(old(registry).guard().breakers(), old(registry).node_list(), now),
                old(registry).counter(),
                old(self).asked(),
                old(self).rounds() as nat,
            ).0 {
                Planned::Ask(node) => step matches QueryStep::Ask(n) && n@ == node
                    && final(self).asked() == old(self).asked().push(node),
                Planned::NoNode => step == QueryStep::GiveUp(TarsError::NoEndpoint)
                    && final(self).asked() == old(self).asked(),
                Planned::Exhausted => step == QueryStep::GiveUp(
                    match old(self).failure() {
                        Some(last) => last,
                        None => TarsError::NoEndpoint,
                    },
                ) && final(self).asked() == old(self).asked(),
            },
    {
        let ghost nodes = registry.node_list();
        let ghost avail = available_among(registry.guard().breakers(), registry.node_list(), now);
        while self.rounds_left > 0
            invariant
                registry.node_list() == nodes,
                registry.node_list() == old(registry).node_list(),
                registry.guard() == old(registry).guard(),
                registry.timeout_ms() == old(registry).timeout_ms(),
                registry.locator_text() == old(registry).locator_text(),
                avail == available_among(registry.guard().breakers(), registry.node_list(), now),
                self.tried == old(self).tried,
                self.last_error == old(self).last_error,
                planned(
                    nodes,
                    avail,
                    registry.counter(),
                    texts(self.tried@),
                    self.rounds_left as nat,
                ) == planned(
                    nodes,
                    avail,
                    old(registry).counter(),
                    old(self).asked(),
                    old(self).rounds() as nat,
                ),
            decreases self.rounds_left,
        {
            self.rounds_left = self.rounds_left - 1;
            let node = match registry.select_node_at(now) {
                Some(n) => n,
                None => {
                    return QueryStep::GiveUp(TarsError::NoEndpoint);
                },
            };
            if self.has_tried(node.as_str()) {
                continue ;
            }
            self.tried.push(node.clone());
            assert(texts(self.tried@) =~= old(self).asked().push(node@));
            return QueryStep::Ask(node);
        }
        match &self.last_error {
            Some(e) => QueryStep::GiveUp(copy_error(e)),
            None => QueryStep::GiveUp(TarsError::NoEndpoint),
        }
    }

    /// Records that the node just asked has failed with `error`.
    pub fn failed(&mut self, error: TarsError)
        ensures
            final(self).asked() == old(self).asked(),
            final(self).rounds() == old(self).rounds(),
            final(self).failure() == Some(error),
    {
        self.last_error = Some(error);
    }
}

/// A copy of an error.
pub fn copy_error(e: &TarsError) -> (r: TarsError)
    ensures
        r == *e,
{
    match e {
        TarsError::Codec(c) => TarsError::Codec(*c),
        TarsError::Protocol(s) => TarsError::Protocol(s.clone()),
        TarsError::Transport(s) => TarsError::Transport(s.clone()),
        TarsError::Timeout(ms) => TarsError::Timeout(*ms),
        TarsError::NoEndpoint => TarsError::NoEndpoint,
        TarsError::ServiceNotFound(s) => TarsError::ServiceNotFound(s.clone()),
        TarsError::ServerError { code, message } => TarsError::ServerError {
            code: *code,
            message: message.clone(),
        },
        TarsError::Config(s) => TarsError::Config(s.clone()),
        TarsError::QueueFull => TarsError::QueueFull,
        TarsError::ConnectionClosed => TarsError::ConnectionClosed,
        TarsError::InvalidArgument(s) => TarsError::InvalidArgument(s.clone()),
    }
}

} // verus!
