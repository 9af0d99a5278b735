//! The servant proxy: the client's side of calling a remote service.
//!
//! A call gets a request id and a request, enters the proxy if the proxy is
//! not full, is routed to the adapter of an endpoint, and ends with a
//! response, a timeout or a closed connection. The waiting in between is
//! done outside this crate.

use std::time::Duration;
use vstd::prelude::*;
use vstd::string::StringSliceAdditionalSpecFns;
use vstd::utf8::encode_utf8;

use crate::adapter::{
    bumped, failed, next_ticket_after, routed_to, succeeded, AdapterProxy, Delivery, Health,
};
use crate::codec::string_map::{put, Entries};
use crate::codec::StringMap;
use crate::consts::{
    status_dyed_key, status_trace_key, TARS_MESSAGE_TYPE_DYED, TARS_MESSAGE_TYPE_TRACE,
    TARS_NORMAL, TARS_ONEWAY, TARS_VERSION,
};
use crate::endpoint::{same_place, Endpoint, EndpointView};
use crate::error::TarsError;
use crate::filter::Message;
use crate::protocol::packet::{RequestPacket, RequestView, ResponsePacket};
use crate::selector::nodes::{clone_nodes, contains_place, has_place, views};
use crate::selector::consistenthash::routed;
use crate::selector::{
    create_selector, kind_of_name, AnySelector, ConsistentHash, HashType, Selector, SelectorKind,
};
use crate::transport::TarsClientConfig;
use crate::util::duration::{duration_from_millis, millis_of};
use crate::util::Context;

verus! {

/// The most calls that may be in flight in one proxy before a new call is
/// refused.
pub const DEFAULT_OBJ_QUEUE_MAX: i32 = 10000;

/// How the wait for a response has ended.
pub enum WaitOutcome {
    /// The response has come.
    Response(ResponsePacket),
    /// The connection has closed before the response came.
    Closed,
    /// The time has run out.
    TimedOut,
}

/// The 32-bit signed number with the low bits of a timeout.
pub open spec fn low32(t: u64) -> i32 {
    if (t as int) % 4294967296 >= 2147483648 {
        ((t as int) % 4294967296 - 4294967296) as i32
    } else {
        ((t as int) % 4294967296) as i32
    }
}

/// Takes the low 32 bits of a timeout as a signed number.
pub fn timeout_field(t: u64) -> (r: i32)
    ensures
        r == low32(t),
{
    let low: u64 = t % 4294967296;
    if low >= 2147483648 {
        (low as i64 - 4294967296) as i32
    } else {
        low as i32
    }
}

/// The index of the first adapter at or behind `from` whose endpoint is at
/// the place of `node`, or the number of adapters where there is none.
pub open spec fn find_adapter(s: Seq<AdapterProxy>, node: EndpointView, from: int) -> int
    decreases s.len() - from,
{
    if from < 0 || from >= s.len() {
        s.len() as int
    } else if same_place(s[from].place()@, node) {
        from
    } else {
        find_adapter(s, node, from + 1)
    }
}

/// Whether `at` is the adapter of the endpoint `node` among `before`, found
/// or made: the first adapter at the place of `node`, or a new adapter for
/// `node` at the end where there was none; `after` are the adapters then.
pub open spec fn sought(
    before: Seq<AdapterProxy>,
    node: EndpointView,
    at: usize,
    after: Seq<AdapterProxy>,
) -> bool {
    &&& at == find_adapter(before, node, 0)
    &&& at < after.len()
    &&& same_place(after[at as int].place()@, node)
    &&& at < before.len() ==> after == before
    &&& at >= before.len() ==> after.len() == before.len() + 1 && after.subrange(0, at as int)
        == before && after[at as int].place()@ == node && after[at as int].just_made()
}

/// The adapters that stay when the endpoints are replaced by `nodes`: those
/// whose endpoint is at the place of one of `nodes`, in their order.
pub open spec fn staying(adapters: Seq<AdapterProxy>, nodes: Seq<EndpointView>) -> Seq<
    AdapterProxy,
>
    decreases adapters.len(),
{
    if adapters.len() == 0 {
        Seq::empty()
    } else if has_place(nodes, adapters.last().place()@) {
        staying(adapters.drop_last(), nodes).push(adapters.last())
    } else {
        staying(adapters.drop_last(), nodes)
    }
}

/// Whether `after` are the adapters that replacing the endpoints by `nodes`
/// leaves of `before`: first the adapters that stay, each as it was and in
/// their order, then adapters that are newly made.
pub open spec fn replaced(
    before: Seq<AdapterProxy>,
    nodes: Seq<EndpointView>,
    after: Seq<AdapterProxy>,
) -> bool {
    &&& staying(before, nodes).len() <= after.len()
    &&& after.subrange(0, staying(before, nodes).len() as int) == staying(before, nodes)
    &&& forall|i: int|
        staying(before, nodes).len() <= i < after.len() ==> (#[trigger] after[i]).just_made()
}

/// The status map of a request: what the caller gave, with the dyeing key
/// and the trace key of the context under their status keys.
pub open spec fn status_with_keys(
    status: Entries,
    dye: Option<Seq<char>>,
    trace: Option<Seq<char>>,
) -> Entries {
    let dyed = match dye {
        Some(k) => put(status, "STATUS_DYED_KEY"@, k),
        None => status,
    };
    match trace {
        Some(k) => put(dyed, "STATUS_TRACE_KEY"@, k),
        None => dyed,
    }
}

/// The message flags of a request: bit 4 for a dyed and bit 8 for a traced
/// call.
pub open spec fn flags_with_keys(dye: Option<Seq<char>>, trace: Option<Seq<char>>) -> i32 {
    if dye is Some && trace is Some {
        12
    } else if dye is Some {
        4
    } else if trace is Some {
        8
    } else {
        0
    }
}

/// What a call ends with, by the outcome of its wait: a response with
/// return code 0 is the result; any other response is a server error with
/// its code and description; a closed connection and a timeout are errors
/// of their own.
pub open spec fn call_result(outcome: WaitOutcome, timeout_ms: u64) -> Result<
    ResponsePacket,
    TarsError,
> {
    match outcome {
        WaitOutcome::Response(resp) => if resp.i_ret == 0 {
            Ok(resp)
        } else {
            Err(TarsError::ServerError { code: resp.i_ret, message: resp.s_result_desc })
        },
        WaitOutcome::Closed => Err(TarsError::ConnectionClosed),
        WaitOutcome::TimedOut => Err(TarsError::Timeout(timeout_ms)),
    }
}

/// Turns the outcome of a wait into what the call ends with.
pub fn finish_call(outcome: WaitOutcome, timeout_ms: u64) -> (r: Result<ResponsePacket, TarsError>)
    ensures
        r == call_result(outcome, timeout_ms),
{
    match outcome {
        WaitOutcome::Response(resp) => {
            if resp.is_success() {
                Ok(resp)
            } else {
                Err(TarsError::ServerError { code: resp.i_ret, message: resp.s_result_desc })
            }
        },
        WaitOutcome::Closed => Err(TarsError::ConnectionClosed),
        WaitOutcome::TimedOut => Err(TarsError::Timeout(timeout_ms)),
    }
}

/// Whether two states of a proxy have the same name, timeout, protocol
/// version, endpoints, selector and ring.
pub open spec fn same_setup(a: ServantProxy, b: ServantProxy) -> bool {
    &&& a.service() == b.service()
    &&& a.timeout_ms() == b.timeout_ms()
    &&& a.protocol_version() == b.protocol_version()
    &&& a.endpoints() == b.endpoints()
    &&& a.strategy() == b.strategy()
    &&& a.hash_candidates() == b.hash_candidates()
}

/// Client-side proxy of one remote service.
pub struct ServantProxy {
    /// Service name, such as "Test.HelloServer.HelloObj"
    name: String,
    /// Endpoint selector
    selector: AnySelector,
    /// The ring for calls that are routed by consistent hash
    ring: ConsistentHash,
    /// Adapters, one per endpoint
    adapters: Vec<AdapterProxy>,
    /// Active endpoints
    active_endpoints: Vec<Endpoint>,
    /// Timeout in milliseconds
    timeout: u64,
    /// Protocol version
    version: i16,
    /// Calls in flight
    queue_len: i32,
    /// Client config
    client_config: TarsClientConfig,
}

impl ServantProxy {
    /// The service name as mathematics.
    pub closed spec fn service(&self) -> Seq<char> {
        self.name@
    }

    /// The timeout in milliseconds as mathematics.
    pub closed spec fn timeout_ms(&self) -> u64 {
        self.timeout
    }

    /// The calls in flight as mathematics.
    pub closed spec fn in_flight(&self) -> i32 {
        self.queue_len
    }

    /// The adapters as mathematics.
    pub closed spec fn adapters(&self) -> Seq<AdapterProxy> {
        self.adapters@
    }

    /// The active endpoints as mathematics.
    pub closed spec fn endpoints(&self) -> Seq<EndpointView> {
        views(self.active_endpoints@)
    }

    /// The selector as mathematics.
    pub closed spec fn strategy(&self) -> AnySelector {
        self.selector
    }

    /// The endpoints that the selector picks from.
    pub open spec fn candidates(&self) -> Seq<EndpointView> {
        self.strategy().nodes()
    }

    /// The endpoints on the ring for calls routed by consistent hash.
    pub closed spec fn hash_candidates(&self) -> Seq<EndpointView> {
        self.ring.nodes()
    }

    /// The endpoints that a message is routed among: the ring's for a call
    /// routed by consistent hash, the active ones for a call routed by
    /// mod-hash, the selector's for any other call.
    pub open spec fn pool(&self, is_hash: bool, hash_type: HashType) -> Seq<EndpointView> {
        if is_hash {
            match hash_type {
                HashType::ModHash => self.endpoints(),
                HashType::ConsistentHash => self.hash_candidates(),
            }
        } else {
            self.candidates()
        }
    }

    /// Whether `ep` is the endpoint for a message. A call routed by
    /// mod-hash goes to the active endpoint at the hash code modulo their
    /// number; a call routed by consistent hash goes where the ring sends
    /// the hash code; any other call goes where the selector picks.
    pub open spec fn picks(
        &self,
        is_hash: bool,
        hash_type: HashType,
        hash: u32,
        ep: EndpointView,
    ) -> bool {
        if is_hash {
            match hash_type {
                HashType::ModHash => self.endpoints().len() > 0 && ep == self.endpoints()[(hash
                    as int) % (self.endpoints().len() as int)],
                HashType::ConsistentHash => routed(self.hash_candidates(), hash, ep),
            }
        } else {
            self.strategy().chooses(hash, ep)
        }
    }

    /// The protocol version as mathematics.
    pub closed spec fn protocol_version(&self) -> i16 {
        self.version
    }

    /// A proxy for the service at the endpoints: round-robin selection, an
    /// adapter for each endpoint, the default timeout, nothing in flight.
    pub fn new(name: &str, endpoints: Vec<Endpoint>, config: TarsClientConfig) -> (p: ServantProxy)
        ensures
            p.service() == name@,
            p.endpoints() == views(endpoints@),
            p.candidates() == views(endpoints@),
            p.hash_candidates() == views(endpoints@),
            p.strategy().kind() == SelectorKind::RoundRobin,
            p.strategy().turn() == 0,
            p.timeout_ms() == 3000,
            p.in_flight() == 0,
            p.protocol_version() == 1,
            forall|i: int|
                0 <= i < endpoints@.len()
                    ==> find_adapter(p.adapters(), #[trigger] endpoints@[i]@, 0)
                    < p.adapters().len(),
            forall|k: int|
                0 <= k < p.adapters().len() ==> (#[trigger] p.adapters()[k]).just_made()
                    && has_place(views(endpoints@), p.adapters()[k].place()@),
    {
        let mut selector = create_selector("roundrobin");
        proof {
            lemma_round_robin_by_name();
        }
        selector.refresh(clone_nodes(&endpoints));
        let ring = ConsistentHash::with_nodes(clone_nodes(&endpoints));
        let mut proxy = ServantProxy {
            name: name.to_owned(),
            selector,
            ring,
            adapters: Vec::new(),
            active_endpoints: clone_nodes(&endpoints),
            timeout: 3000,
            version: TARS_VERSION,
            queue_len: 0,
            client_config: config,
        };
        let mut i: usize = 0;
        while i < endpoints.len()
            invariant
                0 <= i <= endpoints@.len(),
                proxy.name@ == name@,
                views(proxy.active_endpoints@) == views(endpoints@),
                proxy.selector.nodes() == views(endpoints@),
                proxy.ring.nodes() == views(endpoints@),
                proxy.selector.kind() == SelectorKind::RoundRobin,
                proxy.selector.turn() == 0,
                proxy.timeout == 3000,
                proxy.queue_len == 0,
                proxy.version == 1,
                forall|j: int|
                    0 <= j < i ==> find_adapter(proxy.adapters@, #[trigger] endpoints@[j]@, 0)
                        < proxy.adapters@.len(),
                forall|k: int|
                    0 <= k < proxy.adapters@.len() ==> (#[trigger] proxy.adapters@[k]).just_made()
                        && has_place(views(endpoints@), proxy.adapters@[k].place()@),
            decreases endpoints@.len() - i,
        {
            let ghost before = proxy.adapters@;
            let at = proxy.get_or_create_adapter(&endpoints[i]);
            proof {
                assert forall|k: int| 0 <= k < proxy.adapters@.len() implies (
                #[trigger] proxy.adapters@[k]).just_made() && has_place(
                    views(endpoints@),
                    proxy.adapters@[k].place()@,
                ) by {
                    if k < before.len() {
                        if at >= before.len() {
                            assert(proxy.adapters@.subrange(0, at as int)[k] == before[k]);
                        }
                        assert(proxy.adapters@[k] == before[k]);
                    } else {
                        assert(k == at);
                        assert(same_place(
                            views(endpoints@)[i as int],
                            proxy.adapters@[k].place()@,
                        ));
                    }
                }
                lemma_find_adapter_upto(proxy.adapters@, endpoints@[i as int]@, 0, at as int);
                assert forall|j: int| 0 <= j < i implies find_adapter(
                    proxy.adapters@,
                    #[trigger] endpoints@[j]@,
                    0,
                ) < proxy.adapters@.len() by {
                    assert(proxy.adapters@.subrange(0, before.len() as int) =~= before);
                    lemma_find_adapter_grows(before, proxy.adapters@, endpoints@[j]@, 0);
                }
            }
            i = i + 1;
        }
        proxy
    }

    /// The service name.
    pub fn name(&self) -> (n: &str)
        ensures
            n@ == self.service(),
    {
        self.name.as_str()
    }

    /// Sets the timeout in milliseconds.
    pub fn set_timeout(&mut self, timeout_ms: u64)
        ensures
            final(self).timeout_ms() == timeout_ms,
            final(self).service() == old(self).service(),
            final(self).in_flight() == old(self).in_flight(),
            final(self).adapters() == old(self).adapters(),
            final(self).endpoints() == old(self).endpoints(),
            final(self).strategy() == old(self).strategy(),
            final(self).hash_candidates() == old(self).hash_candidates(),
            final(self).protocol_version() == old(self).protocol_version(),
    {
        self.timeout = timeout_ms;
    }

    /// The timeout.
    pub fn timeout(&self) -> (d: Duration)
        ensures
            millis_of(d) == self.timeout_ms(),
    {
        duration_from_millis(self.timeout)
    }

    /// The number of calls in flight.
    pub fn queue_len(&self) -> (n: i32)
        ensures
            n == self.in_flight(),
    {
        self.queue_len
    }

    /// The number of adapters.
    pub fn adapter_count(&self) -> (n: usize)
        ensures
            n == self.adapters().len(),
    {
        self.adapters.len()
    }

    /// The adapter at an index.
    pub fn adapter(&self, i: usize) -> (a: &AdapterProxy)
        requires
            i < self.adapters().len(),
        ensures
            *a == self.adapters()[i as int],
    {
        &self.adapters[i]
    }

    /// The index of the adapter of an endpoint.
    fn adapter_position(&self, endpoint: &Endpoint) -> (r: Option<usize>)
        ensures
            match r {
                Some(i) => i == find_adapter(self.adapters(), endpoint@, 0) && i
                    < self.adapters().len(),
                None => find_adapter(self.adapters(), endpoint@, 0) >= self.adapters().len(),
            },
    {
        let mut i: usize = 0;
        while i < self.adapters.len()
            invariant
                0 <= i <= self.adapters@.len(),
                find_adapter(self.adapters@, endpoint@, 0) == find_adapter(
                    self.adapters@,
                    endpoint@,
                    i as int,
                ),
            decreases self.adapters@.len() - i,
        {
            if *self.adapters[i].endpoint() == *endpoint {
                return Some(i);
            }
            i = i + 1;
        }
        None
    }

    /// The index of the adapter of an endpoint; an endpoint that has none
    /// yet gets a new one at the end.
    pub fn get_or_create_adapter(&mut self, endpoint: &Endpoint) -> (i: usize)
        ensures
            sought(old(self).adapters(), endpoint@, i, final(self).adapters()),
            final(self).service() == old(self).service(),
            final(self).timeout_ms() == old(self).timeout_ms(),
            final(self).in_flight() == old(self).in_flight(),
            final(self).endpoints() == old(self).endpoints(),
            final(self).strategy() == old(self).strategy(),
            final(self).hash_candidates() == old(self).hash_candidates(),
            final(self).protocol_version() == old(self).protocol_version(),
    {
        match self.adapter_position(endpoint) {
            Some(i) => {
                proof {
                    lemma_find_adapter(self.adapters@, endpoint@, 0);
                }
                i
            },
            None => {
                proof {
                    lemma_find_adapter(self.adapters@, endpoint@, 0);
                }
                let adapter = AdapterProxy::new(endpoint.clone());
                self.adapters.push(adapter);
                assert(self.adapters@.subrange(0, self.adapters@.len() - 1) =~= old(self).adapters@);
                self.adapters.len() - 1
            },
        }
    }

    /// Replaces the endpoints: the selector picks from the new ones, the
    /// adapters of endpoints that are gone are closed and dropped, and each
    /// new endpoint gets an adapter.
    pub fn refresh_endpoints(&mut self, endpoints: Vec<Endpoint>)
        ensures
            final(self).endpoints() == views(endpoints@),
            final(self).candidates() == views(endpoints@),
            final(self).hash_candidates() == views(endpoints@),
            final(self).strategy().kind() == old(self).strategy().kind(),
            final(self).strategy().turn() == old(self).strategy().turn(),
            final(self).service() == old(self).service(),
            final(self).timeout_ms() == old(self).timeout_ms(),
            final(self).in_flight() == old(self).in_flight(),
            final(self).protocol_version() == old(self).protocol_version(),
            replaced(old(self).adapters(), views(endpoints@), final(self).adapters()),
            forall|i: int|
                0 <= i < final(self).adapters().len() ==> has_place(
                    views(endpoints@),
                    (#[trigger] final(self).adapters()[i]).place()@,
                ),
            forall|i: int|
                0 <= i < endpoints@.len() ==> find_adapter(
                    final(self).adapters(),
                    #[trigger] endpoints@[i]@,
                    0,
                ) < final(self).adapters().len(),
    {
        self.selector.refresh(clone_nodes(&endpoints));
        self.ring.refresh(clone_nodes(&endpoints));
        // keep the adapters of endpoints that stay, close the others
        let mut kept: Vec<AdapterProxy> = Vec::new();
        let mut old_adapters: Vec<AdapterProxy> = Vec::new();
        std::mem::swap(&mut old_adapters, &mut self.adapters);
        let ghost all = old(self).adapters@;
        let ghost nodes = views(endpoints@);
        let ghost mut done: int = 0;
        assert(all.take(0) =~= Seq::<AdapterProxy>::empty());
        assert(old_adapters@ =~= all.subrange(0, all.len() as int));
        while old_adapters.len() > 0
            invariant
                nodes == views(endpoints@),
                0 <= done <= all.len(),
                old_adapters@ == all.subrange(done, all.len() as int),
                kept@ == staying(all.take(done), nodes),
                forall|i: int|
                    0 <= i < kept@.len() ==> has_place(
                        views(endpoints@),
                        (#[trigger] kept@[i]).place()@,
                    ),
            decreases old_adapters@.len(),
        {
            let ghost rest = old_adapters@;
            let mut adapter = old_adapters.remove(0);
            proof {
                assert(adapter == all[done]);
                assert(old_adapters@ =~= all.subrange(done + 1, all.len() as int));
                assert(all.take(done + 1).drop_last() =~= all.take(done));
                assert(all.take(done + 1).last() == all[done]);
            }
            if contains_place(&endpoints, adapter.endpoint()) {
                kept.push(adapter);
            } else {
                adapter.close();
            }
            proof {
                done = done + 1;
            }
        }
        assert(all.take(all.len() as int) =~= all);
        let ghost stay = kept@;
        self.adapters = kept;
        assert(self.adapters@.subrange(0, stay.len() as int) =~= stay);
        // add adapters for new endpoints
        let mut i: usize = 0;
        while i < endpoints.len()
            invariant
                0 <= i <= endpoints@.len(),
                self.service() == old(self).service(),
                self.timeout_ms() == old(self).timeout_ms(),
                self.in_flight() == old(self).in_flight(),
                self.protocol_version() == old(self).protocol_version(),
                self.selector.nodes() == views(endpoints@),
                self.ring.nodes() == views(endpoints@),
                self.selector.kind() == old(self).selector.kind(),
                self.selector.turn() == old(self).selector.turn(),
                stay == staying(old(self).adapters@, views(endpoints@)),
                stay.len() <= self.adapters@.len(),
                self.adapters@.subrange(0, stay.len() as int) == stay,
                forall|k: int|
                    stay.len() <= k < self.adapters@.len()
                        ==> (#[trigger] self.adapters@[k]).just_made(),
                forall|k: int|
                    0 <= k < self.adapters@.len() ==> has_place(
                        views(endpoints@),
                        (#[trigger] self.adapters@[k]).place()@,
                    ),
                forall|j: int|
                    0 <= j < i ==> find_adapter(self.adapters@, #[trigger] endpoints@[j]@, 0)
                        < self.adapters@.len(),
            decreases endpoints@.len() - i,
        {
            let ghost before = self.adapters@;
            let at = self.get_or_create_adapter(&endpoints[i]);
            proof {
                if at >= before.len() {
                    assert(self.adapters@.subrange(0, stay.len() as int) =~= before.subrange(
                        0,
                        stay.len() as int,
                    )) by {
                        assert(self.adapters@.subrange(0, at as int) == before);
                    }
                    assert forall|k: int| stay.len() <= k < self.adapters@.len() implies (
                    #[trigger] self.adapters@[k]).just_made() by {
                        if k < before.len() {
                            assert(self.adapters@.subrange(0, at as int)[k] == before[k]);
                        }
                    }
                }
                lemma_find_adapter_upto(self.adapters@, endpoints@[i as int]@, 0, at as int);
                assert forall|j: int| 0 <= j < i implies find_adapter(
                    self.adapters@,
                    #[trigger] endpoints@[j]@,
                    0,
                ) < self.adapters@.len() by {
                    assert(self.adapters@.subrange(0, before.len() as int) =~= before);
                    lemma_find_adapter_grows(before, self.adapters@, endpoints@[j]@, 0);
                }
                assert forall|k: int| 0 <= k < self.adapters@.len() implies has_place(
                    views(endpoints@),
                    (#[trigger] self.adapters@[k]).place()@,
                ) by {
                    if k < before.len() {
                        if at >= before.len() {
                            assert(self.adapters@.subrange(0, at as int)[k] == before[k]);
                        }
                        assert(self.adapters@[k] == before[k]);
                    } else {
                        assert(k == at);
                        assert(same_place(views(endpoints@)[i as int], self.adapters@[k].place()@));
                    }
                }
            }
            i = i + 1;
        }
        self.active_endpoints = endpoints;
    }

    /// Picks the endpoint for a message: by the hash code for a call that
    /// asks for it, by the selector otherwise. With no endpoint to pick from
    /// the answer is `NoEndpoint`.
    pub fn select_endpoint<M: crate::selector::Message>(&mut self, msg: &M) -> (r: Result<
        Endpoint,
        TarsError,
    >)
        ensures
            final(self).service() == old(self).service(),
            final(self).timeout_ms() == old(self).timeout_ms(),
            final(self).in_flight() == old(self).in_flight(),
            final(self).protocol_version() == old(self).protocol_version(),
            final(self).endpoints() == old(self).endpoints(),
            final(self).adapters() == old(self).adapters(),
            final(self).candidates() == old(self).candidates(),
            final(self).hash_candidates() == old(self).hash_candidates(),
            final(self).strategy().kind() == old(self).strategy().kind(),
            final(self).strategy().turn() == (if msg.spec_is_hash() {
                old(self).strategy().turn()
            } else {
                old(self).strategy().next_turn(old(self).candidates().len())
            }),
            old(self).pool(msg.spec_is_hash(), msg.spec_hash_type()).len() == 0 ==> r == Err::<
                Endpoint,
                TarsError,
            >(TarsError::NoEndpoint),
            old(self).pool(msg.spec_is_hash(), msg.spec_hash_type()).len() > 0 ==> r is Ok
                && old(self).picks(
                msg.spec_is_hash(),
                msg.spec_hash_type(),
                msg.spec_hash_code(),
                r->Ok_0@,
            ) && old(self).pool(msg.spec_is_hash(), msg.spec_hash_type()).contains(r->Ok_0@),
    {
        if msg.is_hash() {
            match msg.hash_type() {
                HashType::ModHash => {
                    if self.active_endpoints.len() == 0 {
                        return Err(TarsError::NoEndpoint);
                    }
                    let idx: usize = (msg.hash_code() as usize) % self.active_endpoints.len();
                    assert(views(self.active_endpoints@)[idx as int]
                        == self.active_endpoints@[idx as int]@);
                    Ok(self.active_endpoints[idx].clone())
                },
                HashType::ConsistentHash => self.ring.select(msg),
            }
        } else {
            self.selector.select(msg)
        }
    }

    /// Selects the adapter for a message: the endpoint is picked as
    /// `select_endpoint` picks it, and the endpoint's adapter is found or
    /// made.
    pub fn select_adapter<M: crate::selector::Message>(&mut self, msg: &M) -> (r: Result<
        usize,
        TarsError,
    >)
        ensures
            final(self).service() == old(self).service(),
            final(self).timeout_ms() == old(self).timeout_ms(),
            final(self).in_flight() == old(self).in_flight(),
            final(self).protocol_version() == old(self).protocol_version(),
            final(self).endpoints() == old(self).endpoints(),
            final(self).candidates() == old(self).candidates(),
            final(self).hash_candidates() == old(self).hash_candidates(),
            final(self).strategy().kind() == old(self).strategy().kind(),
            final(self).strategy().turn() == (if msg.spec_is_hash() {
                old(self).strategy().turn()
            } else {
                old(self).strategy().next_turn(old(self).candidates().len())
            }),
            old(self).pool(msg.spec_is_hash(), msg.spec_hash_type()).len() == 0 ==> r == Err::<
                usize,
                TarsError,
            >(TarsError::NoEndpoint) && final(self).adapters() == old(self).adapters(),
            old(self).pool(msg.spec_is_hash(), msg.spec_hash_type()).len() > 0 ==> r is Ok
                && exists|ep: EndpointView| #[trigger]
                old(self).picks(msg.spec_is_hash(), msg.spec_hash_type(), msg.spec_hash_code(), ep)
                    && sought(old(self).adapters(), ep, r->Ok_0, final(self).adapters()),
            r is Ok ==> r->Ok_0 < final(self).adapters().len() && has_place(
                old(self).pool(msg.spec_is_hash(), msg.spec_hash_type()),
                final(self).adapters()[r->Ok_0 as int].place()@,
            ),
    {
        let endpoint = match self.select_endpoint(msg) {
            Ok(ep) => ep,
            Err(e) => {
                return Err(e);
            },
        };
        let i = self.get_or_create_adapter(&endpoint);
        proof {
            let pool = old(self).pool(msg.spec_is_hash(), msg.spec_hash_type());
            let picked = endpoint@;
            let j = choose|j: int| 0 <= j < pool.len() && pool[j] == picked;
            assert(same_place(pool[j], self.adapters@[i as int].place()@));
            assert(sought(old(self).adapters(), picked, i, self.adapters()));
        }
        Ok(i)
    }

    /// Builds the request of a call: the proxy's version, name and timeout,
    /// the given id, method, payload and maps. A dyeing key of the context
    /// sets flag bit 4 and goes into the status map, a trace key sets bit 8
    /// and goes into the status map.
    pub fn build_request(
        &self,
        ctx: &Context,
        request_id: i32,
        packet_type: i8,
        func_name: &str,
        buffer: Vec<u8>,
        status: StringMap,
        context: StringMap,
    ) -> (req: RequestPacket)
        ensures
            req.i_version == self.protocol_version(),
            req.c_packet_type == packet_type,
            req.i_request_id == request_id,
            req.s_servant_name@ == self.service(),
            req.s_func_name@ == func_name@,
            req.s_buffer == buffer,
            req.i_timeout == low32(self.timeout_ms()),
            req.context == context,
            req.status@ == status_with_keys(status@, ctx.dye(), ctx.trace()),
            req.i_message_type == flags_with_keys(ctx.dye(), ctx.trace()),
    {
        let mut req = RequestPacket::new();
        req.i_version = self.version;
        req.c_packet_type = packet_type;
        req.i_request_id = request_id;
        req.s_servant_name = self.name.clone();
        req.s_func_name = func_name.to_owned();
        req.s_buffer = buffer;
        req.i_timeout = timeout_field(self.timeout);
        req.context = context;
        let mut status = status;
        let mut flags: i32 = 0;
        match ctx.dyeing_key() {
            Some(dye_key) => {
                let _ = status.insert(status_dyed_key().to_owned(), dye_key.to_owned());
                flags = flags | TARS_MESSAGE_TYPE_DYED;
                assert(0i32 | 4i32 == 4i32) by (bit_vector);
            },
            None => {},
        }
        match ctx.trace_key() {
            Some(trace_key) => {
                let _ = status.insert(status_trace_key().to_owned(), trace_key.to_owned());
                assert(flags == 0 || flags == 4);
                assert(0i32 | 8i32 == 8i32) by (bit_vector);
                assert(4i32 | 8i32 == 12i32) by (bit_vector);
                flags = flags | TARS_MESSAGE_TYPE_TRACE;
            },
            None => {},
        }
        req.status = status;
        req.i_message_type = flags;
        req
    }

    /// The message of a normal call: the request of `build_request` with
    /// packet type 0, routed as the selector decides.
    pub fn invoke_message(
        &self,
        ctx: &Context,
        request_id: i32,
        func_name: &str,
        buffer: Vec<u8>,
        status: StringMap,
        context: StringMap,
    ) -> (m: Message)
        ensures
            m.req@ == (RequestView {
                version: self.protocol_version(),
                packet_type: 0,
                message_type: flags_with_keys(ctx.dye(), ctx.trace()),
                request_id,
                servant_name: self.service(),
                func_name: func_name@,
                buffer: buffer@,
                timeout: low32(self.timeout_ms()),
                context: context@,
                status: status_with_keys(status@, ctx.dye(), ctx.trace()),
            }),
            !m.is_hash,
            m.hash_code == 0,
            m.hash_type == HashType::ModHash,
            m.resp is None,
            m.end_time == 0,
            m.status == 0,
    {
        Message::with_request(
            self.build_request(ctx, request_id, TARS_NORMAL, func_name, buffer, status, context),
        )
    }

    /// The message of a one-way call: packet type 1, the maps as they are
    /// given, no flag.
    pub fn oneway_message(
        &self,
        request_id: i32,
        func_name: &str,
        buffer: Vec<u8>,
        status: StringMap,
        context: StringMap,
    ) -> (m: Message)
        ensures
            m.req@ == (RequestView {
                version: self.protocol_version(),
                packet_type: 1,
                message_type: 0,
                request_id,
                servant_name: self.service(),
                func_name: func_name@,
                buffer: buffer@,
                timeout: low32(self.timeout_ms()),
                context: context@,
                status: status@,
            }),
            !m.is_hash,
            m.hash_code == 0,
            m.hash_type == HashType::ModHash,
            m.resp is None,
            m.end_time == 0,
            m.status == 0,
    {
        Message::with_request(
            self.plain_request(request_id, TARS_ONEWAY, func_name, buffer, status, context),
        )
    }

    /// The message of a call that is routed by a hash code: packet type 0,
    /// empty maps, no flag, and the hash code with its kind.
    pub fn hash_message(
        &self,
        request_id: i32,
        func_name: &str,
        buffer: Vec<u8>,
        hash_code: u32,
        hash_type: HashType,
    ) -> (m: Message)
        ensures
            m.req@ == (RequestView {
                version: self.protocol_version(),
                packet_type: 0,
                message_type: 0,
                request_id,
                servant_name: self.service(),
                func_name: func_name@,
                buffer: buffer@,
                timeout: low32(self.timeout_ms()),
                context: Seq::empty(),
                status: Seq::empty(),
            }),
            m.is_hash,
            m.hash_code == hash_code,
            m.hash_type == hash_type,
            m.resp is None,
            m.end_time == 0,
            m.status == 0,
    {
        let mut m = Message::with_request(
            self.plain_request(
                request_id,
                TARS_NORMAL,
                func_name,
                buffer,
                StringMap::new(),
                StringMap::new(),
            ),
        );
        m.is_hash = true;
        m.hash_code = hash_code;
        m.hash_type = hash_type;
        m
    }

    /// The request of a call without a dyeing or trace key.
    fn plain_request(
        &self,
        request_id: i32,
        packet_type: i8,
        func_name: &str,
        buffer: Vec<u8>,
        status: StringMap,
        context: StringMap,
    ) -> (req: RequestPacket)
        ensures
            req@ == (RequestView {
                version: self.protocol_version(),
                packet_type,
                message_type: 0,
                request_id,
                servant_name: self.service(),
                func_name: func_name@,
                buffer: buffer@,
                timeout: low32(self.timeout_ms()),
                context: context@,
                status: status@,
            }),
    {
        let mut req = RequestPacket::new();
        req.i_version = self.version;
        req.c_packet_type = packet_type;
        req.i_request_id = request_id;
        req.s_servant_name = self.name.clone();
        req.s_func_name = func_name.to_owned();
        req.s_buffer = buffer;
        req.i_timeout = timeout_field(self.timeout);
        req.context = context;
        req.status = status;
        req
    }

    /// Lets a call enter: a proxy with more than the maximum of calls in
    /// flight refuses with `QueueFull`; otherwise one more call is in flight.
    pub fn enter(&mut self) -> (r: Result<(), TarsError>)
        ensures
            final(self).service() == old(self).service(),
            final(self).timeout_ms() == old(self).timeout_ms(),
            final(self).adapters() == old(self).adapters(),
            final(self).endpoints() == old(self).endpoints(),
            final(self).strategy() == old(self).strategy(),
            final(self).hash_candidates() == old(self).hash_candidates(),
            final(self).protocol_version() == old(self).protocol_version(),
            old(self).in_flight() > DEFAULT_OBJ_QUEUE_MAX ==> r == Err::<(), TarsError>(
                TarsError::QueueFull,
            ) && final(self).in_flight() == old(self).in_flight(),
            old(self).in_flight() <= DEFAULT_OBJ_QUEUE_MAX ==> r is Ok && final(self).in_flight()
                == old(self).in_flight() + 1,
    {
        if self.queue_len > DEFAULT_OBJ_QUEUE_MAX {
            return Err(TarsError::QueueFull);
        }
        self.queue_len = self.queue_len + 1;
        Ok(())
    }

    /// Lets a call leave: one call fewer is in flight.
    pub fn leave(&mut self)
        ensures
            final(self).service() == old(self).service(),
            final(self).timeout_ms() == old(self).timeout_ms(),
            final(self).adapters() == old(self).adapters(),
            final(self).endpoints() == old(self).endpoints(),
            final(self).strategy() == old(self).strategy(),
            final(self).hash_candidates() == old(self).hash_candidates(),
            final(self).protocol_version() == old(self).protocol_version(),
            final(self).in_flight() == (if old(self).in_flight() == i32::MIN {
                i32::MAX
            } else {
                (old(self).in_flight() - 1) as i32
            }),
    {
        self.queue_len = if self.queue_len == i32::MIN {
            i32::MAX
        } else {
            self.queue_len - 1
        };
    }

    /// Ends a call whose request could not be sent: the request waits no
    /// more, the adapter counts a failure, the call leaves, and the error is
    /// handed on.
    pub fn send_failed(&mut self, adapter: usize, request_id: i32, error: TarsError) -> (r: Result<
        ResponsePacket,
        TarsError,
    >)
        requires
            adapter < old(self).adapters().len(),
        ensures
            same_setup(*final(self), *old(self)),
            final(self).adapters()[adapter as int].place()
                == old(self).adapters()[adapter as int].place(),
            final(self).adapters()[adapter as int].upcoming_ticket()
                == old(self).adapters()[adapter as int].upcoming_ticket(),
            r == Err::<ResponsePacket, TarsError>(error),
            final(self).adapters().len() == old(self).adapters().len(),
            final(self).adapters()[adapter as int].health() == failed(
                old(self).adapters()[adapter as int].health(),
            ),
            final(self).adapters()[adapter as int].waiting()
                == old(self).adapters()[adapter as int].waiting().remove(request_id),
            forall|j: int|
                0 <= j < old(self).adapters().len() && j != adapter ==> final(self).adapters()[j]
                    == old(self).adapters()[j],
            final(self).in_flight() == (if old(self).in_flight() == i32::MIN {
                i32::MAX
            } else {
                (old(self).in_flight() - 1) as i32
            }),
    {
        let mut a = self.adapters.remove(adapter);
        a.unregister_response(request_id);
        a.fail_add();
        self.adapters.insert(adapter, a);
        self.leave();
        Err(error)
    }

    /// Ends a call by the outcome of its wait, at the time `now`: the call
    /// leaves and the request waits no more; a response counts as a success
    /// of the adapter, a closed connection and a timeout as a failure.
    pub fn complete_at(&mut self, adapter: usize, request_id: i32, outcome: WaitOutcome, now: i64)
        -> (r: Result<ResponsePacket, TarsError>)
        requires
            adapter < old(self).adapters().len(),
        ensures
            same_setup(*final(self), *old(self)),
            final(self).adapters()[adapter as int].place()
                == old(self).adapters()[adapter as int].place(),
            final(self).adapters()[adapter as int].upcoming_ticket()
                == old(self).adapters()[adapter as int].upcoming_ticket(),
            r == call_result(outcome, old(self).timeout_ms()),
            final(self).adapters().len() == old(self).adapters().len(),
            final(self).adapters()[adapter as int].health() == (if outcome is Response {
                succeeded(old(self).adapters()[adapter as int].health(), now)
            } else {
                failed(old(self).adapters()[adapter as int].health())
            }),
            final(self).adapters()[adapter as int].waiting()
                == old(self).adapters()[adapter as int].waiting().remove(request_id),
            forall|j: int|
                0 <= j < old(self).adapters().len() && j != adapter ==> final(self).adapters()[j]
                    == old(self).adapters()[j],
            final(self).in_flight() == (if old(self).in_flight() == i32::MIN {
                i32::MAX
            } else {
                (old(self).in_flight() - 1) as i32
            }),
            final(self).timeout_ms() == old(self).timeout_ms(),
    {
        self.leave();
        let mut a = self.adapters.remove(adapter);
        a.unregister_response(request_id);
        match outcome {
            WaitOutcome::Response(_) => a.success_add_at(now),
            _ => a.fail_add(),
        }
        self.adapters.insert(adapter, a);
        finish_call(outcome, self.timeout)
    }

    /// Counts a one-way request that is about to be sent on an adapter:
    /// nothing waits for a response.
    pub fn begin_oneway(&mut self, adapter: usize)
        requires
            adapter < old(self).adapters().len(),
        ensures
            same_setup(*final(self), *old(self)),
            final(self).adapters()[adapter as int].place()
                == old(self).adapters()[adapter as int].place(),
            final(self).adapters()[adapter as int].upcoming_ticket()
                == old(self).adapters()[adapter as int].upcoming_ticket(),
            final(self).adapters().len() == old(self).adapters().len(),
            final(self).adapters()[adapter as int].health() == (Health {
                send_count: bumped(old(self).adapters()[adapter as int].health().send_count),
                ..old(self).adapters()[adapter as int].health()
            }),
            final(self).adapters()[adapter as int].waiting()
                == old(self).adapters()[adapter as int].waiting(),
            final(self).adapters()[adapter as int].place()
                == old(self).adapters()[adapter as int].place(),
            forall|j: int|
                0 <= j < old(self).adapters().len() && j != adapter ==> final(self).adapters()[j]
                    == old(self).adapters()[j],
            final(self).in_flight() == old(self).in_flight(),
            final(self).timeout_ms() == old(self).timeout_ms(),
            final(self).service() == old(self).service(),
    {
        let mut a = self.adapters.remove(adapter);
        a.send();
        self.adapters.insert(adapter, a);
    }

    /// Counts a one-way request that has been sent on an adapter, at the
    /// time `now`, as a success of the adapter.
    pub fn oneway_sent_at(&mut self, adapter: usize, now: i64)
        requires
            adapter < old(self).adapters().len(),
        ensures
            same_setup(*final(self), *old(self)),
            final(self).adapters()[adapter as int].place()
                == old(self).adapters()[adapter as int].place(),
            final(self).adapters()[adapter as int].upcoming_ticket()
                == old(self).adapters()[adapter as int].upcoming_ticket(),
            final(self).adapters().len() == old(self).adapters().len(),
            final(self).adapters()[adapter as int].health() == succeeded(
                old(self).adapters()[adapter as int].health(),
                now,
            ),
            final(self).adapters()[adapter as int].waiting()
                == old(self).adapters()[adapter as int].waiting(),
            final(self).adapters()[adapter as int].place()
                == old(self).adapters()[adapter as int].place(),
            forall|j: int|
                0 <= j < old(self).adapters().len() && j != adapter ==> final(self).adapters()[j]
                    == old(self).adapters()[j],
            final(self).in_flight() == old(self).in_flight(),
            final(self).timeout_ms() == old(self).timeout_ms(),
            final(self).service() == old(self).service(),
    {
        let mut a = self.adapters.remove(adapter);
        a.success_add_at(now);
        self.adapters.insert(adapter, a);
    }

    /// Hands a response that came on an adapter's connection to that
    /// adapter, which says where it goes; the request that it answers waits
    /// no more.
    pub fn deliver(&mut self, adapter: usize, response: &ResponsePacket) -> (d: Delivery)
        requires
            adapter < old(self).adapters().len(),
        ensures
            same_setup(*final(self), *old(self)),
            final(self).adapters()[adapter as int].place()
                == old(self).adapters()[adapter as int].place(),
            final(self).adapters()[adapter as int].upcoming_ticket()
                == old(self).adapters()[adapter as int].upcoming_ticket(),
            d == routed_to(
                old(self).adapters()[adapter as int].waiting(),
                response.i_request_id,
                response.s_result_desc@,
            ),
            final(self).adapters().len() == old(self).adapters().len(),
            final(self).adapters()[adapter as int].waiting() == (if response.i_request_id == 0 {
                old(self).adapters()[adapter as int].waiting()
            } else {
                old(self).adapters()[adapter as int].waiting().remove(response.i_request_id)
            }),
            final(self).adapters()[adapter as int].health()
                == old(self).adapters()[adapter as int].health(),
            final(self).adapters()[adapter as int].place()
                == old(self).adapters()[adapter as int].place(),
            forall|j: int|
                0 <= j < old(self).adapters().len() && j != adapter ==> final(self).adapters()[j]
                    == old(self).adapters()[j],
            final(self).in_flight() == old(self).in_flight(),
            final(self).timeout_ms() == old(self).timeout_ms(),
            final(self).service() == old(self).service(),
    {
        let mut a = self.adapters.remove(adapter);
        let d = a.handle_response(response);
        self.adapters.insert(adapter, a);
        d
    }

    /// Starts a call on an adapter: the request waits for its response
    /// under a ticket, and the adapter counts a request sent.
    pub fn begin_call(&mut self, adapter: usize, request_id: i32) -> (ticket: u64)
        requires
            adapter < old(self).adapters().len(),
        ensures
            same_setup(*final(self), *old(self)),
            final(self).adapters()[adapter as int].health() == (Health {
                send_count: bumped(old(self).adapters()[adapter as int].health().send_count),
                ..old(self).adapters()[adapter as int].health()
            }),
            final(self).adapters()[adapter as int].place()
                == old(self).adapters()[adapter as int].place(),
            final(self).adapters()[adapter as int].upcoming_ticket() == next_ticket_after(ticket),
            ticket == old(self).adapters()[adapter as int].upcoming_ticket(),
            final(self).adapters().len() == old(self).adapters().len(),
            final(self).adapters()[adapter as int].waiting()
                == old(self).adapters()[adapter as int].waiting().insert(request_id, ticket),
            forall|j: int|
                0 <= j < old(self).adapters().len() && j != adapter ==> final(self).adapters()[j]
                    == old(self).adapters()[j],
            final(self).in_flight() == old(self).in_flight(),
            final(self).timeout_ms() == old(self).timeout_ms(),
    {
        let mut a = self.adapters.remove(adapter);
        let ticket = a.register_response(request_id);
        a.send();
        self.adapters.insert(adapter, a);
        ticket
    }
}

/// The name "roundrobin" stands for round robin.
proof fn lemma_round_robin_by_name()
    ensures
        kind_of_name("roundrobin"@) == SelectorKind::RoundRobin,
{
    assert(encode_utf8("roundrobin"@) == "roundrobin".spec_bytes());
}

/// Where a search for an adapter ends.
pub proof fn lemma_find_adapter(s: Seq<AdapterProxy>, node: EndpointView, from: int)
    requires
        0 <= from <= s.len(),
    ensures
        from <= find_adapter(s, node, from) <= s.len(),
        find_adapter(s, node, from) < s.len() ==> same_place(
            s[find_adapter(s, node, from)].place()@,
            node,
        ),
    decreases s.len() - from,
{
    if from < s.len() && !same_place(s[from].place()@, node) {
        lemma_find_adapter(s, node, from + 1);
    }
}

/// A search for an adapter ends at the latest where an adapter of the
/// place stands.
pub proof fn lemma_find_adapter_upto(s: Seq<AdapterProxy>, node: EndpointView, from: int, at: int)
    requires
        0 <= from <= at < s.len(),
        same_place(s[at].place()@, node),
    ensures
        find_adapter(s, node, from) <= at,
    decreases at - from,
{
    if from < at && !same_place(s[from].place()@, node) {
        lemma_find_adapter_upto(s, node, from + 1, at);
    }
}

/// An adapter that is found stays found when adapters are added at the
/// end.
pub proof fn lemma_find_adapter_grows(
    a: Seq<AdapterProxy>,
    b: Seq<AdapterProxy>,
    node: EndpointView,
    from: int,
)
    requires
        0 <= from <= a.len(),
        a.len() <= b.len(),
        b.subrange(0, a.len() as int) == a,
        find_adapter(a, node, from) < a.len(),
    ensures
        find_adapter(b, node, from) < b.len(),
    decreases a.len() - from,
{
    assert(b.subrange(0, a.len() as int)[from] == b[from]);
    if !same_place(a[from].place()@, node) {
        lemma_find_adapter_grows(a, b, node, from + 1);
    }
}

} // verus!
