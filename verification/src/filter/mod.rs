//! What travels through the filters of a call, and in which order the
//! filters run.

use vstd::prelude::*;

use crate::protocol::packet::{RequestPacket, ResponsePacket};
use crate::selector::HashType;
use crate::util::clock::now_millis;

verus! {

/// A call on its way through the filters.
pub struct Message {
    /// Request packet
    pub req: RequestPacket,
    /// Response packet
    pub resp: Option<ResponsePacket>,
    /// Begin time (unix ms)
    pub begin_time: i64,
    /// End time (unix ms)
    pub end_time: i64,
    /// Status code
    pub status: i32,
    /// Hash code for hash-based routing
    pub hash_code: u32,
    /// Hash type
    pub hash_type: HashType,
    /// Is hash-based call
    pub is_hash: bool,
}

/// A difference of times as a 64-bit number: itself where it fits, the
/// nearest bound where it does not.
pub open spec fn clamped(d: int) -> i64 {
    if d > i64::MAX {
        i64::MAX
    } else if d < i64::MIN {
        i64::MIN
    } else {
        d as i64
    }
}

/// The milliseconds a call has taken at `now`: up to its end where it has
/// ended, up to `now` otherwise.
pub open spec fn taken(begin: i64, end: i64, now: i64) -> int {
    if end > 0 {
        end - begin
    } else {
        now - begin
    }
}

/// A message after its call has ended at `now`.
pub open spec fn ended(m: Message, now: i64) -> Message {
    Message { end_time: now, ..m }
}

/// The difference of two times as a 64-bit number.
pub fn span(to: i64, from: i64) -> (r: i64)
    ensures
        r == clamped(to - from),
{
    let d: i128 = to as i128 - from as i128;
    if d > i64::MAX as i128 {
        i64::MAX
    } else if d < i64::MIN as i128 {
        i64::MIN
    } else {
        d as i64
    }
}

impl Message {
    /// A message with a new request that begins at `now`.
    pub fn new_at(now: i64) -> (m: Message)
        ensures
            m.begin_time == now,
            m.end_time == 0,
            m.status == 0,
            m.hash_code == 0,
            m.hash_type == HashType::ModHash,
            !m.is_hash,
            m.resp is None,
            m.req.i_version == 1,
            m.req.c_packet_type == 0,
            m.req.i_request_id == 0,
            m.req.i_message_type == 0,
            m.req.i_timeout == 3000,
            m.req.s_servant_name@.len() == 0,
            m.req.s_func_name@.len() == 0,
            m.req.s_buffer@.len() == 0,
            m.req.context@.len() == 0,
            m.req.status@.len() == 0,
    {
        Message {
            req: RequestPacket::new(),
            resp: None,
            begin_time: now,
            end_time: 0,
            status: 0,
            hash_code: 0,
            hash_type: HashType::ModHash,
            is_hash: false,
        }
    }

    /// A message with a new request that begins now.
    pub fn new() -> (m: Message)
        ensures
            m.end_time == 0,
            m.status == 0,
            m.hash_code == 0,
            m.hash_type == HashType::ModHash,
            !m.is_hash,
            m.resp is None,
            m.req.i_version == 1,
            m.req.c_packet_type == 0,
            m.req.i_request_id == 0,
            m.req.i_message_type == 0,
            m.req.i_timeout == 3000,
            m.req.s_servant_name@.len() == 0,
            m.req.s_func_name@.len() == 0,
            m.req.s_buffer@.len() == 0,
            m.req.context@.len() == 0,
            m.req.status@.len() == 0,
    {
        Self::new_at(now_millis())
    }

    /// A message for the request that begins at `now`.
    pub fn with_request_at(req: RequestPacket, now: i64) -> (m: Message)
        ensures
            m.req == req,
            m.begin_time == now,
            m.end_time == 0,
            m.status == 0,
            m.hash_code == 0,
            m.hash_type == HashType::ModHash,
            !m.is_hash,
            m.resp is None,
    {
        Message {
            req,
            resp: None,
            begin_time: now,
            end_time: 0,
            status: 0,
            hash_code: 0,
            hash_type: HashType::ModHash,
            is_hash: false,
        }
    }

    /// A message for the request that begins now.
    pub fn with_request(req: RequestPacket) -> (m: Message)
        ensures
            m.req == req,
            m.end_time == 0,
            m.status == 0,
            m.hash_code == 0,
            m.hash_type == HashType::ModHash,
            !m.is_hash,
            m.resp is None,
    {
        Self::with_request_at(req, now_millis())
    }

    /// Ends the call at `now`.
    pub fn finish_at(&mut self, now: i64)
        ensures
            *final(self) == ended(*old(self), now),
    {
        self.end_time = now;
    }

    /// Ends the call now.
    pub fn finish(&mut self)
        ensures
            *final(self) == ended(*old(self), final(self).end_time),
    {
        self.end_time = now_millis();
    }

    /// The milliseconds the call has taken at `now`.
    pub fn elapsed_ms_at(&self, now: i64) -> (r: i64)
        ensures
            r == clamped(taken(self.begin_time, self.end_time, now)),
    {
        if self.end_time > 0 {
            span(self.end_time, self.begin_time)
        } else {
            span(now, self.begin_time)
        }
    }

    /// The milliseconds the call has taken.
    pub fn elapsed_ms(&self) -> (r: i64)
        ensures
            exists|now: i64| r == clamped(#[trigger] taken(self.begin_time, self.end_time, now)),
            self.end_time > 0 ==> r == clamped(self.end_time - self.begin_time),
    {
        self.elapsed_ms_at(now_millis())
    }
}

impl crate::selector::Message for Message {
    open spec fn spec_hash_code(&self) -> u32 {
        self.hash_code
    }

    open spec fn spec_hash_type(&self) -> HashType {
        self.hash_type
    }

    open spec fn spec_is_hash(&self) -> bool {
        self.is_hash
    }

    fn hash_code(&self) -> (r: u32) {
        self.hash_code
    }

    fn hash_type(&self) -> (r: HashType) {
        self.hash_type
    }

    fn is_hash(&self) -> (r: bool) {
        self.is_hash
    }
}

/// Whether `steps` are the stages of wrapping a base in the middlewares:
/// stage 0 is the base, and each next stage is what a middleware gave for
/// the stage before it, the last middleware first and the first one last.
pub open spec fn layered<F, M: Fn(F) -> F>(middlewares: Seq<M>, steps: Seq<F>) -> bool {
    &&& steps.len() == middlewares.len() + 1
    &&& forall|k: int|
        0 <= k < middlewares.len() ==> call_ensures(
            middlewares[middlewares.len() - 1 - k],
            (#[trigger] steps[k],),
            steps[k + 1],
        )
}

/// Whether `chain` is `base` wrapped in the middlewares, the first of them
/// outermost: so the middleware that was registered first runs first.
pub open spec fn wraps<F, M: Fn(F) -> F>(middlewares: Seq<M>, base: F, chain: F) -> bool {
    exists|steps: Seq<F>| #[trigger]
        layered(middlewares, steps) && steps[0] == base && steps.last() == chain
}

/// Builds the chain round `base`: folds the middlewares from the last to
/// the first, so that the one registered first ends up outermost.
pub fn build_chain<F, M: Fn(F) -> F>(middlewares: &Vec<M>, base: F) -> (chain: F)
    requires
        forall|i: int, f: F|
            0 <= i < middlewares@.len() ==> #[trigger] call_requires(middlewares@[i], (f,)),
    ensures
        wraps(middlewares@, base, chain),
{
    let count = middlewares.len();
    let mut current = base;
    let mut i: usize = count;
    let ghost mut steps: Seq<F> = seq![base];
    while i > 0
        invariant
            i <= count,
            count == middlewares@.len(),
            steps.len() == count - i + 1,
            steps[0] == base,
            steps.last() == current,
            forall|k: int|
                0 <= k < count - i ==> call_ensures(
                    middlewares@[count - 1 - k],
                    (#[trigger] steps[k],),
                    steps[k + 1],
                ),
            forall|j: int, f: F|
                0 <= j < middlewares@.len() ==> #[trigger] call_requires(middlewares@[j], (f,)),
        decreases i,
    {
        i = i - 1;
        let middleware = &middlewares[i];
        current = middleware(current);
        proof {
            steps = steps.push(current);
        }
    }
    assert(layered(middlewares@, steps));
    current
}

/// The filters and middlewares of a client and a server. `CF` and `SF` are
/// the filters of the client and of the server, `CM` and `SM` the
/// middlewares that wrap them.
pub struct Filters<CF, CM, SF, SM> {
    /// Client filter (single)
    pub client_filter: Option<CF>,
    /// Client filters that run before the call
    pub pre_client_filters: Vec<CF>,
    /// Client filters that run after the call
    pub post_client_filters: Vec<CF>,
    /// Client middlewares, in the order of their registration
    pub client_middlewares: Vec<CM>,
    /// Server filter (single)
    pub server_filter: Option<SF>,
    /// Server filters that run before the dispatch
    pub pre_server_filters: Vec<SF>,
    /// Server filters that run after the dispatch
    pub post_server_filters: Vec<SF>,
    /// Server middlewares, in the order of their registration
    pub server_middlewares: Vec<SM>,
}

/// The filters and middlewares as mathematics.
pub struct FiltersView<CF, CM, SF, SM> {
    pub client_filter: Option<CF>,
    pub pre_client_filters: Seq<CF>,
    pub post_client_filters: Seq<CF>,
    pub client_middlewares: Seq<CM>,
    pub server_filter: Option<SF>,
    pub pre_server_filters: Seq<SF>,
    pub post_server_filters: Seq<SF>,
    pub server_middlewares: Seq<SM>,
}

impl<CF, CM, SF, SM> View for Filters<CF, CM, SF, SM> {
    type V = FiltersView<CF, CM, SF, SM>;

    open spec fn view(&self) -> FiltersView<CF, CM, SF, SM> {
        FiltersView {
            client_filter: self.client_filter,
            pre_client_filters: self.pre_client_filters@,
            post_client_filters: self.post_client_filters@,
            client_middlewares: self.client_middlewares@,
            server_filter: self.server_filter,
            pre_server_filters: self.pre_server_filters@,
            post_server_filters: self.post_server_filters@,
            server_middlewares: self.server_middlewares@,
        }
    }
}

impl<CF, CM, SF, SM> Filters<CF, CM, SF, SM> {
    /// No filter and no middleware.
    pub fn new() -> (f: Self)
        ensures
            f@ == (FiltersView::<CF, CM, SF, SM> {
                client_filter: None,
                pre_client_filters: Seq::empty(),
                post_client_filters: Seq::empty(),
                client_middlewares: Seq::empty(),
                server_filter: None,
                pre_server_filters: Seq::empty(),
                post_server_filters: Seq::empty(),
                server_middlewares: Seq::empty(),
            }),
    {
        Filters {
            client_filter: None,
            pre_client_filters: Vec::new(),
            post_client_filters: Vec::new(),
            client_middlewares: Vec::new(),
            server_filter: None,
            pre_server_filters: Vec::new(),
            post_server_filters: Vec::new(),
            server_middlewares: Vec::new(),
        }
    }

    /// Sets the single client filter, in place of one that was set.
    pub fn register_client_filter(&mut self, filter: CF)
        ensures
            final(self)@ == (FiltersView { client_filter: Some(filter), ..old(self)@ }),
    {
        self.client_filter = Some(filter);
    }

    /// Adds a client filter that runs before the call.
    pub fn register_pre_client_filter(&mut self, filter: CF)
        ensures
            final(self)@ == (FiltersView {
                pre_client_filters: old(self)@.pre_client_filters.push(filter),
                ..old(self)@
            }),
    {
        self.pre_client_filters.push(filter);
    }

    /// Adds a client filter that runs after the call.
    pub fn register_post_client_filter(&mut self, filter: CF)
        ensures
            final(self)@ == (FiltersView {
                post_client_filters: old(self)@.post_client_filters.push(filter),
                ..old(self)@
            }),
    {
        self.post_client_filters.push(filter);
    }

    /// Adds a client middleware behind those that are registered.
    pub fn use_client_middleware(&mut self, middleware: CM)
        ensures
            final(self)@ == (FiltersView {
                client_middlewares: old(self)@.client_middlewares.push(middleware),
                ..old(self)@
            }),
    {
        self.client_middlewares.push(middleware);
    }

    /// Sets the single server filter, in place of one that was set.
    pub fn register_server_filter(&mut self, filter: SF)
        ensures
            final(self)@ == (FiltersView { server_filter: Some(filter), ..old(self)@ }),
    {
        self.server_filter = Some(filter);
    }

    /// Adds a server filter that runs before the dispatch.
    pub fn register_pre_server_filter(&mut self, filter: SF)
        ensures
            final(self)@ == (FiltersView {
                pre_server_filters: old(self)@.pre_server_filters.push(filter),
                ..old(self)@
            }),
    {
        self.pre_server_filters.push(filter);
    }

    /// Adds a server filter that runs after the dispatch.
    pub fn register_post_server_filter(&mut self, filter: SF)
        ensures
            final(self)@ == (FiltersView {
                post_server_filters: old(self)@.post_server_filters.push(filter),
                ..old(self)@
            }),
    {
        self.post_server_filters.push(filter);
    }

    /// Adds a server middleware behind those that are registered.
    pub fn use_server_middleware(&mut self, middleware: SM)
        ensures
            final(self)@ == (FiltersView {
                server_middlewares: old(self)@.server_middlewares.push(middleware),
                ..old(self)@
            }),
    {
        self.server_middlewares.push(middleware);
    }
}

impl<CF, CM: Fn(CF) -> CF, SF, SM: Fn(SF) -> SF> Filters<CF, CM, SF, SM> {
    /// Builds the chain of the client round the filter that makes the call:
    /// the middleware registered first is outermost.
    pub fn build_client_filter(&self, base: CF) -> (chain: CF)
        requires
            forall|i: int, f: CF|
                0 <= i < self@.client_middlewares.len() ==> #[trigger] call_requires(
                    self@.client_middlewares[i],
                    (f,),
                ),
        ensures
            wraps(self@.client_middlewares, base, chain),
    {
        build_chain(&self.client_middlewares, base)
    }

    /// Builds the chain of the server round the filter that dispatches: the
    /// middleware registered first is outermost.
    pub fn build_server_filter(&self, base: SF) -> (chain: SF)
        requires
            forall|i: int, f: SF|
                0 <= i < self@.server_middlewares.len() ==> #[trigger] call_requires(
                    self@.server_middlewares[i],
                    (f,),
                ),
        ensures
            wraps(self@.server_middlewares, base, chain),
    {
        build_chain(&self.server_middlewares, base)
    }
}

/// The filters run in the order of their registration: a chain of at least
/// one middleware is what the first registered middleware gave for the
/// chain of the others, so it is outermost and runs first. Without a
/// middleware the chain is the base.
pub proof fn law_first_registered_is_outermost<F, M: Fn(F) -> F>(
    middlewares: Seq<M>,
    base: F,
    chain: F,
)
    requires
        wraps(middlewares, base, chain),
    ensures
        middlewares.len() == 0 ==> chain == base,
        middlewares.len() > 0 ==> exists|inner: F| #[trigger]
            wraps(middlewares.drop_first(), base, inner) && call_ensures(
                middlewares[0],
                (inner,),
                chain,
            ),
{
    let steps = choose|steps: Seq<F>| #[trigger]
        layered(middlewares, steps) && steps[0] == base && steps.last() == chain;
    if middlewares.len() > 0 {
        let n = middlewares.len() as int;
        let inner = steps[n - 1];
        let front = steps.drop_last();
        assert forall|k: int| 0 <= k < n - 1 implies call_ensures(
            middlewares.drop_first()[n - 1 - 1 - k],
            (#[trigger] front[k],),
            front[k + 1],
        ) by {
            assert(middlewares.drop_first()[n - 2 - k] == middlewares[n - 1 - k]);
            assert(call_ensures(middlewares[n - 1 - k], (steps[k],), steps[k + 1]));
        }
        assert(layered(middlewares.drop_first(), front));
        assert(front[0] == base && front.last() == inner);
        assert(call_ensures(middlewares[n - 1 - (n - 1)], (steps[n - 1],), steps[n - 1 + 1]));
        assert(wraps(middlewares.drop_first(), base, inner));
    }
}

} // verus!
