//! Circuit breakers for registry nodes.
//!
//! Each registry node has its own breaker. A node that fails is taken out
//! at once; after the recovery interval it is offered again for one probe at
//! a time, and any success brings it back for good.

use vstd::prelude::*;

use crate::codec::raw::str_eq;
use crate::util::clock::{elapsed_at_least, has_elapsed, now_secs};
use crate::util::text::texts;

verus! {

/// Failures in a row that open the circuit.
pub const REGISTRY_FAIL_THRESHOLD: i32 = 1;

/// Seconds after which an open circuit lets a probe through.
pub const REGISTRY_RECOVER_INTERVAL: i64 = 30;

/// The state of a breaker as mathematics.
pub struct BreakerState {
    pub available: bool,
    pub fail_count: i32,
    pub last_fail_time: i64,
    pub last_success_time: i64,
    pub circuit_open_time: i64,
}

/// The state of a new breaker at `now`.
pub open spec fn initial(now: i64) -> BreakerState {
    BreakerState {
        available: true,
        fail_count: 0,
        last_fail_time: 0,
        last_success_time: now,
        circuit_open_time: 0,
    }
}

/// Whether the node may be asked at `now`: it is available, or its circuit
/// has been open for the recovery interval (the half-open probe window).
pub open spec fn available_at(s: BreakerState, now: i64) -> bool {
    s.available || elapsed_at_least(now, s.circuit_open_time, REGISTRY_RECOVER_INTERVAL as int)
}

/// The state after a success at `now`.
pub open spec fn after_success(s: BreakerState, now: i64) -> BreakerState {
    BreakerState { available: true, fail_count: 0, last_success_time: now, ..s }
}

/// A counter one higher, wrapping from the greatest value to the least.
pub open spec fn raised(n: i32) -> i32 {
    if n == i32::MAX {
        i32::MIN
    } else {
        (n + 1) as i32
    }
}

/// Whether a failure at this state opens the circuit: the failures in a
/// row reach the threshold and the node was available.
pub open spec fn opens(s: BreakerState) -> bool {
    raised(s.fail_count) >= REGISTRY_FAIL_THRESHOLD && s.available
}

/// The state after a failure at `now`.
pub open spec fn after_failure(s: BreakerState, now: i64) -> BreakerState {
    if raised(s.fail_count) >= REGISTRY_FAIL_THRESHOLD {
        BreakerState {
            available: false,
            fail_count: raised(s.fail_count),
            last_fail_time: now,
            circuit_open_time: if s.available {
                now
            } else {
                s.circuit_open_time
            },
            ..s
        }
    } else {
        BreakerState { fail_count: raised(s.fail_count), last_fail_time: now, ..s }
    }
}

/// The state after a reset.
pub open spec fn after_reset(s: BreakerState) -> BreakerState {
    BreakerState { available: true, fail_count: 0, circuit_open_time: 0, ..s }
}

/// Circuit breaker state for a single registry node.
#[derive(Debug)]
pub struct NodeCircuitBreaker {
    /// Node address (ip:port)
    address: String,
    /// Whether the node is available
    available: bool,
    /// Failures in a row
    fail_count: i32,
    /// Time of the last failure (unix seconds)
    last_fail_time: i64,
    /// Time of the last success (unix seconds)
    last_success_time: i64,
    /// Time the circuit opened
    circuit_open_time: i64,
}

impl View for NodeCircuitBreaker {
    type V = BreakerState;

    closed spec fn view(&self) -> BreakerState {
        BreakerState {
            available: self.available,
            fail_count: self.fail_count,
            last_fail_time: self.last_fail_time,
            last_success_time: self.last_success_time,
            circuit_open_time: self.circuit_open_time,
        }
    }
}

impl NodeCircuitBreaker {
    /// The address of the node as mathematics.
    pub closed spec fn node(&self) -> Seq<char> {
        self.address@
    }

    /// A breaker for a node: available, no failure counted. The clock is
    /// read once.
    pub fn new(address: &str) -> (b: NodeCircuitBreaker)
        ensures
            b.node() == address@,
            exists|now: i64| b@ == initial(now),
            b@.available,
            b@.fail_count == 0,
    {
        Self::new_at(address, now_secs())
    }

    /// A breaker for a node at the time `now`.
    pub fn new_at(address: &str, now: i64) -> (b: NodeCircuitBreaker)
        ensures
            b.node() == address@,
            b@ == initial(now),
    {
        NodeCircuitBreaker {
            address: address.to_owned(),
            available: true,
            fail_count: 0,
            last_fail_time: 0,
            last_success_time: now,
            circuit_open_time: 0,
        }
    }

    /// Whether the node may be asked now.
    pub fn is_available(&self) -> (r: bool)
        ensures
            self@.available ==> r,
            exists|now: i64| r == available_at(self@, now),
    {
        let now = now_secs();
        let r = self.is_available_at(now);
        assert(r == available_at(self@, now));
        r
    }

    /// Whether the node may be asked at the time `now`.
    pub fn is_available_at(&self, now: i64) -> (r: bool)
        ensures
            r == available_at(self@, now),
    {
        if self.available {
            return true;
        }
        has_elapsed(now, self.circuit_open_time, REGISTRY_RECOVER_INTERVAL)
    }

    /// Whether the available flag is set; a probe window does not count.
    pub fn available(&self) -> (r: bool)
        ensures
            r == self@.available,
    {
        self.available
    }

    /// The failures in a row.
    pub fn fail_count(&self) -> (r: i32)
        ensures
            r == self@.fail_count,
    {
        self.fail_count
    }

    /// Records a successful request now.
    pub fn record_success(&mut self)
        ensures
            exists|now: i64| final(self)@ == after_success(old(self)@, now),
            final(self)@.available,
            final(self)@.fail_count == 0,
            final(self).node() == old(self).node(),
    {
        let now = now_secs();
        self.record_success_at(now);
        assert(self@ == after_success(old(self)@, now));
    }

    /// Records a successful request at the time `now`: the node is
    /// available, no failure is counted any more.
    pub fn record_success_at(&mut self, now: i64)
        ensures
            final(self)@ == after_success(old(self)@, now),
            final(self).node() == old(self).node(),
    {
        self.available = true;
        self.fail_count = 0;
        self.last_success_time = now;
    }

    /// Records a failed request now. Returns whether the circuit has just
    /// opened.
    pub fn record_failure(&mut self) -> (opened: bool)
        ensures
            opened == opens(old(self)@),
            exists|now: i64| final(self)@ == after_failure(old(self)@, now),
            final(self).node() == old(self).node(),
    {
        let now = now_secs();
        let opened = self.record_failure_at(now);
        assert(self@ == after_failure(old(self)@, now));
        opened
    }

    /// Records a failed request at the time `now`: the failures in a row
    /// count one more; when they reach the threshold the node becomes
    /// unavailable, and if it was available until now the circuit opens at
    /// `now`. Returns whether the circuit has just opened.
    pub fn record_failure_at(&mut self, now: i64) -> (opened: bool)
        ensures
            opened == opens(old(self)@),
            final(self)@ == after_failure(old(self)@, now),
            final(self).node() == old(self).node(),
    {
        let count: i32 = if self.fail_count == i32::MAX {
            i32::MIN
        } else {
            self.fail_count + 1
        };
        self.fail_count = count;
        self.last_fail_time = now;
        if count >= REGISTRY_FAIL_THRESHOLD {
            let was_available = self.available;
            self.available = false;
            if was_available {
                self.circuit_open_time = now;
                return true;
            }
        }
        false
    }

    /// The node address.
    pub fn address(&self) -> (a: &str)
        ensures
            a@ == self.node(),
    {
        self.address.as_str()
    }

    /// Resets the breaker: available, no failure counted, circuit closed.
    pub fn reset(&mut self)
        ensures
            final(self)@ == after_reset(old(self)@),
            final(self).node() == old(self).node(),
    {
        self.available = true;
        self.fail_count = 0;
        self.circuit_open_time = 0;
    }
}

/// The circuit breaker opens on the failure threshold and reopens on
/// success: after as many failures in a row as the threshold, the last at
/// `failed_at`, a node that was available is not available while fewer than
/// the recovery interval has passed, is offered again as a probe from then
/// on, and is fully available again after any success.
pub proof fn law_breaker_lifecycle(s: BreakerState, failed_at: i64, later: i64, success_at: i64)
    requires
        s.available,
        s.fail_count == 0,
    ensures
        opens(s),
        !after_failure(s, failed_at).available,
        later - failed_at < REGISTRY_RECOVER_INTERVAL ==> !available_at(
            after_failure(s, failed_at),
            later,
        ),
        later - failed_at >= REGISTRY_RECOVER_INTERVAL ==> available_at(
            after_failure(s, failed_at),
            later,
        ),
        after_success(after_failure(s, failed_at), success_at).available,
        after_success(after_failure(s, failed_at), success_at).fail_count == 0,
        available_at(after_success(after_failure(s, failed_at), success_at), later),
{
}

/// Manages the circuit breakers of the registry nodes, one per address.
pub struct RegistryCircuitBreaker {
    breakers: Vec<NodeCircuitBreaker>,
}

/// The index of the first breaker at or behind `from` for `address`, or
/// the number of breakers where there is none.
pub open spec fn find_breaker(s: Seq<NodeCircuitBreaker>, address: Seq<char>, from: int) -> int
    decreases s.len() - from,
{
    if from < 0 || from >= s.len() {
        s.len() as int
    } else if s[from].node() == address {
        from
    } else {
        find_breaker(s, address, from + 1)
    }
}

/// The breaker for `address`, if there is one.
pub open spec fn located(s: Seq<NodeCircuitBreaker>, address: Seq<char>) -> Option<
    NodeCircuitBreaker,
> {
    if find_breaker(s, address, 0) < s.len() {
        Some(s[find_breaker(s, address, 0)])
    } else {
        None
    }
}

/// The state of the node at `address` before an outcome at `now` is
/// recorded: that of its breaker, or that of a new one.
pub open spec fn prior(s: Seq<NodeCircuitBreaker>, address: Seq<char>, now: i64) -> BreakerState {
    match located(s, address) {
        Some(b) => b@,
        None => initial(now),
    }
}

/// The list `after` is the list `before` with the breaker of `address` in
/// the state `state`, added at the end where it was not there; every other
/// breaker is as it was.
pub open spec fn changed_at(
    before: Seq<NodeCircuitBreaker>,
    after: Seq<NodeCircuitBreaker>,
    address: Seq<char>,
    state: BreakerState,
) -> bool {
    let at = find_breaker(before, address, 0);
    &&& after.len() == (if at < before.len() {
        before.len()
    } else {
        before.len() + 1
    })
    &&& 0 <= at < after.len()
    &&& after[at]@ == state
    &&& after[at].node() == address
    &&& find_breaker(after, address, 0) == at
    &&& forall|j: int| 0 <= j < before.len() && j != at ==> after[j] == before[j]
}

/// Whether the node at `address` may be asked at `now`: a node without a
/// breaker may.
pub open spec fn node_available(s: Seq<NodeCircuitBreaker>, address: Seq<char>, now: i64) -> bool {
    if find_breaker(s, address, 0) < s.len() {
        available_at(s[find_breaker(s, address, 0)]@, now)
    } else {
        true
    }
}

/// The addresses whose nodes may be asked at `now`, in their order.
pub open spec fn available_among(
    s: Seq<NodeCircuitBreaker>,
    addresses: Seq<Seq<char>>,
    now: i64,
) -> Seq<Seq<char>>
    decreases addresses.len(),
{
    if addresses.len() == 0 {
        Seq::empty()
    } else if node_available(s, addresses.last(), now) {
        available_among(s, addresses.drop_last(), now).push(addresses.last())
    } else {
        available_among(s, addresses.drop_last(), now)
    }
}

/// Where a search for a breaker ends.
pub proof fn lemma_find_breaker(s: Seq<NodeCircuitBreaker>, address: Seq<char>, from: int)
    requires
        0 <= from <= s.len(),
    ensures
        from <= find_breaker(s, address, from) <= s.len(),
        find_breaker(s, address, from) < s.len() ==> s[find_breaker(s, address, from)].node()
            == address,
    decreases s.len() - from,
{
    if from < s.len() && s[from].node() != address {
        lemma_find_breaker(s, address, from + 1);
    }
}

impl RegistryCircuitBreaker {
    /// The breakers, in the order in which their nodes first came.
    pub closed spec fn breakers(&self) -> Seq<NodeCircuitBreaker> {
        self.breakers@
    }

    /// A manager without breakers.
    pub fn new() -> (m: RegistryCircuitBreaker)
        ensures
            m.breakers().len() == 0,
    {
        RegistryCircuitBreaker { breakers: Vec::new() }
    }

    /// The index of the breaker for `address`.
    fn position(&self, address: &str) -> (r: Option<usize>)
        ensures
            match r {
                Some(i) => i == find_breaker(self.breakers(), address@, 0) && i
                    < self.breakers().len() && self.breakers()[i as int].node() == address@,
                None => find_breaker(self.breakers(), address@, 0) >= self.breakers().len(),
            },
    {
        let mut i: usize = 0;
        while i < self.breakers.len()
            invariant
                0 <= i <= self.breakers@.len(),
                find_breaker(self.breakers@, address@, 0) == find_breaker(
                    self.breakers@,
                    address@,
                    i as int,
                ),
            decreases self.breakers@.len() - i,
        {
            if str_eq(self.breakers[i].address(), address) {
                return Some(i);
            }
            i = i + 1;
        }
        None
    }

    /// The breaker for a node; a node that has none yet gets a new one.
    pub fn get_breaker(&mut self, address: &str) -> (b: &NodeCircuitBreaker)
        ensures
            b.node() == address@,
            match located(old(self).breakers(), address@) {
                Some(found) => final(self).breakers() == old(self).breakers() && *b == found,
                None => final(self).breakers() == old(self).breakers().push(*b) && b@.available
                    && b@.fail_count == 0,
            },
    {
        match self.position(address) {
            Some(i) => &self.breakers[i],
            None => {
                self.breakers.push(NodeCircuitBreaker::new(address));
                &self.breakers[self.breakers.len() - 1]
            },
        }
    }

    /// The index of the breaker for a node; a node that has none yet gets a
    /// new one at the end.
    fn ensure_breaker(&mut self, address: &str, now: i64) -> (i: usize)
        ensures
            i == find_breaker(old(self).breakers(), address@, 0),
            i < final(self).breakers().len(),
            final(self).breakers()[i as int].node() == address@,
            final(self).breakers()[i as int]@ == prior(old(self).breakers(), address@, now),
            find_breaker(final(self).breakers(), address@, 0) == i,
            final(self).breakers().len() == (if i < old(self).breakers().len() {
                old(self).breakers().len()
            } else {
                old(self).breakers().len() + 1
            }),
            forall|j: int|
                0 <= j < old(self).breakers().len()
                    ==> final(self).breakers()[j] == old(self).breakers()[j],
    {
        match self.position(address) {
            Some(i) => i,
            None => {
                let fresh = NodeCircuitBreaker::new_at(address, now);
                proof {
                    lemma_find_breaker(self.breakers@, address@, 0);
                    lemma_find_pushed(self.breakers@, fresh, 0);
                }
                self.breakers.push(fresh);
                self.breakers.len() - 1
            },
        }
    }

    /// Records a failed request to a node at the time `now`; a node that
    /// has no breaker yet gets one first. Returns whether the circuit has
    /// just opened.
    pub fn record_failure_at(&mut self, address: &str, now: i64) -> (opened: bool)
        ensures
            opened == opens(prior(old(self).breakers(), address@, now)),
            changed_at(
                old(self).breakers(),
                final(self).breakers(),
                address@,
                after_failure(prior(old(self).breakers(), address@, now), now),
            ),
    {
        let i = self.ensure_breaker(address, now);
        let ghost before = self.breakers@;
        let mut breaker = NodeCircuitBreaker {
            address: self.breakers[i].address.clone(),
            available: self.breakers[i].available,
            fail_count: self.breakers[i].fail_count,
            last_fail_time: self.breakers[i].last_fail_time,
            last_success_time: self.breakers[i].last_success_time,
            circuit_open_time: self.breakers[i].circuit_open_time,
        };
        let opened = breaker.record_failure_at(now);
        self.breakers.set(i, breaker);
        proof {
            lemma_find_same_nodes(before, self.breakers@, address@, 0);
        }
        opened
    }

    /// Records a failed request to a node now.
    pub fn record_failure(&mut self, address: &str) -> (opened: bool)
        ensures
            exists|now: i64|
                opened == opens(prior(old(self).breakers(), address@, now))
                    && #[trigger] changed_at(
                    old(self).breakers(),
                    final(self).breakers(),
                    address@,
                    after_failure(prior(old(self).breakers(), address@, now), now),
                ),
    {
        self.record_failure_at(address, now_secs())
    }

    /// Records a successful request to a node at the time `now`; a node
    /// that has no breaker yet gets one first.
    pub fn record_success_at(&mut self, address: &str, now: i64)
        ensures
            changed_at(
                old(self).breakers(),
                final(self).breakers(),
                address@,
                after_success(prior(old(self).breakers(), address@, now), now),
            ),
    {
        let i = self.ensure_breaker(address, now);
        let ghost before = self.breakers@;
        let mut breaker = NodeCircuitBreaker {
            address: self.breakers[i].address.clone(),
            available: self.breakers[i].available,
            fail_count: self.breakers[i].fail_count,
            last_fail_time: self.breakers[i].last_fail_time,
            last_success_time: self.breakers[i].last_success_time,
            circuit_open_time: self.breakers[i].circuit_open_time,
        };
        breaker.record_success_at(now);
        self.breakers.set(i, breaker);
        proof {
            lemma_find_same_nodes(before, self.breakers@, address@, 0);
        }
    }

    /// Records a successful request to a node now.
    pub fn record_success(&mut self, address: &str)
        ensures
            exists|now: i64| #[trigger]
                changed_at(
                    old(self).breakers(),
                    final(self).breakers(),
                    address@,
                    after_success(prior(old(self).breakers(), address@, now), now),
                ),
    {
        self.record_success_at(address, now_secs());
    }

    /// The addresses whose nodes may be asked at the time `now`, in their
    /// order. A node without a breaker may be asked.
    pub fn filter_available_at(&self, addresses: &[String], now: i64) -> (r: Vec<String>)
        ensures
            texts(r@) == available_among(self.breakers(), texts(addresses@), now),
    {
        let mut out: Vec<String> = Vec::new();
        let ghost all = texts(addresses@);
        let mut i: usize = 0;
        assert(all.take(0) =~= Seq::<Seq<char>>::empty());
        assert(texts(out@) =~= Seq::<Seq<char>>::empty());
        while i < addresses.len()
            invariant
                0 <= i <= addresses@.len(),
                all == texts(addresses@),
                texts(out@) == available_among(self.breakers(), all.take(i as int), now),
            decreases addresses@.len() - i,
        {
            proof {
                assert(all.take(i as int + 1).drop_last() =~= all.take(i as int));
                assert(all.take(i as int + 1).last() == addresses@[i as int]@);
            }
            let ghost before = texts(out@);
            let open = match self.position(addresses[i].as_str()) {
                Some(j) => self.breakers[j].is_available_at(now),
                None => true,
            };
            if open {
                out.push(addresses[i].clone());
                assert(texts(out@) =~= before.push(addresses@[i as int]@));
            }
            i = i + 1;
        }
        assert(all.take(addresses@.len() as int) =~= all);
        out
    }

    /// The addresses whose nodes may be asked now.
    pub fn filter_available(&self, addresses: &[String]) -> (r: Vec<String>)
        ensures
            exists|now: i64|
                texts(r@) == #[trigger] available_among(self.breakers(), texts(addresses@), now),
    {
        self.filter_available_at(addresses, now_secs())
    }

    /// The number of nodes that may be asked at the time `now`.
    pub fn available_count_at(&self, addresses: &[String], now: i64) -> (n: usize)
        ensures
            n == available_among(self.breakers(), texts(addresses@), now).len(),
    {
        let r = self.filter_available_at(addresses, now);
        r.len()
    }

    /// The number of nodes that may be asked now.
    pub fn available_count(&self, addresses: &[String]) -> (n: usize)
        ensures
            exists|now: i64|
                n == (#[trigger] available_among(self.breakers(), texts(addresses@), now)).len(),
    {
        self.available_count_at(addresses, now_secs())
    }

    /// Resets every breaker.
    pub fn reset_all(&mut self)
        ensures
            final(self).breakers().len() == old(self).breakers().len(),
            forall|i: int|
                0 <= i < old(self).breakers().len() ==> (#[trigger] final(self).breakers()[i])@
                    == after_reset(old(self).breakers()[i]@) && final(self).breakers()[i].node()
                    == old(self).breakers()[i].node(),
    {
        let n: usize = self.breakers.len();
        let mut i: usize = 0;
        while i < n
            invariant
                0 <= i <= n,
                n == self.breakers@.len(),
                n == old(self).breakers@.len(),
                forall|j: int|
                    0 <= j < i ==> (#[trigger] self.breakers@[j])@ == after_reset(
                        old(self).breakers@[j]@,
                    ) && self.breakers@[j].node() == old(self).breakers@[j].node(),
                forall|j: int| i <= j < n ==> self.breakers@[j] == old(self).breakers@[j],
            decreases n - i,
        {
            let mut breaker = NodeCircuitBreaker {
                address: self.breakers[i].address.clone(),
                available: self.breakers[i].available,
                fail_count: self.breakers[i].fail_count,
                last_fail_time: self.breakers[i].last_fail_time,
                last_success_time: self.breakers[i].last_success_time,
                circuit_open_time: self.breakers[i].circuit_open_time,
            };
            breaker.reset();
            self.breakers.set(i, breaker);
            i = i + 1;
        }
    }
}

/// A breaker that was added at the end is found for its node, unless an
/// earlier one is.
pub proof fn lemma_find_pushed(s: Seq<NodeCircuitBreaker>, b: NodeCircuitBreaker, from: int)
    requires
        0 <= from <= s.len(),
    ensures
        find_breaker(s.push(b), b.node(), from) <= s.len(),
        find_breaker(s, b.node(), from) >= s.len() ==> find_breaker(s.push(b), b.node(), from)
            == s.len(),
    decreases s.len() - from,
{
    let t = s.push(b);
    if from < s.len() {
        assert(t[from] == s[from]);
        if s[from].node() != b.node() {
            lemma_find_pushed(s, b, from + 1);
        }
    } else {
        assert(t[from] == b);
    }
}

/// The search for a node goes the same way in two lists whose breakers
/// stand for the same nodes.
pub proof fn lemma_find_same_nodes(
    a: Seq<NodeCircuitBreaker>,
    b: Seq<NodeCircuitBreaker>,
    address: Seq<char>,
    from: int,
)
    requires
        a.len() == b.len(),
        0 <= from <= a.len(),
        forall|i: int| 0 <= i < a.len() ==> (#[trigger] a[i]).node() == b[i].node(),
    ensures
        find_breaker(a, address, from) == find_breaker(b, address, from),
    decreases a.len() - from,
{
    if from < a.len() {
        assert(a[from].node() == b[from].node());
        if a[from].node() != address {
            lemma_find_same_nodes(a, b, address, from + 1);
        }
    }
}

} // verus!
