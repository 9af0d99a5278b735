//! Load balancing: strategies that pick an endpoint for a message.
//!
//! - **Round robin** cycles through the endpoints in order.
//! - **Random** picks any endpoint.
//! - **Mod hash** picks by the message's hash code modulo the list length.
//! - **Consistent hash** walks a ring of virtual nodes.

pub mod consistenthash;
pub mod modhash;
pub mod nodes;
pub mod random;
pub mod roundrobin;
pub mod weight;
pub mod weight_laws;

pub use consistenthash::ConsistentHash;
pub use modhash::ModHash;
pub use random::Random;
pub use roundrobin::RoundRobin;
pub use weight::build_static_weight_list;

use vstd::prelude::*;
use vstd::string::StringSliceAdditionalSpecFns;
use vstd::utf8::encode_utf8;

use crate::endpoint::{Endpoint, EndpointView};
use crate::error::TarsError;
use crate::util::text::{is_word, same_ignoring_case};
use consistenthash::routed;
use nodes::{views, with_node, without_place};

verus! {

/// Hash type for hash-based routing.
#[derive(Debug, Clone, Copy, PartialEq, Eq, Structural, Default)]
pub enum HashType {
    /// Mod hash (hash % node_count)
    #[default]
    ModHash,
    /// Consistent hash with virtual nodes
    ConsistentHash,
}

impl HashType {
    /// The name of this hash type.
    pub open spec fn name(self) -> Seq<char> {
        match self {
            HashType::ModHash => "ModHash"@,
            HashType::ConsistentHash => "ConsistentHash"@,
        }
    }

    /// The name of this hash type: "ModHash" or "ConsistentHash".
    pub fn as_str(&self) -> (r: &'static str)
        ensures
            r@ == self.name(),
    {
        match self {
            HashType::ModHash => "ModHash",
            HashType::ConsistentHash => "ConsistentHash",
        }
    }
}

/// What a selector asks of a message.
pub trait Message {
    /// The hash code as mathematics.
    spec fn spec_hash_code(&self) -> u32;

    /// The hash type as mathematics.
    spec fn spec_hash_type(&self) -> HashType;

    /// Whether the message asks for hash-based routing, as mathematics.
    spec fn spec_is_hash(&self) -> bool;

    /// Hash code for hash-based routing.
    fn hash_code(&self) -> (r: u32)
        ensures
            r == self.spec_hash_code(),
    ;

    /// Hash type.
    fn hash_type(&self) -> (r: HashType)
        ensures
            r == self.spec_hash_type(),
    ;

    /// Whether this is a hash-based request.
    fn is_hash(&self) -> (r: bool)
        ensures
            r == self.spec_is_hash(),
    ;
}

/// A strategy that picks an endpoint for a message.
pub trait Selector {
    /// The endpoints to pick from.
    spec fn nodes(&self) -> Seq<EndpointView>;

    /// Picks an endpoint for the message. With no endpoint to pick from the
    /// answer is `NoEndpoint`; otherwise it is one of the endpoints.
    fn select<M: Message>(&mut self, msg: &M) -> (r: Result<Endpoint, TarsError>)
        ensures
            final(self).nodes() == old(self).nodes(),
            old(self).nodes().len() == 0 ==> r == Err::<Endpoint, TarsError>(
                TarsError::NoEndpoint,
            ),
            old(self).nodes().len() > 0 ==> r is Ok && old(self).nodes().contains(r->Ok_0@),
    ;

    /// Replaces the endpoints.
    fn refresh(&mut self, nodes: Vec<Endpoint>)
        ensures
            final(self).nodes() == views(nodes@),
    ;

    /// Adds an endpoint unless one at its place is there already.
    fn add(&mut self, node: Endpoint) -> (r: Result<(), TarsError>)
        ensures
            r is Ok,
            final(self).nodes() == with_node(old(self).nodes(), node@),
    ;

    /// Removes every endpoint at the place of `node`.
    fn remove(&mut self, node: &Endpoint) -> (r: Result<(), TarsError>)
        ensures
            r is Ok,
            final(self).nodes() == without_place(old(self).nodes(), node@),
    ;

    /// A copy of the endpoints.
    fn all(&self) -> (r: Vec<Endpoint>)
        ensures
            views(r@) == self.nodes(),
    ;

    /// The number of endpoints.
    fn len(&self) -> (n: usize)
        ensures
            n == self.nodes().len(),
    ;

    /// Whether there is no endpoint.
    fn is_empty(&self) -> (r: bool)
        ensures
            r == (self.nodes().len() == 0),
    ;
}

/// A message that is its three answers and nothing else.
#[derive(Debug, Clone, Copy, Default)]
pub struct DefaultMessage {
    pub hash_code: u32,
    pub hash_type: HashType,
    pub is_hash: bool,
}

impl Message for DefaultMessage {
    open spec fn spec_hash_code(&self) -> u32 {
        self.hash_code
    }

    open spec fn spec_hash_type(&self) -> HashType {
        self.hash_type
    }

    open spec fn spec_is_hash(&self) -> bool {
        self.is_hash
    }

    fn hash_code(&self) -> (r: u32) {
        self.hash_code
    }

    fn hash_type(&self) -> (r: HashType) {
        self.hash_type
    }

    fn is_hash(&self) -> (r: bool) {
        self.is_hash
    }
}

impl DefaultMessage {
    /// A message without hash-based routing.
    pub fn new() -> (m: DefaultMessage)
        ensures
            m.hash_code == 0,
            m.hash_type == HashType::ModHash,
            !m.is_hash,
    {
        DefaultMessage { hash_code: 0, hash_type: HashType::ModHash, is_hash: false }
    }

    /// A message that asks for hash-based routing.
    pub fn with_hash(hash_code: u32, hash_type: HashType) -> (m: DefaultMessage)
        ensures
            m.hash_code == hash_code,
            m.hash_type == hash_type,
            m.is_hash,
    {
        DefaultMessage { hash_code, hash_type, is_hash: true }
    }
}

/// The strategies by name.
#[derive(Debug, Clone, Copy, PartialEq, Eq, Structural)]
pub enum SelectorKind {
    RoundRobin,
    Random,
    ModHash,
    ConsistentHash,
}

/// The strategy that a name stands for, without regard to the case of
/// ASCII letters: "roundrobin" or "rr", "random", "modhash",
/// "consistenthash" or "ch"; round robin for every other name.
pub open spec fn kind_of_name(name: Seq<char>) -> SelectorKind {
    let bytes = encode_utf8(name);
    if same_ignoring_case(bytes, "roundrobin".spec_bytes()) || same_ignoring_case(
        bytes,
        "rr".spec_bytes(),
    ) {
        SelectorKind::RoundRobin
    } else if same_ignoring_case(bytes, "random".spec_bytes()) {
        SelectorKind::Random
    } else if same_ignoring_case(bytes, "modhash".spec_bytes()) {
        SelectorKind::ModHash
    } else if same_ignoring_case(bytes, "consistenthash".spec_bytes()) || same_ignoring_case(
        bytes,
        "ch".spec_bytes(),
    ) {
        SelectorKind::ConsistentHash
    } else {
        SelectorKind::RoundRobin
    }
}

/// A selector of any of the four strategies.
pub enum AnySelector {
    RoundRobin(RoundRobin),
    Random(Random),
    ModHash(ModHash),
    ConsistentHash(ConsistentHash),
}

impl AnySelector {
    /// The strategy of this selector.
    pub open spec fn kind(&self) -> SelectorKind {
        match self {
            AnySelector::RoundRobin(_) => SelectorKind::RoundRobin,
            AnySelector::Random(_) => SelectorKind::Random,
            AnySelector::ModHash(_) => SelectorKind::ModHash,
            AnySelector::ConsistentHash(_) => SelectorKind::ConsistentHash,
        }
    }

    /// The counter of a round-robin selector: the number of selections made
    /// so far, wrapping at the largest `usize`; 0 for every other strategy.
    pub open spec fn turn(&self) -> usize {
        match self {
            AnySelector::RoundRobin(s) => s.counter(),
            _ => 0,
        }
    }

    /// The counter after a selection among `count` endpoints.
    pub open spec fn next_turn(&self, count: nat) -> usize {
        match self {
            AnySelector::RoundRobin(s) => if count == 0 {
                s.counter()
            } else if s.counter() == usize::MAX {
                0
            } else {
                (s.counter() + 1) as usize
            },
            _ => 0,
        }
    }

    /// Whether the strategy picks `ep` for a message with the hash code
    /// `hash`: round robin the endpoint at the counter modulo the number of
    /// endpoints, mod-hash the one at the hash code modulo that number,
    /// consistent hash the one that its ring sends the hash code to, and
    /// random any of them.
    pub open spec fn chooses(&self, hash: u32, ep: EndpointView) -> bool {
        match self {
            AnySelector::RoundRobin(s) => s.nodes().len() > 0 && ep == s.nodes()[(s.counter()
                as int) % (s.nodes().len() as int)],
            AnySelector::Random(s) => s.nodes().contains(ep),
            AnySelector::ModHash(s) => s.nodes().len() > 0 && ep == s.nodes()[(hash as int) % (
            s.nodes().len() as int)],
            AnySelector::ConsistentHash(s) => routed(s.nodes(), hash, ep),
        }
    }
}

impl Selector for AnySelector {
    open spec fn nodes(&self) -> Seq<EndpointView> {
        match self {
            AnySelector::RoundRobin(s) => s.nodes(),
            AnySelector::Random(s) => s.nodes(),
            AnySelector::ModHash(s) => s.nodes(),
            AnySelector::ConsistentHash(s) => s.nodes(),
        }
    }

    /// Picks as the strategy inside picks.
    fn select<M: Message>(&mut self, msg: &M) -> (r: Result<Endpoint, TarsError>)
        ensures
            final(self).kind() == old(self).kind(),
            final(self).turn() == old(self).next_turn(old(self).nodes().len()),
            old(self).nodes().len() > 0 ==> old(self).chooses(msg.spec_hash_code(), r->Ok_0@),
    {
        match self {
            AnySelector::RoundRobin(s) => s.select(msg),
            AnySelector::Random(s) => s.select(msg),
            AnySelector::ModHash(s) => s.select(msg),
            AnySelector::ConsistentHash(s) => s.select(msg),
        }
    }

    fn refresh(&mut self, nodes: Vec<Endpoint>)
        ensures
            final(self).kind() == old(self).kind(),
            final(self).turn() == old(self).turn(),
    {
        match self {
            AnySelector::RoundRobin(s) => s.refresh(nodes),
            AnySelector::Random(s) => s.refresh(nodes),
            AnySelector::ModHash(s) => s.refresh(nodes),
            AnySelector::ConsistentHash(s) => s.refresh(nodes),
        }
    }

    fn add(&mut self, node: Endpoint) -> (r: Result<(), TarsError>)
        ensures
            final(self).kind() == old(self).kind(),
            final(self).turn() == old(self).turn(),
    {
        match self {
            AnySelector::RoundRobin(s) => s.add(node),
            AnySelector::Random(s) => s.add(node),
            AnySelector::ModHash(s) => s.add(node),
            AnySelector::ConsistentHash(s) => s.add(node),
        }
    }

    fn remove(&mut self, node: &Endpoint) -> (r: Result<(), TarsError>)
        ensures
            final(self).kind() == old(self).kind(),
            final(self).turn() == old(self).turn(),
    {
        match self {
            AnySelector::RoundRobin(s) => s.remove(node),
            AnySelector::Random(s) => s.remove(node),
            AnySelector::ModHash(s) => s.remove(node),
            AnySelector::ConsistentHash(s) => s.remove(node),
        }
    }

    fn all(&self) -> (r: Vec<Endpoint>) {
        match self {
            AnySelector::RoundRobin(s) => s.all(),
            AnySelector::Random(s) => s.all(),
            AnySelector::ModHash(s) => s.all(),
            AnySelector::ConsistentHash(s) => s.all(),
        }
    }

    fn len(&self) -> (n: usize) {
        match self {
            AnySelector::RoundRobin(s) => s.len(),
            AnySelector::Random(s) => s.len(),
            AnySelector::ModHash(s) => s.len(),
            AnySelector::ConsistentHash(s) => s.len(),
        }
    }

    fn is_empty(&self) -> (r: bool) {
        match self {
            AnySelector::RoundRobin(s) => s.is_empty(),
            AnySelector::Random(s) => s.is_empty(),
            AnySelector::ModHash(s) => s.is_empty(),
            AnySelector::ConsistentHash(s) => s.is_empty(),
        }
    }
}

/// Creates a selector by the name of its strategy, without endpoints.
pub fn create_selector(selector_type: &str) -> (s: AnySelector)
    ensures
        s.kind() == kind_of_name(selector_type@),
        s.nodes().len() == 0,
        s.turn() == 0,
{
    if is_word(selector_type, "roundrobin") || is_word(selector_type, "rr") {
        AnySelector::RoundRobin(RoundRobin::new())
    } else if is_word(selector_type, "random") {
        AnySelector::Random(Random::new())
    } else if is_word(selector_type, "modhash") {
        AnySelector::ModHash(ModHash::new())
    } else if is_word(selector_type, "consistenthash") || is_word(selector_type, "ch") {
        AnySelector::ConsistentHash(ConsistentHash::new())
    } else {
        AnySelector::RoundRobin(RoundRobin::new())
    }
}

} // verus!
