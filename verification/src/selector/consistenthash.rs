//! Consistent hash selector.
//!
//! Every endpoint stands on a ring of 32-bit keys at 100 virtual nodes, the
//! CRC32 values of "host:port#0" to "host:port#99". A message goes to the
//! endpoint of the first virtual node at or behind its hash code, and from
//! behind the last virtual node on to the first.

use std::collections::HashMap;
use vstd::prelude::*;
use vstd::utf8::encode_utf8;

use super::nodes::{add_node, clone_nodes, remove_node, views};
use super::{Message, Selector};
use crate::consts::CON_HASH_VIRTUAL_NODES;
use crate::endpoint::{spec_address, Endpoint, EndpointView};
use crate::error::TarsError;
use crate::util::text::{concat3, decimal, u64_to_string};

verus! {

broadcast use vstd::std_specs::hash::group_hash_axioms;

/// The CRC32 checksum of bytes, as `crc32fast` computes it.
pub uninterp spec fn crc32(bytes: Seq<u8>) -> u32;

/// `crc32fast::hash`: the CRC32 checksum of the bytes.
#[verifier::external_body]
fn crc32_of(bytes: &[u8]) -> (r: u32)
    ensures
        r == crc32(bytes@),
{
    crc32fast::hash(bytes)
}

/// Whether the numbers stand in rising order.
pub open spec fn sorted(s: Seq<u32>) -> bool {
    forall|i: int, j: int| 0 <= i <= j < s.len() ==> s[i] <= s[j]
}

/// `<[u32]>::sort_unstable`: the same numbers in rising order.
#[verifier::external_body]
fn sort_keys(keys: &mut Vec<u32>)
    ensures
        sorted(final(keys)@),
        final(keys)@.to_multiset() == old(keys)@.to_multiset(),
{
    keys.sort_unstable()
}

/// The key of virtual node `idx` of the endpoint at `addr`: the checksum of
/// "addr#idx".
pub open spec fn virtual_key(addr: Seq<char>, idx: nat) -> u32 {
    crc32(encode_utf8(addr + "#"@ + decimal(idx)))
}

/// The keys of the virtual nodes of an endpoint, in the order of their
/// numbers.
pub open spec fn node_keys(node: EndpointView) -> Seq<u32> {
    Seq::new(CON_HASH_VIRTUAL_NODES as nat, |i: int| virtual_key(spec_address(node), i as nat))
}

/// The keys of the virtual nodes of all endpoints.
pub open spec fn all_keys(nodes: Seq<EndpointView>) -> Seq<u32>
    decreases nodes.len(),
{
    if nodes.len() == 0 {
        Seq::empty()
    } else {
        all_keys(nodes.drop_last()) + node_keys(nodes.last())
    }
}

/// The endpoint that a key of the ring belongs to: of several endpoints
/// with the key, the last in the list.
pub open spec fn owner(nodes: Seq<EndpointView>, key: u32) -> Option<EndpointView>
    decreases nodes.len(),
{
    if nodes.len() == 0 {
        None
    } else if node_keys(nodes.last()).contains(key) {
        Some(nodes.last())
    } else {
        owner(nodes.drop_last(), key)
    }
}

/// Whether `key` is where a search from `hash` ends on a ring with the
/// given keys: the least key at or above `hash`, or the least key of all
/// where none is at or above it.
pub open spec fn is_successor(keys: Seq<u32>, hash: u32, key: u32) -> bool {
    &&& keys.contains(key)
    &&& if exists|j: int| 0 <= j < keys.len() && keys[j] >= hash {
        key >= hash && forall|j: int| 0 <= j < keys.len() && keys[j] >= hash ==> key <= keys[j]
    } else {
        forall|j: int| 0 <= j < keys.len() ==> key <= keys[j]
    }
}

/// The endpoint that a ring of the given endpoints sends `hash` to.
pub open spec fn routed(nodes: Seq<EndpointView>, hash: u32, to: EndpointView) -> bool {
    exists|key: u32| #[trigger]
        is_successor(all_keys(nodes), hash, key) && owner(nodes, key) == Some(to)
}

/// A search ends at one key only.
pub proof fn lemma_successor_unique(keys: Seq<u32>, hash: u32, a: u32, b: u32)
    requires
        is_successor(keys, hash, a),
        is_successor(keys, hash, b),
    ensures
        a == b,
{
    let ia = choose|i: int| 0 <= i < keys.len() && keys[i] == a;
    let ib = choose|i: int| 0 <= i < keys.len() && keys[i] == b;
    assert(keys[ia] == a && keys[ib] == b);
}

/// A key is on the ring exactly if it belongs to an endpoint, and that
/// endpoint is one of the list.
pub proof fn lemma_owner(nodes: Seq<EndpointView>, key: u32)
    ensures
        all_keys(nodes).contains(key) <==> owner(nodes, key) is Some,
        owner(nodes, key) is Some ==> nodes.contains(owner(nodes, key)->0),
    decreases nodes.len(),
{
    if nodes.len() > 0 {
        let front = nodes.drop_last();
        lemma_owner(front, key);
        let a = all_keys(front);
        let b = node_keys(nodes.last());
        if all_keys(nodes).contains(key) {
            let i = choose|i: int| 0 <= i < (a + b).len() && (a + b)[i] == key;
            if i < a.len() {
                assert(a[i] == key);
            } else {
                assert(b[i - a.len()] == key);
            }
        }
        if b.contains(key) {
            let i = choose|i: int| 0 <= i < b.len() && b[i] == key;
            assert((a + b)[a.len() + i] == key);
            assert(nodes[nodes.len() - 1] == nodes.last());
        } else if a.contains(key) {
            let i = choose|i: int| 0 <= i < a.len() && a[i] == key;
            assert((a + b)[i] == key);
        }
        if owner(front, key) is Some {
            let e = owner(front, key)->0;
            let j = choose|j: int| 0 <= j < front.len() && front[j] == e;
            assert(nodes[j] == e);
        }
    }
}

/// Two sequences with the same numbers, counted with their repeats, hold
/// the same numbers.
pub proof fn lemma_same_members(a: Seq<u32>, b: Seq<u32>, key: u32)
    requires
        a.to_multiset() == b.to_multiset(),
    ensures
        a.contains(key) <==> b.contains(key),
        a.len() == b.len(),
{
    vstd::seq_lib::to_multiset_contains(a, key);
    vstd::seq_lib::to_multiset_contains(b, key);
    vstd::seq_lib::to_multiset_len(a);
    vstd::seq_lib::to_multiset_len(b);
}

/// The ring as the selector holds it, against the ring that the endpoints
/// define.
pub open spec fn ring_matches(
    ring: Map<u32, Endpoint>,
    keys: Seq<u32>,
    nodes: Seq<EndpointView>,
) -> bool {
    &&& sorted(keys)
    &&& keys.to_multiset() == all_keys(nodes).to_multiset()
    &&& forall|key: u32|
        match #[trigger] owner(nodes, key) {
            Some(e) => ring.contains_key(key) && ring[key]@ == e,
            None => !ring.contains_key(key),
        }
}

/// The ring before its keys are sorted.
pub open spec fn ring_holds(
    ring: Map<u32, Endpoint>,
    keys: Seq<u32>,
    nodes: Seq<EndpointView>,
) -> bool {
    &&& keys == all_keys(nodes)
    &&& forall|key: u32|
        match #[trigger] owner(nodes, key) {
            Some(e) => ring.contains_key(key) && ring[key]@ == e,
            None => !ring.contains_key(key),
        }
}

/// Consistent hash selector with virtual nodes.
pub struct ConsistentHash {
    /// Virtual node ring: key -> endpoint
    ring: HashMap<u32, Endpoint>,
    /// The keys of the ring in rising order
    sorted_keys: Vec<u32>,
    /// The endpoints
    nodes: Vec<Endpoint>,
}

/// Computes the key of virtual node `idx` of the endpoint at `addr`.
pub fn hash_key(addr: &str, idx: usize) -> (key: u32)
    ensures
        key == virtual_key(addr@, idx as nat),
{
    let number = u64_to_string(idx as u64);
    let text = concat3(addr, "#", number.as_str());
    crc32_of(text.as_str().as_bytes())
}

/// Puts the virtual nodes of `node` on the ring.
fn place_node(ring: &mut HashMap<u32, Endpoint>, keys: &mut Vec<u32>, node: &Endpoint)
    ensures
        final(keys)@ == old(keys)@ + node_keys(node@),
        forall|key: u32|
            #![trigger final(ring)@.contains_key(key)]
            node_keys(node@).contains(key) ==> final(ring)@.contains_key(key)
                && final(ring)@[key]@ == node@,
        forall|key: u32|
            #![trigger final(ring)@.contains_key(key)]
            !node_keys(node@).contains(key)
                ==> final(ring)@.contains_key(key) == old(ring)@.contains_key(key)
                && (old(ring)@.contains_key(key) ==> final(ring)@[key] == old(ring)@[key]),
{
    let addr = node.address();
    let ghost mine = node_keys(node@);
    let mut i: usize = 0;
    assert(mine.take(0) =~= Seq::<u32>::empty());
    while i < CON_HASH_VIRTUAL_NODES
        invariant
            0 <= i <= CON_HASH_VIRTUAL_NODES,
            addr@ == spec_address(node@),
            mine == node_keys(node@),
            keys@ == old(keys)@ + mine.take(i as int),
            forall|key: u32|
                #![trigger ring@.contains_key(key)]
                mine.take(i as int).contains(key) ==> ring@.contains_key(key) && ring@[key]@
                    == node@,
            forall|key: u32|
                #![trigger ring@.contains_key(key)]
                !mine.take(i as int).contains(key)
                    ==> ring@.contains_key(key) == old(ring)@.contains_key(key)
                    && (old(ring)@.contains_key(key) ==> ring@[key] == old(ring)@[key]),
        decreases CON_HASH_VIRTUAL_NODES - i,
    {
        let key = hash_key(addr.as_str(), i);
        let ghost before = mine.take(i as int);
        let ghost after = mine.take(i as int + 1);
        proof {
            assert(mine[i as int] == key);
            assert(after =~= before.push(key));
            assert forall|k: u32| after.contains(k) <==> (before.contains(k) || k == key) by {
                if after.contains(k) {
                    let j = choose|j: int| 0 <= j < after.len() && after[j] == k;
                    if j < i {
                        assert(before[j] == k);
                    }
                }
                if before.contains(k) {
                    let j = choose|j: int| 0 <= j < before.len() && before[j] == k;
                    assert(after[j] == k);
                }
                if k == key {
                    assert(after[i as int] == k);
                }
            }
        }
        let ghost prior = ring@;
        let copy = node.clone();
        ring.insert(key, copy);
        keys.push(key);
        assert(keys@ =~= old(keys)@ + after);
        proof {
            assert(ring@ == prior.insert(key, copy));
            assert forall|k: u32| #![trigger ring@.contains_key(k)] after.contains(k)
                implies ring@.contains_key(k) && ring@[k]@ == node@ by {
                if k != key {
                    assert(before.contains(k));
                    assert(prior.contains_key(k));
                }
            }
            assert forall|k: u32| #![trigger ring@.contains_key(k)] !after.contains(k)
                implies ring@.contains_key(k) == old(ring)@.contains_key(k) && (old(
                ring)@.contains_key(k) ==> ring@[k] == old(ring)@[k]) by {
                assert(k != key);
                assert(!before.contains(k));
                assert(prior.contains_key(k) == old(ring)@.contains_key(k));
            }
        }
        i = i + 1;
    }
    assert(mine.take(CON_HASH_VIRTUAL_NODES as int) =~= mine);
}

/// The index of the first key at or above `hash` among keys in rising
/// order, or their number where all are below it.
pub fn lower_bound(keys: &Vec<u32>, hash: u32) -> (idx: usize)
    requires
        sorted(keys@),
    ensures
        idx <= keys@.len(),
        forall|j: int| 0 <= j < idx ==> keys@[j] < hash,
        forall|j: int| idx <= j < keys@.len() ==> keys@[j] >= hash,
{
    let mut lo: usize = 0;
    let mut hi: usize = keys.len();
    while lo < hi
        invariant
            0 <= lo <= hi <= keys@.len(),
            sorted(keys@),
            forall|j: int| 0 <= j < lo ==> keys@[j] < hash,
            forall|j: int| hi <= j < keys@.len() ==> keys@[j] >= hash,
        decreases hi - lo,
    {
        let mid: usize = lo + (hi - lo) / 2;
        if keys[mid] < hash {
            lo = mid + 1;
        } else {
            hi = mid;
        }
    }
    lo
}

impl ConsistentHash {
    #[verifier::type_invariant]
    spec fn ring_is_built(self) -> bool {
        ring_matches(self.ring@, self.sorted_keys@, views(self.nodes@))
    }

    /// A selector without endpoints.
    pub fn new() -> (s: ConsistentHash)
        ensures
            s.nodes().len() == 0,
    {
        let ring: HashMap<u32, Endpoint> = HashMap::new();
        let sorted_keys: Vec<u32> = Vec::new();
        let nodes: Vec<Endpoint> = Vec::new();
        assert(views(nodes@) =~= Seq::<EndpointView>::empty());
        Self::build(nodes)
    }

    /// A selector over the given endpoints.
    pub fn with_nodes(nodes: Vec<Endpoint>) -> (s: ConsistentHash)
        ensures
            s.nodes() == views(nodes@),
    {
        Self::build(nodes)
    }

    /// Builds the ring of the endpoints: the virtual nodes of each, in the
    /// order of the list, then the keys sorted.
    fn build(nodes: Vec<Endpoint>) -> (s: ConsistentHash)
        ensures
            s.nodes() == views(nodes@),
    {
        let mut ring: HashMap<u32, Endpoint> = HashMap::new();
        let mut keys: Vec<u32> = Vec::new();
        let ghost all = views(nodes@);
        let mut i: usize = 0;
        assert(all.take(0) =~= Seq::<EndpointView>::empty());
        while i < nodes.len()
            invariant
                0 <= i <= nodes@.len(),
                all == views(nodes@),
                ring_holds(ring@, keys@, all.take(i as int)),
            decreases nodes@.len() - i,
        {
            let ghost before = ring@;
            place_node(&mut ring, &mut keys, &nodes[i]);
            proof {
                let front = all.take(i as int);
                let next = all.take(i as int + 1);
                assert(next.drop_last() =~= front);
                assert(next.last() == nodes@[i as int]@);
                assert forall|key: u32|
                    match #[trigger] owner(next, key) {
                        Some(e) => ring@.contains_key(key) && ring@[key]@ == e,
                        None => !ring@.contains_key(key),
                    } by {
                    if !node_keys(next.last()).contains(key) {
                        assert(owner(next, key) == owner(front, key));
                        assert(ring@.contains_key(key) == before.contains_key(key));
                    } else {
                        assert(ring@.contains_key(key));
                    }
                }
            }
            i = i + 1;
        }
        assert(all.take(nodes@.len() as int) =~= all);
        sort_keys(&mut keys);
        ConsistentHash { ring, sorted_keys: keys, nodes }
    }

    /// Finds where a search from `hash` ends: the first key at or above it,
    /// or the first key of all.
    fn find_key(&self, hash: u32) -> (r: Option<u32>)
        ensures
            self.nodes().len() == 0 <==> r is None,
            r is Some ==> is_successor(all_keys(self.nodes()), hash, r->0),
    {
        proof {
            use_type_invariant(self);
            lemma_keys_count(views(self.nodes@));
            lemma_same_members(self.sorted_keys@, all_keys(views(self.nodes@)), 0);
        }
        if self.sorted_keys.len() == 0 {
            return None;
        }
        let idx = lower_bound(&self.sorted_keys, hash);
        let key: u32 = if idx >= self.sorted_keys.len() {
            self.sorted_keys[0]
        } else {
            self.sorted_keys[idx]
        };
        proof {
            let mine = self.sorted_keys@;
            let theirs = all_keys(views(self.nodes@));
            assert(mine.contains(key)) by {
                if idx >= mine.len() {
                    assert(mine[0] == key);
                } else {
                    assert(mine[idx as int] == key);
                }
            }
            lemma_same_members(mine, theirs, key);
            assert forall|j: int| 0 <= j < theirs.len() implies (if idx < mine.len() {
                theirs[j] >= hash ==> key <= theirs[j]
            } else {
                theirs[j] < hash && key <= theirs[j]
            }) by {
                lemma_same_members(mine, theirs, theirs[j]);
                assert(theirs.contains(theirs[j]));
                let t = choose|t: int| 0 <= t < mine.len() && mine[t] == theirs[j];
                assert(mine[t] == theirs[j]);
            }
            if idx < mine.len() {
                let w = choose|w: int| 0 <= w < theirs.len() && theirs[w] == key;
                assert(theirs[w] >= hash);
            }
        }
        Some(key)
    }
}

/// A ring has 100 keys for each endpoint.
pub proof fn lemma_keys_count(nodes: Seq<EndpointView>)
    ensures
        all_keys(nodes).len() == nodes.len() * 100,
    decreases nodes.len(),
{
    if nodes.len() > 0 {
        lemma_keys_count(nodes.drop_last());
    }
}

impl Selector for ConsistentHash {
    closed spec fn nodes(&self) -> Seq<EndpointView> {
        views(self.nodes@)
    }

    /// Picks the endpoint of the first virtual node at or behind the
    /// message's hash code.
    fn select<M: Message>(&mut self, msg: &M) -> (r: Result<Endpoint, TarsError>)
        ensures
            old(self).nodes().len() > 0 ==> routed(
                old(self).nodes(),
                msg.spec_hash_code(),
                r->Ok_0@,
            ),
    {
        proof {
            use_type_invariant(&*self);
        }
        let hash: u32 = msg.hash_code();
        let key: u32 = match self.find_key(hash) {
            Some(key) => key,
            None => {
                return Err(TarsError::NoEndpoint);
            },
        };
        proof {
            lemma_owner(views(self.nodes@), key);
        }
        match self.ring.get(&key) {
            Some(ep) => {
                assert(owner(views(self.nodes@), key) == Some(ep@));
                Ok(ep.clone())
            },
            None => Err(TarsError::NoEndpoint),
        }
    }

    fn refresh(&mut self, nodes: Vec<Endpoint>) {
        *self = Self::build(nodes);
    }

    fn add(&mut self, node: Endpoint) -> (r: Result<(), TarsError>) {
        let mut nodes = clone_nodes(&self.nodes);
        add_node(&mut nodes, node);
        *self = Self::build(nodes);
        Ok(())
    }

    fn remove(&mut self, node: &Endpoint) -> (r: Result<(), TarsError>) {
        let mut nodes = clone_nodes(&self.nodes);
        remove_node(&mut nodes, node);
        *self = Self::build(nodes);
        Ok(())
    }

    fn all(&self) -> (r: Vec<Endpoint>) {
        clone_nodes(&self.nodes)
    }

    fn len(&self) -> (n: usize) {
        self.nodes.len()
    }

    fn is_empty(&self) -> (r: bool) {
        self.nodes.len() == 0
    }
}

/// Consistent-hash stability: when an endpoint joins the ring, a hash code
/// either keeps its endpoint or moves to the one that joined; no hash code
/// moves between two endpoints that were there before.
pub proof fn law_add_moves_to_new_only(
    nodes: Seq<EndpointView>,
    node: EndpointView,
    hash: u32,
    before: EndpointView,
    after: EndpointView,
)
    requires
        routed(nodes, hash, before),
        routed(nodes.push(node), hash, after),
    ensures
        after == before || after == node,
{
    let grown = nodes.push(node);
    let old_keys = all_keys(nodes);
    let new_keys = all_keys(grown);
    let mine = node_keys(node);
    assert(grown.drop_last() =~= nodes);
    assert(grown.last() == node);
    assert(new_keys == old_keys + mine);
    let k = choose|k: u32| #[trigger] is_successor(old_keys, hash, k) && owner(nodes, k) == Some(
        before,
    );
    let k2 = choose|k2: u32| #[trigger]
        is_successor(new_keys, hash, k2) && owner(grown, k2) == Some(after);
    if !mine.contains(k2) {
        assert(owner(grown, k2) == owner(nodes, k2));
        // k2 is an old key
        let i = choose|i: int| 0 <= i < new_keys.len() && new_keys[i] == k2;
        if i >= old_keys.len() {
            assert(mine[i - old_keys.len()] == k2);
        }
        assert(old_keys[i] == k2);
        assert forall|j: int| 0 <= j < old_keys.len() implies new_keys[j] == old_keys[j] by {}
        if exists|j: int| 0 <= j < old_keys.len() && old_keys[j] >= hash {
            let j = choose|j: int| 0 <= j < old_keys.len() && old_keys[j] >= hash;
            assert(new_keys[j] >= hash);
            assert forall|t: int| 0 <= t < old_keys.len() && old_keys[t] >= hash implies k2
                <= old_keys[t] by {
                assert(new_keys[t] == old_keys[t]);
            }
        } else {
            if exists|j: int| 0 <= j < new_keys.len() && new_keys[j] >= hash {
                assert(k2 >= hash);
                assert(old_keys[i] >= hash);
            }
            assert forall|t: int| 0 <= t < old_keys.len() implies k2 <= old_keys[t] by {
                assert(new_keys[t] == old_keys[t]);
            }
        }
        assert(is_successor(old_keys, hash, k2));
        lemma_successor_unique(old_keys, hash, k, k2);
    }
}

} // verus!
