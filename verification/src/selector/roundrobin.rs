//! Round robin selector.

use vstd::prelude::*;

use super::nodes::{add_node, clone_nodes, remove_node, views};
use super::{Message, Selector};
use crate::endpoint::{Endpoint, EndpointView};
use crate::error::TarsError;

verus! {

/// Cycles through the endpoints in order.
pub struct RoundRobin {
    nodes: Vec<Endpoint>,
    index: usize,
}

impl RoundRobin {
    /// The counter: the number of selections made so far, wrapping at the
    /// largest `usize`.
    pub closed spec fn counter(&self) -> usize {
        self.index
    }

    /// A selector without endpoints.
    pub fn new() -> (s: RoundRobin)
        ensures
            s.nodes().len() == 0,
            s.counter() == 0,
    {
        let s = RoundRobin { nodes: Vec::new(), index: 0 };
        assert(s.nodes() =~= Seq::<EndpointView>::empty());
        s
    }

    /// A selector over the given endpoints.
    pub fn with_nodes(nodes: Vec<Endpoint>) -> (s: RoundRobin)
        ensures
            s.nodes() == views(nodes@),
            s.counter() == 0,
    {
        RoundRobin { nodes, index: 0 }
    }
}

impl Selector for RoundRobin {
    closed spec fn nodes(&self) -> Seq<EndpointView> {
        views(self.nodes@)
    }

    /// Picks the endpoint at the counter modulo the number of endpoints and
    /// moves the counter on by one.
    fn select<M: Message>(&mut self, msg: &M) -> (r: Result<Endpoint, TarsError>)
        ensures
            old(self).nodes().len() > 0
                ==> r->Ok_0@ == old(self).nodes()[(old(self).counter() as int)
                % (old(self).nodes().len() as int)],
            old(self).nodes().len() > 0 ==> final(self).counter() == (if old(self).counter()
                == usize::MAX {
                0usize
            } else {
                (old(self).counter() + 1) as usize
            }),
            old(self).nodes().len() == 0 ==> final(self).counter() == old(self).counter(),
    {
        if self.nodes.len() == 0 {
            return Err(TarsError::NoEndpoint);
        }
        let idx: usize = self.index % self.nodes.len();
        self.index = if self.index == usize::MAX {
            0
        } else {
            self.index + 1
        };
        assert(views(self.nodes@)[idx as int] == self.nodes@[idx as int]@);
        Ok(self.nodes[idx].clone())
    }

    /// Replaces the endpoints; the counter stays.
    fn refresh(&mut self, nodes: Vec<Endpoint>)
        ensures
            final(self).counter() == old(self).counter(),
    {
        self.nodes = nodes;
    }

    /// Adds an endpoint; the counter stays.
    fn add(&mut self, node: Endpoint) -> (r: Result<(), TarsError>)
        ensures
            final(self).counter() == old(self).counter(),
    {
        add_node(&mut self.nodes, node);
        Ok(())
    }

    /// Removes an endpoint; the counter stays.
    fn remove(&mut self, node: &Endpoint) -> (r: Result<(), TarsError>)
        ensures
            final(self).counter() == old(self).counter(),
    {
        remove_node(&mut self.nodes, node);
        Ok(())
    }

    fn all(&self) -> (r: Vec<Endpoint>) {
        clone_nodes(&self.nodes)
    }

    fn len(&self) -> (n: usize) {
        self.nodes.len()
    }

    fn is_empty(&self) -> (r: bool) {
        self.nodes.len() == 0
    }
}

} // verus!
