//! Mod hash selector.

use vstd::prelude::*;

use super::nodes::{add_node, clone_nodes, remove_node, views};
use super::{Message, Selector};
use crate::endpoint::{Endpoint, EndpointView};
use crate::error::TarsError;

verus! {

/// Picks the endpoint at the hash code modulo the number of endpoints.
pub struct ModHash {
    nodes: Vec<Endpoint>,
}

impl ModHash {
    /// A selector without endpoints.
    pub fn new() -> (s: ModHash)
        ensures
            s.nodes().len() == 0,
    {
        let s = ModHash { nodes: Vec::new() };
        assert(s.nodes() =~= Seq::<EndpointView>::empty());
        s
    }

    /// A selector over the given endpoints.
    pub fn with_nodes(nodes: Vec<Endpoint>) -> (s: ModHash)
        ensures
            s.nodes() == views(nodes@),
    {
        ModHash { nodes }
    }
}

impl Selector for ModHash {
    closed spec fn nodes(&self) -> Seq<EndpointView> {
        views(self.nodes@)
    }

    /// Picks the endpoint at the message's hash code modulo the number of
    /// endpoints.
    fn select<M: Message>(&mut self, msg: &M) -> (r: Result<Endpoint, TarsError>)
        ensures
            old(self).nodes().len() > 0
                ==> r->Ok_0@ == old(self).nodes()[(msg.spec_hash_code() as int)
                % (old(self).nodes().len() as int)],
    {
        if self.nodes.len() == 0 {
            return Err(TarsError::NoEndpoint);
        }
        let hash_code: u32 = msg.hash_code();
        let idx: usize = (hash_code as usize) % self.nodes.len();
        assert(views(self.nodes@)[idx as int] == self.nodes@[idx as int]@);
        Ok(self.nodes[idx].clone())
    }

    fn refresh(&mut self, nodes: Vec<Endpoint>) {
        self.nodes = nodes;
    }

    fn add(&mut self, node: Endpoint) -> (r: Result<(), TarsError>) {
        add_node(&mut self.nodes, node);
        Ok(())
    }

    fn remove(&mut self, node: &Endpoint) -> (r: Result<(), TarsError>) {
        remove_node(&mut self.nodes, node);
        Ok(())
    }

    fn all(&self) -> (r: Vec<Endpoint>) {
        clone_nodes(&self.nodes)
    }

    fn len(&self) -> (n: usize) {
        self.nodes.len()
    }

    fn is_empty(&self) -> (r: bool) {
        self.nodes.len() == 0
    }
}

} // verus!
