//! Random selector.

use rand::Rng;
use vstd::prelude::*;

use super::nodes::{add_node, clone_nodes, remove_node, views};
use super::{Message, Selector};
use crate::endpoint::{Endpoint, EndpointView};
use crate::error::TarsError;

verus! {

/// `Rng::gen_range` on `rand::thread_rng()` with the range `0..n`: some
/// index below `n`. Which one is left to chance.
#[verifier::external_body]
fn random_below(n: usize) -> (r: usize)
    requires
        n > 0,
    ensures
        r < n,
{
    rand::thread_rng().gen_range(0..n)
}

/// The endpoint at a drawn index; `NoEndpoint` where there is none to pick
/// from.
pub fn pick(nodes: &Vec<Endpoint>, drawn: usize) -> (r: Result<Endpoint, TarsError>)
    requires
        nodes@.len() > 0 ==> drawn < nodes@.len(),
    ensures
        nodes@.len() == 0 ==> r == Err::<Endpoint, TarsError>(TarsError::NoEndpoint),
        nodes@.len() > 0 ==> r is Ok && r->Ok_0@ == nodes@[drawn as int]@,
{
    if nodes.len() == 0 {
        return Err(TarsError::NoEndpoint);
    }
    Ok(nodes[drawn].clone())
}

/// Picks any endpoint, each with the same chance.
pub struct Random {
    nodes: Vec<Endpoint>,
}

impl Random {
    /// A selector without endpoints.
    pub fn new() -> (s: Random)
        ensures
            s.nodes().len() == 0,
    {
        let s = Random { nodes: Vec::new() };
        assert(s.nodes() =~= Seq::<EndpointView>::empty());
        s
    }

    /// A selector over the given endpoints.
    pub fn with_nodes(nodes: Vec<Endpoint>) -> (s: Random)
        ensures
            s.nodes() == views(nodes@),
    {
        Random { nodes }
    }
}

impl Selector for Random {
    closed spec fn nodes(&self) -> Seq<EndpointView> {
        views(self.nodes@)
    }

    /// Picks the endpoint at an index drawn by chance.
    fn select<M: Message>(&mut self, msg: &M) -> (r: Result<Endpoint, TarsError>) {
        if self.nodes.len() == 0 {
            return Err(TarsError::NoEndpoint);
        }
        let idx: usize = random_below(self.nodes.len());
        assert(views(self.nodes@)[idx as int] == self.nodes@[idx as int]@);
        pick(&self.nodes, idx)
    }

    fn refresh(&mut self, nodes: Vec<Endpoint>) {
        self.nodes = nodes;
    }

    fn add(&mut self, node: Endpoint) -> (r: Result<(), TarsError>) {
        add_node(&mut self.nodes, node);
        Ok(())
    }

    fn remove(&mut self, node: &Endpoint) -> (r: Result<(), TarsError>) {
        remove_node(&mut self.nodes, node);
        Ok(())
    }

    fn all(&self) -> (r: Vec<Endpoint>) {
        clone_nodes(&self.nodes)
    }

    fn len(&self) -> (n: usize) {
        self.nodes.len()
    }

    fn is_empty(&self) -> (r: bool) {
        self.nodes.len() == 0
    }
}

} // verus!
