//! The endpoint list that every selection strategy keeps.

use vstd::prelude::*;

use crate::endpoint::{same_place, Endpoint, EndpointView};

verus! {

/// The endpoints of a list as mathematics.
pub open spec fn views(nodes: Seq<Endpoint>) -> Seq<EndpointView> {
    Seq::new(nodes.len(), |i: int| nodes[i]@)
}

/// Whether some endpoint of the list is at the same place as `node`.
pub open spec fn has_place(nodes: Seq<EndpointView>, node: EndpointView) -> bool {
    exists|i: int| 0 <= i < nodes.len() && same_place(#[trigger] nodes[i], node)
}

/// The list without the endpoints at the place of `node`, the others in
/// their order.
pub open spec fn without_place(nodes: Seq<EndpointView>, node: EndpointView) -> Seq<EndpointView>
    decreases nodes.len(),
{
    if nodes.len() == 0 {
        Seq::empty()
    } else if same_place(nodes.last(), node) {
        without_place(nodes.drop_last(), node)
    } else {
        without_place(nodes.drop_last(), node).push(nodes.last())
    }
}

/// The list after `node` was added: unchanged where an endpoint at its
/// place is there already, else with `node` at the end.
pub open spec fn with_node(nodes: Seq<EndpointView>, node: EndpointView) -> Seq<EndpointView> {
    if has_place(nodes, node) {
        nodes
    } else {
        nodes.push(node)
    }
}

/// Nothing at the place of `node` is left once it was removed, and what is
/// left was there before.
pub proof fn law_removed_is_gone(nodes: Seq<EndpointView>, node: EndpointView)
    ensures
        !has_place(without_place(nodes, node), node),
        without_place(nodes, node).len() <= nodes.len(),
        forall|i: int|
            0 <= i < without_place(nodes, node).len() ==> nodes.contains(
                #[trigger] without_place(nodes, node)[i],
            ),
        !has_place(nodes, node) ==> without_place(nodes, node) == nodes,
    decreases nodes.len(),
{
    if nodes.len() > 0 {
        let front = nodes.drop_last();
        law_removed_is_gone(front, node);
        let out = without_place(nodes, node);
        assert forall|i: int| 0 <= i < out.len() implies nodes.contains(#[trigger] out[i]) by {
            if i < without_place(front, node).len() {
                let e = without_place(front, node)[i];
                assert(front.contains(e));
                let j = choose|j: int| 0 <= j < front.len() && front[j] == e;
                assert(nodes[j] == e);
            } else {
                assert(out[i] == nodes[nodes.len() - 1]);
            }
        }
        if has_place(out, node) {
            let i = choose|i: int| 0 <= i < out.len() && same_place(#[trigger] out[i], node);
            if i < without_place(front, node).len() {
                assert(same_place(without_place(front, node)[i], node));
            }
        }
        if !has_place(nodes, node) {
            assert(!same_place(nodes[nodes.len() - 1], node));
            if has_place(front, node) {
                let i = choose|i: int| 0 <= i < front.len()
                    && same_place(#[trigger] front[i], node);
                assert(same_place(nodes[i], node));
            }
            assert(front.push(nodes.last()) =~= nodes);
        }
    }
}

/// Whether an endpoint at the place of `node` is in the list.
pub fn contains_place(nodes: &Vec<Endpoint>, node: &Endpoint) -> (r: bool)
    ensures
        r == has_place(views(nodes@), node@),
{
    let mut i: usize = 0;
    while i < nodes.len()
        invariant
            0 <= i <= nodes@.len(),
            forall|j: int| 0 <= j < i ==> !same_place(#[trigger] views(nodes@)[j], node@),
        decreases nodes@.len() - i,
    {
        if nodes[i] == *node {
            assert(same_place(views(nodes@)[i as int], node@));
            return true;
        }
        i = i + 1;
    }
    false
}

/// Adds `node` unless an endpoint at its place is there already.
pub fn add_node(nodes: &mut Vec<Endpoint>, node: Endpoint)
    ensures
        views(final(nodes)@) == with_node(views(old(nodes)@), node@),
{
    if !contains_place(nodes, &node) {
        nodes.push(node);
        assert(views(nodes@) =~= views(old(nodes)@).push(node@));
    }
}

/// Removes every endpoint at the place of `node`.
pub fn remove_node(nodes: &mut Vec<Endpoint>, node: &Endpoint)
    ensures
        views(final(nodes)@) == without_place(views(old(nodes)@), node@),
{
    let mut kept: Vec<Endpoint> = Vec::new();
    let mut i: usize = 0;
    let n: usize = nodes.len();
    assert(views(nodes@).take(0) =~= Seq::<EndpointView>::empty());
    assert(views(kept@) =~= Seq::<EndpointView>::empty());
    while i < n
        invariant
            n == nodes@.len(),
            nodes@ == old(nodes)@,
            0 <= i <= n,
            views(kept@) == without_place(views(nodes@).take(i as int), node@),
        decreases n - i,
    {
        let ghost before = views(kept@);
        proof {
            assert(views(nodes@).take(i as int + 1).drop_last() =~= views(nodes@).take(i as int));
            assert(views(nodes@).take(i as int + 1).last() == nodes@[i as int]@);
        }
        if !(nodes[i] == *node) {
            kept.push(nodes[i].clone());
            assert(views(kept@) =~= before.push(nodes@[i as int]@));
        }
        i = i + 1;
    }
    assert(views(nodes@).take(n as int) =~= views(nodes@));
    *nodes = kept;
}

/// A copy of the list.
pub fn clone_nodes(nodes: &Vec<Endpoint>) -> (out: Vec<Endpoint>)
    ensures
        views(out@) == views(nodes@),
{
    let mut out: Vec<Endpoint> = Vec::new();
    let mut i: usize = 0;
    while i < nodes.len()
        invariant
            0 <= i <= nodes@.len(),
            out@.len() == i,
            forall|j: int| 0 <= j < i ==> (#[trigger] out@[j])@ == nodes@[j]@,
        decreases nodes@.len() - i,
    {
        out.push(nodes[i].clone());
        i = i + 1;
    }
    assert(views(out@) =~= views(nodes@));
    out
}

} // verus!
