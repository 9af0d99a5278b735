//! The table of pending responses: which request waits under which ticket.
//!
//! A ticket stands for the completer that the caller waits on. The table
//! itself is a concurrent map of an outside crate; nothing in this file is
//! proved, each function states what that crate documents.

use dashmap::DashMap;
use vstd::prelude::*;

verus! {

/// `dashmap::DashMap`: a map that many threads may use at once, carried as
/// it is.
#[verifier::external_type_specification]
#[verifier::external_body]
#[verifier::reject_recursive_types(K)]
#[verifier::reject_recursive_types(V)]
#[verifier::reject_recursive_types(S)]
pub struct ExDashMap<K, V, S>(DashMap<K, V, S>);

/// The tickets that a table holds, each under its request id.
pub uninterp spec fn pending(table: DashMap<i32, u64>) -> Map<i32, u64>;

/// The table without any ticket.
pub open spec fn no_tickets() -> Map<i32, u64> {
    Map::empty()
}

/// `DashMap::new`: a table that holds nothing.
#[verifier::external_body]
pub(crate) fn table_new() -> (t: DashMap<i32, u64>)
    ensures
        pending(t) == no_tickets(),
{
    DashMap::new()
}

/// `DashMap::insert`: puts the ticket under the id and hands back the
/// ticket that stood there.
#[verifier::external_body]
pub(crate) fn table_insert(t: &mut DashMap<i32, u64>, id: i32, ticket: u64) -> (r: Option<u64>)
    ensures
        pending(*final(t)) == pending(*old(t)).insert(id, ticket),
        r == (if pending(*old(t)).contains_key(id) {
            Some(pending(*old(t))[id])
        } else {
            None
        }),
{
    t.insert(id, ticket)
}

/// `DashMap::remove`: takes out what stands under the id and hands the
/// ticket back.
#[verifier::external_body]
pub(crate) fn table_remove(t: &mut DashMap<i32, u64>, id: i32) -> (r: Option<u64>)
    ensures
        pending(*final(t)) == pending(*old(t)).remove(id),
        r == (if pending(*old(t)).contains_key(id) {
            Some(pending(*old(t))[id])
        } else {
            None
        }),
{
    t.remove(&id).map(|entry| entry.1)
}

/// `DashMap::clear`: afterwards the table holds nothing.
#[verifier::external_body]
pub(crate) fn table_clear(t: &mut DashMap<i32, u64>)
    ensures
        pending(*final(t)) == no_tickets(),
{
    t.clear()
}

} // verus!
