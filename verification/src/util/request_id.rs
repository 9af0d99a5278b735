//! Request ids: 1, 2, 3, and from the greatest id on again 1. Zero is never
//! an id: it marks a push from the server.

use std::sync::atomic::{AtomicI32, Ordering};
use vstd::arithmetic::div_mod::{
    lemma_fundamental_div_mod, lemma_fundamental_div_mod_converse, lemma_mod_equivalence,
    lemma_small_mod,
};
use vstd::prelude::*;

verus! {

/// The greatest request id.
pub const MAX_REQUEST_ID: i32 = 2147483646;

/// The id that follows the counter value `current`: one more, and 1 behind
/// the greatest id; never 0.
pub open spec fn following(current: i32) -> i32 {
    if current >= MAX_REQUEST_ID || current == -1 {
        1
    } else {
        (current + 1) as i32
    }
}

/// The `k`-th id handed out from a counter that stands at `start`.
pub open spec fn nth_id(start: i32, k: nat) -> i32
    decreases k,
{
    if k == 0 {
        start
    } else {
        following(nth_id(start, (k - 1) as nat))
    }
}

/// Computes the id that follows the counter value `current`.
pub fn next_request_id(current: i32) -> (next: i32)
    ensures
        next == following(current),
        next != 0,
        0 <= current ==> 1 <= next <= MAX_REQUEST_ID,
{
    if current >= MAX_REQUEST_ID || current == -1 {
        1
    } else {
        current + 1
    }
}

/// `AtomicI32::fetch_update`: moves the counter on to the id that follows
/// its value, in one step that no other thread can come between, and hands
/// back the value it had. What that value is depends on the other threads.
#[verifier::external_body]
fn advance(counter: &AtomicI32) -> (previous: i32) {
    match counter.fetch_update(Ordering::SeqCst, Ordering::SeqCst, |c| Some(next_request_id(c))) {
        Ok(previous) => previous,
        Err(previous) => previous,
    }
}

/// The id for the counter value that was found.
pub fn id_after(previous: i32) -> (id: i32)
    ensures
        id == following(previous),
        id != 0,
{
    next_request_id(previous)
}

/// Hands out the next request id of the counter. The id is never 0.
pub fn gen_request_id(counter: &AtomicI32) -> (id: i32)
    ensures
        id != 0,
        exists|previous: i32| id == following(previous),
{
    let previous = advance(counter);
    id_after(previous)
}

/// Ids run through 1 to the greatest id in a circle: the `k`-th id from
/// `start` is `(start - 1 + k) mod 2147483646 + 1`.
pub proof fn lemma_nth_id(start: i32, k: nat)
    requires
        0 <= start <= MAX_REQUEST_ID,
        k >= 1,
    ensures
        nth_id(start, k) == (start - 1 + k) % (MAX_REQUEST_ID as int) + 1,
        1 <= nth_id(start, k) <= MAX_REQUEST_ID,
    decreases k,
{
    let p = MAX_REQUEST_ID as int;
    let x = start - 1 + k;
    lemma_fundamental_div_mod(x, p);
    if k == 1 {
        assert(nth_id(start, 0) == start);
        if start == MAX_REQUEST_ID {
            lemma_fundamental_div_mod_converse(x, p, 1, 0);
        } else {
            lemma_small_mod(x as nat, p as nat);
        }
    } else {
        lemma_nth_id(start, (k - 1) as nat);
        let y = x - 1;
        lemma_fundamental_div_mod(y, p);
        let r = y % p;
        let q = y / p;
        assert(0 <= r < p) by {
            vstd::arithmetic::div_mod::lemma_mod_bound(y, p);
        }
        if r == p - 1 {
            assert(x == p * (q + 1) + 0) by (nonlinear_arith)
                requires
                    y == p * q + r,
                    r == p - 1,
                    x == y + 1,
            ;
            lemma_fundamental_div_mod_converse(x, p, q + 1, 0);
        } else {
            lemma_fundamental_div_mod_converse(x, p, q, r + 1);
        }
    }
}

/// Request-id uniqueness and non-zero: the ids that a counter hands out one
/// after the other are never 0, and two of them that are fewer than
/// 2147483646 allocations apart differ.
pub proof fn law_ids_distinct(start: i32, j: nat, k: nat)
    requires
        0 <= start <= MAX_REQUEST_ID,
        1 <= j < k,
        k - j < MAX_REQUEST_ID,
    ensures
        nth_id(start, j) != 0,
        nth_id(start, k) != 0,
        nth_id(start, j) != nth_id(start, k),
{
    let p = MAX_REQUEST_ID as int;
    lemma_nth_id(start, j);
    lemma_nth_id(start, k);
    let a = start - 1 + j;
    let b = start - 1 + k;
    if a % p == b % p {
        lemma_mod_equivalence(b, a, p);
        lemma_small_mod((b - a) as nat, p as nat);
    }
}

} // verus!
