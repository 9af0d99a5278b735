//! What holds of the weighted list: each index stands in it exactly as
//! often as its reduced weight says.

use vstd::prelude::*;

use super::weight::{
    argmax, current_after, gcd_all, lemma_argmax, lemma_gcd_all_divides, lemma_sum_nonnegative,
    normalized_weights, occurrences, raised_by, reduced, selected, selection, sum,
    weighted_list, weights_of,
};
use crate::endpoint::Endpoint;

verus! {

/// The sum of two sequences added number by number is the sum of their
/// sums.
pub proof fn lemma_sum_raised(a: Seq<int>, b: Seq<int>)
    requires
        a.len() == b.len(),
    ensures
        sum(raised_by(a, b)) == sum(a) + sum(b),
    decreases a.len(),
{
    if a.len() > 0 {
        lemma_sum_raised(a.drop_last(), b.drop_last());
        assert(raised_by(a, b).drop_last() =~= raised_by(a.drop_last(), b.drop_last()));
    }
}

/// Changing one number changes the sum by the difference.
pub proof fn lemma_sum_update(s: Seq<int>, i: int, v: int)
    requires
        0 <= i < s.len(),
    ensures
        sum(s.update(i, v)) == sum(s) - s[i] + v,
    decreases s.len(),
{
    if i == s.len() - 1 {
        assert(s.update(i, v).drop_last() =~= s.drop_last());
    } else {
        lemma_sum_update(s.drop_last(), i, v);
        assert(s.update(i, v).drop_last() =~= s.drop_last().update(i, v));
    }
}

/// A sum above zero has a number above zero.
pub proof fn lemma_positive_sum(s: Seq<int>) -> (j: int)
    requires
        sum(s) > 0,
    ensures
        0 <= j < s.len(),
        s[j] > 0,
    decreases s.len(),
{
    if s.last() > 0 {
        s.len() - 1
    } else {
        lemma_positive_sum(s.drop_last())
    }
}

/// Numbers that are not negative and sum to zero are all zero.
pub proof fn lemma_zero_sum(s: Seq<int>, j: int)
    requires
        forall|t: int| 0 <= t < s.len() ==> #[trigger] s[t] >= 0,
        sum(s) == 0,
        0 <= j < s.len(),
    ensures
        s[j] == 0,
    decreases s.len(),
{
    lemma_sum_nonnegative(s.drop_last());
    if j < s.len() - 1 {
        lemma_zero_sum(s.drop_last(), j);
    }
}

/// How often each of the indices below `n` stands in a list.
pub open spec fn tally(list: Seq<int>, n: int) -> Seq<int> {
    Seq::new(n as nat, |i: int| occurrences(list, i))
}

/// In a list of indices below `n`, the occurrences of all indices sum to
/// the length of the list.
pub proof fn lemma_tally_total(list: Seq<int>, n: int)
    requires
        n >= 0,
        forall|t: int| 0 <= t < list.len() ==> 0 <= #[trigger] list[t] < n,
    ensures
        sum(tally(list, n)) == list.len(),
    decreases list.len(),
{
    if list.len() == 0 {
        lemma_sum_zeros(n);
        assert(tally(list, n) =~= Seq::new(n as nat, |i: int| 0int));
    } else {
        let front = list.drop_last();
        let v = list.last();
        lemma_tally_total(front, n);
        assert(tally(list, n) =~= tally(front, n).update(v, occurrences(front, v) + 1));
        lemma_sum_update(tally(front, n), v, occurrences(front, v) + 1);
    }
}

/// Zeros sum to zero.
pub proof fn lemma_sum_zeros(n: int)
    requires
        n >= 0,
    ensures
        sum(Seq::new(n as nat, |i: int| 0int)) == 0,
    decreases n,
{
    if n > 0 {
        lemma_sum_zeros(n - 1);
        assert(Seq::new(n as nat, |i: int| 0int).drop_last() =~= Seq::new(
            (n - 1) as nat,
            |i: int| 0int,
        ));
    }
}

/// After `k` rounds the current weights sum to zero, each lies above the
/// negated sum of the weights, each index selected so far is an index, and
/// each current weight is `k` times its weight less the sum of the weights
/// for each time it was selected.
pub proof fn lemma_rounds(ws: Seq<int>, k: int)
    requires
        ws.len() > 0,
        forall|t: int| 0 <= t < ws.len() ==> #[trigger] ws[t] >= 0,
        sum(ws) > 0,
        0 <= k,
    ensures
        current_after(ws, k).len() == ws.len(),
        sum(current_after(ws, k)) == 0,
        forall|t: int| 0 <= t < ws.len() ==> #[trigger] current_after(ws, k)[t] > -sum(ws),
        forall|t: int| 0 <= t < k ==> 0 <= #[trigger] selection(ws, k)[t] < ws.len(),
        forall|t: int|
            0 <= t < ws.len() ==> #[trigger] current_after(ws, k)[t] == k * ws[t] - sum(ws)
                * occurrences(selection(ws, k), t),
    decreases k,
{
    let n = ws.len() as int;
    let total = sum(ws);
    if k == 0 {
        lemma_sum_zeros(n);
        assert(selection(ws, 0) =~= Seq::<int>::empty());
        assert forall|t: int| 0 <= t < ws.len() implies #[trigger] current_after(ws, 0)[t] == 0
            * ws[t] - sum(ws) * occurrences(selection(ws, 0), t) by {
            assert(occurrences(selection(ws, 0), t) == 0);
            assert(0 * ws[t] - total * 0 == 0) by (nonlinear_arith);
        }
    } else {
        lemma_rounds(ws, k - 1);
        let cur = current_after(ws, k - 1);
        let x = raised_by(cur, ws);
        let m = argmax(x, n);
        lemma_sum_raised(cur, ws);
        lemma_argmax(x, n);
        let positive = lemma_positive_sum(x);
        assert(x[m] > 0);
        let next = current_after(ws, k);
        assert(next == x.update(m, x[m] - total));
        lemma_sum_update(x, m, x[m] - total);
        assert(selected(ws, k - 1) == m);
        assert(selection(ws, k) =~= selection(ws, k - 1).push(m));
        assert(selection(ws, k).drop_last() =~= selection(ws, k - 1));
        assert forall|t: int| 0 <= t < k implies 0 <= #[trigger] selection(ws, k)[t]
            < ws.len() by {
            if t < k - 1 {
                assert(selection(ws, k)[t] == selection(ws, k - 1)[t]);
            }
        }
        assert forall|t: int| 0 <= t < ws.len() implies #[trigger] next[t] == k * ws[t] - total
            * occurrences(selection(ws, k), t) by {
            let before = occurrences(selection(ws, k - 1), t);
            assert(cur[t] == (k - 1) * ws[t] - total * before);
            if t == m {
                assert(occurrences(selection(ws, k), t) == before + 1);
                assert(next[t] == cur[t] + ws[t] - total);
                assert((k - 1) * ws[t] - total * before + ws[t] - total == k * ws[t] - total * (
                before + 1)) by (nonlinear_arith);
            } else {
                assert(occurrences(selection(ws, k), t) == before);
                assert(next[t] == cur[t] + ws[t]);
                assert((k - 1) * ws[t] - total * before + ws[t] == k * ws[t] - total * before)
                    by (nonlinear_arith);
            }
        }
    }
}

/// Smooth weighted round-robin over as many rounds as the weights sum to
/// selects each index exactly as often as its weight says.
pub proof fn law_selection_counts(ws: Seq<int>, i: int)
    requires
        ws.len() > 0,
        forall|t: int| 0 <= t < ws.len() ==> #[trigger] ws[t] >= 0,
        sum(ws) > 0,
        0 <= i < ws.len(),
    ensures
        occurrences(selection(ws, sum(ws)), i) == ws[i],
{
    let n = ws.len() as int;
    let total = sum(ws);
    let list = selection(ws, total);
    lemma_rounds(ws, total);
    lemma_tally_total(list, n);
    let counts = tally(list, n);
    let spare = Seq::new(n as nat, |t: int| ws[t] - counts[t]);
    assert forall|t: int| 0 <= t < n implies #[trigger] spare[t] >= 0 by {
        let c = occurrences(list, t);
        assert(current_after(ws, total)[t] == total * ws[t] - total * c);
        assert(current_after(ws, total)[t] > -total);
        assert(ws[t] - c >= 0) by (nonlinear_arith)
            requires
                total * ws[t] - total * c > -total,
                total > 0,
        ;
    }
    assert(raised_by(spare, counts) =~= ws);
    lemma_sum_raised(spare, counts);
    lemma_zero_sum(spare, i);
}

/// Weighted list proportionality: in the weighted list of weights of at
/// least 1, each index stands as often as its weight divided by the greatest
/// common divisor of all weights; so the counts of two indices are in the
/// proportion of their weights.
pub proof fn law_weighted_counts(ws: Seq<int>, i: int, j: int)
    requires
        ws.len() > 0,
        forall|t: int| 0 <= t < ws.len() ==> #[trigger] ws[t] >= 1,
        0 <= i < ws.len(),
        0 <= j < ws.len(),
    ensures
        occurrences(weighted_list(ws), i) * gcd_all(ws) == ws[i],
        occurrences(weighted_list(ws), i) >= 1,
        occurrences(weighted_list(ws), i) * ws[j] == occurrences(weighted_list(ws), j) * ws[i],
{
    let g = gcd_all(ws);
    let rw = reduced(ws);
    lemma_gcd_all_divides(ws);
    assert forall|t: int| 0 <= t < rw.len() implies #[trigger] rw[t] >= 1 && rw[t] * g
        == ws[t] by {
        assert(ws[t] >= 1);
        assert(ws[t] % g == 0);
        vstd::arithmetic::div_mod::lemma_fundamental_div_mod(ws[t], g);
        assert(ws[t] == g * (ws[t] / g));
        assert(rw[t] * g == ws[t]) by (nonlinear_arith)
            requires
                ws[t] == g * (ws[t] / g),
                rw[t] == ws[t] / g,
        ;
        assert(rw[t] >= 1) by (nonlinear_arith)
            requires
                rw[t] * g == ws[t],
                ws[t] >= 1,
                g >= 1,
        ;
    }
    assert forall|t: int| 0 <= t < rw.len() implies #[trigger] rw[t] >= 0 by {
        assert(rw[t] >= 1);
    }
    lemma_sum_nonnegative(rw.drop_last());
    assert(rw.last() >= 1);
    assert(sum(rw) > 0);
    law_selection_counts(rw, i);
    law_selection_counts(rw, j);
    let ci = occurrences(weighted_list(ws), i);
    let cj = occurrences(weighted_list(ws), j);
    assert(ci == rw[i] && cj == rw[j]);
    assert(ci * ws[j] == cj * ws[i]) by (nonlinear_arith)
        requires
            ci * g == ws[i],
            cj * g == ws[j],
    ;
}

/// Weighted list proportionality for endpoints with static weights,
/// however many there are: in the selection list of their normalized
/// weights each endpoint stands at least once, as often as its normalized
/// weight divided by the greatest common divisor of all of them; so the
/// counts of two endpoints are in the proportion of their normalized
/// weights.
pub proof fn law_static_list_counts(eps: Seq<Endpoint>, i: int, j: int)
    requires
        eps.len() > 0,
        0 <= i < eps.len(),
        0 <= j < eps.len(),
    ensures
        occurrences(weighted_list(normalized_weights(weights_of(eps))), i) >= 1,
        occurrences(weighted_list(normalized_weights(weights_of(eps))), i) * gcd_all(
            normalized_weights(weights_of(eps)),
        ) == normalized_weights(weights_of(eps))[i],
        occurrences(weighted_list(normalized_weights(weights_of(eps))), i) * normalized_weights(
            weights_of(eps),
        )[j] == occurrences(weighted_list(normalized_weights(weights_of(eps))), j)
            * normalized_weights(weights_of(eps))[i],
{
    let nw = normalized_weights(weights_of(eps));
    assert forall|t: int| 0 <= t < nw.len() implies #[trigger] nw[t] >= 1 by {}
    law_weighted_counts(nw, i, j);
}

} // verus!
