//! Weighted selection: a list of endpoint indices in which each endpoint
//! stands as often as its weight asks, heavy endpoints spread out rather
//! than in bursts.

use vstd::prelude::*;

use crate::endpoint::Endpoint;

verus! {

/// The least and the greatest ratio of weights that the list keeps.
pub const MIN_STATIC_WEIGHT_LIMIT: i64 = 10;

pub const MAX_STATIC_WEIGHT_LIMIT: i64 = 100;

/// The sum of a sequence of numbers.
pub open spec fn sum(s: Seq<int>) -> int
    decreases s.len(),
{
    if s.len() == 0 {
        0
    } else {
        sum(s.drop_last()) + s.last()
    }
}

/// The greatest common divisor of two natural numbers, by Euclid's rule;
/// `gcd(a, 0)` is `a`.
pub open spec fn spec_gcd(a: int, b: int) -> int
    recommends
        a >= 0,
        b >= 0,
    decreases b,
{
    if b <= 0 {
        a
    } else {
        spec_gcd(b, a % b)
    }
}

/// The greatest common divisor of all numbers of a sequence; 0 for none.
pub open spec fn gcd_all(s: Seq<int>) -> int
    decreases s.len(),
{
    if s.len() == 0 {
        0
    } else {
        spec_gcd(gcd_all(s.drop_last()), s.last())
    }
}

/// A weight, clamped to at least 1.
pub open spec fn clamped(w: u32) -> int {
    if w < 1 {
        1
    } else {
        w as int
    }
}

/// The least clamped weight among the first `n` endpoints.
pub open spec fn least_weight(ws: Seq<u32>, n: int) -> int
    decreases n,
{
    if n <= 1 {
        clamped(ws[0])
    } else if clamped(ws[n - 1]) < least_weight(ws, n - 1) {
        clamped(ws[n - 1])
    } else {
        least_weight(ws, n - 1)
    }
}

/// The greatest clamped weight among the first `n` endpoints.
pub open spec fn greatest_weight(ws: Seq<u32>, n: int) -> int
    decreases n,
{
    if n <= 1 {
        clamped(ws[0])
    } else if clamped(ws[n - 1]) > greatest_weight(ws, n - 1) {
        clamped(ws[n - 1])
    } else {
        greatest_weight(ws, n - 1)
    }
}

/// The ratio of the greatest to the least weight, kept between 10 and 100.
pub open spec fn weight_range(least: int, greatest: int) -> int {
    if greatest / least < 10 {
        10
    } else if greatest / least > 100 {
        100
    } else {
        greatest / least
    }
}

/// A weight on the scale of the range: `weight × range / greatest`, at
/// least 1.
pub open spec fn normalized(w: u32, range: int, greatest: int) -> int {
    if (w as int * range) / greatest < 1 {
        1
    } else {
        (w as int * range) / greatest
    }
}

/// The normalized weights of a list of weights.
pub open spec fn normalized_weights(ws: Seq<u32>) -> Seq<int> {
    Seq::new(
        ws.len(),
        |i: int|
            normalized(
                ws[i],
                weight_range(least_weight(ws, ws.len() as int), greatest_weight(ws, ws.len() as int)),
                greatest_weight(ws, ws.len() as int),
            ),
    )
}

/// The weights divided by their greatest common divisor.
pub open spec fn reduced(ws: Seq<int>) -> Seq<int> {
    Seq::new(ws.len(), |i: int| ws[i] / gcd_all(ws))
}

/// The index of the greatest among the first `n` numbers; of equal ones the
/// last.
pub open spec fn argmax(x: Seq<int>, n: int) -> int
    decreases n,
{
    if n <= 1 {
        0
    } else if x[n - 1] >= x[argmax(x, n - 1)] {
        n - 1
    } else {
        argmax(x, n - 1)
    }
}

/// The current weights after each weight was added to its own.
pub open spec fn raised_by(cur: Seq<int>, ws: Seq<int>) -> Seq<int> {
    Seq::new(cur.len(), |i: int| cur[i] + ws[i])
}

/// The current weights after `k` rounds of smooth weighted round-robin:
/// each round adds every weight to its current weight, selects the index of
/// the greatest current weight and takes the sum of all weights from it.
pub open spec fn current_after(ws: Seq<int>, k: int) -> Seq<int>
    decreases k,
{
    if k <= 0 {
        Seq::new(ws.len(), |i: int| 0int)
    } else {
        let x = raised_by(current_after(ws, k - 1), ws);
        x.update(argmax(x, ws.len() as int), x[argmax(x, ws.len() as int)] - sum(ws))
    }
}

/// The index selected in round `k`, counting from 0.
pub open spec fn selected(ws: Seq<int>, k: int) -> int {
    argmax(raised_by(current_after(ws, k), ws), ws.len() as int)
}

/// The indices selected in the first `n` rounds.
pub open spec fn selection(ws: Seq<int>, n: int) -> Seq<int> {
    Seq::new(n as nat, |k: int| selected(ws, k))
}

/// The weighted list of weights: one round for each unit of the sum of the
/// reduced weights.
pub open spec fn weighted_list(ws: Seq<int>) -> Seq<int> {
    selection(reduced(ws), sum(reduced(ws)))
}

/// How often `v` stands in `s`.
pub open spec fn occurrences(s: Seq<int>, v: int) -> int
    decreases s.len(),
{
    if s.len() == 0 {
        0
    } else {
        occurrences(s.drop_last(), v) + (if s.last() == v {
            1int
        } else {
            0int
        })
    }
}

/// The numbers of a vector as mathematics.
pub open spec fn ints32(v: Seq<i32>) -> Seq<int> {
    Seq::new(v.len(), |i: int| v[i] as int)
}

/// The numbers of a vector as mathematics.
pub open spec fn ints64(v: Seq<i64>) -> Seq<int> {
    Seq::new(v.len(), |i: int| v[i] as int)
}

/// The indices of a vector as mathematics.
pub open spec fn indices(v: Seq<usize>) -> Seq<int> {
    Seq::new(v.len(), |i: int| v[i] as int)
}

/// The weights of a list of endpoints.
pub open spec fn weights_of(eps: Seq<Endpoint>) -> Seq<u32> {
    Seq::new(eps.len(), |i: int| eps[i].weight)
}

/// Whether every endpoint of a list carries a static weight.
pub open spec fn all_static(eps: Seq<Endpoint>) -> bool {
    forall|i: int| 0 <= i < eps.len() ==> (#[trigger] eps[i]).weight_type == 1
}

/// The greatest common divisor of two natural numbers.
pub fn gcd(a: i32, b: i32) -> (r: i32)
    requires
        a >= 0,
        b >= 0,
    ensures
        r == spec_gcd(a as int, b as int),
        r >= 0,
    decreases b,
{
    if b == 0 {
        a
    } else {
        gcd(b, a % b)
    }
}

/// The least and the greatest weight of the endpoints, each weight clamped
/// to at least 1; none for no endpoints.
pub fn find_weight_range(endpoints: &[Endpoint]) -> (r: Option<(i64, i64)>)
    ensures
        match r {
            None => endpoints@.len() == 0,
            Some((least, greatest)) => endpoints@.len() > 0 && least == least_weight(
                weights_of(endpoints@),
                endpoints@.len() as int,
            ) && greatest == greatest_weight(weights_of(endpoints@), endpoints@.len() as int) && 1
                <= least <= greatest <= u32::MAX,
        },
{
    if endpoints.len() == 0 {
        return None;
    }
    let ghost ws = weights_of(endpoints@);
    let first: i64 = if endpoints[0].weight < 1 {
        1
    } else {
        endpoints[0].weight as i64
    };
    let mut min_weight: i64 = first;
    let mut max_weight: i64 = first;
    let mut i: usize = 1;
    while i < endpoints.len()
        invariant
            1 <= i <= endpoints@.len(),
            ws == weights_of(endpoints@),
            min_weight == least_weight(ws, i as int),
            max_weight == greatest_weight(ws, i as int),
            1 <= min_weight <= max_weight <= u32::MAX,
        decreases endpoints@.len() - i,
    {
        let weight: i64 = if endpoints[i].weight < 1 {
            1
        } else {
            endpoints[i].weight as i64
        };
        if weight < min_weight {
            min_weight = weight;
        }
        if weight > max_weight {
            max_weight = weight;
        }
        i = i + 1;
    }
    Some((min_weight, max_weight))
}

/// The sum over the first `i + 1` numbers is that over the first `i`, plus
/// number `i`.
pub proof fn lemma_sum_take(s: Seq<int>, i: int)
    requires
        0 <= i < s.len(),
    ensures
        sum(s.take(i + 1)) == sum(s.take(i)) + s[i],
{
    assert(s.take(i + 1).drop_last() =~= s.take(i));
}

/// Of numbers that are not negative, the sum over a front part is at most
/// the sum over all, and not negative.
pub proof fn lemma_sum_monotone(s: Seq<int>, i: int)
    requires
        0 <= i <= s.len(),
        forall|j: int| 0 <= j < s.len() ==> #[trigger] s[j] >= 0,
    ensures
        0 <= sum(s.take(i)) <= sum(s),
    decreases s.len() - i,
{
    if i == s.len() {
        assert(s.take(i) =~= s);
        lemma_sum_nonnegative(s);
    } else {
        lemma_sum_monotone(s, i + 1);
        lemma_sum_take(s, i);
        lemma_sum_nonnegative(s.take(i));
    }
}

/// A sum of numbers that are not negative is not negative.
pub proof fn lemma_sum_nonnegative(s: Seq<int>)
    requires
        forall|j: int| 0 <= j < s.len() ==> #[trigger] s[j] >= 0,
    ensures
        sum(s) >= 0,
    decreases s.len(),
{
    if s.len() > 0 {
        lemma_sum_nonnegative(s.drop_last());
    }
}

/// Where each number of one sequence is at most its partner in another,
/// so are the sums.
pub proof fn lemma_sum_ordered(a: Seq<int>, b: Seq<int>)
    requires
        a.len() == b.len(),
        forall|j: int| 0 <= j < a.len() ==> #[trigger] a[j] <= b[j],
    ensures
        sum(a) <= sum(b),
    decreases a.len(),
{
    if a.len() > 0 {
        lemma_sum_ordered(a.drop_last(), b.drop_last());
    }
}

/// The greatest common divisor of two natural numbers that are not both
/// zero is at least 1 and divides both.
pub proof fn lemma_gcd_divides(a: int, b: int)
    requires
        a >= 0,
        b >= 0,
    ensures
        spec_gcd(a, b) >= 0,
        a + b >= 1 ==> spec_gcd(a, b) >= 1,
        a + b >= 1 ==> a % spec_gcd(a, b) == 0 && b % spec_gcd(a, b) == 0,
    decreases b,
{
    if b > 0 {
        let r = a % b;
        lemma_gcd_divides(b, r);
        let d = spec_gcd(b, r);
        assert(d >= 1);
        // a = (a / b) * b + r, and d divides b and r
        vstd::arithmetic::div_mod::lemma_fundamental_div_mod(a, b);
        vstd::arithmetic::div_mod::lemma_fundamental_div_mod(b, d);
        vstd::arithmetic::div_mod::lemma_fundamental_div_mod(r, d);
        let q = a / b;
        let bd = b / d;
        let rd = r / d;
        assert(b == d * bd);
        assert(r == d * rd);
        assert(a == d * (q * bd + rd)) by (nonlinear_arith)
            requires
                a == b * q + r,
                b == d * bd,
                r == d * rd,
        ;
        vstd::arithmetic::div_mod::lemma_mod_multiples_basic(q * bd + rd, d);
        assert(a % d == 0) by (nonlinear_arith)
            requires
                a == d * (q * bd + rd),
                ((q * bd + rd) * d) % d == 0,
        ;
    } else {
        if a >= 1 {
            vstd::arithmetic::div_mod::lemma_mod_self_0(a);
            assert(0int % a == 0) by {
                vstd::arithmetic::div_mod::lemma_small_mod(0, a as nat);
            }
        }
    }
}

/// The greatest common divisor of weights of at least 1 is at least 1 and
/// divides each of them.
pub proof fn lemma_gcd_all_divides(ws: Seq<int>)
    requires
        ws.len() > 0,
        forall|j: int| 0 <= j < ws.len() ==> #[trigger] ws[j] >= 1,
    ensures
        gcd_all(ws) >= 1,
        forall|j: int| 0 <= j < ws.len() ==> (#[trigger] ws[j]) % gcd_all(ws) == 0,
    decreases ws.len(),
{
    let front = ws.drop_last();
    let last = ws.last();
    if front.len() == 0 {
        assert(gcd_all(front) == 0);
        lemma_gcd_divides(0, last);
    } else {
        lemma_gcd_all_divides(front);
        let gf = gcd_all(front);
        lemma_gcd_divides(gf, last);
        let g = spec_gcd(gf, last);
        assert forall|j: int| 0 <= j < ws.len() implies (#[trigger] ws[j]) % g == 0 by {
            if j < front.len() {
                assert(front[j] % gf == 0);
                lemma_divides_transitive(front[j], gf, g);
            }
        }
    }
}

/// Where `g` divides `m` and `m` divides `a`, `g` divides `a`.
pub proof fn lemma_divides_transitive(a: int, m: int, g: int)
    requires
        a >= 0,
        m >= 1,
        g >= 1,
        a % m == 0,
        m % g == 0,
    ensures
        a % g == 0,
{
    vstd::arithmetic::div_mod::lemma_fundamental_div_mod(a, m);
    vstd::arithmetic::div_mod::lemma_fundamental_div_mod(m, g);
    let x = a / m;
    let y = m / g;
    assert(a == g * (y * x)) by (nonlinear_arith)
        requires
            a == m * x,
            m == g * y,
    ;
    vstd::arithmetic::div_mod::lemma_mod_multiples_basic(y * x, g);
    assert(a % g == 0) by (nonlinear_arith)
        requires
            a == g * (y * x),
            ((y * x) * g) % g == 0,
    ;
}

/// The greatest of the first `n` numbers stands at `argmax`.
pub proof fn lemma_argmax(x: Seq<int>, n: int)
    requires
        1 <= n <= x.len(),
    ensures
        0 <= argmax(x, n) < n,
        forall|j: int| 0 <= j < n ==> #[trigger] x[j] <= x[argmax(x, n)],
    decreases n,
{
    if n > 1 {
        lemma_argmax(x, n - 1);
    }
}

/// A weight on the scale of the range lies between 1 and the range.
pub proof fn lemma_normalized_bounds(w: u32, range: int, greatest: int)
    requires
        w <= greatest,
        1 <= greatest,
        10 <= range <= 100,
    ensures
        1 <= normalized(w, range, greatest) <= range,
{
    let wr = w as int * range;
    assert(0 <= wr <= greatest * range) by (nonlinear_arith)
        requires
            0 <= w <= greatest,
            0 <= range,
            wr == w as int * range,
    ;
    vstd::arithmetic::div_mod::lemma_div_is_ordered(wr, greatest * range, greatest);
    assert((greatest * range) / greatest == range) by {
        vstd::arithmetic::div_mod::lemma_div_multiples_vanish(range, greatest);
        assert(greatest * range == range * greatest) by (nonlinear_arith);
    }
}

/// The least and the greatest weight bound every clamped weight.
pub proof fn lemma_weight_bounds(ws: Seq<u32>, n: int, j: int)
    requires
        1 <= n <= ws.len(),
        0 <= j < n,
    ensures
        1 <= least_weight(ws, n) <= clamped(ws[j]) <= greatest_weight(ws, n),
    decreases n,
{
    if n > 1 {
        if j < n - 1 {
            lemma_weight_bounds(ws, n - 1, j);
        } else {
            lemma_weight_bounds(ws, n - 1, 0);
        }
    }
}

/// Builds the selection list of weights: the weights are divided by their
/// greatest common divisor, then smooth weighted round-robin runs for as
/// many rounds as the reduced weights sum to.
pub fn build_weighted_list(weights: &[i32]) -> (r: Option<Vec<usize>>)
    requires
        forall|i: int| 0 <= i < weights@.len() ==> #[trigger] weights@[i] >= 1,
        sum(ints32(weights@)) <= i32::MAX,
    ensures
        weights@.len() == 0 <==> r is None,
        r is Some ==> indices(r->0@) == weighted_list(ints32(weights@)),
{
    let n: usize = weights.len();
    if n == 0 {
        return None;
    }
    let ghost ws = ints32(weights@);
    // the greatest common divisor of all weights
    let mut g: i32 = 0;
    let mut i: usize = 0;
    assert(ws.take(0) =~= Seq::<int>::empty());
    while i < n
        invariant
            n == weights@.len(),
            ws == ints32(weights@),
            0 <= i <= n,
            g >= 0,
            g == gcd_all(ws.take(i as int)),
            forall|j: int| 0 <= j < weights@.len() ==> #[trigger] weights@[j] >= 1,
        decreases n - i,
    {
        proof {
            assert(ws.take(i as int + 1).drop_last() =~= ws.take(i as int));
            assert(ws.take(i as int + 1).last() == weights@[i as int]);
        }
        g = gcd(g, weights[i]);
        i = i + 1;
    }
    proof {
        assert(ws.take(n as int) =~= ws);
        lemma_gcd_all_divides(ws);
    }
    // the reduced weights and their sum
    let ghost rw = reduced(ws);
    let mut reduced_weights: Vec<i32> = Vec::new();
    let mut total: i32 = 0;
    i = 0;
    proof {
        assert forall|j: int| 0 <= j < rw.len() implies 0 <= #[trigger] rw[j] <= ws[j] by {
            assert(weights@[j] >= 1);
            vstd::arithmetic::div_mod::lemma_div_pos_is_pos(ws[j], g as int);
            vstd::arithmetic::div_mod::lemma_div_is_ordered_by_denominator(ws[j], 1, g as int);
            vstd::arithmetic::div_mod::lemma_div_basics(ws[j]);
        }
        lemma_sum_ordered(rw, ws);
        assert(rw.take(0) =~= Seq::<int>::empty());
    }
    while i < n
        invariant
            n == weights@.len(),
            ws == ints32(weights@),
            rw == reduced(ws),
            g >= 1,
            g == gcd_all(ws),
            0 <= i <= n,
            reduced_weights@.len() == i,
            forall|j: int| 0 <= j < i ==> (#[trigger] reduced_weights@[j]) as int == rw[j],
            forall|j: int| 0 <= j < rw.len() ==> 0 <= #[trigger] rw[j] <= ws[j],
            total == sum(rw.take(i as int)),
            sum(rw) <= sum(ws) <= i32::MAX,
            forall|j: int| 0 <= j < weights@.len() ==> #[trigger] weights@[j] >= 1,
        decreases n - i,
    {
        proof {
            lemma_sum_take(rw, i as int);
            lemma_sum_monotone(rw, i as int + 1);
            assert(rw[i as int] == ws[i as int] / (g as int));
            assert(weights@[i as int] >= 1);
        }
        let w: i32 = weights[i] / g;
        reduced_weights.push(w);
        total = total + w;
        i = i + 1;
    }
    proof {
        assert(rw.take(n as int) =~= rw);
        assert(ints32(reduced_weights@) =~= rw);
    }
    // smooth weighted round-robin
    let mut list: Vec<usize> = Vec::new();
    let mut current: Vec<i64> = Vec::new();
    i = 0;
    while i < n
        invariant
            0 <= i <= n,
            current@.len() == i,
            forall|j: int| 0 <= j < i ==> #[trigger] current@[j] == 0,
        decreases n - i,
    {
        current.push(0);
        i = i + 1;
    }
    proof {
        lemma_sum_nonnegative(rw);
    }
    assert(ints64(current@) =~= current_after(rw, 0));
    assert(indices(list@) =~= selection(rw, 0));
    let mut round: i32 = 0;
    while round < total
        invariant
            n == weights@.len(),
            n >= 1,
            rw == ints32(reduced_weights@),
            rw.len() == n,
            total == sum(rw),
            0 <= round <= total,
            current@.len() == n,
            ints64(current@) == current_after(rw, round as int),
            indices(list@) == selection(rw, round as int),
            forall|j: int| 0 <= j < n ==> 0 <= #[trigger] rw[j] <= i32::MAX,
            forall|j: int|
                0 <= j < n ==> -(round as int) * 2147483648 <= #[trigger] current@[j] <= (
                round as int) * 2147483648,
        decreases total - round,
    {
        let ghost before = ints64(current@);
        // add each weight to its current weight
        let mut j: usize = 0;
        while j < n
            invariant
                0 <= j <= n,
                n == rw.len(),
                rw == ints32(reduced_weights@),
                current@.len() == n,
                before.len() == n,
                0 <= round < total,
                forall|t: int| 0 <= t < n ==> 0 <= #[trigger] rw[t] <= i32::MAX,
                forall|t: int| 0 <= t < j ==> (#[trigger] current@[t]) as int == before[t] + rw[t],
                forall|t: int| j <= t < n ==> (#[trigger] current@[t]) as int == before[t],
                forall|t: int|
                    0 <= t < n ==> -(round as int) * 2147483648 <= #[trigger] before[t] <= (
                    round as int) * 2147483648,
            decreases n - j,
        {
            assert(rw[j as int] == reduced_weights@[j as int]);
            assert(before[j as int] == current@[j as int]);
            let raised: i64 = current[j] + reduced_weights[j] as i64;
            current.set(j, raised);
            j = j + 1;
        }
        let ghost x = raised_by(before, rw);
        assert(ints64(current@) =~= x);
        // select the greatest, of equal ones the last
        let mut max_idx: usize = 0;
        j = 1;
        while j < n
            invariant
                1 <= j <= n,
                current@.len() == n,
                x == ints64(current@),
                0 <= max_idx < j,
                max_idx == argmax(x, j as int),
            decreases n - j,
        {
            assert(x[j as int] == current@[j as int]);
            assert(x[max_idx as int] == current@[max_idx as int]);
            if current[j] >= current[max_idx] {
                max_idx = j;
            }
            j = j + 1;
        }
        list.push(max_idx);
        assert(x[max_idx as int] == current@[max_idx as int]);
        let lowered: i64 = current[max_idx] - total as i64;
        current.set(max_idx, lowered);
        proof {
            assert(ints64(current@) =~= current_after(rw, round as int + 1));
            assert(indices(list@) =~= selection(rw, round as int).push(max_idx as int));
            assert(selection(rw, round as int + 1) =~= selection(rw, round as int).push(
                selected(rw, round as int),
            ));
        }
        round = round + 1;
    }
    Some(list)
}

/// Builds the selection list for endpoints with static weights. The list
/// holds endpoint indices, each as often as its weight asks, for simple
/// cycling. None if there are no endpoints or one of them carries no static
/// weight.
pub fn build_static_weight_list(endpoints: &[Endpoint]) -> (r: Option<Vec<usize>>)
    requires
        endpoints@.len() * 100 <= i32::MAX,
    ensures
        r is Some <==> endpoints@.len() > 0 && all_static(endpoints@),
        r is Some ==> indices(r->0@) == weighted_list(
            normalized_weights(weights_of(endpoints@)),
        ),
{
    let n: usize = endpoints.len();
    if n == 0 {
        return None;
    }
    let mut i: usize = 0;
    while i < n
        invariant
            n == endpoints@.len(),
            0 <= i <= n,
            forall|j: int| 0 <= j < i ==> (#[trigger] endpoints@[j]).weight_type == 1,
        decreases n - i,
    {
        if !endpoints[i].is_static_weight() {
            return None;
        }
        i = i + 1;
    }
    let (min_weight, max_weight) = match find_weight_range(endpoints) {
        Some(range) => range,
        None => {
            return None;
        },
    };
    let mut max_range: i64 = max_weight / min_weight;
    if max_range < MIN_STATIC_WEIGHT_LIMIT {
        max_range = MIN_STATIC_WEIGHT_LIMIT;
    }
    if max_range > MAX_STATIC_WEIGHT_LIMIT {
        max_range = MAX_STATIC_WEIGHT_LIMIT;
    }
    let ghost ws = weights_of(endpoints@);
    let ghost nw = normalized_weights(ws);
    let mut weights: Vec<i32> = Vec::new();
    i = 0;
    while i < n
        invariant
            n == endpoints@.len(),
            ws == weights_of(endpoints@),
            nw == normalized_weights(ws),
            0 <= i <= n,
            min_weight == least_weight(ws, n as int),
            max_weight == greatest_weight(ws, n as int),
            1 <= min_weight <= max_weight <= u32::MAX,
            max_range == weight_range(min_weight as int, max_weight as int),
            10 <= max_range <= 100,
            weights@.len() == i,
            forall|j: int| 0 <= j < i ==> (#[trigger] weights@[j]) as int == nw[j],
            forall|j: int| 0 <= j < i ==> 1 <= #[trigger] weights@[j] <= 100,
        decreases n - i,
    {
        proof {
            lemma_weight_bounds(ws, n as int, i as int);
            lemma_normalized_bounds(ws[i as int], max_range as int, max_weight as int);
            assert(0 <= endpoints@[i as int].weight as int * max_range <= 429496729500) by (nonlinear_arith)
                requires
                    0 <= endpoints@[i as int].weight <= 4294967295,
                    10 <= max_range <= 100,
            ;
        }
        let weight: i64 = endpoints[i].weight as i64;
        let scaled: i64 = (weight * max_range) / max_weight;
        let normalized_weight: i64 = if scaled < 1 {
            1
        } else {
            scaled
        };
        weights.push(normalized_weight as i32);
        i = i + 1;
    }
    proof {
        assert(ints32(weights@) =~= nw);
        let hundreds = Seq::new(n as nat, |j: int| 100int);
        lemma_sum_ordered(nw, hundreds);
        lemma_sum_constant(n as int, 100);
    }
    build_weighted_list(weights.as_slice())
}

/// The sum of `n` times the same number.
pub proof fn lemma_sum_constant(n: int, c: int)
    requires
        n >= 0,
    ensures
        sum(Seq::new(n as nat, |j: int| c)) == n * c,
    decreases n,
{
    let s = Seq::new(n as nat, |j: int| c);
    if n > 0 {
        lemma_sum_constant(n - 1, c);
        assert(s.drop_last() =~= Seq::new((n - 1) as nat, |j: int| c));
        assert(s.last() == c);
        assert(n * c == (n - 1) * c + c) by (nonlinear_arith);
    } else {
        assert(s.len() == 0);
        assert(n * c == 0) by (nonlinear_arith)
            requires
                n == 0,
        ;
    }
}

} // verus!
