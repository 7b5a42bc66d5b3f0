//! Smooth weighted round robin.
//!
//! Every candidate has a running weight. In each round all running weights grow by the candidate's
//! own weight, the candidate with the largest one is chosen, and its running weight falls by the
//! sum of all weights.
//!
//! Running weights are machine integers that wrap around. As long as they are far from their
//! limits, a round does what it does in exact arithmetic.

use vstd::prelude::*;

verus! {

/// The sum of all numbers.
pub open spec fn sum(s: Seq<int>) -> int
    decreases s.len(),
{
    if s.len() == 0 {
        0
    } else {
        sum(s.drop_last()) + s.last()
    }
}

/// As many zeros.
pub open spec fn zeros(n: nat) -> Seq<int> {
    Seq::new(n, |i: int| 0int)
}

/// Where the largest number is; of several, the last one.
pub open spec fn last_max(s: Seq<int>) -> int
    decreases s.len(),
{
    if s.len() <= 1 {
        0
    } else {
        let before = last_max(s.drop_last());
        if s.last() >= s[before] {
            s.len() - 1
        } else {
            before
        }
    }
}

/// The running weights after all of them grew.
pub open spec fn raised(running: Seq<int>, weights: Seq<int>) -> Seq<int> {
    Seq::new(running.len(), |i: int| running[i] + weights[i])
}

/// The candidate that a round chooses.
pub open spec fn chosen(running: Seq<int>, weights: Seq<int>) -> int {
    last_max(raised(running, weights))
}

/// The running weights after a round.
pub open spec fn after_round(running: Seq<int>, weights: Seq<int>) -> Seq<int> {
    let up = raised(running, weights);
    let m = last_max(up);
    up.update(m, up[m] - sum(weights))
}

/// The integer of 64 bits that a sum or difference of two of them becomes.
pub open spec fn wrapped(x: int) -> int {
    if x > i64::MAX {
        x - 0x1_0000_0000_0000_0000
    } else if x < i64::MIN {
        x + 0x1_0000_0000_0000_0000
    } else {
        x
    }
}

/// The sum of all numbers, in machine arithmetic.
pub open spec fn machine_sum(s: Seq<int>) -> int
    decreases s.len(),
{
    if s.len() == 0 {
        0
    } else {
        wrapped(machine_sum(s.drop_last()) + s.last())
    }
}

/// The running weights after all of them grew, in machine arithmetic.
pub open spec fn machine_raised(running: Seq<int>, weights: Seq<int>) -> Seq<int> {
    Seq::new(running.len(), |i: int| wrapped(running[i] + weights[i]))
}

/// The candidate that a round chooses, in machine arithmetic.
pub open spec fn machine_chosen(running: Seq<int>, weights: Seq<int>) -> int {
    last_max(machine_raised(running, weights))
}

/// The running weights after a round, in machine arithmetic.
pub open spec fn machine_round(running: Seq<int>, weights: Seq<int>) -> Seq<int> {
    let up = machine_raised(running, weights);
    let m = last_max(up);
    up.update(m, wrapped(up[m] - machine_sum(weights)))
}

pub(crate) proof fn lemma_last_max(s: Seq<int>)
    requires
        s.len() > 0,
    ensures
        0 <= last_max(s) < s.len(),
        forall|i: int| 0 <= i < s.len() ==> #[trigger] s[i] <= s[last_max(s)],
        forall|i: int| last_max(s) < i < s.len() ==> #[trigger] s[i] < s[last_max(s)],
    decreases s.len(),
{
    if s.len() > 1 {
        let short = s.drop_last();
        lemma_last_max(short);
        let before = last_max(short);
        assert(short[before] == s[before]);
        assert forall|i: int| 0 <= i < s.len() implies #[trigger] s[i] <= s[last_max(s)] by {
            if i < s.len() - 1 {
                assert(short[i] == s[i]);
            }
        }
        assert forall|i: int| last_max(s) < i < s.len() implies #[trigger] s[i] < s[last_max(
            s,
        )] by {
            if i < s.len() - 1 {
                assert(short[i] == s[i]);
            }
        }
    }
}

proof fn lemma_sum_update(s: Seq<int>, i: int, v: int)
    requires
        0 <= i < s.len(),
    ensures
        sum(s.update(i, v)) == sum(s) - s[i] + v,
    decreases s.len(),
{
    if i == s.len() - 1 {
        assert(s.update(i, v).drop_last() == s.drop_last());
    } else {
        assert(s.update(i, v).drop_last() == s.drop_last().update(i, v));
        lemma_sum_update(s.drop_last(), i, v);
    }
}

proof fn lemma_sum_raised(a: Seq<int>, b: Seq<int>)
    requires
        a.len() == b.len(),
    ensures
        sum(raised(a, b)) == sum(a) + sum(b),
    decreases a.len(),
{
    if a.len() > 0 {
        assert(raised(a, b).drop_last() == raised(a.drop_last(), b.drop_last()));
        lemma_sum_raised(a.drop_last(), b.drop_last());
    }
}

proof fn lemma_sum_nonpositive(s: Seq<int>)
    requires
        forall|i: int| 0 <= i < s.len() ==> #[trigger] s[i] <= 0,
    ensures
        sum(s) <= 0,
    decreases s.len(),
{
    if s.len() > 0 {
        assert forall|i: int| 0 <= i < s.drop_last().len() implies #[trigger] s.drop_last()[i]
            <= 0 by {
            assert(s.drop_last()[i] == s[i]);
        }
        lemma_sum_nonpositive(s.drop_last());
        assert(s[s.len() - 1] <= 0);
    }
}

proof fn lemma_sum_zeros(n: nat)
    ensures
        sum(zeros(n)) == 0,
    decreases n,
{
    if n > 0 {
        assert(zeros(n).drop_last() == zeros((n - 1) as nat));
        lemma_sum_zeros((n - 1) as nat);
    }
}

proof fn lemma_equal_sums(a: Seq<int>, b: Seq<int>)
    requires
        a.len() == b.len(),
        forall|i: int| 0 <= i < a.len() ==> #[trigger] a[i] <= b[i],
        sum(a) >= sum(b),
    ensures
        a == b,
        sum(a) == sum(b),
    decreases a.len(),
{
    if a.len() > 0 {
        let x = a.drop_last();
        let y = b.drop_last();
        assert forall|i: int| 0 <= i < x.len() implies #[trigger] x[i] <= y[i] by {
            assert(x[i] == a[i]);
        }
        assert(a[a.len() - 1] <= b[b.len() - 1]);
        lemma_sum_monotone(x, y);
        lemma_equal_sums(x, y);
        assert forall|i: int| 0 <= i < a.len() implies #[trigger] a[i] == b[i] by {
            if i < a.len() - 1 {
                assert(x[i] == a[i] && y[i] == b[i]);
            }
        }
        assert(a == b);
    }
}

proof fn lemma_sum_monotone(a: Seq<int>, b: Seq<int>)
    requires
        a.len() == b.len(),
        forall|i: int| 0 <= i < a.len() ==> #[trigger] a[i] <= b[i],
    ensures
        sum(a) <= sum(b),
    decreases a.len(),
{
    if a.len() > 0 {
        let x = a.drop_last();
        let y = b.drop_last();
        assert forall|i: int| 0 <= i < x.len() implies #[trigger] x[i] <= y[i] by {
            assert(x[i] == a[i]);
        }
        assert(a[a.len() - 1] <= b[b.len() - 1]);
        lemma_sum_monotone(x, y);
    }
}

proof fn lemma_machine_sum(s: Seq<int>)
    requires
        s.len() <= 0x1_0000_0000,
        forall|i: int| 0 <= i < s.len() ==> 0 <= #[trigger] s[i] <= 255,
    ensures
        machine_sum(s) == sum(s),
        0 <= sum(s) <= s.len() * 255,
    decreases s.len(),
{
    if s.len() > 0 {
        let short = s.drop_last();
        assert forall|i: int| 0 <= i < short.len() implies 0 <= #[trigger] short[i] <= 255 by {
            assert(short[i] == s[i]);
        }
        lemma_machine_sum(short);
        assert(0 <= s[s.len() - 1] <= 255);
    }
}

/// As long as running weights are far from their limits, a round in machine arithmetic is a round
/// in exact arithmetic.
pub proof fn rounds_are_exact(running: Seq<int>, weights: Seq<int>)
    requires
        running.len() == weights.len(),
        0 < running.len() <= 0x1_0000_0000,
        forall|i: int|
            0 <= i < running.len() ==> -0x4000_0000_0000_0000 <= #[trigger] running[i]
                <= 0x4000_0000_0000_0000,
        forall|i: int| 0 <= i < weights.len() ==> 0 <= #[trigger] weights[i] <= 255,
    ensures
        machine_sum(weights) == sum(weights),
        machine_chosen(running, weights) == chosen(running, weights),
        machine_round(running, weights) == after_round(running, weights),
{
    lemma_machine_sum(weights);
    let up = raised(running, weights);
    assert(machine_raised(running, weights) == up) by {
        assert forall|i: int| 0 <= i < up.len() implies #[trigger] machine_raised(
            running,
            weights,
        )[i] == up[i] by {
            assert(0 <= weights[i] <= 255);
            assert(-0x4000_0000_0000_0000 <= running[i] <= 0x4000_0000_0000_0000);
        }
    }
    lemma_last_max(up);
    let m = last_max(up);
    assert(up[m] == running[m] + weights[m]);
    assert(-0x4000_0000_0000_0000 <= running[m] <= 0x4000_0000_0000_0000);
    assert(0 <= weights[m] <= 255);
}

/// A round keeps the sum of the running weights.
pub proof fn rounds_keep_the_sum(running: Seq<int>, weights: Seq<int>)
    requires
        running.len() == weights.len(),
        running.len() > 0,
    ensures
        sum(after_round(running, weights)) == sum(running),
        after_round(running, weights).len() == running.len(),
{
    let up = raised(running, weights);
    lemma_last_max(up);
    lemma_sum_raised(running, weights);
    lemma_sum_update(up, last_max(up), up[last_max(up)] - sum(weights));
}

/// Running weights and how often each candidate was chosen, after so many rounds from the start.
pub open spec fn after_rounds(weights: Seq<int>, rounds: nat) -> (Seq<int>, Seq<int>)
    decreases rounds,
{
    if rounds == 0 {
        (zeros(weights.len()), zeros(weights.len()))
    } else {
        let (running, times) = after_rounds(weights, (rounds - 1) as nat);
        let m = chosen(running, weights);
        (after_round(running, weights), times.update(m, times[m] + 1))
    }
}

pub(crate) proof fn lemma_rounds(weights: Seq<int>, rounds: nat)
    requires
        weights.len() > 0,
        forall|i: int| 0 <= i < weights.len() ==> #[trigger] weights[i] >= 0,
        sum(weights) > 0,
    ensures
        after_rounds(weights, rounds).0.len() == weights.len(),
        after_rounds(weights, rounds).1.len() == weights.len(),
        sum(after_rounds(weights, rounds).0) == 0,
        sum(after_rounds(weights, rounds).1) == rounds,
        forall|i: int|
            0 <= i < weights.len() ==> {
                &&& #[trigger] after_rounds(weights, rounds).0[i] == rounds * weights[i] - sum(
                    weights,
                ) * after_rounds(weights, rounds).1[i]
                &&& after_rounds(weights, rounds).0[i] > -sum(weights)
            },
    decreases rounds,
{
    let total = sum(weights);
    if rounds == 0 {
        lemma_sum_zeros(weights.len());
        let (running, times) = after_rounds(weights, rounds);
        assert forall|i: int| 0 <= i < weights.len() implies {
            &&& #[trigger] running[i] == rounds * weights[i] - total * times[i]
            &&& running[i] > -total
        } by {
            let w = weights[i];
            assert(0 * w - total * 0 == 0) by (nonlinear_arith);
        }
    } else {
        lemma_rounds(weights, (rounds - 1) as nat);
        let (running, times) = after_rounds(weights, (rounds - 1) as nat);
        let (next, counts) = after_rounds(weights, rounds);
        let up = raised(running, weights);
        let m = last_max(up);
        lemma_last_max(up);
        rounds_keep_the_sum(running, weights);
        lemma_sum_update(times, m, times[m] + 1);
        lemma_sum_raised(running, weights);
        if up[m] <= 0 {
            lemma_sum_nonpositive(up);
        }
        assert forall|i: int| 0 <= i < weights.len() implies {
            &&& #[trigger] next[i] == rounds * weights[i] - total * counts[i]
            &&& next[i] > -total
        } by {
            let r = (rounds - 1) as int;
            let n = times[i];
            let w = weights[i];
            assert(running[i] == r * w - total * n);
            assert(rounds as int * w == r * w + w) by (nonlinear_arith)
                requires
                    r == rounds - 1,
            ;
            if i == m {
                assert(counts[i] == n + 1);
                assert(total * (n + 1) == total * n + total) by (nonlinear_arith);
            } else {
                assert(counts[i] == n);
            }
        }
    }
}

proof fn lemma_sum_from_below(s: Seq<int>, low: int, i: int)
    requires
        0 <= i < s.len(),
        low >= 0,
        forall|j: int| 0 <= j < s.len() ==> #[trigger] s[j] >= -low,
    ensures
        s[i] <= sum(s) + (s.len() - 1) * low,
        -(s.len() * low) <= sum(s),
    decreases s.len(),
{
    let short = s.drop_last();
    let n = s.len() as int;
    assert forall|j: int| 0 <= j < short.len() implies #[trigger] short[j] >= -low by {
        assert(short[j] == s[j]);
    }
    assert(s[n - 1] >= -low);
    assert(sum(s) == sum(short) + s[n - 1]);
    assert((short.len() - 1) * low == (n - 2) * low);
    if i < n - 1 {
        lemma_sum_from_below(short, low, i);
        assert(short[i] == s[i]);
    } else if n > 1 {
        lemma_sum_from_below(short, low, 0);
    } else {
        assert((n - 1) * low == 0) by (nonlinear_arith)
            requires
                n == 1,
        ;
    }
    assert((n - 1) * low == (n - 2) * low + low) by (nonlinear_arith);
    assert(n * low == (n - 1) * low + low) by (nonlinear_arith);
    assert(short.len() * low == (n - 1) * low);
}

/// From the start on, no running weight gets further from zero than all weights together, times the
/// number of candidates.
pub proof fn running_weights_stay_near(weights: Seq<int>, rounds: nat, i: int)
    requires
        forall|j: int| 0 <= j < weights.len() ==> #[trigger] weights[j] >= 0,
        sum(weights) > 0,
        0 <= i < weights.len(),
    ensures
        after_rounds(weights, rounds).0.len() == weights.len(),
        -sum(weights) < after_rounds(weights, rounds).0[i] <= weights.len() * sum(weights),
{
    lemma_rounds(weights, rounds);
    let running = after_rounds(weights, rounds).0;
    let total = sum(weights);
    assert forall|j: int| 0 <= j < running.len() implies #[trigger] running[j] >= -total by {}
    lemma_sum_from_below(running, total, i);
    let n = weights.len() as int;
    assert(n * total == (n - 1) * total + total) by (nonlinear_arith);
}

/// Over as many rounds as the weights add up to, every candidate is chosen exactly as often as its
/// weight says, and all running weights are back where they started.
pub proof fn rounds_are_proportional(weights: Seq<int>)
    requires
        weights.len() > 0,
        forall|i: int| 0 <= i < weights.len() ==> #[trigger] weights[i] >= 0,
        sum(weights) > 0,
    ensures
        after_rounds(weights, sum(weights) as nat).1 == weights,
        after_rounds(weights, sum(weights) as nat).0 == zeros(weights.len()),
{
    let total = sum(weights);
    lemma_rounds(weights, total as nat);
    let (running, times) = after_rounds(weights, total as nat);
    assert forall|i: int| 0 <= i < times.len() implies #[trigger] times[i] <= weights[i] by {
        let w = weights[i];
        let n = times[i];
        assert(running[i] == total * w - total * n);
        assert(n <= w) by (nonlinear_arith)
            requires
                total * w - total * n > -total,
                total > 0,
        ;
    }
    lemma_equal_sums(times, weights);
    assert forall|i: int| 0 <= i < running.len() implies #[trigger] running[i] == 0 by {
        assert(running[i] == total * weights[i] - total * times[i]);
    }
}

/// A candidate without weight is never chosen.
pub proof fn no_weight_is_never_chosen(weights: Seq<int>, rounds: nat, i: int)
    requires
        forall|j: int| 0 <= j < weights.len() ==> #[trigger] weights[j] >= 0,
        sum(weights) > 0,
        0 <= i < weights.len(),
        weights[i] == 0,
    ensures
        after_rounds(weights, rounds).0[i] == 0,
        chosen(after_rounds(weights, rounds).0, weights) != i,
    decreases rounds,
{
    lemma_rounds(weights, rounds);
    let running = after_rounds(weights, rounds).0;
    if rounds > 0 {
        no_weight_is_never_chosen(weights, (rounds - 1) as nat, i);
        lemma_rounds(weights, (rounds - 1) as nat);
        let before = after_rounds(weights, (rounds - 1) as nat).0;
        lemma_last_max(raised(before, weights));
    }
    let up = raised(running, weights);
    lemma_last_max(up);
    lemma_sum_raised(running, weights);
    if up[last_max(up)] <= 0 {
        lemma_sum_nonpositive(up);
    }
}

} // verus!
