//! Powers of two.
use vstd::prelude::*;

verus! {

/// Doubling `p`, at most `fuel` times, until it reaches `n`.
pub open spec fn double_until(n: nat, p: nat, fuel: nat) -> nat
    decreases fuel,
{
    if fuel == 0 || p >= n {
        p
    } else {
        double_until(n, 2 * p, (fuel - 1) as nat)
    }
}

/// The smallest power of two that is at least `n` (1 for 0): doubling from 1
/// until `n` is reached, which takes fewer than `n` steps.
pub open spec fn next_pow2(n: nat) -> nat {
    double_until(n, 1, n)
}

/// The smallest power of two not below `n`, as `usize::next_power_of_two`
/// computes it where it does not overflow.
pub fn next_power_of_two(n: usize) -> (r: usize)
    requires
        n <= usize::MAX / 2 + 1,
    ensures
        r == next_pow2(n as nat),
        r >= n,
        r >= 1,
{
    let mut p: usize = 1;
    let ghost mut steps: nat = 0;
    while p < n
        invariant
            n <= usize::MAX / 2 + 1,
            1 <= p,
            p < n ==> steps < n,
            steps + 1 <= p,
            double_until(n as nat, p as nat, (n - steps) as nat) == next_pow2(n as nat),
            steps <= n,
        decreases n - steps,
    {
        assert(p <= usize::MAX / 2);
        p = p * 2;
        proof {
            steps = steps + 1;
        }
    }
    p
}

/// `next_pow2(n)` is at least `n` and at least 1.
pub proof fn lemma_next_pow2_bounds(n: nat)
    ensures
        next_pow2(n) >= n,
        next_pow2(n) >= 1,
{
    lemma_double_until_bounds(n, 1, n);
}

proof fn lemma_double_until_bounds(n: nat, p: nat, fuel: nat)
    requires
        p >= 1,
        p + fuel >= n,
    ensures
        double_until(n, p, fuel) >= n,
        double_until(n, p, fuel) >= p,
    decreases fuel,
{
    if fuel > 0 && p < n {
        lemma_double_until_bounds(n, 2 * p, (fuel - 1) as nat);
    }
}


/// `x` is 1 doubled some number of times.
pub open spec fn is_power_of_two(x: nat) -> bool
    decreases x,
{
    if x == 1 {
        true
    } else if x < 2 || x % 2 == 1 {
        false
    } else {
        is_power_of_two(x / 2)
    }
}

/// `next_pow2(n)` is a power of two, and the smallest one not below `n`:
/// it is 1 or its half is below `n`.
pub proof fn lemma_next_pow2_smallest(n: nat)
    ensures
        is_power_of_two(next_pow2(n)),
        next_pow2(n) == 1 || next_pow2(n) / 2 < n,
{
    lemma_double_until_smallest(n, 1, n);
}

proof fn lemma_double_until_smallest(n: nat, p: nat, fuel: nat)
    requires
        is_power_of_two(p),
        p == 1 || p / 2 < n,
    ensures
        is_power_of_two(double_until(n, p, fuel)),
        double_until(n, p, fuel) == 1 || double_until(n, p, fuel) / 2 < n,
    decreases fuel,
{
    if fuel > 0 && p < n {
        assert((2 * p) / 2 == p);
        assert((2 * p) % 2 == 0);
        lemma_double_until_smallest(n, 2 * p, (fuel - 1) as nat);
    }
}

} // verus!
