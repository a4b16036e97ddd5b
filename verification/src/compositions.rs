//! Counting the ordered sums that make up a number.

use vstd::arithmetic::power2::{lemma2_to64, lemma_pow2_unfold, pow2};
use vstd::prelude::*;

verus! {

/// The number of ways to write `n` as a sum of positive integers, where the
/// order of the summands counts. The empty sum is the one way to write 0; a
/// sum for `n > 0` is a first summand `n - k` and then a sum for some
/// `k < n`.
pub open spec fn ways(n: nat) -> nat
    decreases n, 1nat,
{
    if n == 0 {
        1
    } else {
        ways_below(n)
    }
}

/// The ways to write the numbers below `m`, taken together.
pub open spec fn ways_below(m: nat) -> nat
    decreases m, 0nat,
{
    if m == 0 {
        0
    } else {
        ways_below((m - 1) as nat) + ways((m - 1) as nat)
    }
}

/// Taking more numbers together gives no less.
pub proof fn lemma_ways_below_grows(a: nat, b: nat)
    requires
        a <= b,
    ensures
        ways_below(a) <= ways_below(b),
    decreases b,
{
    if a < b {
        lemma_ways_below_grows(a, (b - 1) as nat);
    }
}

/// There are `2^(n-1)` ways to write `n > 0`.
pub proof fn lemma_ways_is_power_of_two(n: nat)
    requires
        n > 0,
    ensures
        ways(n) == pow2((n - 1) as nat),
    decreases n,
{
    if n == 1 {
        assert(ways_below(1) == ways_below(0) + ways(0));
        lemma2_to64();
    } else {
        lemma_ways_is_power_of_two((n - 1) as nat);
        assert(ways_below(n) == ways_below((n - 1) as nat) + ways((n - 1) as nat));
        lemma_pow2_unfold((n - 1) as nat);
    }
}

/// Counts the ways to write `n` as an ordered sum of positive integers.
pub fn count_permutations(n: usize) -> (r: usize)
    requires
        ways(n as nat) <= usize::MAX,
    ensures
        r == ways(n as nat),
{
    let mut dp: Vec<usize> = Vec::new();
    dp.push(1);
    while dp.len() <= n
        invariant
            1 <= dp.len() <= n + 1,
            ways(n as nat) <= usize::MAX,
            forall|k: int| 0 <= k < dp.len() ==> dp@[k] == ways(k as nat),
        decreases n + 1 - dp.len(),
    {
        let i = dp.len();
        let mut total: usize = 0;
        let mut k: usize = 0;
        while k < i
            invariant
                k <= i,
                i == dp.len(),
                1 <= i <= n,
                ways(n as nat) <= usize::MAX,
                total == ways_below(k as nat),
                forall|k: int| 0 <= k < dp.len() ==> dp@[k] == ways(k as nat),
            decreases i - k,
        {
            proof {
                lemma_ways_below_grows((k + 1) as nat, n as nat);
            }
            total = total + dp[k];
            k += 1;
        }
        dp.push(total);
    }
    dp[n]
}

} // verus!
