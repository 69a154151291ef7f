//! Rounding up to a power of two.

use vstd::arithmetic::power2::pow2;
use vstd::prelude::*;

verus! {

/// By how much `n` exceeds `p`.
pub open spec fn gap(n: int, p: int) -> int {
    if p < n {
        n - p
    } else {
        0
    }
}

/// The first of `p`, `2 * p`, `4 * p` and so on that is at least `n`.
pub open spec fn pow2_from(n: int, p: int) -> int
    decreases gap(n, p),
{
    if p < 1 || p >= n {
        p
    } else {
        pow2_from(n, 2 * p)
    }
}

/// The smallest power of two that is at least `n`.
pub open spec fn next_pow2(n: int) -> int {
    pow2_from(n, 1)
}

proof fn lemma_pow2_from(n: int, k: nat)
    requires
        k > 0 ==> pow2((k - 1) as nat) < n,
    ensures
        exists|j: nat| #[trigger] pow2(j) == pow2_from(n, pow2(k) as int) && j >= k,
        pow2_from(n, pow2(k) as int) >= n,
        forall|j: nat| #[trigger] pow2(j) >= n ==> pow2_from(n, pow2(k) as int) <= pow2(j),
    decreases gap(n, pow2(k) as int),
{
    vstd::arithmetic::power2::lemma_pow2_pos(k);
    if pow2(k) >= n {
        assert forall|j: nat| #[trigger] pow2(j) >= n implies pow2(k) <= pow2(j) by {
            if j < k {
                if j < k - 1 {
                    vstd::arithmetic::power2::lemma_pow2_strictly_increases(j, (k - 1) as nat);
                }
            } else if j > k {
                vstd::arithmetic::power2::lemma_pow2_strictly_increases(k, j);
            }
        }
    } else {
        vstd::arithmetic::power2::lemma_pow2_unfold(k + 1);
        lemma_pow2_from(n, k + 1);
    }
}

/// The rounded number is a power of two, is not below the number, and no smaller power of two is
/// at least the number.
pub proof fn law_next_pow2(n: int)
    ensures
        exists|j: nat| #[trigger] pow2(j) == next_pow2(n),
        next_pow2(n) >= n,
        next_pow2(n) >= 1,
        forall|j: nat| #[trigger] pow2(j) >= n ==> next_pow2(n) <= pow2(j),
{
    vstd::arithmetic::power2::lemma2_to64();
    lemma_pow2_from(n, 0);
    let j = choose|j: nat| #[trigger] pow2(j) == next_pow2(n);
    vstd::arithmetic::power2::lemma_pow2_pos(j);
}

/// The rounded number is less than twice the number.
pub proof fn lemma_next_pow2_bound(n: int, p: int)
    requires
        1 <= p < 2 * n,
    ensures
        pow2_from(n, p) < 2 * n,
        pow2_from(n, p) >= n,
    decreases gap(n, p),
{
    if p < n {
        lemma_next_pow2_bound(n, 2 * p);
    }
}

/// The smallest power of two that is at least `n`.
pub fn next_power_of_two(n: usize) -> (r: usize)
    requires
        next_pow2(n as int) <= usize::MAX,
    ensures
        r == next_pow2(n as int),
{
    let mut p: usize = 1;
    while p < n
        invariant
            p >= 1,
            next_pow2(n as int) == pow2_from(n as int, p as int),
            next_pow2(n as int) <= usize::MAX,
        decreases gap(n as int, p as int),
    {
        proof {
            lemma_pow2_from_grows(n as int, 2 * p);
        }
        p = 2 * p;
    }
    p
}

proof fn lemma_pow2_from_grows(n: int, p: int)
    requires
        p >= 1,
    ensures
        pow2_from(n, p) >= p,
    decreases gap(n, p),
{
    if p < n {
        lemma_pow2_from_grows(n, 2 * p);
    }
}

} // verus!
