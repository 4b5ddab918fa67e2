//! Capacity rounding: a bus retains a power-of-two number of envelopes.
use vstd::prelude::*;

verus! {

/// The smallest power of two that is at least `n` (and at least one).
pub open spec fn ceil_power_of_two(n: nat) -> nat
    decreases n,
{
    if n <= 1 {
        1
    } else {
        2 * ceil_power_of_two((n + 1) / 2)
    }
}

/// Whether `n` is a power of two.
pub open spec fn is_power_of_two(n: nat) -> bool
    decreases n,
{
    if n == 0 {
        false
    } else if n == 1 {
        true
    } else {
        n % 2 == 0 && is_power_of_two(n / 2)
    }
}

/// Rounding never shrinks a capacity and less than doubles it.
pub proof fn lemma_ceil_power_of_two_bounds(n: nat)
    ensures
        n <= ceil_power_of_two(n),
        1 <= ceil_power_of_two(n),
        n >= 1 ==> ceil_power_of_two(n) < 2 * n,
    decreases n,
{
    if n > 1 {
        lemma_ceil_power_of_two_bounds((n + 1) / 2);
    }
}

/// The rounded capacity is a power of two.
pub proof fn lemma_ceil_power_of_two_is_power(n: nat)
    ensures
        is_power_of_two(ceil_power_of_two(n)),
    decreases n,
{
    if n > 1 {
        lemma_ceil_power_of_two_is_power((n + 1) / 2);
        let half = ceil_power_of_two((n + 1) / 2);
        lemma_ceil_power_of_two_bounds((n + 1) / 2);
        assert((2 * half) / 2 == half);
        assert((2 * half) % 2 == 0);
    }
}

/// A power of two is its own rounding.
pub proof fn lemma_power_of_two_is_fixed(n: nat)
    requires
        is_power_of_two(n),
    ensures
        ceil_power_of_two(n) == n,
    decreases n,
{
    if n > 1 {
        lemma_power_of_two_is_fixed(n / 2);
        assert((n + 1) / 2 == n / 2);
    }
}

/// Rounding is monotone.
pub proof fn lemma_ceil_power_of_two_monotone(a: nat, b: nat)
    requires
        a <= b,
    ensures
        ceil_power_of_two(a) <= ceil_power_of_two(b),
    decreases b,
{
    if b > 1 {
        if a > 1 {
            lemma_ceil_power_of_two_monotone((a + 1) / 2, (b + 1) / 2);
        } else {
            lemma_ceil_power_of_two_bounds((b + 1) / 2);
        }
    }
}

/// Rounds `requested` up to the next power of two.
pub fn round_capacity(requested: usize) -> (rounded: usize)
    requires
        requested <= usize::MAX / 2,
    ensures
        rounded == ceil_power_of_two(requested as nat),
{
    let mut rounded: usize = 1;
    proof {
        lemma_ceil_power_of_two_bounds(requested as nat);
        lemma_ceil_power_of_two_is_power(requested as nat);
    }
    while rounded < requested
        invariant
            requested <= usize::MAX / 2,
            1 <= rounded,
            is_power_of_two(rounded as nat),
            rounded <= ceil_power_of_two(requested as nat),
            ceil_power_of_two(requested as nat) < 2 * requested || requested == 0,
        decreases ceil_power_of_two(requested as nat) - rounded,
    {
        proof {
            lemma_power_below_ceiling(rounded as nat, requested as nat);
        }
        rounded = rounded * 2;
    }
    proof {
        lemma_power_of_two_is_fixed(rounded as nat);
        lemma_ceil_power_of_two_monotone(requested as nat, rounded as nat);
    }
    rounded
}

/// A power of two below `n` can be doubled without passing the rounding of `n`.
proof fn lemma_power_below_ceiling(p: nat, n: nat)
    requires
        is_power_of_two(p),
        p < n,
    ensures
        2 * p <= ceil_power_of_two(n),
        is_power_of_two(2 * p),
    decreases n,
{
    assert((2 * p) / 2 == p);
    if p == 1 {
        lemma_ceil_power_of_two_bounds((n + 1) / 2);
    } else {
        lemma_power_below_ceiling(p / 2, (n + 1) / 2);
    }
}

} // verus!
