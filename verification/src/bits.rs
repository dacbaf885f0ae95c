use vstd::prelude::*;

verus! {

/// `n` is a power of two (1, 2, 4, ...).
pub open spec fn is_pow2(n: nat) -> bool
    decreases n,
{
    if n == 1 {
        true
    } else if n < 2 || n % 2 != 0 {
        false
    } else {
        is_pow2(n / 2)
    }
}

/// The smallest power of two that is at least `x` (1 for 0 and 1).
pub open spec fn next_pow2(x: nat) -> nat
    decreases x,
{
    if x <= 1 {
        1
    } else {
        2 * next_pow2(((x + 1) / 2) as nat)
    }
}

/// `u32::next_power_of_two`: the smallest power of two that is at least `x`.
/// std panics in debug builds (and wraps to 0 in release builds) when that power
/// does not fit in a `u32`, that is above 2^31, so those inputs are left out.
pub assume_specification[ <u32>::next_power_of_two ](x: u32) -> (r: u32)
    requires
        x <= 0x8000_0000,
    ensures
        r as nat == next_pow2(x as nat),
;

/// `next_pow2(x)` is a power of two, at least `x`, and less than `2 * x` when `x >= 1`.
pub proof fn lemma_next_pow2(x: nat)
    ensures
        is_pow2(next_pow2(x)),
        next_pow2(x) >= x,
        next_pow2(x) >= 1,
        x >= 1 ==> next_pow2(x) < 2 * x,
    decreases x,
{
    if x > 1 {
        let h = ((x + 1) / 2) as nat;
        lemma_next_pow2(h);
        let p = next_pow2(h);
        assert(next_pow2(x) == 2 * p);
        assert((2 * p) / 2 == p);
        assert((2 * p) % 2 == 0);
    }
}

/// A power of two is its own size class.
pub proof fn lemma_next_pow2_of_pow2(n: nat)
    requires
        is_pow2(n),
    ensures
        next_pow2(n) == n,
    decreases n,
{
    if n > 1 {
        lemma_next_pow2_of_pow2(n / 2);
        assert((n + 1) / 2 == n / 2);
    }
}

/// Size classes grow with the requested size.
pub proof fn lemma_next_pow2_monotone(x: nat, y: nat)
    requires
        x <= y,
    ensures
        next_pow2(x) <= next_pow2(y),
    decreases y,
{
    if x > 1 {
        lemma_next_pow2_monotone(((x + 1) / 2) as nat, ((y + 1) / 2) as nat);
    } else {
        lemma_next_pow2(y);
    }
}

} // verus!
