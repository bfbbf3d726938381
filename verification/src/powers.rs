//! Powers of two: the lengths Karatsuba's recursion works on.

use vstd::arithmetic::power2::{is_pow2, is_pow2_equiv, lemma2_to64, lemma_pow2};
use vstd::prelude::*;

verus! {

/// The least power of two that is at least `n`.
pub open spec fn pow2_ceiling(n: nat) -> nat
    decreases n,
{
    if n <= 1 {
        1
    } else {
        2 * pow2_ceiling(((n + 1) / 2) as nat)
    }
}

/// The length at which the recursion on operands of length `n` stops for a
/// given threshold: `n` halved until it is at most the threshold, or 1.
pub open spec fn base_case_len(threshold: nat, n: nat) -> nat
    decreases n,
{
    if n <= threshold || n <= 1 {
        n
    } else {
        base_case_len(threshold, n / 2)
    }
}

/// One is a power of two, and so is the double of one.
pub proof fn lemma_pow2_double(n: int)
    requires
        is_pow2(n),
    ensures
        is_pow2(1),
        is_pow2(2 * n),
        n >= 1,
{
    reveal(is_pow2);
}

/// A power of two above one is even, and its half is a power of two.
pub proof fn lemma_pow2_half(n: int)
    requires
        is_pow2(n),
        n > 1,
    ensures
        n % 2 == 0,
        is_pow2(n / 2),
{
    reveal(is_pow2);
}

/// A power of two below another is at most its half.
pub proof fn lemma_pow2_below(t: int, n: int)
    requires
        is_pow2(t),
        is_pow2(n),
        t < n,
    ensures
        t <= n / 2,
    decreases n,
{
    reveal(is_pow2);
    if t > 1 {
        lemma_pow2_below(t / 2, n / 2);
    }
}

/// `pow2_ceiling(n)` is a power of two, at least `n`, and below `2 * n`
/// for positive `n`.
pub proof fn lemma_pow2_ceiling(n: nat)
    ensures
        is_pow2(pow2_ceiling(n) as int),
        n <= pow2_ceiling(n),
        n >= 1 ==> pow2_ceiling(n) < 2 * n,
    decreases n,
{
    reveal(is_pow2);
    if n > 1 {
        lemma_pow2_ceiling(((n + 1) / 2) as nat);
    }
}

/// No power of two lies strictly between `n` and `pow2_ceiling(n)`.
pub proof fn lemma_pow2_ceiling_least(n: nat, p: int)
    requires
        is_pow2(p),
        n <= p,
    ensures
        pow2_ceiling(n) <= p,
    decreases n,
{
    reveal(is_pow2);
    if n > 1 {
        lemma_pow2_ceiling_least(((n + 1) / 2) as nat, p / 2);
    }
}

/// On a power of two the recursion stops at a power of two no longer than
/// the operands; at the threshold itself where that is a power of two no
/// longer than the operands.
pub proof fn lemma_base_case_len(threshold: nat, n: nat)
    requires
        is_pow2(n as int),
    ensures
        is_pow2(base_case_len(threshold, n) as int),
        1 <= base_case_len(threshold, n) <= n,
        is_pow2(threshold as int) && threshold <= n ==> base_case_len(threshold, n) == threshold,
    decreases n,
{
    reveal(is_pow2);
    if !(n <= threshold || n <= 1) {
        lemma_base_case_len(threshold, n / 2);
        if is_pow2(threshold as int) {
            lemma_pow2_below(threshold as int, n as int);
        }
    }
}

/// Twice a power of two that fits in a `usize`, less one, fits too.
pub proof fn lemma_pow2_usize(n: usize)
    requires
        is_pow2(n as int),
    ensures
        2 * n - 1 <= usize::MAX,
{
    let bound: int = usize::MAX + 1;
    assert(is_pow2(bound)) by {
        lemma2_to64();
        lemma_pow2(32);
        lemma_pow2(64);
        is_pow2_equiv(bound);
    }
    lemma_pow2_below(n as int, bound);
}

/// Tells whether `n` is a power of two.
pub fn is_power_of_two(n: usize) -> (b: bool)
    ensures
        b == is_pow2(n as int),
{
    if n == 0 {
        proof {
            reveal(is_pow2);
        }
        return false;
    }
    let mut m: usize = n;
    while m > 1 && m % 2 == 0
        invariant
            m >= 1,
            is_pow2(m as int) == is_pow2(n as int),
        decreases m,
    {
        proof {
            reveal(is_pow2);
        }
        m = m / 2;
    }
    proof {
        reveal(is_pow2);
    }
    m == 1
}

/// The least power of two that is at least `n`.
pub fn next_power_of_two(n: usize) -> (p: usize)
    requires
        pow2_ceiling(n as nat) <= usize::MAX,
    ensures
        p == pow2_ceiling(n as nat),
{
    let mut p: usize = 1;
    proof {
        lemma_pow2_ceiling(n as nat);
        lemma_pow2_double(pow2_ceiling(n as nat) as int);
    }
    while p < n
        invariant
            is_pow2(p as int),
            p <= pow2_ceiling(n as nat),
            pow2_ceiling(n as nat) <= usize::MAX,
        decreases pow2_ceiling(n as nat) - p,
    {
        proof {
            lemma_pow2_ceiling(n as nat);
            lemma_pow2_below(p as int, pow2_ceiling(n as nat) as int);
            lemma_pow2_double(p as int);
        }
        p = 2 * p;
    }
    proof {
        lemma_pow2_ceiling_least(n as nat, p as int);
    }
    p
}

/// The length at which the recursion on operands of length `n` stops.
pub fn base_case_length(threshold: usize, n: usize) -> (t: usize)
    ensures
        t == base_case_len(threshold as nat, n as nat),
{
    let mut t: usize = n;
    while t > threshold && t > 1
        invariant
            base_case_len(threshold as nat, t as nat) == base_case_len(threshold as nat, n as nat),
        decreases t,
    {
        t = t / 2;
    }
    t
}

} // verus!
