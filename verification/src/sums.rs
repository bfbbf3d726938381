//! Finite sums of ring elements.

use crate::ring::{lemma_add_interchange, lemma_zero_add, Ring};
use vstd::prelude::*;

verus! {

/// `f(0) + f(1) + ... + f(n - 1)`, added from the left; the empty sum is zero.
pub open spec fn sum<R: Ring>(f: spec_fn(int) -> R, n: nat) -> R
    decreases n,
{
    if n == 0 {
        R::zero_spec()
    } else {
        sum(f, (n - 1) as nat).add_spec(f(n - 1))
    }
}

/// Sums of terms that agree below `n` are equal.
pub proof fn lemma_sum_congruent<R: Ring>(f: spec_fn(int) -> R, g: spec_fn(int) -> R, n: nat)
    requires
        forall|i: int| 0 <= i < n ==> #[trigger] f(i) == g(i),
    ensures
        sum(f, n) == sum(g, n),
    decreases n,
{
    if n > 0 {
        lemma_sum_congruent(f, g, (n - 1) as nat);
    }
}

/// A sum of zeros is zero.
pub proof fn lemma_sum_of_zeros<R: Ring>(f: spec_fn(int) -> R, n: nat)
    requires
        forall|i: int| 0 <= i < n ==> #[trigger] f(i) == R::zero_spec(),
    ensures
        sum(f, n) == R::zero_spec(),
    decreases n,
{
    if n > 0 {
        lemma_sum_of_zeros(f, (n - 1) as nat);
        R::add_zero(R::zero_spec());
    }
}

/// Terms that are zero from `n` on add nothing.
pub proof fn lemma_sum_zero_tail<R: Ring>(f: spec_fn(int) -> R, n: nat, m: nat)
    requires
        n <= m,
        forall|i: int| n <= i < m ==> #[trigger] f(i) == R::zero_spec(),
    ensures
        sum(f, m) == sum(f, n),
    decreases m,
{
    if m > n {
        lemma_sum_zero_tail(f, n, (m - 1) as nat);
        R::add_zero(sum(f, n));
    }
}

/// A sum whose only term that may differ from zero is `f(j)` equals `f(j)`.
pub proof fn lemma_sum_single<R: Ring>(f: spec_fn(int) -> R, n: nat, j: int)
    requires
        0 <= j < n,
        forall|i: int| 0 <= i < n && i != j ==> #[trigger] f(i) == R::zero_spec(),
    ensures
        sum(f, n) == f(j),
    decreases n,
{
    if j == n - 1 {
        lemma_sum_of_zeros(f, (n - 1) as nat);
        lemma_zero_add(f(j));
    } else {
        lemma_sum_single(f, (n - 1) as nat, j);
        R::add_zero(f(j));
    }
}

/// The sum of termwise sums is the sum of the sums.
pub proof fn lemma_sum_add<R: Ring>(
    f: spec_fn(int) -> R,
    g: spec_fn(int) -> R,
    h: spec_fn(int) -> R,
    n: nat,
)
    requires
        forall|i: int| 0 <= i < n ==> #[trigger] h(i) == f(i).add_spec(g(i)),
    ensures
        sum(h, n) == sum(f, n).add_spec(sum(g, n)),
    decreases n,
{
    if n == 0 {
        R::add_zero(R::zero_spec());
    } else {
        let k = (n - 1) as nat;
        lemma_sum_add(f, g, h, k);
        lemma_add_interchange(sum(f, k), sum(g, k), f(n - 1), g(n - 1));
    }
}

/// A sum of `a + b` terms is the sum of the first `a` plus the sum of the
/// `b` that follow.
pub proof fn lemma_sum_split<R: Ring>(f: spec_fn(int) -> R, g: spec_fn(int) -> R, a: nat, b: nat)
    requires
        forall|i: int| 0 <= i < b ==> #[trigger] g(i) == f(i + a),
    ensures
        sum(f, a + b) == sum(f, a).add_spec(sum(g, b)),
    decreases b,
{
    if b == 0 {
        R::add_zero(sum(f, a));
    } else {
        let k = (b - 1) as nat;
        lemma_sum_split(f, g, a, k);
        R::add_associative(sum(f, a), sum(g, k), g(b - 1));
    }
}

/// A sum may be added up from the other end.
pub proof fn lemma_sum_reversed<R: Ring>(f: spec_fn(int) -> R, g: spec_fn(int) -> R, n: nat)
    requires
        forall|i: int| 0 <= i < n ==> #[trigger] g(i) == f(n - 1 - i),
    ensures
        sum(g, n) == sum(f, n),
    decreases n,
{
    if n > 0 {
        let k = (n - 1) as nat;
        let f_rest = |i: int| f(i + 1);
        assert forall|i: int| 0 <= i < k implies #[trigger] g(i) == f_rest(k - 1 - i) by {}
        lemma_sum_reversed(f_rest, g, k);
        lemma_sum_split(f, f_rest, 1, k);
        assert(sum(f, 1) == f(0)) by {
            assert(sum(f, 0) == R::zero_spec());
            lemma_zero_add(f(0));
        }
        R::add_commutative(f(0), sum(f_rest, k));
    }
}

} // verus!
