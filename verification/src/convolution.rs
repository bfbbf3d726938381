//! The mathematical model: a polynomial is its sequence of coefficients,
//! lowest degree first, and the product of two polynomials is the
//! convolution of their coefficients.

use crate::ring::{lemma_mul_distributive_right, lemma_mul_zero, lemma_zero_add, Ring};
use crate::sums::{
    lemma_sum_add, lemma_sum_congruent, lemma_sum_of_zeros, lemma_sum_split,
    lemma_sum_zero_tail, sum,
};
use vstd::prelude::*;

verus! {

/// The coefficient of degree `i`; zero where the sequence has no entry.
pub open spec fn coeff<R: Ring>(p: Seq<R>, i: int) -> R {
    if 0 <= i < p.len() {
        p[i]
    } else {
        R::zero_spec()
    }
}

/// The degree of a polynomial given by a nonempty coefficient sequence.
pub open spec fn poly_degree<R: Ring>(p: Seq<R>) -> int {
    p.len() - 1
}

/// The longer of two lengths.
pub open spec fn max_len(a: nat, b: nat) -> nat {
    if a >= b {
        a
    } else {
        b
    }
}

/// The coefficientwise sum, as long as the longer operand.
pub open spec fn poly_add<R: Ring>(x: Seq<R>, y: Seq<R>) -> Seq<R> {
    Seq::new(max_len(x.len(), y.len()), |i: int| coeff(x, i).add_spec(coeff(y, i)))
}

/// The coefficientwise difference, as long as the longer operand.
pub open spec fn poly_sub<R: Ring>(x: Seq<R>, y: Seq<R>) -> Seq<R> {
    Seq::new(max_len(x.len(), y.len()), |i: int| coeff(x, i).sub_spec(coeff(y, i)))
}

/// The product with the monomial `scalar * X^shift`: `shift` zeros, then
/// every coefficient times `scalar`.
pub open spec fn poly_shift<R: Ring>(p: Seq<R>, shift: nat, scalar: R) -> Seq<R> {
    Seq::new(
        p.len() + shift,
        |i: int|
            if i < shift {
                R::zero_spec()
            } else {
                p[i - shift].mul_spec(scalar)
            },
    )
}

/// The `i`-th term of the convolution sum for degree `k`.
pub open spec fn conv_term<R: Ring>(x: Seq<R>, y: Seq<R>, k: int) -> spec_fn(int) -> R {
    |i: int| coeff(x, i).mul_spec(coeff(y, k - i))
}

/// The coefficient of degree `k` of the product: the sum of `x[i] * y[j]`
/// over all `i + j == k`.
pub open spec fn conv<R: Ring>(x: Seq<R>, y: Seq<R>, k: int) -> R {
    sum(conv_term(x, y, k), x.len())
}

/// The product of two polynomials given by nonempty coefficient sequences.
pub open spec fn poly_mul<R: Ring>(x: Seq<R>, y: Seq<R>) -> Seq<R> {
    Seq::new((x.len() + y.len() - 1) as nat, |k: int| conv(x, y, k))
}

/// Two coefficient sequences stand for the same polynomial: they agree at
/// every index that either of them has, the shorter one continued by zeros.
pub open spec fn poly_eq<R: Ring>(x: Seq<R>, y: Seq<R>) -> bool {
    forall|i: int| 0 <= i < max_len(x.len(), y.len()) ==> coeff(x, i) == coeff(y, i)
}

/// The sequence of `n` zeros.
pub open spec fn zeros<R: Ring>(n: nat) -> Seq<R> {
    Seq::new(n, |i: int| R::zero_spec())
}

/// `p` continued by zeros to length `n`; `p` itself where it is that long.
pub open spec fn padded<R: Ring>(p: Seq<R>, n: nat) -> Seq<R> {
    Seq::new(max_len(p.len(), n), |i: int| coeff(p, i))
}

/// The convolution sum vanishes at every degree the product does not have.
pub proof fn lemma_conv_outside<R: Ring>(x: Seq<R>, y: Seq<R>, k: int)
    requires
        k < 0 || k >= x.len() + y.len() - 1,
    ensures
        conv(x, y, k) == R::zero_spec(),
{
    let f = conv_term(x, y, k);
    assert forall|i: int| 0 <= i < x.len() implies #[trigger] f(i) == R::zero_spec() by {
        lemma_mul_zero(coeff(x, i));
    }
    lemma_sum_of_zeros(f, x.len());
}

/// The coefficients of the product are the convolution sums, at every degree.
pub proof fn lemma_coeff_poly_mul<R: Ring>(x: Seq<R>, y: Seq<R>, k: int)
    requires
        x.len() >= 1,
        y.len() >= 1,
    ensures
        coeff(poly_mul(x, y), k) == conv(x, y, k),
{
    if k < 0 || k >= x.len() + y.len() - 1 {
        lemma_conv_outside(x, y, k);
    }
}

/// Multiplication distributes over addition in the first operand.
pub proof fn lemma_conv_add_left<R: Ring>(a: Seq<R>, b: Seq<R>, c: Seq<R>, k: int)
    ensures
        conv(poly_add(a, b), c, k) == conv(a, c, k).add_spec(conv(b, c, k)),
{
    let n = max_len(a.len(), b.len());
    let fa = conv_term(a, c, k);
    let fb = conv_term(b, c, k);
    let fs = conv_term(poly_add(a, b), c, k);
    assert forall|i: int| 0 <= i < n implies #[trigger] fs(i) == fa(i).add_spec(fb(i)) by {
        lemma_mul_distributive_right(coeff(a, i), coeff(b, i), coeff(c, k - i));
    }
    lemma_sum_add(fa, fb, fs, n);
    assert forall|i: int| a.len() <= i < n implies #[trigger] fa(i) == R::zero_spec() by {
        lemma_mul_zero(coeff(c, k - i));
    }
    lemma_sum_zero_tail(fa, a.len(), n);
    assert forall|i: int| b.len() <= i < n implies #[trigger] fb(i) == R::zero_spec() by {
        lemma_mul_zero(coeff(c, k - i));
    }
    lemma_sum_zero_tail(fb, b.len(), n);
}

/// Multiplication distributes over addition in the second operand.
pub proof fn lemma_conv_add_right<R: Ring>(a: Seq<R>, b: Seq<R>, c: Seq<R>, k: int)
    ensures
        conv(a, poly_add(b, c), k) == conv(a, b, k).add_spec(conv(a, c, k)),
{
    let fb = conv_term(a, b, k);
    let fc = conv_term(a, c, k);
    let fs = conv_term(a, poly_add(b, c), k);
    assert forall|i: int| 0 <= i < a.len() implies #[trigger] fs(i) == fb(i).add_spec(fc(i)) by {
        R::mul_distributive(coeff(a, i), coeff(b, k - i), coeff(c, k - i));
        R::add_zero(R::zero_spec());
    }
    lemma_sum_add(fb, fc, fs, a.len());
}

/// The coefficients of `p * X^shift` are those of `p`, `shift` places up.
pub proof fn lemma_coeff_shift<R: Ring>(p: Seq<R>, shift: nat, i: int)
    ensures
        coeff(poly_shift(p, shift, R::one_spec()), i) == coeff(p, i - shift),
{
    if shift <= i < p.len() + shift {
        R::mul_one(p[i - shift]);
    }
}

/// Shifting the first operand shifts the product.
pub proof fn lemma_conv_shift_left<R: Ring>(a: Seq<R>, b: Seq<R>, shift: nat, k: int)
    ensures
        conv(poly_shift(a, shift, R::one_spec()), b, k) == conv(a, b, k - shift),
{
    let s = poly_shift(a, shift, R::one_spec());
    let f = conv_term(s, b, k);
    let g = conv_term(a, b, k - shift);
    assert forall|i: int| 0 <= i < a.len() implies #[trigger] g(i) == f(i + shift) by {
        lemma_coeff_shift(a, shift, i + shift);
    }
    lemma_sum_split(f, g, shift, a.len());
    assert forall|i: int| 0 <= i < shift implies #[trigger] f(i) == R::zero_spec() by {
        lemma_mul_zero(coeff(b, k - i));
    }
    lemma_sum_of_zeros(f, shift);
    lemma_zero_add(sum(g, a.len()));
}

/// Shifting the second operand shifts the product.
pub proof fn lemma_conv_shift_right<R: Ring>(a: Seq<R>, b: Seq<R>, shift: nat, k: int)
    ensures
        conv(a, poly_shift(b, shift, R::one_spec()), k) == conv(a, b, k - shift),
{
    let f = conv_term(a, poly_shift(b, shift, R::one_spec()), k);
    let g = conv_term(a, b, k - shift);
    assert forall|i: int| 0 <= i < a.len() implies #[trigger] f(i) == g(i) by {
        lemma_coeff_shift(b, shift, k - i);
    }
    lemma_sum_congruent(f, g, a.len());
}

/// The convolution sums depend on the operands' coefficients only, not on
/// how many trailing zeros their sequences hold.
pub proof fn lemma_conv_congruent<R: Ring>(a: Seq<R>, b: Seq<R>, c: Seq<R>, d: Seq<R>, k: int)
    requires
        forall|i: int| coeff(a, i) == coeff(c, i),
        forall|i: int| coeff(b, i) == coeff(d, i),
    ensures
        conv(a, b, k) == conv(c, d, k),
{
    let n = max_len(a.len(), c.len());
    let f = conv_term(a, b, k);
    let g = conv_term(c, d, k);
    assert forall|i: int| 0 <= i < n implies #[trigger] f(i) == g(i) by {}
    lemma_sum_congruent(f, g, n);
    assert forall|i: int| a.len() <= i < n implies #[trigger] f(i) == R::zero_spec() by {
        lemma_mul_zero(coeff(b, k - i));
    }
    lemma_sum_zero_tail(f, a.len(), n);
    assert forall|i: int| c.len() <= i < n implies #[trigger] g(i) == R::zero_spec() by {
        lemma_mul_zero(coeff(d, k - i));
    }
    lemma_sum_zero_tail(g, c.len(), n);
}

/// Continuing a sequence by zeros leaves its coefficients as they are.
pub proof fn lemma_coeff_padded<R: Ring>(p: Seq<R>, n: nat, i: int)
    ensures
        coeff(padded(p, n), i) == coeff(p, i),
{
}

} // verus!
