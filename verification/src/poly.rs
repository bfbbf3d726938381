//! Arithmetic on coefficient slices: the elementwise primitives, schoolbook
//! multiplication and Karatsuba multiplication.

use crate::convolution::{
    coeff, conv_term, max_len, padded, poly_add, poly_degree, poly_eq, poly_mul, poly_shift,
    poly_sub, zeros,
};
use crate::powers::{
    base_case_length, is_power_of_two, lemma_base_case_len, lemma_pow2_below, lemma_pow2_ceiling,
    lemma_pow2_double, lemma_pow2_half, lemma_pow2_usize, next_power_of_two,
};
use crate::recurrence::{
    karatsuba, karatsuba_padded, lemma_karatsuba_is_product, lemma_karatsuba_padded_is_product,
    padded_len,
};
use crate::ring::lemma_mul_zero;
pub use crate::ring::Ring;
use crate::sums::sum;
use vstd::arithmetic::power2::is_pow2;
use vstd::prelude::*;
use vstd::slice::slice_subrange;

verus! {

/// The degree of a polynomial: one less than the number of its coefficients.
pub fn degree<R: Ring>(poly: &[R]) -> (d: usize)
    requires
        poly@.len() >= 1,
    ensures
        d == poly_degree(poly@),
{
    poly.len() - 1
}

/// The coefficient at `i`, zero past the end.
fn coefficient<R: Ring>(poly: &[R], i: usize) -> (c: R)
    ensures
        c == coeff(poly@, i as int),
{
    if i < poly.len() {
        poly[i]
    } else {
        R::zero()
    }
}

/// A vector of `n` zeros.
fn zero_vec<R: Ring>(n: usize) -> (v: Vec<R>)
    ensures
        v@ == zeros::<R>(n as nat),
{
    let mut v: Vec<R> = Vec::with_capacity(n);
    while v.len() < n
        invariant
            v@.len() <= n,
            forall|i: int| 0 <= i < v@.len() ==> v@[i] == R::zero_spec(),
        decreases n - v@.len(),
    {
        v.push(R::zero());
    }
    v
}

/// The coefficientwise sum of two polynomials, as long as the longer one;
/// the shorter one counts as continued by zeros.
pub fn add<R: Ring>(x: &[R], y: &[R]) -> (r: Vec<R>)
    ensures
        r@ == poly_add(x@, y@),
{
    let n: usize = if x.len() >= y.len() {
        x.len()
    } else {
        y.len()
    };
    let mut result: Vec<R> = Vec::with_capacity(n);
    let mut i: usize = 0;
    while i < n
        invariant
            i <= n,
            n == max_len(x@.len(), y@.len()),
            result@.len() == i,
            forall|j: int| 0 <= j < i ==> result@[j] == coeff(x@, j).add_spec(coeff(y@, j)),
        decreases n - i,
    {
        result.push(coefficient(x, i).add(coefficient(y, i)));
        i += 1;
    }
    result
}

/// The coefficientwise difference of two polynomials, as long as the longer
/// one; the shorter one counts as continued by zeros.
pub fn sub<R: Ring>(x: &[R], y: &[R]) -> (r: Vec<R>)
    ensures
        r@ == poly_sub(x@, y@),
{
    let n: usize = if x.len() >= y.len() {
        x.len()
    } else {
        y.len()
    };
    let mut result: Vec<R> = Vec::with_capacity(n);
    let mut i: usize = 0;
    while i < n
        invariant
            i <= n,
            n == max_len(x@.len(), y@.len()),
            result@.len() == i,
            forall|j: int| 0 <= j < i ==> result@[j] == coeff(x@, j).sub_spec(coeff(y@, j)),
        decreases n - i,
    {
        result.push(coefficient(x, i).sub(coefficient(y, i)));
        i += 1;
    }
    result
}

/// The product of a polynomial with the monomial `scalar * X^shift`:
/// `shift` zeros, then every coefficient times `scalar`. The input is left
/// as it is.
pub fn mul_by_monomial<R: Ring>(poly: &[R], shift: usize, scalar: R) -> (r: Vec<R>)
    requires
        poly@.len() + shift <= usize::MAX,
    ensures
        r@ == poly_shift(poly@, shift as nat, scalar),
{
    let mut result: Vec<R> = zero_vec(shift);
    let mut i: usize = 0;
    while i < poly.len()
        invariant
            i <= poly@.len(),
            poly@.len() + shift <= usize::MAX,
            result@.len() == shift + i,
            forall|j: int| 0 <= j < shift ==> result@[j] == R::zero_spec(),
            forall|j: int| shift <= j < shift + i ==> result@[j] == poly@[j - shift].mul_spec(scalar),
        decreases poly@.len() - i,
    {
        result.push(poly[i].mul(scalar));
        i += 1;
    }
    result
}

/// Schoolbook multiplication: every coefficient of the product is the sum of
/// `x[i] * y[j]` over all `i + j` equal to its degree.
pub fn mul_schoolbook<R: Ring>(x: &[R], y: &[R]) -> (r: Vec<R>)
    requires
        x@.len() >= 1,
        y@.len() >= 1,
        x@.len() + y@.len() - 1 <= usize::MAX,
    ensures
        r@ == poly_mul(x@, y@),
        r@.len() == x@.len() + y@.len() - 1,
{
    let p: usize = x.len();
    let q: usize = y.len();
    let mut result: Vec<R> = zero_vec(degree(x) + degree(y) + 1);
    let mut i: usize = 0;
    while i < p
        invariant
            i <= p,
            p == x@.len(),
            q == y@.len(),
            q >= 1,
            p + q - 1 <= usize::MAX,
            result@.len() == p + q - 1,
            forall|k: int| 0 <= k < result@.len() ==> result@[k] == sum(conv_term(x@, y@, k), i as nat),
        decreases p - i,
    {
        let mut j: usize = 0;
        while j < q
            invariant
                i < p,
                j <= q,
                p == x@.len(),
                q == y@.len(),
                p + q - 1 <= usize::MAX,
                result@.len() == p + q - 1,
                forall|k: int|
                    0 <= k < result@.len() ==> result@[k] == sum(
                        conv_term(x@, y@, k),
                        if i <= k < i + j {
                            (i + 1) as nat
                        } else {
                            i as nat
                        },
                    ),
            decreases q - j,
        {
            let term: R = x[i].mul(y[j]);
            let updated: R = result[i + j].add(term);
            result.set(i + j, updated);
            j += 1;
        }
        proof {
            assert forall|k: int| 0 <= k < result@.len() implies result@[k] == sum(
                conv_term(x@, y@, k),
                (i + 1) as nat,
            ) by {
                if !(i <= k < i + q) {
                    lemma_mul_zero(x@[i as int]);
                    R::add_zero(sum(conv_term(x@, y@, k), i as nat));
                }
            }
        }
        i += 1;
    }
    result
}

/// Karatsuba multiplication of two coefficient slices of one length, a power
/// of two. Slices as long as `threshold` go to schoolbook multiplication;
/// longer ones are split at the midpoint and the product is recombined from
/// three products of half the length.
pub fn mul_karatsuba<R: Ring>(x: &[R], y: &[R], threshold: usize) -> (r: Vec<R>)
    requires
        x@.len() == y@.len(),
        is_pow2(x@.len() as int),
        is_pow2(threshold as int),
        threshold <= x@.len(),
    ensures
        r@ == poly_mul(x@, y@),
        r@ == karatsuba(x@, y@, threshold as nat),
        r@.len() == 2 * x@.len() - 1,
    decreases x@.len(),
{
    let n: usize = x.len();
    proof {
        lemma_pow2_double(n as int);
        lemma_pow2_double(threshold as int);
        lemma_pow2_usize(n);
        lemma_karatsuba_is_product(x@, y@, threshold as nat);
    }
    if n == threshold {
        return mul_schoolbook(x, y);
    }
    proof {
        lemma_pow2_below(threshold as int, n as int);
        lemma_pow2_half(n as int);
    }
    let m: usize = n / 2;
    let x_lo: &[R] = slice_subrange(x, 0, m);
    let x_hi: &[R] = slice_subrange(x, m, n);
    let y_lo: &[R] = slice_subrange(y, 0, m);
    let y_hi: &[R] = slice_subrange(y, m, n);
    let x_sum: Vec<R> = self::add(x_lo, x_hi);
    let y_sum: Vec<R> = self::add(y_lo, y_hi);
    let z0: Vec<R> = mul_karatsuba(x_lo, y_lo, threshold);
    let z2: Vec<R> = mul_karatsuba(x_hi, y_hi, threshold);
    let z3: Vec<R> = mul_karatsuba(x_sum.as_slice(), y_sum.as_slice(), threshold);
    let z1: Vec<R> = self::sub(self::sub(z3.as_slice(), z0.as_slice()).as_slice(), z2.as_slice());
    let z1_shifted: Vec<R> = mul_by_monomial(z1.as_slice(), m, R::one());
    let z2_shifted: Vec<R> = mul_by_monomial(z2.as_slice(), n, R::one());
    let low: Vec<R> = self::add(z0.as_slice(), z1_shifted.as_slice());
    self::add(low.as_slice(), z2_shifted.as_slice())
}

/// Why two coefficient slices cannot go through Karatsuba's recursion as
/// they are.
#[derive(Clone, Copy, Debug, PartialEq, Eq, Structural)]
pub enum KaratsubaError {
    /// The operands differ in length.
    LengthMismatch,
    /// The operands' common length is not a power of two.
    NotPowerOfTwo,
    /// The threshold is not a power of two, or is longer than the operands.
    BadThreshold,
}

/// Karatsuba multiplication that tests what `mul_karatsuba` requires: the
/// product where the operands have one length, a power of two, and the
/// threshold is a power of two no longer than they are; otherwise the first
/// of these conditions that fails.
pub fn mul_karatsuba_checked<R: Ring>(x: &[R], y: &[R], threshold: usize) -> (r: Result<
    Vec<R>,
    KaratsubaError,
>)
    ensures
        match r {
            Ok(v) => {
                &&& x@.len() == y@.len()
                &&& is_pow2(x@.len() as int)
                &&& is_pow2(threshold as int)
                &&& threshold <= x@.len()
                &&& v@ == poly_mul(x@, y@)
            },
            Err(KaratsubaError::LengthMismatch) => x@.len() != y@.len(),
            Err(KaratsubaError::NotPowerOfTwo) => x@.len() == y@.len() && !is_pow2(
                x@.len() as int,
            ),
            Err(KaratsubaError::BadThreshold) => {
                &&& x@.len() == y@.len()
                &&& is_pow2(x@.len() as int)
                &&& !(is_pow2(threshold as int) && threshold <= x@.len())
            },
        },
{
    if x.len() != y.len() {
        Err(KaratsubaError::LengthMismatch)
    } else if !is_power_of_two(x.len()) {
        Err(KaratsubaError::NotPowerOfTwo)
    } else if !is_power_of_two(threshold) || threshold > x.len() {
        Err(KaratsubaError::BadThreshold)
    } else {
        Ok(mul_karatsuba(x, y, threshold))
    }
}

/// A copy of `poly` continued by zeros to length `n`.
fn pad<R: Ring>(poly: &[R], n: usize) -> (r: Vec<R>)
    requires
        poly@.len() <= n,
    ensures
        r@ == padded(poly@, n as nat),
{
    let mut result: Vec<R> = Vec::with_capacity(n);
    let mut i: usize = 0;
    while i < n
        invariant
            i <= n,
            result@.len() == i,
            forall|j: int| 0 <= j < i ==> result@[j] == coeff(poly@, j),
        decreases n - i,
    {
        result.push(coefficient(poly, i));
        i += 1;
    }
    result
}

/// Karatsuba multiplication of two polynomials of any lengths. Both are
/// continued by zeros to the least power of two that holds the longer one,
/// multiplied by the recursion, and the product is cut back to the
/// coefficients that the product of the operands has. For the padded length
/// `n` the recursion stops at `base_case_len(threshold, n)`, so every
/// threshold is accepted.
pub fn mul_karatsuba_padded<R: Ring>(x: &[R], y: &[R], threshold: usize) -> (r: Vec<R>)
    requires
        x@.len() >= 1,
        y@.len() >= 1,
        padded_len(x@.len(), y@.len()) <= usize::MAX,
    ensures
        r@ == poly_mul(x@, y@),
        r@ == karatsuba_padded(x@, y@, threshold as nat),
        r@.len() == x@.len() + y@.len() - 1,
{
    let longest: usize = if x.len() >= y.len() {
        x.len()
    } else {
        y.len()
    };
    let n: usize = next_power_of_two(longest);
    let base: usize = base_case_length(threshold, n);
    proof {
        lemma_pow2_ceiling(longest as nat);
        lemma_base_case_len(threshold as nat, n as nat);
        lemma_pow2_usize(n);
        lemma_karatsuba_padded_is_product(x@, y@, threshold as nat);
    }
    let x_padded: Vec<R> = pad(x, n);
    let y_padded: Vec<R> = pad(y, n);
    let mut result: Vec<R> = mul_karatsuba(x_padded.as_slice(), y_padded.as_slice(), base);
    result.truncate(degree(x) + degree(y) + 1);
    result
}

/// Tells whether two coefficient slices stand for the same polynomial: equal
/// coefficients at every index that either has, the shorter one continued by
/// zeros.
pub fn eq<R: Ring>(x: &[R], y: &[R]) -> (b: bool)
    ensures
        b == poly_eq(x@, y@),
{
    let n: usize = if x.len() >= y.len() {
        x.len()
    } else {
        y.len()
    };
    let mut i: usize = 0;
    while i < n
        invariant
            i <= n,
            n == max_len(x@.len(), y@.len()),
            forall|j: int| 0 <= j < i ==> coeff(x@, j) == coeff(y@, j),
        decreases n - i,
    {
        let a: R = coefficient(x, i);
        let b: R = coefficient(y, i);
        if !((a.is_zero() && b.is_zero()) || a.eq(&b)) {
            return false;
        }
        i += 1;
    }
    true
}

} // verus!
