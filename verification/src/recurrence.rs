//! Karatsuba's recurrence on coefficient sequences, and the proof that it
//! computes the convolution product.

use crate::convolution::{
    coeff, conv, lemma_coeff_padded, lemma_coeff_poly_mul, lemma_coeff_shift,
    lemma_conv_add_left, lemma_conv_add_right, lemma_conv_congruent, lemma_conv_shift_left,
    lemma_conv_shift_right, max_len, padded, poly_add, poly_mul, poly_shift, poly_sub,
};
use crate::powers::{base_case_len, lemma_pow2_ceiling, pow2_ceiling};
use crate::ring::{lemma_add_then_sub, lemma_sub_zero, lemma_zero_add, Ring};
use vstd::prelude::*;

verus! {

/// The coefficients below the midpoint `p.len() / 2`.
pub open spec fn low_half<R: Ring>(p: Seq<R>) -> Seq<R> {
    p.subrange(0, p.len() as int / 2)
}

/// The coefficients from the midpoint `p.len() / 2` on.
pub open spec fn high_half<R: Ring>(p: Seq<R>) -> Seq<R> {
    p.subrange(p.len() as int / 2, p.len() as int)
}

/// The middle term `z3 - z0 - z2`.
pub open spec fn middle_term<R: Ring>(z0: Seq<R>, z2: Seq<R>, z3: Seq<R>) -> Seq<R> {
    poly_sub(poly_sub(z3, z0), z2)
}

/// `z0 + z1 * X^m + z2 * X^(2m)` with `z1 = z3 - z0 - z2`.
pub open spec fn recombine<R: Ring>(z0: Seq<R>, z2: Seq<R>, z3: Seq<R>, m: nat) -> Seq<R> {
    poly_add(
        poly_add(z0, poly_shift(middle_term(z0, z2, z3), m, R::one_spec())),
        poly_shift(z2, 2 * m, R::one_spec()),
    )
}

/// Karatsuba's recurrence: operands as long as the threshold, or too short
/// to split, are multiplied by convolution; longer ones are split at the
/// midpoint and recombined from three products of the halves.
pub open spec fn karatsuba<R: Ring>(x: Seq<R>, y: Seq<R>, threshold: nat) -> Seq<R>
    decreases x.len(),
{
    if x.len() < 2 || x.len() != y.len() || x.len() == threshold {
        poly_mul(x, y)
    } else {
        recombine(
            karatsuba(low_half(x), low_half(y), threshold),
            karatsuba(high_half(x), high_half(y), threshold),
            karatsuba(
                poly_add(low_half(x), high_half(x)),
                poly_add(low_half(y), high_half(y)),
                threshold,
            ),
            x.len() / 2,
        )
    }
}

/// The coefficients of a sum are the sums of the coefficients, at every degree.
pub proof fn lemma_coeff_poly_add<R: Ring>(x: Seq<R>, y: Seq<R>, i: int)
    ensures
        coeff(poly_add(x, y), i) == coeff(x, i).add_spec(coeff(y, i)),
{
    R::add_zero(R::zero_spec());
}

/// The coefficients of a difference are the differences of the coefficients,
/// at every degree.
pub proof fn lemma_coeff_poly_sub<R: Ring>(x: Seq<R>, y: Seq<R>, i: int)
    ensures
        coeff(poly_sub(x, y), i) == coeff(x, i).sub_spec(coeff(y, i)),
{
    lemma_sub_zero(R::zero_spec());
}

/// `((a + b) + (c + d)) - a - d == b + c`: what is left of the product of the
/// sums once the products of the halves are taken away.
pub proof fn lemma_cross_terms<R: Ring>(a: R, b: R, c: R, d: R)
    ensures
        a.add_spec(b).add_spec(c.add_spec(d)).sub_spec(a).sub_spec(d) == b.add_spec(c),
{
    let bc = b.add_spec(c);
    // (a + b) + (c + d) == ((b + c) + d) + a
    R::add_commutative(a, b);
    R::add_associative(b, a, c.add_spec(d));
    R::add_commutative(a, c.add_spec(d));
    R::add_associative(b, c.add_spec(d), a);
    R::add_associative(b, c, d);
    lemma_add_then_sub(bc.add_spec(d), a);
    lemma_add_then_sub(bc, d);
}

/// A sequence is its low half plus its high half shifted up to the midpoint.
pub proof fn lemma_halves<R: Ring>(p: Seq<R>)
    ensures
        p == poly_add(low_half(p), poly_shift(high_half(p), p.len() / 2, R::one_spec())),
{
    let m = p.len() / 2;
    let q = poly_add(low_half(p), poly_shift(high_half(p), m, R::one_spec()));
    assert forall|i: int| 0 <= i < p.len() implies p[i] == q[i] by {
        if i < m {
            R::add_zero(p[i]);
        } else {
            R::mul_one(p[i]);
            lemma_zero_add(p[i]);
        }
    }
}

/// One coefficient of the product, split by halves of the operands:
/// `conv(x, y, k)` is `lo*lo` at `k`, plus the two cross products at
/// `k - m`, plus `hi*hi` at `k - 2m`.
pub proof fn lemma_conv_by_halves<R: Ring>(x: Seq<R>, y: Seq<R>, k: int)
    requires
        x.len() == y.len(),
    ensures
        conv(x, y, k) == conv(low_half(x), low_half(y), k).add_spec(
            conv(low_half(x), high_half(y), k - x.len() / 2).add_spec(
                conv(high_half(x), low_half(y), k - x.len() / 2),
            ),
        ).add_spec(conv(high_half(x), high_half(y), k - 2 * (x.len() / 2))),
{
    let m = x.len() / 2;
    let one = R::one_spec();
    let (xl, xh, yl, yh) = (low_half(x), high_half(x), low_half(y), high_half(y));
    let a = conv(xl, yl, k);
    let b = conv(xl, yh, k - m);
    let c = conv(xh, yl, k - m);
    let d = conv(xh, yh, k - 2 * m);
    lemma_halves(x);
    lemma_halves(y);
    // conv(x, y, k) == conv(xl, y, k) + conv(xh, y, k - m)
    lemma_conv_add_left(xl, poly_shift(xh, m, one), y, k);
    lemma_conv_shift_left(xh, y, m, k);
    // conv(xl, y, k) == a + b
    lemma_conv_add_right(xl, yl, poly_shift(yh, m, one), k);
    lemma_conv_shift_right(xl, yh, m, k);
    // conv(xh, y, k - m) == c + d
    lemma_conv_add_right(xh, yl, poly_shift(yh, m, one), k - m);
    lemma_conv_shift_right(xh, yh, m, k - m);
    R::add_associative(a.add_spec(b), c, d);
    R::add_associative(a, b, c);
}

/// One coefficient of the middle term: the two cross products.
pub proof fn lemma_middle_term<R: Ring>(x: Seq<R>, y: Seq<R>, j: int)
    requires
        x.len() == y.len(),
        x.len() >= 2,
    ensures
        coeff(
            middle_term(
                poly_mul(low_half(x), low_half(y)),
                poly_mul(high_half(x), high_half(y)),
                poly_mul(poly_add(low_half(x), high_half(x)), poly_add(low_half(y), high_half(y))),
            ),
            j,
        ) == conv(low_half(x), high_half(y), j).add_spec(conv(high_half(x), low_half(y), j)),
{
    let (xl, xh, yl, yh) = (low_half(x), high_half(x), low_half(y), high_half(y));
    let xs = poly_add(xl, xh);
    let ys = poly_add(yl, yh);
    let z0 = poly_mul(xl, yl);
    let z2 = poly_mul(xh, yh);
    let z3 = poly_mul(xs, ys);
    lemma_coeff_poly_sub(poly_sub(z3, z0), z2, j);
    lemma_coeff_poly_sub(z3, z0, j);
    lemma_coeff_poly_mul(xl, yl, j);
    lemma_coeff_poly_mul(xh, yh, j);
    lemma_coeff_poly_mul(xs, ys, j);
    lemma_conv_add_left(xl, xh, ys, j);
    lemma_conv_add_right(xl, yl, yh, j);
    lemma_conv_add_right(xh, yl, yh, j);
    lemma_cross_terms(conv(xl, yl, j), conv(xl, yh, j), conv(xh, yl, j), conv(xh, yh, j));
}

/// Karatsuba's identity: the product of two sequences of one length is
/// recombined from the products of their low halves, of their high halves,
/// and of the sums of their halves.
pub proof fn lemma_karatsuba_step<R: Ring>(x: Seq<R>, y: Seq<R>)
    requires
        x.len() == y.len(),
        x.len() >= 2,
    ensures
        recombine(
            poly_mul(low_half(x), low_half(y)),
            poly_mul(high_half(x), high_half(y)),
            poly_mul(poly_add(low_half(x), high_half(x)), poly_add(low_half(y), high_half(y))),
            x.len() / 2,
        ) == poly_mul(x, y),
{
    let n = x.len();
    let m = n / 2;
    let one = R::one_spec();
    let (xl, xh, yl, yh) = (low_half(x), high_half(x), low_half(y), high_half(y));
    let z0 = poly_mul(xl, yl);
    let z2 = poly_mul(xh, yh);
    let z3 = poly_mul(poly_add(xl, xh), poly_add(yl, yh));
    let z1 = middle_term(z0, z2, z3);
    let r = recombine(z0, z2, z3, m);
    let p = poly_mul(x, y);
    assert forall|k: int| 0 <= k < p.len() implies r[k] == p[k] by {
        lemma_coeff_poly_add(z0, poly_shift(z1, m, one), k);
        lemma_coeff_shift(z1, m, k);
        lemma_coeff_shift(z2, 2 * m, k);
        lemma_coeff_poly_mul(xl, yl, k);
        lemma_coeff_poly_mul(xh, yh, k - 2 * m);
        lemma_middle_term(x, y, k - m);
        lemma_conv_by_halves(x, y, k);
    }
}

/// Karatsuba's recurrence computes the convolution product, whatever the
/// threshold.
pub proof fn lemma_karatsuba_is_product<R: Ring>(x: Seq<R>, y: Seq<R>, threshold: nat)
    ensures
        karatsuba(x, y, threshold) == poly_mul(x, y),
    decreases x.len(),
{
    if !(x.len() < 2 || x.len() != y.len() || x.len() == threshold) {
        let (xl, xh, yl, yh) = (low_half(x), high_half(x), low_half(y), high_half(y));
        lemma_karatsuba_is_product(xl, yl, threshold);
        lemma_karatsuba_is_product(xh, yh, threshold);
        lemma_karatsuba_is_product(poly_add(xl, xh), poly_add(yl, yh), threshold);
        lemma_karatsuba_step(x, y);
    }
}

/// The length both operands are continued to before the recursion: the
/// least power of two that holds the longer one.
pub open spec fn padded_len(p: nat, q: nat) -> nat {
    pow2_ceiling(max_len(p, q))
}

/// Karatsuba multiplication of operands of any lengths: both continued by
/// zeros to `padded_len`, multiplied by the recurrence, which stops at
/// `base_case_len` for the given threshold, and cut back to the length of
/// the product of the operands.
pub open spec fn karatsuba_padded<R: Ring>(x: Seq<R>, y: Seq<R>, threshold: nat) -> Seq<R> {
    let n = padded_len(x.len(), y.len());
    karatsuba(padded(x, n), padded(y, n), base_case_len(threshold, n)).take(
        x.len() + y.len() - 1,
    )
}

/// Karatsuba multiplication with padding computes the convolution product
/// of the operands as they are, whatever their lengths and the threshold.
pub proof fn lemma_karatsuba_padded_is_product<R: Ring>(x: Seq<R>, y: Seq<R>, threshold: nat)
    requires
        x.len() >= 1,
        y.len() >= 1,
    ensures
        karatsuba_padded(x, y, threshold) == poly_mul(x, y),
{
    let n = padded_len(x.len(), y.len());
    let xp = padded(x, n);
    let yp = padded(y, n);
    lemma_pow2_ceiling(max_len(x.len(), y.len()));
    lemma_karatsuba_is_product(xp, yp, base_case_len(threshold, n));
    assert forall|k: int| 0 <= k < x.len() + y.len() - 1 implies poly_mul(xp, yp)[k] == poly_mul(
        x,
        y,
    )[k] by {
        assert forall|i: int| coeff(xp, i) == coeff(x, i) by {
            lemma_coeff_padded(x, n, i);
        }
        assert forall|i: int| coeff(yp, i) == coeff(y, i) by {
            lemma_coeff_padded(y, n, i);
        }
        lemma_conv_congruent(xp, yp, x, y, k);
    }
}

} // verus!
