//! Laws of polynomial multiplication and of polynomial equality, stated
//! over the model and proved for every ring.

use crate::convolution::{
    coeff, conv, conv_term, lemma_coeff_padded, lemma_coeff_poly_mul, lemma_conv_congruent,
    lemma_conv_outside, max_len, padded, poly_add, poly_degree, poly_eq, poly_mul, poly_sub,
    zeros,
};
use crate::recurrence::{
    karatsuba, karatsuba_padded, lemma_karatsuba_is_product, lemma_karatsuba_padded_is_product,
};
use crate::ring::{lemma_add_then_sub, lemma_mul_zero, lemma_one_mul, lemma_sub_zero, Ring};
use crate::sums::{
    lemma_sum_of_zeros, lemma_sum_reversed, lemma_sum_single, lemma_sum_zero_tail, sum,
};
use vstd::prelude::*;

verus! {

/// Two sequences stand for the same polynomial exactly when their
/// coefficients agree at every degree.
pub proof fn lemma_poly_eq_coefficients<R: Ring>(x: Seq<R>, y: Seq<R>)
    ensures
        poly_eq(x, y) <==> (forall|i: int| coeff(x, i) == coeff(y, i)),
{
    if poly_eq(x, y) {
        assert forall|i: int| coeff(x, i) == coeff(y, i) by {}
    }
}

/// Polynomial equality is reflexive, symmetric and transitive.
pub proof fn lemma_poly_eq_equivalence<R: Ring>(x: Seq<R>, y: Seq<R>, z: Seq<R>)
    ensures
        poly_eq(x, x),
        poly_eq(x, y) ==> poly_eq(y, x),
        poly_eq(x, y) && poly_eq(y, z) ==> poly_eq(x, z),
{
    lemma_poly_eq_coefficients(x, y);
    lemma_poly_eq_coefficients(y, x);
    lemma_poly_eq_coefficients(y, z);
    lemma_poly_eq_coefficients(x, z);
}

/// A sequence continued by zeros stands for the same polynomial.
pub proof fn lemma_padded_is_equal<R: Ring>(p: Seq<R>, n: nat)
    ensures
        poly_eq(padded(p, n), p),
{
}

/// Addition of polynomials is commutative.
pub proof fn lemma_poly_add_commutative<R: Ring>(x: Seq<R>, y: Seq<R>)
    ensures
        poly_add(x, y) == poly_add(y, x),
{
    assert forall|i: int| 0 <= i < max_len(x.len(), y.len()) implies poly_add(x, y)[i]
        == poly_add(y, x)[i] by {
        R::add_commutative(coeff(x, i), coeff(y, i));
    }
}

/// Addition of polynomials is associative.
pub proof fn lemma_poly_add_associative<R: Ring>(x: Seq<R>, y: Seq<R>, z: Seq<R>)
    ensures
        poly_add(poly_add(x, y), z) == poly_add(x, poly_add(y, z)),
{
    let l = poly_add(poly_add(x, y), z);
    let r = poly_add(x, poly_add(y, z));
    assert forall|i: int| 0 <= i < l.len() implies l[i] == r[i] by {
        R::add_associative(coeff(x, i), coeff(y, i), coeff(z, i));
        R::add_zero(R::zero_spec());
    }
}

/// Subtraction undoes addition: `(x + y) - y` is the polynomial `x`.
pub proof fn lemma_poly_add_then_sub<R: Ring>(x: Seq<R>, y: Seq<R>)
    ensures
        poly_eq(poly_sub(poly_add(x, y), y), x),
{
    let d = poly_sub(poly_add(x, y), y);
    assert forall|i: int| 0 <= i < max_len(d.len(), x.len()) implies coeff(d, i) == coeff(
        x,
        i,
    ) by {
        lemma_add_then_sub(coeff(x, i), coeff(y, i));
        R::add_zero(R::zero_spec());
        lemma_sub_zero(R::zero_spec());
    }
}

/// A convolution sum may stop at its degree or run past its operand: the
/// terms beyond either are zero.
proof fn lemma_conv_up_to_degree<R: Ring>(x: Seq<R>, y: Seq<R>, k: int)
    requires
        k >= 0,
    ensures
        conv(x, y, k) == sum(conv_term(x, y, k), (k + 1) as nat),
{
    let f = conv_term(x, y, k);
    let n = max_len(x.len(), (k + 1) as nat);
    assert forall|i: int| x.len() <= i < n implies #[trigger] f(i) == R::zero_spec() by {
        lemma_mul_zero(coeff(y, k - i));
    }
    lemma_sum_zero_tail(f, x.len(), n);
    assert forall|i: int| k + 1 <= i < n implies #[trigger] f(i) == R::zero_spec() by {
        lemma_mul_zero(coeff(x, i));
    }
    lemma_sum_zero_tail(f, (k + 1) as nat, n);
}

/// The convolution sums do not depend on the order of the operands.
pub proof fn lemma_conv_commutative<R: Ring>(x: Seq<R>, y: Seq<R>, k: int)
    ensures
        conv(x, y, k) == conv(y, x, k),
{
    if k < 0 {
        lemma_conv_outside(x, y, k);
        lemma_conv_outside(y, x, k);
    } else {
        let f = conv_term(x, y, k);
        let g = conv_term(y, x, k);
        lemma_conv_up_to_degree(x, y, k);
        lemma_conv_up_to_degree(y, x, k);
        assert forall|i: int| 0 <= i < k + 1 implies #[trigger] g(i) == f(k + 1 - 1 - i) by {
            R::mul_commutative(coeff(y, i), coeff(x, k - i));
        }
        lemma_sum_reversed(f, g, (k + 1) as nat);
    }
}

/// Multiplication of polynomials is commutative.
pub proof fn lemma_poly_mul_commutative<R: Ring>(x: Seq<R>, y: Seq<R>)
    ensures
        poly_mul(x, y) == poly_mul(y, x),
{
    assert forall|k: int| 0 <= k < x.len() + y.len() - 1 implies poly_mul(x, y)[k] == poly_mul(
        y,
        x,
    )[k] by {
        lemma_conv_commutative(x, y, k);
    }
}

/// The degree of a product is the sum of the degrees, and its leading
/// coefficient is the product of the leading coefficients.
pub proof fn lemma_product_degree<R: Ring>(x: Seq<R>, y: Seq<R>)
    requires
        x.len() >= 1,
        y.len() >= 1,
    ensures
        poly_degree(poly_mul(x, y)) == poly_degree(x) + poly_degree(y),
        poly_mul(x, y).last() == x.last().mul_spec(y.last()),
{
    let k = x.len() + y.len() - 2;
    let f = conv_term(x, y, k);
    assert forall|i: int| 0 <= i < x.len() && i != x.len() - 1 implies #[trigger] f(i)
        == R::zero_spec() by {
        lemma_mul_zero(coeff(x, i));
    }
    lemma_sum_single(f, x.len(), x.len() - 1);
}

/// Multiplying by the constant polynomial one, from either side, gives the
/// other operand back.
pub proof fn lemma_product_with_one<R: Ring>(x: Seq<R>)
    requires
        x.len() >= 1,
    ensures
        poly_mul(x, seq![R::one_spec()]) == x,
        poly_mul(seq![R::one_spec()], x) == x,
{
    let one = seq![R::one_spec()];
    assert forall|k: int| 0 <= k < x.len() implies poly_mul(x, one)[k] == x[k] by {
        let f = conv_term(x, one, k);
        assert forall|i: int| 0 <= i < x.len() && i != k implies #[trigger] f(i)
            == R::zero_spec() by {
            lemma_mul_zero(coeff(x, i));
        }
        lemma_sum_single(f, x.len(), k);
        R::mul_one(x[k]);
    }
    assert forall|k: int| 0 <= k < x.len() implies poly_mul(one, x)[k] == x[k] by {
        let f = conv_term(one, x, k);
        lemma_sum_single(f, 1, 0);
        lemma_one_mul(x[k]);
    }
}

/// Multiplying by the constant polynomial zero, from either side, gives
/// zeros only: the product equals the zero polynomial of every length.
pub proof fn lemma_product_with_zero<R: Ring>(x: Seq<R>, n: nat)
    requires
        x.len() >= 1,
    ensures
        poly_mul(x, seq![R::zero_spec()]) == zeros::<R>(x.len()),
        poly_mul(seq![R::zero_spec()], x) == zeros::<R>(x.len()),
        poly_eq(poly_mul(x, seq![R::zero_spec()]), zeros::<R>(n)),
        poly_eq(poly_mul(seq![R::zero_spec()], x), zeros::<R>(n)),
{
    let zero = seq![R::zero_spec()];
    assert forall|k: int| 0 <= k < x.len() implies poly_mul(x, zero)[k] == R::zero_spec() by {
        let f = conv_term(x, zero, k);
        assert forall|i: int| 0 <= i < x.len() implies #[trigger] f(i) == R::zero_spec() by {
            lemma_mul_zero(coeff(x, i));
        }
        lemma_sum_of_zeros(f, x.len());
    }
    assert forall|k: int| 0 <= k < x.len() implies poly_mul(zero, x)[k] == R::zero_spec() by {
        let f = conv_term(zero, x, k);
        lemma_mul_zero(coeff(x, k));
        lemma_sum_single(f, 1, 0);
    }
}

/// The product of single coefficients is the single coefficient that is
/// their product in the ring.
pub proof fn lemma_product_of_constants<R: Ring>(a: R, b: R)
    ensures
        poly_mul(seq![a], seq![b]) == seq![a.mul_spec(b)],
{
    let f = conv_term(seq![a], seq![b], 0);
    lemma_sum_single(f, 1, 0);
}

/// Karatsuba's recurrence gives the same coefficients for every threshold,
/// and so does Karatsuba multiplication with padding.
pub proof fn lemma_threshold_invariance<R: Ring>(x: Seq<R>, y: Seq<R>, t1: nat, t2: nat)
    ensures
        karatsuba(x, y, t1) == karatsuba(x, y, t2),
        x.len() >= 1 && y.len() >= 1 ==> karatsuba_padded(x, y, t1) == karatsuba_padded(x, y, t2),
{
    lemma_karatsuba_is_product(x, y, t1);
    lemma_karatsuba_is_product(x, y, t2);
    if x.len() >= 1 && y.len() >= 1 {
        lemma_karatsuba_padded_is_product(x, y, t1);
        lemma_karatsuba_padded_is_product(x, y, t2);
    }
}

/// Continuing the operands by zeros changes the product by trailing zeros
/// only: it stays equal, as a polynomial, to the product of the operands.
pub proof fn lemma_padding_invariance<R: Ring>(x: Seq<R>, y: Seq<R>, n: nat, m: nat)
    requires
        x.len() >= 1,
        y.len() >= 1,
    ensures
        poly_eq(poly_mul(padded(x, n), padded(y, m)), poly_mul(x, y)),
{
    let xp = padded(x, n);
    let yp = padded(y, m);
    assert forall|k: int| coeff(poly_mul(xp, yp), k) == coeff(poly_mul(x, y), k) by {
        assert forall|i: int| coeff(xp, i) == coeff(x, i) by {
            lemma_coeff_padded(x, n, i);
        }
        assert forall|i: int| coeff(yp, i) == coeff(y, i) by {
            lemma_coeff_padded(y, m, i);
        }
        lemma_conv_congruent(xp, yp, x, y, k);
        lemma_coeff_poly_mul(xp, yp, k);
        lemma_coeff_poly_mul(x, y, k);
    }
    lemma_poly_eq_coefficients(poly_mul(xp, yp), poly_mul(x, y));
}

} // verus!
