//! A polynomial as a value of its own: a coefficient vector that is never
//! empty.

use crate::convolution::{poly_degree, poly_eq, poly_mul};
use crate::poly;
use crate::recurrence::{karatsuba_padded, padded_len};
use crate::render::{render, rendering};
use crate::ring::Ring;
use vstd::prelude::*;
use vstd::slice::slice_to_vec;

verus! {

/// A dense univariate polynomial: the coefficient of `X^i` at index `i`.
/// There is at least one coefficient; leading coefficients may be zero.
#[derive(Debug)]
pub struct Polynomial<R: Ring> {
    coefficients: Vec<R>,
}

impl<R: Ring> View for Polynomial<R> {
    type V = Seq<R>;

    closed spec fn view(&self) -> Seq<R> {
        self.coefficients@
    }
}

impl<R: Ring> Clone for Polynomial<R> {
    /// A polynomial with the same coefficients.
    fn clone(&self) -> (r: Self)
        ensures
            r@ == self@,
    {
        Polynomial { coefficients: slice_to_vec(self.coefficients()) }
    }
}

impl<R: Ring> Polynomial<R> {
    #[verifier::type_invariant]
    spec fn nonempty(self) -> bool {
        self.coefficients@.len() >= 1
    }

    /// The polynomial with the given coefficients, lowest degree first;
    /// `None` for an empty vector, which is no polynomial.
    pub fn from(coefficients: Vec<R>) -> (p: Option<Self>)
        ensures
            match p {
                Some(p) => coefficients@.len() >= 1 && p@ == coefficients@,
                None => coefficients@.len() == 0,
            },
    {
        if coefficients.len() == 0 {
            None
        } else {
            Some(Polynomial { coefficients })
        }
    }

    /// The coefficients, lowest degree first.
    pub fn coefficients(&self) -> (c: &[R])
        ensures
            c@ == self@,
            c@.len() >= 1,
    {
        proof {
            use_type_invariant(self);
        }
        self.coefficients.as_slice()
    }

    /// The degree: one less than the number of coefficients.
    pub fn degree(&self) -> (d: usize)
        ensures
            d == poly_degree(self@),
    {
        poly::degree(self.coefficients())
    }

    /// The product, by schoolbook multiplication.
    pub fn mul_schoolbook(&self, other: &Self) -> (r: Self)
        requires
            self@.len() + other@.len() - 1 <= usize::MAX,
        ensures
            r@ == poly_mul(self@, other@),
    {
        let product: Vec<R> = poly::mul_schoolbook(self.coefficients(), other.coefficients());
        Polynomial { coefficients: product }
    }

    /// The product, by Karatsuba multiplication down to single coefficients.
    /// The operands may have any lengths.
    pub fn mul_karatsuba(&self, other: &Self) -> (r: Self)
        requires
            padded_len(self@.len(), other@.len()) <= usize::MAX,
        ensures
            r@ == poly_mul(self@, other@),
            r@ == karatsuba_padded(self@, other@, 1),
    {
        self.mul_karatsuba_with_threshold(other, 1)
    }

    /// The product, by Karatsuba multiplication that hands operands no
    /// longer than `threshold` to schoolbook multiplication. The operands may
    /// have any lengths, and the threshold any value.
    pub fn mul_karatsuba_with_threshold(&self, other: &Self, threshold: usize) -> (r: Self)
        requires
            padded_len(self@.len(), other@.len()) <= usize::MAX,
        ensures
            r@ == poly_mul(self@, other@),
            r@ == karatsuba_padded(self@, other@, threshold as nat),
    {
        let product: Vec<R> = poly::mul_karatsuba_padded(
            self.coefficients(),
            other.coefficients(),
            threshold,
        );
        Polynomial { coefficients: product }
    }

    /// Tells whether two polynomials are equal; coefficients that are zero
    /// above the last one that is not make no difference.
    pub fn eq(&self, other: &Self) -> (b: bool)
        ensures
            b == poly_eq(self@, other@),
    {
        poly::eq(self.coefficients(), other.coefficients())
    }

    /// The polynomial written as a sum of monomials, highest degree first.
    pub fn render(&self) -> (s: String)
        ensures
            s@ == rendering(self@),
    {
        render(self.coefficients())
    }
}

} // verus!
