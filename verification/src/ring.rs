//! The coefficient ring: operations, their mathematical meaning, and the
//! ring axioms every implementation has to prove.

use vstd::prelude::*;

verus! {

/// A commutative ring with identity.
///
/// The `*_spec` functions are the mathematical operations. The proof
/// functions are the ring axioms, stated over them and over spec equality;
/// an implementation proves them once. The executable operations compute
/// exactly the mathematical ones, and `eq` decides spec equality, so two
/// values that `eq` tells apart are different ring elements.
pub trait Ring: Sized + Copy {
    /// The additive identity.
    spec fn zero_spec() -> Self;

    /// The multiplicative identity.
    spec fn one_spec() -> Self;

    /// The sum of two elements.
    spec fn add_spec(self, rhs: Self) -> Self;

    /// The difference of two elements.
    spec fn sub_spec(self, rhs: Self) -> Self;

    /// The product of two elements.
    spec fn mul_spec(self, rhs: Self) -> Self;

    /// The characters an element is written with.
    spec fn text_spec(self) -> Seq<char>;

    /// Addition is commutative.
    proof fn add_commutative(a: Self, b: Self)
        ensures
            a.add_spec(b) == b.add_spec(a),
    ;

    /// Addition is associative.
    proof fn add_associative(a: Self, b: Self, c: Self)
        ensures
            a.add_spec(b).add_spec(c) == a.add_spec(b.add_spec(c)),
    ;

    /// Zero is neutral for addition.
    proof fn add_zero(a: Self)
        ensures
            a.add_spec(Self::zero_spec()) == a,
    ;

    /// Subtraction undoes addition: `(a - b) + b == a`.
    proof fn sub_then_add(a: Self, b: Self)
        ensures
            a.sub_spec(b).add_spec(b) == a,
    ;

    /// Multiplication is commutative.
    proof fn mul_commutative(a: Self, b: Self)
        ensures
            a.mul_spec(b) == b.mul_spec(a),
    ;

    /// Multiplication is associative.
    proof fn mul_associative(a: Self, b: Self, c: Self)
        ensures
            a.mul_spec(b).mul_spec(c) == a.mul_spec(b.mul_spec(c)),
    ;

    /// One is neutral for multiplication.
    proof fn mul_one(a: Self)
        ensures
            a.mul_spec(Self::one_spec()) == a,
    ;

    /// Multiplication distributes over addition.
    proof fn mul_distributive(a: Self, b: Self, c: Self)
        ensures
            a.mul_spec(b.add_spec(c)) == a.mul_spec(b).add_spec(a.mul_spec(c)),
    ;

    /// The additive identity.
    fn zero() -> (r: Self)
        ensures
            r == Self::zero_spec(),
    ;

    /// The multiplicative identity.
    fn one() -> (r: Self)
        ensures
            r == Self::one_spec(),
    ;

    /// The sum of two elements.
    fn add(self, rhs: Self) -> (r: Self)
        ensures
            r == self.add_spec(rhs),
    ;

    /// The difference of two elements.
    fn sub(self, rhs: Self) -> (r: Self)
        ensures
            r == self.sub_spec(rhs),
    ;

    /// The product of two elements.
    fn mul(self, rhs: Self) -> (r: Self)
        ensures
            r == self.mul_spec(rhs),
    ;

    /// Tells whether two elements are the same.
    fn eq(&self, rhs: &Self) -> (b: bool)
        ensures
            b == (*self == *rhs),
    ;

    /// Tells whether an element is the additive identity.
    fn is_zero(&self) -> (b: bool)
        ensures
            b == (*self == Self::zero_spec()),
    ;

    /// An element written out.
    fn to_text(&self) -> (s: String)
        ensures
            s@ == self.text_spec(),
    ;
}

/// `0 + a == a`.
pub proof fn lemma_zero_add<R: Ring>(a: R)
    ensures
        R::zero_spec().add_spec(a) == a,
{
    R::add_commutative(R::zero_spec(), a);
    R::add_zero(a);
}

/// Addition can be cancelled: `a + c == b + c` forces `a == b`.
pub proof fn lemma_add_cancel<R: Ring>(a: R, b: R, c: R)
    requires
        a.add_spec(c) == b.add_spec(c),
    ensures
        a == b,
{
    let n = R::zero_spec().sub_spec(c);
    R::sub_then_add(R::zero_spec(), c);
    R::add_commutative(n, c);
    R::add_associative(a, c, n);
    R::add_associative(b, c, n);
    R::add_zero(a);
    R::add_zero(b);
}

/// `(a + b) - b == a`.
pub proof fn lemma_add_then_sub<R: Ring>(a: R, b: R)
    ensures
        a.add_spec(b).sub_spec(b) == a,
{
    R::sub_then_add(a.add_spec(b), b);
    lemma_add_cancel(a.add_spec(b).sub_spec(b), a, b);
}

/// `a - 0 == a`.
pub proof fn lemma_sub_zero<R: Ring>(a: R)
    ensures
        a.sub_spec(R::zero_spec()) == a,
{
    R::sub_then_add(a, R::zero_spec());
    R::add_zero(a.sub_spec(R::zero_spec()));
}

/// `a * 0 == 0` and `0 * a == 0`.
pub proof fn lemma_mul_zero<R: Ring>(a: R)
    ensures
        a.mul_spec(R::zero_spec()) == R::zero_spec(),
        R::zero_spec().mul_spec(a) == R::zero_spec(),
{
    let z = R::zero_spec();
    let p = a.mul_spec(z);
    R::add_zero(z);
    R::mul_distributive(a, z, z);
    lemma_zero_add(p);
    lemma_add_cancel(z, p, p);
    R::mul_commutative(a, z);
}

/// `1 * a == a`.
pub proof fn lemma_one_mul<R: Ring>(a: R)
    ensures
        R::one_spec().mul_spec(a) == a,
{
    R::mul_commutative(R::one_spec(), a);
    R::mul_one(a);
}

/// Multiplication distributes over addition from the right:
/// `(a + b) * c == a * c + b * c`.
pub proof fn lemma_mul_distributive_right<R: Ring>(a: R, b: R, c: R)
    ensures
        a.add_spec(b).mul_spec(c) == a.mul_spec(c).add_spec(b.mul_spec(c)),
{
    R::mul_commutative(a.add_spec(b), c);
    R::mul_distributive(c, a, b);
    R::mul_commutative(c, a);
    R::mul_commutative(c, b);
}

/// Two sums added term by term: `(a + b) + (c + d) == (a + c) + (b + d)`.
pub proof fn lemma_add_interchange<R: Ring>(a: R, b: R, c: R, d: R)
    ensures
        a.add_spec(b).add_spec(c.add_spec(d)) == a.add_spec(c).add_spec(b.add_spec(d)),
{
    R::add_associative(a, b, c.add_spec(d));
    R::add_associative(b, c, d);
    R::add_commutative(b, c);
    R::add_associative(c, b, d);
    R::add_associative(a, c, b.add_spec(d));
}

} // verus!
