//! The integers modulo 2^64 as a ring: `u64` with wrapping arithmetic.

use crate::decimal::{decimal, decimal_string};
use crate::ring::Ring;
use vstd::arithmetic::div_mod::{lemma_add_mod_noop, lemma_mul_mod_noop_general};
use vstd::arithmetic::mul::{
    lemma_mul_is_associative, lemma_mul_is_commutative, lemma_mul_is_distributive_add,
};
use vstd::prelude::*;

verus! {

/// The number of values of a `u64`.
pub open spec fn modulus() -> int {
    0x1_0000_0000_0000_0000
}

/// The additive identity of `u64` as `num::Zero::zero` gives it: `num`
/// defines it for `u64` as the literal `0`.
#[verifier::external_body]
fn num_zero() -> (r: u64)
    ensures
        r == 0,
{
    num::Zero::zero()
}

/// Whether `v` is the additive identity, as `num::Zero::is_zero` tells it:
/// `num` defines it for `u64` as a comparison with the literal `0`.
#[verifier::external_body]
fn num_is_zero(v: &u64) -> (b: bool)
    ensures
        b == (*v == 0),
{
    num::Zero::is_zero(v)
}

/// The multiplicative identity of `u64` as `num::One::one` gives it: `num`
/// defines it for `u64` as the literal `1`.
#[verifier::external_body]
fn num_one() -> (r: u64)
    ensures
        r == 1,
{
    num::One::one()
}

impl Ring for u64 {
    open spec fn zero_spec() -> u64 {
        0
    }

    open spec fn one_spec() -> u64 {
        1
    }

    open spec fn add_spec(self, rhs: u64) -> u64 {
        ((self + rhs) % modulus()) as u64
    }

    open spec fn sub_spec(self, rhs: u64) -> u64 {
        ((self - rhs) % modulus()) as u64
    }

    open spec fn mul_spec(self, rhs: u64) -> u64 {
        ((self * rhs) % modulus()) as u64
    }

    open spec fn text_spec(self) -> Seq<char> {
        decimal(self as nat)
    }

    proof fn add_commutative(a: u64, b: u64) {
    }

    proof fn add_associative(a: u64, b: u64, c: u64) {
    }

    proof fn add_zero(a: u64) {
    }

    proof fn sub_then_add(a: u64, b: u64) {
    }

    proof fn mul_commutative(a: u64, b: u64) {
        lemma_mul_is_commutative(a as int, b as int);
    }

    proof fn mul_associative(a: u64, b: u64, c: u64) {
        let m = modulus();
        lemma_mul_mod_noop_general(a * b, c as int, m);
        lemma_mul_mod_noop_general(a as int, b * c, m);
        lemma_mul_is_associative(a as int, b as int, c as int);
    }

    proof fn mul_one(a: u64) {
    }

    proof fn mul_distributive(a: u64, b: u64, c: u64) {
        let m = modulus();
        lemma_mul_mod_noop_general(a as int, b + c, m);
        lemma_mul_is_distributive_add(a as int, b as int, c as int);
        lemma_add_mod_noop(a * b, a * c, m);
    }

    fn zero() -> u64 {
        num_zero()
    }

    fn one() -> u64 {
        num_one()
    }

    fn add(self, rhs: u64) -> u64 {
        self.wrapping_add(rhs)
    }

    fn sub(self, rhs: u64) -> u64 {
        self.wrapping_sub(rhs)
    }

    fn mul(self, rhs: u64) -> u64 {
        self.wrapping_mul(rhs)
    }

    fn eq(&self, rhs: &u64) -> bool {
        *self == *rhs
    }

    fn is_zero(&self) -> bool {
        num_is_zero(self)
    }

    fn to_text(&self) -> String {
        decimal_string(*self)
    }
}

} // verus!
