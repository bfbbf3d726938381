//! Dense univariate polynomials over a commutative ring, with schoolbook and
//! Karatsuba multiplication whose results are proved equal to the
//! convolution of the coefficient sequences.

pub mod convolution;
pub mod decimal;
pub mod integers;
pub mod laws;
pub mod poly;
pub mod polynomial;
pub mod powers;
pub mod recurrence;
pub mod render;
pub mod ring;
pub mod sums;
