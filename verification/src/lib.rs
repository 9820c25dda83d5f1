//! Signed fractions in lowest terms.
//!
//! A [`frac::Fraction`] holds an unsigned numerator, an unsigned denominator
//! and a sign. [`frac::Fraction::new`] rejects a zero denominator and divides
//! both parts by their greatest common divisor; the sign-fixed constructors
//! store what they are given. [`conv`] lifts machine integers to fractions
//! with denominator one. [`divisibility`] holds the number theory that the
//! contracts are stated in.

pub mod divisibility;
pub mod frac;
pub mod conv;
