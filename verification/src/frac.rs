//! The fraction type, its constructors and the greatest common divisor that
//! the reducing constructor divides by.

use vstd::prelude::*;
use vstd::arithmetic::div_mod::{lemma_div_by_self, lemma_div_multiples_vanish};
use crate::divisibility::{
    greatest_common_divisor, is_gcd, lemma_exact_division, lemma_gcd_divides_both,
    lemma_gcd_is_gcd, lemma_gcd_left_zero, lemma_gcd_of_multiples, lemma_gcd_of_quotients,
    lemma_gcd_right_zero, lemma_gcd_step,
};

verus! {

/// The sign of a fraction.
#[derive(Debug, Clone, Copy, PartialEq, Eq, Structural)]
pub enum FractionSign {
    Positive,
    Negative,
}

/// Numerator / Denominator, with a sign.
///
/// Zero has no preferred sign: `0/1` positive and `0/1` negative are two
/// values.
#[derive(Debug, PartialEq, Eq, Structural)]
pub struct Fraction {
    numer: u32,
    denom: u32,
    sign: FractionSign,
}

/// What a [`Fraction`] holds, as mathematical values.
pub struct FractionView {
    pub numer: nat,
    pub denom: nat,
    pub sign: FractionSign,
}

impl View for Fraction {
    type V = FractionView;

    closed spec fn view(&self) -> FractionView {
        FractionView { numer: self.numer as nat, denom: self.denom as nat, sign: self.sign }
    }
}

impl FractionView {
    /// The denominator is not zero and shares no divisor but 1 with the
    /// numerator.
    pub open spec fn is_lowest_terms(self) -> bool {
        self.denom != 0 && greatest_common_divisor(self.numer, self.denom) == 1
    }
}

/// What [`Fraction::new`] makes of its arguments: nothing where the
/// denominator is zero, else both parts divided by their greatest common
/// divisor, and the sign as given.
pub open spec fn normalized(numer: nat, denom: nat, sign: FractionSign) -> Option<FractionView> {
    if denom == 0 {
        None
    } else {
        let g = greatest_common_divisor(numer, denom);
        Some(FractionView { numer: numer / g, denom: denom / g, sign })
    }
}

impl Fraction {
    /// Builds the fraction `numer / denom` in lowest terms, or `None` where
    /// `denom` is zero. A zero numerator gives `0/1`.
    pub fn new(numer: u32, denom: u32, sign: FractionSign) -> (r: Option<Self>)
        ensures
            denom == 0 <==> r is None,
            r matches Some(f) ==> Some(f@) == normalized(numer as nat, denom as nat, sign),
            r matches Some(f) ==> f@.is_lowest_terms(),
    {
        if denom == 0 {
            return None;
        }
        let gcd: u32 = gcd(numer, denom);
        proof {
            lemma_normalized_lowest_terms(numer as nat, denom as nat, sign);
        }
        Some(Fraction { numer: numer / gcd, denom: denom / gcd, sign })
    }

    /// Stores `numer` and `denom` as they are, with a positive sign: no
    /// reduction, and a zero denominator is stored like any other. Always
    /// `Some`.
    pub fn with_positive(numer: u32, denom: u32) -> (r: Option<Self>)
        ensures
            r matches Some(f) && f@ == (FractionView {
                numer: numer as nat,
                denom: denom as nat,
                sign: FractionSign::Positive,
            }),
    {
        Some(Fraction { numer, denom, sign: FractionSign::Positive })
    }

    /// Stores `numer` and `denom` as they are, with a negative sign: no
    /// reduction, and a zero denominator is stored like any other. Always
    /// `Some`.
    pub fn with_negative(numer: u32, denom: u32) -> (r: Option<Self>)
        ensures
            r matches Some(f) && f@ == (FractionView {
                numer: numer as nat,
                denom: denom as nat,
                sign: FractionSign::Negative,
            }),
    {
        Some(Fraction { numer, denom, sign: FractionSign::Negative })
    }

    /// The fraction whose parts are those of `v`. Where a part of `v` does
    /// not fit in 32 bits there is no such fraction, and this is some
    /// fraction or other.
    pub open spec fn with_view(v: FractionView) -> Fraction {
        choose|f: Fraction| f@ == v
    }

    /// The numerator.
    pub fn numer(&self) -> (r: u32)
        ensures
            r == self@.numer,
    {
        self.numer
    }

    /// The denominator.
    pub fn denom(&self) -> (r: u32)
        ensures
            r == self@.denom,
    {
        self.denom
    }

    /// The sign.
    pub fn sign(&self) -> (r: FractionSign)
        ensures
            r == self@.sign,
    {
        self.sign
    }
}

/// Computes the greatest common divisor of `m` and `n` by Euclid's
/// algorithm. `gcd(x, 0)` and `gcd(0, x)` are `x`, so `gcd(0, 0)` is 0.
pub fn gcd(m: u32, n: u32) -> (g: u32)
    ensures
        is_gcd(g as nat, m as nat, n as nat),
        g == greatest_common_divisor(m as nat, n as nat),
{
    let mut a: u32 = m;
    let mut b: u32 = n;
    while b != 0
        invariant
            greatest_common_divisor(a as nat, b as nat) == greatest_common_divisor(
                m as nat,
                n as nat,
            ),
        decreases b,
    {
        let remainder: u32 = a % b;
        proof {
            lemma_gcd_step(a as nat, b as nat);
        }
        a = b;
        b = remainder;
    }
    proof {
        lemma_gcd_right_zero(a as nat);
        lemma_gcd_is_gcd(m as nat, n as nat);
    }
    a
}

/// Two fractions are equal exactly when numerator, denominator and sign all
/// agree. Fractions that stand for the same number in different terms, or
/// zeros of different sign, are different values.
pub proof fn lemma_equality_is_structural(a: Fraction, b: Fraction)
    ensures
        a == b <==> a@ == b@,
{
}

/// A fraction is the fraction with its own parts.
pub proof fn lemma_with_view(f: Fraction)
    ensures
        Fraction::with_view(f@) == f,
{
    lemma_equality_is_structural(Fraction::with_view(f@), f);
}

/// With a nonzero denominator, what the reducing constructor gives is in
/// lowest terms.
pub proof fn lemma_normalized_lowest_terms(numer: nat, denom: nat, sign: FractionSign)
    requires
        denom != 0,
    ensures
        normalized(numer, denom, sign) matches Some(v) && v.is_lowest_terms(),
{
    let g = greatest_common_divisor(numer, denom);
    lemma_gcd_of_quotients(numer, denom);
    lemma_gcd_divides_both(numer, denom);
    lemma_exact_division(g, denom);
    assert(denom / g != 0) by (nonlinear_arith)
        requires
            denom != 0,
            denom == g * (denom / g),
    ;
}

/// Reducing keeps the number that the fraction stands for: the given and
/// the reduced pair are equal when multiplied crosswise.
pub proof fn lemma_normalized_same_value(numer: nat, denom: nat, sign: FractionSign)
    requires
        denom != 0,
    ensures
        normalized(numer, denom, sign) matches Some(v) && v.sign == sign && v.numer * denom
            == numer * v.denom,
{
    let g = greatest_common_divisor(numer, denom);
    lemma_gcd_of_quotients(numer, denom);
    lemma_gcd_divides_both(numer, denom);
    lemma_exact_division(g, numer);
    lemma_exact_division(g, denom);
    let a = numer / g;
    let b = denom / g;
    assert(a * denom == numer * b) by (nonlinear_arith)
        requires
            numer == g * a,
            denom == g * b,
    ;
}

/// Reducing cancels whatever factor numerator and denominator share: a
/// nonzero multiple of a pair in lowest terms reduces to that pair.
pub proof fn lemma_normalized_cancels_factor(k: nat, v: FractionView)
    requires
        k != 0,
        v.is_lowest_terms(),
    ensures
        normalized(k * v.numer, k * v.denom, v.sign) == Some(v),
{
    lemma_gcd_of_multiples(k, v.numer, v.denom);
    lemma_div_multiples_vanish(v.numer as int, k as int);
    lemma_div_multiples_vanish(v.denom as int, k as int);
    assert(k * v.denom != 0) by (nonlinear_arith)
        requires
            k != 0,
            v.denom != 0,
    ;
    assert(k * v.numer == v.numer * k && k * v.denom == v.denom * k) by (nonlinear_arith);
}

/// A pair that is in lowest terms already comes back unchanged.
pub proof fn lemma_normalized_keeps_lowest_terms(v: FractionView)
    requires
        v.is_lowest_terms(),
    ensures
        normalized(v.numer, v.denom, v.sign) == Some(v),
{
}

/// Reducing twice gives what reducing once gives.
pub proof fn lemma_normalized_idempotent(numer: nat, denom: nat, sign: FractionSign)
    requires
        denom != 0,
    ensures
        normalized(numer, denom, sign) matches Some(v) && normalized(v.numer, v.denom, v.sign)
            == Some(v),
{
    lemma_normalized_lowest_terms(numer, denom, sign);
    lemma_normalized_keeps_lowest_terms(normalized(numer, denom, sign).unwrap());
}

/// A zero numerator over any nonzero denominator is stored as `0/1`.
pub proof fn lemma_normalized_zero_numerator(denom: nat, sign: FractionSign)
    requires
        denom != 0,
    ensures
        normalized(0, denom, sign) == Some(FractionView { numer: 0, denom: 1, sign }),
{
    lemma_gcd_left_zero(denom);
    lemma_div_by_self(denom as int);
}

} // verus!
