//! Machine integers as fractions with denominator one.

use vstd::prelude::*;
use vstd::std_specs::convert::FromSpecImpl;
use crate::divisibility::lemma_gcd_with_one;
use crate::frac::{lemma_with_view, Fraction, FractionSign, FractionView};

verus! {

/// `i32::unsigned_abs` returns the absolute value of its argument. The
/// result is a `u32`, which holds the magnitude of every `i32`, that of
/// `i32::MIN` too, so nothing wraps and nothing panics. Verus takes this
/// on trust.
pub assume_specification[ i32::unsigned_abs ](value: i32) -> (magnitude: u32)
    ensures
        value < 0 ==> magnitude == -value,
        value >= 0 ==> magnitude == value,
;

/// The parts of the fraction that stands for the unsigned integer `value`:
/// `value / 1`, positive.
pub open spec fn unsigned_view(value: nat) -> FractionView {
    FractionView { numer: value, denom: 1, sign: FractionSign::Positive }
}

/// The parts of the fraction that stands for the signed integer `value`:
/// its magnitude over 1, negative below zero and positive from zero on.
pub open spec fn signed_view(value: int) -> FractionView {
    if value < 0 {
        FractionView { numer: (-value) as nat, denom: 1, sign: FractionSign::Negative }
    } else {
        FractionView { numer: value as nat, denom: 1, sign: FractionSign::Positive }
    }
}

impl From<u32> for Fraction {
    /// `value / 1`, positive: what `with_positive(value, 1)` holds.
    fn from(value: u32) -> (ret: Self)
        ensures
            ret@ == unsigned_view(value as nat),
            ret@.is_lowest_terms(),
    {
        let ret = Self::with_positive(value, 1).unwrap();
        proof {
            lemma_with_view(ret);
            lemma_gcd_with_one(value as nat);
        }
        ret
    }
}

impl FromSpecImpl<u32> for Fraction {
    open spec fn obeys_from_spec() -> bool {
        true
    }

    open spec fn from_spec(value: u32) -> Self {
        Fraction::with_view(unsigned_view(value as nat))
    }
}

impl From<i32> for Fraction {
    /// The magnitude of `value` over 1: what `with_negative` holds for it
    /// below zero, and what `with_positive` holds from zero on. The
    /// magnitude of `i32::MIN` fits.
    fn from(value: i32) -> (ret: Self)
        ensures
            ret@ == signed_view(value as int),
            ret@.is_lowest_terms(),
    {
        let ret = if value < 0 {
            Self::with_negative(value.unsigned_abs(), 1).unwrap()
        } else {
            Self::with_positive(value as u32, 1).unwrap()
        };
        proof {
            lemma_with_view(ret);
            lemma_gcd_with_one(ret@.numer);
        }
        ret
    }
}

impl FromSpecImpl<i32> for Fraction {
    open spec fn obeys_from_spec() -> bool {
        true
    }

    open spec fn from_spec(value: i32) -> Self {
        Fraction::with_view(signed_view(value as int))
    }
}

} // verus!
