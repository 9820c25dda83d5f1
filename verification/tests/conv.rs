use fraction::frac::{Fraction, FractionSign};

#[test]
fn test_from_u32() {
    assert_eq!(
        Fraction::from(2_u32),
        Fraction::with_positive(2, 1).unwrap()
    );
    assert_eq!(Fraction::from(5), Fraction::with_positive(5, 1).unwrap());
    assert_eq!(Fraction::from(-7), Fraction::with_negative(7, 1).unwrap());
    assert_eq!(Fraction::from(0), Fraction::with_positive(0, 1).unwrap());
}

#[test]
fn from_unsigned_is_positive_over_one() {
    for value in [0u32, 1, 5, 1 << 31, u32::MAX] {
        let f = Fraction::from(value);
        assert_eq!(f.numer(), value);
        assert_eq!(f.denom(), 1);
        assert_eq!(f.sign(), FractionSign::Positive);
        assert_eq!(f, Fraction::with_positive(value, 1).unwrap());
    }
}

#[test]
fn from_signed_takes_the_magnitude() {
    for (value, magnitude) in [(-1i32, 1u32), (-7, 7), (-2_147_483_647, 2_147_483_647)] {
        let f = Fraction::from(value);
        assert_eq!(f.numer(), magnitude);
        assert_eq!(f.denom(), 1);
        assert_eq!(f.sign(), FractionSign::Negative);
        assert_eq!(f, Fraction::with_negative(magnitude, 1).unwrap());
    }
    for (value, magnitude) in [(0i32, 0u32), (1, 1), (5, 5), (i32::MAX, 2_147_483_647)] {
        let f = Fraction::from(value);
        assert_eq!(f.numer(), magnitude);
        assert_eq!(f.denom(), 1);
        assert_eq!(f.sign(), FractionSign::Positive);
        assert_eq!(f, Fraction::with_positive(magnitude, 1).unwrap());
    }
}

#[test]
fn from_signed_minimum_does_not_overflow() {
    let f = Fraction::from(i32::MIN);
    assert_eq!(f.numer(), 2_147_483_648);
    assert_eq!(f.denom(), 1);
    assert_eq!(f.sign(), FractionSign::Negative);
}

#[test]
fn from_signed_zero_is_positive() {
    let zero = Fraction::from(0i32);
    assert_eq!(zero, Fraction::with_positive(0, 1).unwrap());
    assert_ne!(zero, Fraction::with_negative(0, 1).unwrap());
    assert_eq!(zero, Fraction::from(0u32));
}

#[test]
fn conversions_agree_with_the_reducing_constructor() {
    for value in [0u32, 1, 5, 21, u32::MAX] {
        assert_eq!(
            Some(Fraction::from(value)),
            Fraction::new(value, 1, FractionSign::Positive)
        );
    }
    assert_eq!(
        Some(Fraction::from(-7i32)),
        Fraction::new(7, 1, FractionSign::Negative)
    );
}
