use ray_rust::march::{FAR_AWAY_BITS, RAYMARCH_EPS_BITS};
use ray_rust::scalar::{Scalar, EPSILON_BITS, INFINITY_BITS, ONE_BITS, SIGN_BIT};
use ray_rust::shade::{ambient, AMBIENT_BITS};
use ray_rust::trace::LOW_ENERGY_BITS;

fn s(v: f32) -> Scalar {
    Scalar::from_bits(v.to_bits())
}

fn samples() -> Vec<f32> {
    vec![
        f32::NEG_INFINITY,
        f32::MIN,
        -3.5,
        -1.0,
        -f32::MIN_POSITIVE,
        -1.0e-45,
        -0.0,
        0.0,
        1.0e-45,
        f32::MIN_POSITIVE,
        f32::EPSILON,
        1.0e-3,
        0.1,
        0.2,
        1.0,
        2.5,
        1.0e4,
        f32::MAX,
        f32::INFINITY,
        f32::NAN,
        -f32::NAN,
    ]
}

#[test]
fn less_than_agrees_with_the_hardware() {
    for a in samples() {
        for b in samples() {
            assert_eq!(s(a).lt(s(b)), a < b, "{} < {}", a, b);
        }
    }
}

#[test]
fn at_most_agrees_with_the_hardware() {
    for a in samples() {
        for b in samples() {
            assert_eq!(s(a).le(s(b)), a <= b, "{} <= {}", a, b);
        }
    }
}

#[test]
fn same_value_agrees_with_the_hardware() {
    for a in samples() {
        for b in samples() {
            assert_eq!(s(a).same_value(s(b)), a == b, "{} == {}", a, b);
        }
    }
}

#[test]
fn is_nan_agrees_with_the_hardware() {
    for a in samples() {
        assert_eq!(s(a).is_nan(), a.is_nan(), "{}", a);
    }
    assert!(Scalar::from_bits(0x7fc0_0000).is_nan());
    assert!(Scalar::from_bits(0xffff_ffff).is_nan());
    assert!(!Scalar::from_bits(0xff80_0000).is_nan());
}

#[test]
fn the_two_zeros_are_one_number_and_two_patterns() {
    assert!(s(0.0).same_value(s(-0.0)));
    assert!(!s(-0.0).lt(s(0.0)));
    assert!(s(-0.0).le(s(0.0)));
    assert_ne!(s(0.0), s(-0.0));
}

#[test]
fn a_nan_is_its_own_pattern_and_no_number() {
    let nan = s(f32::NAN);
    assert_eq!(nan, nan);
    assert!(!nan.same_value(nan));
    assert!(!nan.le(nan));
}

#[test]
fn patterns_go_in_and_out_unchanged() {
    for a in samples() {
        assert_eq!(s(a).to_bits(), a.to_bits());
    }
    assert_eq!(Scalar::from_bits(0x1234_5678).to_bits(), 0x1234_5678);
}

#[test]
fn named_numbers_have_the_patterns_of_their_values() {
    assert_eq!(Scalar::zero().to_bits(), 0.0f32.to_bits());
    assert_eq!(Scalar::one().to_bits(), 1.0f32.to_bits());
    assert_eq!(Scalar::infinity().to_bits(), f32::INFINITY.to_bits());
    assert_eq!(Scalar::epsilon().to_bits(), f32::EPSILON.to_bits());
    assert_eq!(ONE_BITS, 1.0f32.to_bits());
    assert_eq!(INFINITY_BITS, f32::INFINITY.to_bits());
    assert_eq!(EPSILON_BITS, f32::EPSILON.to_bits());
    assert_eq!(SIGN_BIT, (-0.0f32).to_bits());
    assert_eq!(LOW_ENERGY_BITS, 0.1f32.to_bits());
    assert_eq!(AMBIENT_BITS, 0.2f32.to_bits());
    assert_eq!(ambient().to_bits(), 0.2f32.to_bits());
    assert_eq!(RAYMARCH_EPS_BITS, 1e-3f32.to_bits());
    assert_eq!(FAR_AWAY_BITS, 1e4f32.to_bits());
}
