use rox::num::num_is_nan;
use rox::num::num_less;
use rox::num::num_less_eq;
use rox::num::num_negate;
use rox::num::num_zero_test;

fn samples() -> Vec<f64> {
    vec![
        0.0,
        -0.0,
        1.0,
        -1.0,
        0.5,
        -0.5,
        2.0,
        1e300,
        -1e300,
        1e-320, // denormal
        -1e-320,
        f64::INFINITY,
        f64::NEG_INFINITY,
        f64::NAN,
        f64::MAX,
        f64::MIN,
        f64::MIN_POSITIVE,
        3.141592653589793,
        -2.718281828459045,
    ]
}

#[test]
fn ordering_matches_ieee() {
    for &a in &samples() {
        for &b in &samples() {
            assert_eq!(
                num_less(a.to_bits(), b.to_bits()),
                a < b,
                "num_less disagrees on {} < {}",
                a,
                b
            );
            assert_eq!(
                num_less_eq(a.to_bits(), b.to_bits()),
                a <= b,
                "num_less_eq disagrees on {} <= {}",
                a,
                b
            );
        }
    }
}

#[test]
fn nan_test_matches_ieee() {
    for &a in &samples() {
        assert_eq!(num_is_nan(a.to_bits()), a.is_nan());
    }
}

#[test]
fn negation_matches_ieee() {
    for &a in &samples() {
        assert_eq!(num_negate(a.to_bits()), (-a).to_bits());
    }
}

#[test]
fn zero_test_matches_ieee() {
    for &a in &samples() {
        assert_eq!(num_zero_test(a.to_bits()), a == 0.0);
    }
}
