use iced_digraph::coord::{Coord, ONE_BITS, TWO_BITS, ZERO_BITS};

fn c(x: f32) -> Coord {
    Coord { bits: x.to_bits() }
}

fn f(x: Coord) -> f32 {
    f32::from_bits(x.bits)
}

const SAMPLES: [f32; 17] = [
    0.0,
    -0.0,
    1.0,
    -1.0,
    6.0,
    0.25,
    0.250_000_03,
    1.0e-45,
    -1.0e-45,
    1.1754944e-38,
    3.4028235e38,
    -3.4028235e38,
    f32::INFINITY,
    f32::NEG_INFINITY,
    f32::NAN,
    100.0,
    0.999_999_94,
];

#[test]
fn comparisons_agree_with_numbers() {
    for a in SAMPLES {
        for b in SAMPLES {
            assert_eq!(c(a).lt(c(b)), a < b, "{} < {}", a, b);
            assert_eq!(c(a).le(c(b)), a <= b, "{} <= {}", a, b);
        }
        assert_eq!(c(a).not_a_number(), a.is_nan());
    }
    assert!(Coord { bits: 0xffc0_0000 }.not_a_number());
}

#[test]
fn order_is_total_on_numbers() {
    for a in SAMPLES {
        for b in SAMPLES {
            if !a.is_nan() && !b.is_nan() {
                assert!(c(a).le(c(b)) != c(b).lt(c(a)));
            }
        }
    }
}

#[test]
fn min_and_max_agree_with_numbers() {
    for a in SAMPLES {
        for b in SAMPLES {
            let (lo, hi) = (f(c(a).min(c(b))), f(c(a).max(c(b))));
            if a.is_nan() && b.is_nan() {
                assert!(lo.is_nan() && hi.is_nan());
            } else {
                assert_eq!(lo, a.min(b));
                assert_eq!(hi, a.max(b));
            }
        }
    }
}

#[test]
fn clamping_agrees_with_numbers() {
    for a in SAMPLES {
        let clamped = c(a).clamp_unit();
        if a.is_nan() {
            assert!(clamped.not_a_number());
        } else {
            assert_eq!(f(clamped), a.clamp(0.0, 1.0));
        }
        assert_eq!(clamped.clamp_unit(), clamped);
        let wide = c(a).clamp(c(2.0), c(256.0));
        if !a.is_nan() {
            assert_eq!(f(wide), a.clamp(2.0, 256.0));
        }
    }
}

#[test]
fn a_negative_zero_is_kept() {
    assert_eq!(c(-0.0).clamp_unit().bits, 0x8000_0000);
}

#[test]
fn named_patterns_are_zero_and_one() {
    assert_eq!(f(Coord { bits: ZERO_BITS }), 0.0);
    assert_eq!(f(Coord { bits: ONE_BITS }), 1.0);
}

#[test]
fn sums_are_rounded_finely_and_in_order() {
    let fine = 2.0f64.powi(-24);
    let numbers = [-1.0f32, -0.7, -0.1, -1.0e-30, 0.0, 1.0e-40, 0.1, 0.3, 0.999_999_94, 1.0];
    for a in numbers {
        let mut before = f32::NEG_INFINITY;
        for b in numbers {
            let sum = a + b;
            assert!((sum as f64 - (a as f64 + b as f64)).abs() <= fine);
            assert!(c(before).le(c(sum)));
            before = sum;
        }
    }
    assert_eq!(2.0f32.to_bits(), TWO_BITS);
}
