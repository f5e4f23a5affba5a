use esp_iot::float_bits::{f32_gt, f32_lt};

fn samples() -> Vec<f32> {
    vec![
        0.0,
        -0.0,
        1.0,
        -1.0,
        0.5,
        -0.5,
        1.5e-45,
        -1.5e-45,
        1.0e-40,
        3.4e38,
        -3.4e38,
        f32::INFINITY,
        f32::NEG_INFINITY,
        f32::NAN,
        -f32::NAN,
        f32::from_bits(0x7fc0_0001),
        f32::MIN_POSITIVE,
        25.5,
        100.0,
        -273.15,
    ]
}

#[test]
fn lt_matches_f32_less_than() {
    for &a in &samples() {
        for &b in &samples() {
            assert_eq!(f32_lt(a.to_bits(), b.to_bits()), a < b, "{} < {}", a, b);
        }
    }
}

#[test]
fn gt_matches_f32_greater_than() {
    for &a in &samples() {
        for &b in &samples() {
            assert_eq!(f32_gt(a.to_bits(), b.to_bits()), a > b, "{} > {}", a, b);
        }
    }
}

#[test]
fn zeros_are_equal() {
    assert!(!f32_lt(0.0f32.to_bits(), (-0.0f32).to_bits()));
    assert!(!f32_lt((-0.0f32).to_bits(), 0.0f32.to_bits()));
}

#[test]
fn nan_is_unordered() {
    let nan = f32::NAN.to_bits();
    assert!(!f32_lt(nan, 1.0f32.to_bits()));
    assert!(!f32_gt(nan, 1.0f32.to_bits()));
    assert!(!f32_lt(nan, nan));
}

#[test]
fn lt_is_irreflexive_and_transitive_on_samples() {
    let s = samples();
    for &a in &s {
        assert!(!f32_lt(a.to_bits(), a.to_bits()));
        for &b in &s {
            for &c in &s {
                if f32_lt(a.to_bits(), b.to_bits()) && f32_lt(b.to_bits(), c.to_bits()) {
                    assert!(f32_lt(a.to_bits(), c.to_bits()));
                }
            }
        }
    }
}
