use phase_cloud::sample::{
    sample_gt, sample_is_nan, sample_lt, sample_total_rank, sample_value_rank, INFINITY,
    LARGEST_FINITE, LEAST_FINITE, SIGN_BIT,
};

fn probes() -> Vec<f64> {
    vec![
        0.0,
        -0.0,
        1.0,
        -1.0,
        0.5,
        -0.5,
        2.0,
        -2.0,
        1e-310,
        -1e-310,
        f64::MIN_POSITIVE,
        f64::MAX,
        f64::MIN,
        f64::INFINITY,
        f64::NEG_INFINITY,
        f64::NAN,
        -f64::NAN,
        3.141592653589793,
        -2.718281828459045,
        1e300,
        -1e300,
    ]
}

#[test]
fn constants_are_the_encodings_they_name() {
    assert_eq!(SIGN_BIT, (-0.0f64).to_bits());
    assert_eq!(INFINITY, f64::INFINITY.to_bits());
    assert_eq!(LARGEST_FINITE, f64::MAX.to_bits());
    assert_eq!(LEAST_FINITE, f64::MIN.to_bits());
}

#[test]
fn gt_agrees_with_the_encoded_numbers() {
    for a in probes() {
        for b in probes() {
            assert_eq!(sample_gt(a.to_bits(), b.to_bits()), a > b, "{a} > {b}");
        }
    }
}

#[test]
fn lt_agrees_with_the_encoded_numbers() {
    for a in probes() {
        for b in probes() {
            assert_eq!(sample_lt(a.to_bits(), b.to_bits()), a < b, "{a} < {b}");
        }
    }
}

#[test]
fn nan_is_told_from_numbers() {
    for a in probes() {
        assert_eq!(sample_is_nan(a.to_bits()), a.is_nan(), "{a}");
    }
    assert!(sample_is_nan(0x7ff0_0000_0000_0001));
    assert!(sample_is_nan(0xffff_ffff_ffff_ffff));
    assert!(!sample_is_nan(0xfff0_0000_0000_0000));
}

#[test]
fn gt_is_false_on_nan() {
    let nan = f64::NAN.to_bits();
    assert!(!sample_gt(nan, 0.0f64.to_bits()));
    assert!(!sample_gt(0.0f64.to_bits(), nan));
    assert!(!sample_gt(nan, nan));
    assert!(!sample_gt(f64::INFINITY.to_bits(), nan));
}

#[test]
fn both_zeros_compare_equal() {
    let pos = 0.0f64.to_bits();
    let neg = (-0.0f64).to_bits();
    assert!(!sample_gt(pos, neg));
    assert!(!sample_gt(neg, pos));
    assert_eq!(sample_value_rank(pos), 0);
    assert_eq!(sample_value_rank(neg), 0);
}

#[test]
fn value_rank_exact_values() {
    assert_eq!(sample_value_rank(1.0f64.to_bits()), 0x3ff0_0000_0000_0000);
    assert_eq!(sample_value_rank((-1.0f64).to_bits()), -0x3ff0_0000_0000_0000);
    assert_eq!(sample_value_rank(u64::MAX), -0x7fff_ffff_ffff_ffff);
}

#[test]
fn total_rank_exact_values() {
    assert_eq!(sample_total_rank(0.0f64.to_bits()), 0);
    assert_eq!(sample_total_rank((-0.0f64).to_bits()), -1);
    assert_eq!(sample_total_rank(u64::MAX), i64::MIN);
    assert_eq!(sample_total_rank(0x7fff_ffff_ffff_ffff), i64::MAX);
}

#[test]
fn total_rank_orders_as_total_cmp() {
    for a in probes() {
        for b in probes() {
            let by_rank = sample_total_rank(a.to_bits()) < sample_total_rank(b.to_bits());
            let by_std = a.total_cmp(&b) == std::cmp::Ordering::Less;
            assert_eq!(by_rank, by_std, "{a} before {b}");
        }
    }
}
