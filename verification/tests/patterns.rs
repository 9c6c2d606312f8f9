use fast_bernoulli::binary64::{
    is_one, is_probability, is_zero, to_count, FRACTION_MASK, HIDDEN_BIT, ONE, SIGN_BIT,
};
use rand::rngs::StdRng;
use rand::{RngCore, SeedableRng};

/// The count that a float stands for, computed with float comparisons and
/// the language's own conversion.
fn count_by_float(value: f64) -> u32 {
    if value <= (u32::MAX as f64) {
        value as u32
    } else {
        u32::MAX
    }
}

fn special_values() -> Vec<f64> {
    vec![
        0.0,
        -0.0,
        1.0,
        -1.0,
        0.5,
        0.01,
        0.99,
        1.5,
        2.0,
        3.0,
        5.9,
        1.0 - f64::EPSILON / 2.0,
        1.0 + f64::EPSILON,
        f64::MIN_POSITIVE,
        f64::MIN_POSITIVE / 2.0,
        f64::from_bits(1),
        -f64::from_bits(1),
        -f64::MIN_POSITIVE,
        1048576.0,
        2147483648.0,
        4294967294.0,
        4294967294.5,
        4294967295.0,
        4294967295.5,
        4294967296.0,
        8589934592.0,
        9007199254740992.0,
        1e300,
        -1e300,
        f64::MAX,
        f64::MIN,
        f64::INFINITY,
        f64::NEG_INFINITY,
        f64::NAN,
        -f64::NAN,
        f64::from_bits(0x7FF0_0000_0000_0001),
        f64::from_bits(0xFFF0_0000_0000_0001),
    ]
}

#[test]
fn constants_are_the_patterns_they_name() {
    assert_eq!(ONE, 1.0f64.to_bits());
    assert_eq!(SIGN_BIT, (-0.0f64).to_bits());
    assert_eq!(HIDDEN_BIT, 1u64 << 52);
    assert_eq!(FRACTION_MASK, (1u64 << 52) - 1);
}

#[test]
fn zero_has_two_patterns() {
    assert!(is_zero(0.0f64.to_bits()));
    assert!(is_zero((-0.0f64).to_bits()));
    assert!(!is_zero(f64::from_bits(1).to_bits()));
    assert!(!is_zero(f64::MIN_POSITIVE.to_bits()));
    assert!(!is_zero(1.0f64.to_bits()));
    assert!(!is_zero(f64::NAN.to_bits()));
    assert!(!is_zero(f64::INFINITY.to_bits()));
}

#[test]
fn one_has_one_pattern() {
    assert!(is_one(1.0f64.to_bits()));
    assert!(!is_one((-1.0f64).to_bits()));
    assert!(!is_one(0.0f64.to_bits()));
    assert!(!is_one((1.0f64 + f64::EPSILON).to_bits()));
    assert!(!is_one((1.0f64 - f64::EPSILON / 2.0).to_bits()));
    assert!(!is_one(f64::NAN.to_bits()));
}

#[test]
fn probabilities_are_the_unit_interval() {
    for value in [0.0, -0.0, 1.0, 0.5, 0.01, 1e-300, f64::MIN_POSITIVE, f64::from_bits(1)] {
        assert!(is_probability(value.to_bits()), "{} is a probability", value);
    }
    for value in [
        -0.01,
        -1.0,
        -f64::from_bits(1),
        1.0 + f64::EPSILON,
        1.01,
        2.0,
        f64::INFINITY,
        f64::NEG_INFINITY,
        f64::NAN,
        -f64::NAN,
    ] {
        assert!(!is_probability(value.to_bits()), "{} is no probability", value);
    }
}

#[test]
fn classification_agrees_with_float_comparison() {
    let mut rng = StdRng::seed_from_u64(0x5EED);
    let mut values = special_values();
    for _ in 0..20_000 {
        values.push(f64::from_bits(rng.next_u64()));
    }
    for _ in 0..20_000 {
        // Patterns near the unit interval.
        values.push(f64::from_bits(ONE - 0x8000 + (rng.next_u64() & 0xFFFF)));
        values.push(f64::from_bits(rng.next_u64() % (ONE + 0x1000)));
    }
    for value in values {
        let bits = value.to_bits();
        assert_eq!(is_zero(bits), value == 0.0, "is_zero of {:#x}", bits);
        assert_eq!(is_one(bits), value == 1.0, "is_one of {:#x}", bits);
        assert_eq!(
            is_probability(bits),
            0.0 <= value && value <= 1.0,
            "is_probability of {:#x}",
            bits
        );
    }
}

#[test]
fn counts_of_small_numbers() {
    assert_eq!(to_count(0.0f64.to_bits()), 0);
    assert_eq!(to_count(0.99f64.to_bits()), 0);
    assert_eq!(to_count(f64::MIN_POSITIVE.to_bits()), 0);
    assert_eq!(to_count(1.0f64.to_bits()), 1);
    assert_eq!(to_count(1.5f64.to_bits()), 1);
    assert_eq!(to_count(3.0f64.to_bits()), 3);
    assert_eq!(to_count(5.9f64.to_bits()), 5);
    assert_eq!(to_count(68.0f64.to_bits()), 68);
    assert_eq!(to_count(1048576.0f64.to_bits()), 1_048_576);
    assert_eq!(to_count(2147483648.0f64.to_bits()), 2_147_483_648);
}

#[test]
fn counts_saturate_at_the_largest() {
    assert_eq!(to_count(4294967294.0f64.to_bits()), 4_294_967_294);
    assert_eq!(to_count(4294967294.5f64.to_bits()), 4_294_967_294);
    assert_eq!(to_count(4294967295.0f64.to_bits()), u32::MAX);
    assert_eq!(to_count(4294967295.5f64.to_bits()), u32::MAX);
    assert_eq!(to_count(4294967296.0f64.to_bits()), u32::MAX);
    assert_eq!(to_count(1e300f64.to_bits()), u32::MAX);
    assert_eq!(to_count(f64::MAX.to_bits()), u32::MAX);
    assert_eq!(to_count(f64::INFINITY.to_bits()), u32::MAX);
}

#[test]
fn counts_of_what_is_no_count() {
    assert_eq!(to_count((-0.0f64).to_bits()), 0);
    assert_eq!(to_count((-1.0f64).to_bits()), 0);
    assert_eq!(to_count((-1e300f64).to_bits()), 0);
    assert_eq!(to_count(f64::NEG_INFINITY.to_bits()), 0);
    assert_eq!(to_count(f64::NAN.to_bits()), u32::MAX);
    assert_eq!(to_count((-f64::NAN).to_bits()), u32::MAX);
    assert_eq!(to_count(0x7FF0_0000_0000_0001), u32::MAX);
    assert_eq!(to_count(0xFFF0_0000_0000_0001), u32::MAX);
}

#[test]
fn counts_agree_with_float_conversion() {
    let mut rng = StdRng::seed_from_u64(0xC0FFEE);
    let mut values = special_values();
    for _ in 0..20_000 {
        values.push(f64::from_bits(rng.next_u64()));
    }
    for _ in 0..20_000 {
        // Numbers around the range of the count.
        let whole = (rng.next_u64() >> 30) as f64;
        let part = (rng.next_u64() >> 11) as f64 / ((1u64 << 53) as f64);
        values.push(whole + part);
        values.push(whole);
        values.push(-whole);
    }
    for value in values {
        let bits = value.to_bits();
        assert_eq!(to_count(bits), count_by_float(value), "to_count of {:#x}", bits);
    }
}
