use dprio::geometric::{bisect_step, clamp_mid, scale_sample, two_sided_outcome};
use dprio::granularity::{
    ceil_log2_exponent, ceil_log2_u64, ceil_pow2_exponent, granularity_exponent, pow2_u64,
};
use dprio::selector::{ceil_div_pow2, floor_log2_u64, k_value, r_exponent, select_outcome};

#[test]
fn test_ceil_power_of_two_concrete() {
    // 5 = 5 * 2^0 needs 2^3 = 8; 8 = 1 * 2^3 is already a power of two.
    assert_eq!(ceil_pow2_exponent(false, 5, 0), Ok(3));
    assert_eq!(ceil_pow2_exponent(false, 1, 3), Ok(3));
    assert_eq!((3f64).exp2(), 8.0);
    // The zero input yields the search's base case, 2^0 = 1.
    assert_eq!(ceil_pow2_exponent(false, 0, 0), Ok(0));
    // A negative input fails.
    assert!(ceil_pow2_exponent(true, 1, 0).is_err());
    // Inputs above 2^1023 fail; 2^1023 itself is accepted.
    assert!(ceil_pow2_exponent(false, 1, 1024).is_err());
    assert_eq!(ceil_pow2_exponent(false, 1, 1023), Ok(1023));
    assert!(ceil_pow2_exponent(false, 3, 1022).is_err());
    // Inputs at or below one collapse to 2^0.
    assert_eq!(ceil_pow2_exponent(false, 1, -1), Ok(0));
    assert_eq!(ceil_pow2_exponent(false, 3, -2), Ok(0));
}

#[test]
fn test_log2_helpers() {
    assert_eq!(ceil_log2_u64(1), 0);
    assert_eq!(ceil_log2_u64(2), 1);
    assert_eq!(ceil_log2_u64(3), 2);
    assert_eq!(ceil_log2_u64(u64::MAX), 64);
    assert_eq!(floor_log2_u64(1), 0);
    assert_eq!(floor_log2_u64(2), 1);
    assert_eq!(floor_log2_u64(3), 1);
    assert_eq!(floor_log2_u64(4), 2);
    assert_eq!(floor_log2_u64(u64::MAX), 63);
    assert_eq!(pow2_u64(0), 1);
    assert_eq!(pow2_u64(40), 1u64 << 40);
    assert_eq!(pow2_u64(63), 1u64 << 63);
}

#[test]
fn test_ceil_log2_exponent() {
    assert_eq!(ceil_log2_exponent(1, 5), 5);
    assert_eq!(ceil_log2_exponent(3, 0), 2);
    assert_eq!(ceil_log2_exponent(4, 0), 2);
    assert_eq!(ceil_log2_exponent(5, 0), 3);
    // 0.3 = 5404319552844595 * 2^-54; ceil(log2(0.3)) = -1.
    assert_eq!(ceil_log2_exponent(5_404_319_552_844_595, -54), -1);
    assert_eq!(
        ceil_log2_exponent(5_404_319_552_844_595, -54),
        (0.3f64).log2().ceil() as i64
    );
}

#[test]
fn test_granularity_of_unit_ratio() {
    // get_granularity(1.0, 1.0) = ceil_power_of_two(1.0) / 2^40 = 2^-40.
    assert_eq!(granularity_exponent(1, 0), Ok(-40));
    assert_eq!((-40f64).exp2(), 1.0 / 1_099_511_627_776.0);
}

#[test]
fn test_k_value_concrete() {
    // k(1.0) = 10 + floor(1 + log2(2 / 1.0)) = 12.
    assert_eq!(k_value(1, 0), Ok(12));
    // k(0.5) = 10 + floor(1 + log2(4)) = 13.
    assert_eq!(k_value(1, -1), Ok(13));
    // 0.3 = 5404319552844595 * 2^-54; floor(1 + log2(2 / 0.3)) = 3.
    assert_eq!(k_value(5_404_319_552_844_595, -54), Ok(13));
    // k(8.0) = 10 + floor(1 + log2(2 / 8.0)) = 10 + floor(-1) = 9.
    assert_eq!(k_value(1, 3), Ok(9));
    // k(5.0): floor(1 + log2(0.4)) = floor(-0.32...) = -1, so 9.
    assert_eq!(k_value(5, 0), Ok(9));
    // Epsilon below 1e-32 fails (2^-120 < 1e-32).
    assert!(k_value(1, -120).is_err());
    // The bit-width bound: epsilon = 2^-105 pushes the addition to 107.
    assert!(k_value(1, -105).is_err());
    assert_eq!(k_value(1, -104), Ok(116));
}

#[test]
fn test_r_exponent_covers_minimum() {
    // With delta = 1, epsilon = 1: minimum = floor(1 * 2^12) + 1 = 4097.
    assert_eq!(r_exponent(4097), 13);
    assert!(1u64 << 13 >= 4097);
    assert_eq!(r_exponent(4096), 12);
    assert_eq!(r_exponent(1), 0);
    assert_eq!(r_exponent(2), 1);
    assert_eq!(r_exponent(u64::MAX), 64);
}

#[test]
fn test_ceil_div_pow2() {
    assert_eq!(ceil_div_pow2(5, 2), 2);
    assert_eq!(ceil_div_pow2(8, 2), 2);
    assert_eq!(ceil_div_pow2(9, 2), 3);
    assert_eq!(ceil_div_pow2(0, 2), 0);
    assert_eq!(ceil_div_pow2(7, 0), 7);
    // A shift beyond the word size still rounds any nonzero value up to one.
    assert_eq!(ceil_div_pow2(0, 80), 0);
    assert_eq!(ceil_div_pow2(5, 80), 1);
}

#[test]
fn test_bisection_steps() {
    assert_eq!(clamp_mid(0, 100, 50), 50);
    assert_eq!(clamp_mid(0, 100, -5), 1);
    assert_eq!(clamp_mid(0, 100, 1000), 99);
    assert_eq!(bisect_step(0, 100, 50, true), (0, 50));
    assert_eq!(bisect_step(0, 100, 50, false), (50, 100));
    // The narrowest interval: the clamped midpoint forces termination.
    assert_eq!(clamp_mid(0, 2, 77), 1);
    assert_eq!(bisect_step(0, 2, 1, true), (0, 1));
    assert_eq!(bisect_step(0, 2, 1, false), (1, 2));
}

#[test]
fn test_two_sided_outcome() {
    // Magnitude zero is accepted only with the positive sign.
    assert_eq!(two_sided_outcome(1, true), Some(0));
    assert_eq!(two_sided_outcome(1, false), None);
    assert_eq!(two_sided_outcome(5, true), Some(4));
    assert_eq!(two_sided_outcome(5, false), Some(-4));
    assert_eq!(two_sided_outcome(i64::MAX, false), Some(-(i64::MAX - 1)));
}

#[test]
fn test_scale_sample() {
    // A granularity above one multiplies exactly.
    assert_eq!(scale_sample(5, 2), 20);
    assert_eq!(scale_sample(-5, 2), -20);
    assert_eq!(scale_sample(0, 100), 0);
    assert_eq!(scale_sample(1, 62), 1i64 << 62);
    // A granularity at or below one rounds halves away from zero.
    assert_eq!(scale_sample(5, 0), 5);
    assert_eq!(scale_sample(5, -1), 3);
    assert_eq!(scale_sample(-5, -1), -3);
    assert_eq!(scale_sample(5, -2), 1);
    assert_eq!(scale_sample(6, -2), 2);
    assert_eq!(scale_sample(2, -2), 1);
    assert_eq!(scale_sample(-2, -2), -1);
    assert_eq!(scale_sample(1, -40), 0);
    // Cross-check against floating rounding on exactly representable values.
    assert_eq!(scale_sample(5, -1) as f64, (5f64 * 0.5f64).round());
    assert_eq!(scale_sample(-5, -1) as f64, (-5f64 * 0.5f64).round());
}

#[test]
fn test_select_outcome_is_binary() {
    assert_eq!(select_outcome(true), 0);
    assert_eq!(select_outcome(false), 1);
    assert!(select_outcome(true) <= 1 && select_outcome(false) <= 1);
}
