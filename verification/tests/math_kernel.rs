use veritas_curation::content_pool::errors::ContentPoolError;
use veritas_curation::content_pool::math::q64;
use veritas_curation::content_pool::math::{div_256_by_128, full_mul_128, mul_div_u128};

#[test]
fn test_full_mul_128() {
    // Simple case: 2 * 3
    let (hi, lo) = full_mul_128(2, 3);
    assert_eq!(hi, 0);
    assert_eq!(lo, 6);

    // Max u64 * Max u64
    let max_u64 = u64::MAX as u128;
    let (hi, lo) = full_mul_128(max_u64, max_u64);
    assert_eq!(hi, 0);
    assert_eq!(lo, max_u64 * max_u64);

    // Test overflow
    let large = 1u128 << 100;
    let (hi, _lo) = full_mul_128(large, large);
    assert!(hi > 0, "Should have high bits set");
}

#[test]
fn test_div_256_by_128() {
    // Simple: 100 / 10 = 10
    let result = div_256_by_128(0, 100, 10).unwrap();
    assert_eq!(result, 10);

    // With high bits: (1 << 128) / 2
    let result = div_256_by_128(1, 0, 2).unwrap();
    assert_eq!(result, 1u128 << 127);

    // Division by zero
    assert!(div_256_by_128(0, 100, 0).is_err());

    // Overflow: hi >= divisor
    assert!(div_256_by_128(10, 0, 5).is_err());
}

#[test]
fn test_mul_div_u128() {
    // (10 * 20) / 5 = 40
    let result = mul_div_u128(10, 20, 5).unwrap();
    assert_eq!(result, 40);

    // Avoid intermediate overflow: (2^64 * 2^64) / 2^64 = 2^64
    let large = 1u128 << 64;
    let result = mul_div_u128(large, large, large).unwrap();
    assert_eq!(result, large);
}

#[test]
fn test_q64_mul() {
    // 2.0 * 3.0 = 6.0
    let a = q64::from_u64(2);
    let b = q64::from_u64(3);
    let result = q64::mul(a, b).unwrap();
    assert_eq!(q64::to_u64(result).unwrap(), 6);

    // 1.5 * 2.0 = 3.0
    let a = q64::ONE + q64::HALF; // 1.5
    let b = q64::from_u64(2);
    let result = q64::mul(a, b).unwrap();
    assert_eq!(q64::to_u64(result).unwrap(), 3);
}

#[test]
fn test_q64_div() {
    // 6.0 / 2.0 = 3.0
    let a = q64::from_u64(6);
    let b = q64::from_u64(2);
    let result = q64::div(a, b).unwrap();
    assert_eq!(q64::to_u64(result).unwrap(), 3);

    // 1.0 / 2.0 = 0.5
    let a = q64::ONE;
    let b = q64::from_u64(2);
    let result = q64::div(a, b).unwrap();
    assert_eq!(result, q64::HALF);
}

#[test]
fn test_q64_sqrt() {
    // sqrt(4.0) = 2.0
    let n = q64::from_u64(4);
    let result = q64::sqrt(n).unwrap();
    let result_u64 = q64::to_u64(result).unwrap();
    assert_eq!(result_u64, 2);

    // sqrt(9.0) = 3.0
    let n = q64::from_u64(9);
    let result = q64::sqrt(n).unwrap();
    let result_u64 = q64::to_u64(result).unwrap();
    assert_eq!(result_u64, 3);

    // sqrt(2.0) ~ 1.414...
    let n = q64::from_u64(2);
    let result = q64::sqrt(n).unwrap();
    let result_f64 = (result as f64) / (q64::ONE as f64);
    assert!((result_f64 - 1.414).abs() < 0.001);
}

#[test]
fn div_256_by_128_names_its_errors() {
    assert_eq!(div_256_by_128(0, 100, 0), Err(ContentPoolError::DivisionByZero));
    assert_eq!(div_256_by_128(10, 0, 5), Err(ContentPoolError::NumericalOverflow));
    assert_eq!(div_256_by_128(5, 0, 5), Err(ContentPoolError::NumericalOverflow));
}

#[test]
fn div_256_by_128_handles_divisors_above_half_a_word() {
    let d = u128::MAX;
    // (d - 1) * 2^128 + (2^128 - 1) = d * 2^128 - 1 - ... : quotient 2^128 - 1 - 0
    let q = div_256_by_128(d - 1, u128::MAX, d).unwrap();
    assert_eq!(q, u128::MAX);
    let q = div_256_by_128(1u128 << 127, 0, (1u128 << 127) + 1).unwrap();
    // floor(2^255 / (2^127 + 1)) = 2^128 - 2
    assert_eq!(q, u128::MAX - 1);
}

#[test]
fn full_mul_128_carries_across_every_limb() {
    // (2^128 - 1)^2 = 2^256 - 2^129 + 1
    assert_eq!(full_mul_128(u128::MAX, u128::MAX), (u128::MAX - 1, 1));
    // (2^64 + 1) * (2^64 - 1) = 2^128 - 1
    assert_eq!(full_mul_128((1u128 << 64) + 1, (1u128 << 64) - 1), (0, u128::MAX));
    // 2^127 * 2 = 2^128
    assert_eq!(full_mul_128(1u128 << 127, 2), (1, 0));
    assert_eq!(full_mul_128(0, u128::MAX), (0, 0));
}

#[test]
fn mul_div_u128_is_the_floor_and_names_its_errors() {
    assert_eq!(mul_div_u128(7, 3, 2), Ok(10));
    assert_eq!(mul_div_u128(u128::MAX, u128::MAX, u128::MAX), Ok(u128::MAX));
    assert_eq!(mul_div_u128(1, 1, 0), Err(ContentPoolError::DivisionByZero));
    assert_eq!(mul_div_u128(u128::MAX, 2, 1), Err(ContentPoolError::NumericalOverflow));
    // 2^128 / 2 fits, 2^128 / 1 does not
    assert_eq!(mul_div_u128(1u128 << 64, 1u128 << 64, 2), Ok(1u128 << 127));
    assert_eq!(
        mul_div_u128(1u128 << 64, 1u128 << 64, 1),
        Err(ContentPoolError::NumericalOverflow)
    );
}

#[test]
fn q64_mul_overflow_and_div_errors() {
    assert_eq!(q64::mul(u128::MAX, u128::MAX), Err(ContentPoolError::NumericalOverflow));
    // 0.5 * 0.5 = 0.25
    assert_eq!(q64::mul(q64::HALF, q64::HALF), Ok(q64::HALF / 2));
    assert_eq!(q64::div(q64::ONE, 0), Err(ContentPoolError::DivisionByZero));
    assert_eq!(q64::div(u128::MAX, 1), Err(ContentPoolError::NumericalOverflow));
    assert_eq!(q64::to_u128(12345), 12345);
    assert_eq!(q64::from_u64(u64::MAX), (u64::MAX as u128) << 64);
    assert_eq!(q64::to_u64(u128::MAX), Ok(u64::MAX));
}

#[test]
fn q64_sqrt_is_the_exact_floor() {
    assert_eq!(q64::sqrt(0), Ok(0));
    // sqrt(1.0) = 1.0
    assert_eq!(q64::sqrt(q64::ONE), Ok(q64::ONE));
    // sqrt(2^-64) = 2^-32: the smallest positive value has the root 2^32
    assert_eq!(q64::sqrt(1), Ok(1u128 << 32));
    // floor(sqrt(2 * 2^64)) = 6_074_000_999
    assert_eq!(q64::sqrt(2), Ok(6_074_000_999));
    // sqrt(0.25) = 0.5
    assert_eq!(q64::sqrt(q64::ONE / 4), Ok(q64::HALF));
    // the largest value: floor(sqrt((2^128 - 1) * 2^64)) = 2^96 - 1
    assert_eq!(q64::sqrt(u128::MAX), Ok((1u128 << 96) - 1));
    // sqrt(2.0) in Q64.64, to the last bit: floor(sqrt(2) * 2^64)
    assert_eq!(q64::sqrt(q64::from_u64(2)), Ok(26_087_635_650_665_564_424));
}
