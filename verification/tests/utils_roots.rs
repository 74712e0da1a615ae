use veritas_curation::utils::{integer_cbrt, integer_sqrt};

#[test]
fn integer_cbrt_is_the_floor() {
    assert_eq!(integer_cbrt(0), Ok(0));
    assert_eq!(integer_cbrt(1), Ok(1));
    assert_eq!(integer_cbrt(7), Ok(1));
    assert_eq!(integer_cbrt(8), Ok(2));
    assert_eq!(integer_cbrt(26), Ok(2));
    assert_eq!(integer_cbrt(27), Ok(3));
    assert_eq!(integer_cbrt(999_999_999_999), Ok(9_999));
    assert_eq!(integer_cbrt(1_000_000_000_000), Ok(10_000));
    assert_eq!(integer_cbrt(u128::MAX), Ok(6_981_463_658_331));
    let x = 6_981_463_658_331u128;
    assert_eq!(integer_cbrt(x * x * x), Ok(x));
    assert_eq!(integer_cbrt(x * x * x - 1), Ok(x - 1));
}

#[test]
fn utils_integer_sqrt_is_the_floor() {
    assert_eq!(integer_sqrt(0), Ok(0));
    assert_eq!(integer_sqrt(24), Ok(4));
    assert_eq!(integer_sqrt(25), Ok(5));
    assert_eq!(integer_sqrt(u128::MAX), Ok(u64::MAX as u128));
}
