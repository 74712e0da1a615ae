use veritas_curation::content_pool::errors::ContentPoolError;
use veritas_curation::content_pool::math::q32;
use veritas_curation::content_pool::math::{
    bitlen_u128, ceil_div, isqrt_u128, mul_shift_right_96, norm_sq_saturating, pow2_u128,
    renormalize_scales, round_half_even_u128, round_to_nearest, shl_u128, shr_u128,
    virtual_supply, TWO_96,
};

#[test]
fn isqrt_u128_is_the_floor() {
    for n in 0u128..2000 {
        let r = isqrt_u128(n);
        assert!(r * r <= n && (r + 1) * (r + 1) > n);
    }
    assert_eq!(isqrt_u128(u128::MAX), u64::MAX as u128);
    assert_eq!(isqrt_u128(1u128 << 126), 1u128 << 63);
    assert_eq!(isqrt_u128((1u128 << 126) - 1), (1u128 << 63) - 1);
    // a square and its neighbours
    let x = 123_456_789_012_345_678u128;
    assert_eq!(isqrt_u128(x * x), x);
    assert_eq!(isqrt_u128(x * x - 1), x - 1);
    assert_eq!(isqrt_u128(x * x + 2 * x), x);
    assert_eq!(isqrt_u128(x * x + 2 * x + 1), x + 1);
}

#[test]
fn mul_shift_right_96_is_the_exact_floor() {
    assert_eq!(mul_shift_right_96(TWO_96, 5), Ok(5));
    assert_eq!(mul_shift_right_96(TWO_96 - 1, 1), Ok(0));
    assert_eq!(mul_shift_right_96(TWO_96 * 3 / 2, 3), Ok(4));
    // the low limbs carry into the result: (2^96 - 1)^2 / 2^96 = 2^96 - 2
    assert_eq!(mul_shift_right_96(TWO_96 - 1, TWO_96 - 1), Ok(TWO_96 - 2));
    // a factor above 2^96, and a second factor with all bits set
    assert_eq!(mul_shift_right_96(u128::MAX, 1u128 << 95), Ok(u128::MAX >> 1));
    assert_eq!(
        mul_shift_right_96(u128::MAX, TWO_96 + 1),
        Err(ContentPoolError::NumericalOverflow)
    );
    assert_eq!(mul_shift_right_96(1u128 << 112, 1u128 << 112), Err(ContentPoolError::NumericalOverflow));
    assert_eq!(mul_shift_right_96(1u128 << 112, 1u128 << 111), Ok(1u128 << 127));
}

#[test]
fn round_to_nearest_sends_halves_to_even() {
    assert_eq!(round_to_nearest(5, 2), 2); // 2.5 -> 2
    assert_eq!(round_to_nearest(7, 2), 4); // 3.5 -> 4
    assert_eq!(round_to_nearest(10, 4), 2); // 2.5 -> 2
    assert_eq!(round_to_nearest(14, 4), 4); // 3.5 -> 4
    assert_eq!(round_to_nearest(9, 4), 2); // 2.25 -> 2
    assert_eq!(round_to_nearest(11, 4), 3); // 2.75 -> 3
    // an odd divisor has no halves: 7/3 = 2.33 -> 2, 8/3 = 2.67 -> 3, 4/3 = 1.33 -> 1
    assert_eq!(round_to_nearest(7, 3), 2);
    assert_eq!(round_to_nearest(8, 3), 3);
    assert_eq!(round_to_nearest(4, 3), 1);
    assert_eq!(round_to_nearest(0, 7), 0);
    assert_eq!(round_to_nearest(u64::MAX as u128, 1), u64::MAX);
    assert_eq!(round_half_even_u128(u128::MAX, 1), u128::MAX);
    assert_eq!(round_half_even_u128(u128::MAX, 2), 1u128 << 127);
    assert_eq!(round_half_even_u128(u128::MAX, u128::MAX), 1);
    assert_eq!(round_half_even_u128(u128::MAX - 1, u128::MAX), 1);
    assert_eq!(round_half_even_u128(u128::MAX / 2, u128::MAX), 0);
}

#[test]
fn ceil_div_rounds_up_and_guards_zero() {
    assert_eq!(ceil_div(7, 2), 4);
    assert_eq!(ceil_div(8, 2), 4);
    assert_eq!(ceil_div(0, 5), 0);
    assert_eq!(ceil_div(1, 5), 1);
    assert_eq!(ceil_div(5, 0), 0);
    assert_eq!(ceil_div(u128::MAX, 1), u128::MAX);
    assert_eq!(ceil_div(u128::MAX, u128::MAX), 1);
    assert_eq!(ceil_div(u128::MAX, 2), 1u128 << 127);
}

#[test]
fn bit_length_and_shifts() {
    assert_eq!(bitlen_u128(0), 0);
    assert_eq!(bitlen_u128(1), 1);
    assert_eq!(bitlen_u128(2), 2);
    assert_eq!(bitlen_u128(3), 2);
    assert_eq!(bitlen_u128(255), 8);
    assert_eq!(bitlen_u128(256), 9);
    assert_eq!(bitlen_u128(u128::MAX), 128);
    for k in 0u32..128 {
        assert_eq!(pow2_u128(k), 1u128 << k);
        assert_eq!(bitlen_u128(1u128 << k), k + 1);
        assert_eq!(bitlen_u128((1u128 << k) | 1), k + 1);
        assert_eq!(shr_u128(u128::MAX, k), u128::MAX >> k);
        assert_eq!(shl_u128(u128::MAX, k), u128::MAX << k);
        assert_eq!(shl_u128(12345, k), 12345u128 << k);
    }
}

#[test]
fn virtual_supply_is_a_ceiling_with_a_floor_of_one() {
    // 5000 * 2^64 / 2^60 = 80_000
    assert_eq!(virtual_supply(5_000, 1u128 << 60), 80_000);
    // 1 * 2^64 / 2^96 rounds up to 1
    assert_eq!(virtual_supply(1, 1u128 << 96), 1);
    // 3 * 2^64 / (2^65) = 1.5 rounds up to 2
    assert_eq!(virtual_supply(3, 1u128 << 65), 2);
    // no supply, no virtual supply
    assert_eq!(virtual_supply(0, 5), 0);
    // a zero gauge: the guarded division gives 0, the floor lifts it to 1
    assert_eq!(virtual_supply(5, 0), 1);
    // more than 64 bits
    assert_eq!(virtual_supply(u64::MAX, 1), (u64::MAX as u128) << 64);
    assert_eq!(norm_sq_saturating(3, 4), 25);
    assert_eq!(norm_sq_saturating(u128::MAX, 0), u128::MAX);
    assert_eq!(norm_sq_saturating(1u128 << 64, 1), u128::MAX);
    assert_eq!(norm_sq_saturating(1u128 << 63, 1u128 << 63), 1u128 << 127);
}

fn renormalized(sigma_long: u128, sigma_short: u128, s_long: u64, s_short: u64) -> (u128, u128) {
    let mut a = sigma_long;
    let mut b = sigma_short;
    renormalize_scales(&mut a, &mut b, s_long, s_short);
    (a, b)
}

#[test]
fn renormalize_scales_shifts_both_gauges_alike() {
    // norm too small: 5000 tokens a side at gauge 1.0 have squared norm 5e7,
    // 26 bits; shift right by (33 - 26) / 2 + 1 = 4
    assert_eq!(renormalized(1u128 << 64, 1u128 << 64, 5_000, 5_000), (1u128 << 60, 1u128 << 60));
    // norm too large: 1e12 a side; squared norm 2e24, 81 bits; shift left by
    // (81 - 63) / 2 + 1 = 10
    assert_eq!(
        renormalized(1u128 << 64, 1u128 << 64, 1_000_000_000_000, 1_000_000_000_000),
        (1u128 << 74, 1u128 << 74)
    );
    // larger gauge above 2^96: both come down by 4 bits, then down by 4 more
    // for the norm
    assert_eq!(
        renormalized(1u128 << 100, 1u128 << 90, 5_000, 5_000),
        (1_208_925_819_614_629_174_706_176, 1_180_591_620_717_411_303_424)
    );
    // smaller gauge below 2^48: both go up by 8 bits
    assert_eq!(
        renormalized(1u128 << 40, 1u128 << 50, 5_000, 5_000),
        (281_474_976_710_656, 288_230_376_151_711_744)
    );
    // no supplies: nothing to fit the norm to
    assert_eq!(renormalized(1u128 << 64, 1u128 << 64, 0, 0), (1u128 << 64, 1u128 << 64));
    // in band already: untouched
    assert_eq!(renormalized(1u128 << 60, 1u128 << 60, 5_000, 5_000), (1u128 << 60, 1u128 << 60));
    assert_eq!(renormalized(0, 0, 5, 5), (0, 0));
}

#[test]
fn renormalize_scales_may_leave_a_gauge_above_its_band() {
    // the excess bit length of 2^97 + 2 is one: it comes down to 2^96 + 1
    assert_eq!(
        renormalized((1u128 << 97) + 2, 1u128 << 60, 1_000_000, 1_000_000),
        ((1u128 << 96) + 1, 1u128 << 59)
    );
}

#[test]
fn renormalize_scales_may_leave_the_norm_outside_its_band() {
    // above: the ceiling of an odd virtual supply, halved, lands just over 2^31
    let s: u64 = 3_037_000_499;
    let (a, b) = renormalized(1u128 << 64, 1u128 << 64, s, s);
    assert_eq!((a, b), (1u128 << 65, 1u128 << 65));
    let v = virtual_supply(s, a);
    assert_eq!(v, 1_518_500_250);
    assert!(norm_sq_saturating(v, v) > 1u128 << 62);
    // below: virtual supplies that the floor of one hides are lifted too little
    let (a, b) = renormalized(1u128 << 84, 1u128 << 84, 4_567, 73_182);
    assert_eq!((a, b), (1u128 << 68, 1u128 << 68));
    let (v_long, v_short) = (virtual_supply(4_567, a), virtual_supply(73_182, b));
    assert_eq!((v_long, v_short), (286, 4_574));
    assert!(norm_sq_saturating(v_long, v_short) < 1u128 << 32);
}

#[test]
fn q32_conversions() {
    assert_eq!(q32::to_q64(q32::ONE), 1u128 << 64);
    assert_eq!(q32::to_q64(u64::MAX), (u64::MAX as u128) << 32);
    assert_eq!(q32::from_q64(1u128 << 64), Ok(q32::ONE));
    assert_eq!(q32::from_q64((1u128 << 32) - 1), Ok(0));
    assert_eq!(q32::from_q64((u64::MAX as u128) << 32), Ok(u64::MAX));
    assert_eq!(q32::from_q64(1u128 << 96), Err(ContentPoolError::NumericalOverflow));
}
