use veritas_curation::content_pool::curve::{
    calculate_buy_supply, calculate_price_with_floor, calculate_sell_payout,
};
use veritas_curation::errors::ErrorCode;

#[test]
fn test_buy_10_usdc_yields_310_tokens() {
    // $10 (10,000,000 micro-units) should yield ~310 tokens
    // s(10) = cbrt(3 * 10 / 1) * 100 = cbrt(30) * 100 ~ 3.107 * 100 = 310.7 tokens
    let s0 = 0;
    let reserve0 = 0;
    let usdc_amount = 10_000_000;
    let k = 1;

    let new_supply = calculate_buy_supply(s0, reserve0, usdc_amount, k).unwrap();

    assert!(new_supply >= 310_000_000 && new_supply <= 311_000_000,
            "Expected ~310 tokens, got {} atomic units ({} tokens)",
            new_supply, new_supply / 1_000_000);
}

#[test]
fn test_buy_1_usdc_yields_144_tokens() {
    // s(1) = cbrt(3 * 1 / 1) * 100 = cbrt(3) * 100 ~ 1.442 * 100 = 144.2 tokens
    let s0 = 0;
    let reserve0 = 0;
    let usdc_amount = 1_000_000;
    let k = 1;

    let new_supply = calculate_buy_supply(s0, reserve0, usdc_amount, k).unwrap();

    assert!(new_supply >= 143_000_000 && new_supply <= 145_000_000,
            "Expected ~144 tokens, got {} atomic units ({} tokens)",
            new_supply, new_supply / 1_000_000);
}

#[test]
fn test_sell_all_tokens_recovers_most_usdc() {
    // Buy 310 tokens with $10, then sell all back
    let usdc_in = 10_000_000;
    let k = 1;

    let tokens = calculate_buy_supply(0, 0, usdc_in, k).unwrap();

    let usdc_out = calculate_sell_payout(tokens, 0, usdc_in, k).unwrap();

    assert!(usdc_out >= 9_000_000 && usdc_out <= usdc_in,
            "Expected to recover at least $9, got ${}.{:06}",
            usdc_out / 1_000_000, usdc_out % 1_000_000);
}

#[test]
fn test_price_increases_with_supply() {
    let k = 1;

    // At 100 tokens
    let price_100 = calculate_price_with_floor(100_000_000, k).unwrap();

    // At 300 tokens
    let price_300 = calculate_price_with_floor(300_000_000, k).unwrap();

    // At 1000 tokens
    let price_1000 = calculate_price_with_floor(1_000_000_000, k).unwrap();

    assert!(price_300 > price_100, "Price should increase with supply");
    assert!(price_1000 > price_300, "Price should continue increasing");

    // p(3s) should be 9 * p(s), within rounding tolerance
    assert!(price_300 >= price_100 * 8 && price_300 <= price_100 * 10,
            "Price should increase quadratically");
}

#[test]
fn test_dynamic_k_changes_price() {
    let supply = 100_000_000; // 100 tokens

    let price_k1 = calculate_price_with_floor(supply, 1).unwrap();
    let price_k2 = calculate_price_with_floor(supply, 2).unwrap();
    let price_k5 = calculate_price_with_floor(supply, 5).unwrap();

    assert!(price_k2 > price_k1, "Price should increase with k");
    assert!(price_k5 > price_k2, "Price should continue increasing with k");
    assert_eq!(price_k2, price_k1 * 2, "Price should scale linearly with k");
}

#[test]
fn test_price_floor_enforcement() {
    let k = 1;

    // 1 token - should be at floor
    let price_1 = calculate_price_with_floor(1_000_000, k).unwrap();
    assert_eq!(price_1, 100, "Price should be at floor (0.0001 USDC)");

    // 0.1 tokens - should still be at floor
    let price_0_1 = calculate_price_with_floor(100_000, k).unwrap();
    assert_eq!(price_0_1, 100, "Price should remain at floor");
}

#[test]
fn test_incremental_buys() {
    // Multiple small buys should equal one large buy
    let k = 1;

    // One $10 buy
    let single_buy = calculate_buy_supply(0, 0, 10_000_000, k).unwrap();

    // Ten $1 buys
    let mut total_tokens = 0u128;
    let mut reserve = 0u128;

    for _ in 0..10 {
        let new_supply = calculate_buy_supply(total_tokens, reserve, 1_000_000, k).unwrap();
        total_tokens = new_supply;
        reserve += 1_000_000;
    }

    let diff = if single_buy > total_tokens {
        single_buy - total_tokens
    } else {
        total_tokens - single_buy
    };

    assert!(diff < 1_000_000, // Less than 1 token difference
            "Single buy: {}, incremental buys: {}, diff: {}",
            single_buy, total_tokens, diff);
}

#[test]
fn quadratic_curve_exact_values() {
    // 3 * 10^7 * 10^18 = 3 * 10^25, whose cube root is 310_723_250.59...
    assert_eq!(calculate_buy_supply(0, 0, 10_000_000, 1), Ok(310_723_250));
    // a supply above what the reserve backs is kept
    assert_eq!(calculate_buy_supply(400_000_000, 0, 10_000_000, 1), Ok(400_000_000));
    // 100 tokens at k = 1: 100^2 = 10_000 micro-units
    assert_eq!(calculate_price_with_floor(100_000_000, 1), Ok(10_000));
    // reserve behind 300 tokens: 300^3 / 3 = 9_000_000
    assert_eq!(calculate_sell_payout(300_000_000, 0, 10_000_000, 1), Ok(9_000_000));
    // capped by what the pool holds
    assert_eq!(calculate_sell_payout(300_000_000, 0, 5_000_000, 1), Ok(5_000_000));
}

#[test]
fn quadratic_curve_errors() {
    assert_eq!(calculate_buy_supply(0, 0, 1, 0), Err(ErrorCode::InvalidParameters));
    assert_eq!(calculate_buy_supply(0, u128::MAX, 1, 1), Err(ErrorCode::NumericalOverflow));
    assert_eq!(calculate_sell_payout(1, 2, 10, 1), Err(ErrorCode::InvalidAmount));
    assert_eq!(
        calculate_sell_payout(7_000_000_000_000, 0, 10, 1),
        Err(ErrorCode::NumericalOverflow)
    );
    assert_eq!(calculate_price_with_floor(u128::MAX, 1), Err(ErrorCode::NumericalOverflow));
}
