use veritas_curation::content_pool::curve::{ICBSCurve, Q96};
use veritas_curation::content_pool::instructions::{add_liquidity, deploy_market, settle_epoch, trade};
use veritas_curation::content_pool::state::{
    Address, ContentPool, TokenSide, TradeType, MIN_POOL_LIQUIDITY, Q64,
};
use veritas_curation::pool_factory::state::PoolFactory;

fn key(tag: u8) -> Address {
    let mut bytes = [0u8; 32];
    bytes[5] = tag;
    Address { bytes }
}

const NOW: i64 = 1_700_000_000;

fn factory(total_fee_bps: u16) -> PoolFactory {
    PoolFactory {
        factory_authority: key(6),
        pool_authority: key(7),
        protocol_authority: key(8),
        total_pools: 1,
        total_fee_bps,
        creator_split_bps: 2500,
        protocol_treasury: key(9),
        default_f: 1,
        default_beta_num: 1,
        default_beta_den: 2,
        default_p0: 100_000,
        min_initial_deposit: 100_000_000,
        min_settle_interval: 7200,
        custodian: key(10),
        bump: 254,
    }
}

fn deployed(deposit: u64, long_allocation: u64) -> ContentPool {
    let mut pool = ContentPool {
        content_id: key(1),
        creator: key(2),
        market_deployer: Address::unset(),
        post_creator: key(3),
        long_mint: Address::unset(),
        short_mint: Address::unset(),
        vault: Address::unset(),
        stake_vault: key(4),
        f: 1,
        beta_num: 1,
        beta_den: 2,
        s_long: 0,
        s_short: 0,
        r_long: 0,
        r_short: 0,
        sqrt_price_long_x96: 0,
        sqrt_price_short_x96: 0,
        s_scale_long_q64: Q64,
        s_scale_short_q64: Q64,
        lambda_long_q96: 0,
        lambda_short_q96: 0,
        last_settle_ts: 0,
        min_settle_interval: 7200,
        current_epoch: 0,
        expiration_timestamp: i64::MAX,
        last_decay_update: 0,
        vault_balance: 0,
        initial_q: 0,
        factory: key(5),
        bump: 255,
    };
    let accounts = deploy_market::DeployAccounts {
        pool_key: key(20),
        factory_key: key(5),
        program_id: key(27),
        deployer: key(21),
        usdc_mint: key(26),
        long_mint: key(22),
        short_mint: key(23),
        vault: key(24),
    };
    let readings = deploy_market::HostReadings {
        derived_pool: Some(key(20)),
        deployer_usdc: Some((key(21), key(26))),
        usdc_decimals: Some(6),
    };
    deploy_market::deploy_with(
        &mut pool, &factory(0), &accounts, &readings, NOW, deposit, long_allocation,
    )
    .unwrap();
    pool
}

/// A small linear congruential generator: the same sequence on every run.
fn next(state: &mut u64) -> u64 {
    *state = state.wrapping_mul(6_364_136_223_846_793_005).wrapping_add(1_442_695_040_888_963_407);
    *state >> 33
}

#[test]
fn reserves_add_up_to_the_vault_through_a_pool_s_life() {
    let mut pool = deployed(5_000_000_000, 2_000_000_000);
    let fac = factory(100);
    // the reserve account holds the deposit
    let mut vault: u64 = 5_000_000_000;
    let mut seed = 42u64;
    let mut now = NOW;
    let mut trades = 0;
    let mut settlements = 0;
    for round in 0..400 {
        let side = if next(&mut seed) % 2 == 0 { TokenSide::Long } else { TokenSide::Short };
        let mint = match side {
            TokenSide::Long => key(22),
            TokenSide::Short => key(23),
        };
        let before = pool;
        match next(&mut seed) % 4 {
            0 | 1 => {
                let amount = 100_000 + next(&mut seed) % 200_000_000;
                let skim = amount / 50;
                if let Ok(outcome) = trade::handler(
                    &mut pool, key(20), &fac, key(25), mint, vault, now, side, TradeType::Buy,
                    amount, skim, 0, 0,
                ) {
                    vault += outcome.fill.usdc_traded;
                    trades += 1;
                    assert!(pool.s_long >= before.s_long && pool.s_short >= before.s_short);
                    assert_eq!(outcome.fill.creator_fee + outcome.fill.protocol_fee, outcome.fill.total_fee);
                    assert_eq!(
                        outcome.fill.usdc_traded + outcome.fill.total_fee + outcome.fill.usdc_to_stake,
                        amount
                    );
                } else {
                    assert_eq!(pool.s_long, before.s_long);
                    assert_eq!(pool.vault_balance, before.vault_balance);
                }
            }
            2 => {
                let tokens = 1 + next(&mut seed) % 50;
                if let Ok(outcome) = trade::handler(
                    &mut pool, key(20), &fac, key(25), mint, vault, now, side, TradeType::Sell,
                    tokens * 1_000_000, 0, 0, 0,
                ) {
                    vault -= outcome.fill.usdc_traded;
                    trades += 1;
                    assert!(pool.s_long >= MIN_POOL_LIQUIDITY && pool.s_short >= MIN_POOL_LIQUIDITY);
                    assert_eq!(
                        outcome.fill.usdc_to_trader + outcome.fill.total_fee,
                        outcome.fill.usdc_traded
                    );
                }
            }
            _ => {
                if round % 40 == 3 {
                    now += 7200;
                    let score = (next(&mut seed) % 1_000_001) as u32;
                    if settle_epoch::handler(&mut pool, key(20), key(8), vault, now, score).is_ok() {
                        settlements += 1;
                        assert_eq!(pool.s_long, before.s_long);
                        assert_eq!(pool.s_short, before.s_short);
                        assert_eq!(pool.vault_balance, before.vault_balance);
                        assert_eq!(pool.current_epoch, before.current_epoch + 1);
                    }
                } else {
                    let amount = 1 + next(&mut seed) % 100_000_000;
                    if add_liquidity::handler(&mut pool, key(20), key(25), vault, amount).is_ok() {
                        vault += amount;
                        assert!(pool.s_long >= before.s_long && pool.s_short >= before.s_short);
                        assert_eq!(pool.vault_balance, before.vault_balance + amount);
                    }
                }
            }
        }
        // after every transition, taken or refused
        assert_eq!(pool.r_long as u128 + pool.r_short as u128, pool.vault_balance as u128);
    }
    assert!(trades > 50);
    assert!(settlements > 0);
}

#[test]
fn cost_is_homogeneous_up_to_its_rounding() {
    let lambdas = [Q96, Q96 * 3 / 2, Q96 * 1000, Q96 / 7, 12_345_678_901_234_567_890_123_456_789u128];
    let supplies: [(u64, u64); 5] = [(3, 4), (1, 1), (10_000_000, 10_000_000), (60_000, 40_000_000), (0, 7)];
    for lambda in lambdas {
        for (s_long, s_short) in supplies {
            for k in [1u64, 2, 3, 10, 1000] {
                let base = ICBSCurve::cost_function(s_long, s_short, lambda, 1, 1, 2).unwrap();
                let scaled =
                    ICBSCurve::cost_function(s_long * k, s_short * k, lambda, 1, 1, 2).unwrap();
                let k = k as u128;
                assert!(k * base <= scaled);
                assert!(scaled < k * base + k + (k - 1) * (lambda / Q96 + 1));
            }
        }
    }
    // where the rounding is large against the cost, one percent does not hold:
    // the norm of (1, 1) is 1, the norm of (10, 10) is 14
    assert_eq!(ICBSCurve::cost_function(1, 1, Q96, 1, 1, 2), Ok(1));
    assert_eq!(ICBSCurve::cost_function(10, 10, Q96, 1, 1, 2), Ok(14));
}

#[test]
fn cost_is_linear_in_lambda_up_to_one() {
    let lambdas = [Q96, Q96 * 3 / 2, Q96 / 2, Q96 / 7, 12_345_678_901_234_567_890_123_456_789u128];
    let supplies: [(u64, u64); 5] = [(3, 4), (1, 0), (10_000_000, 10_000_000), (60_000, 40_000_000), (0, 7)];
    for lambda in lambdas {
        for (s_long, s_short) in supplies {
            let once = ICBSCurve::cost_function(s_long, s_short, lambda, 1, 1, 2).unwrap();
            let twice = ICBSCurve::cost_function(s_long, s_short, 2 * lambda, 1, 1, 2).unwrap();
            assert!(twice == 2 * once || twice == 2 * once + 1);
        }
    }
    // half of one: the cost of a single token is 0, at twice the lambda it is 1
    assert_eq!(ICBSCurve::cost_function(1, 0, Q96 / 2, 1, 1, 2), Ok(0));
    assert_eq!(ICBSCurve::cost_function(1, 0, Q96, 1, 1, 2), Ok(1));
}

#[test]
fn a_buy_never_lowers_the_price_bought_nor_raises_the_other() {
    let mut seed = 7u64;
    for _ in 0..300 {
        let s = 1 + next(&mut seed) % 100_000_000;
        let o = next(&mut seed) % 100_000_000;
        let usdc = 1 + next(&mut seed) % 10_000_000;
        let lambda = Q96 / 4 + (next(&mut seed) as u128) * (Q96 / 1_000_000);
        let sigma_long = (1u128 << 56) + ((next(&mut seed) as u128) << 40);
        let sigma_short = (1u128 << 56) + ((next(&mut seed) as u128) << 40);
        let is_long = next(&mut seed) % 2 == 0;
        let (own, other) = if is_long { (TokenSide::Long, TokenSide::Short) } else { (TokenSide::Short, TokenSide::Long) };
        let quote = |s_side: u64, side: TokenSide| {
            let (l, sh) = if is_long { (s_side, o) } else { (o, s_side) };
            ICBSCurve::sqrt_marginal_price_from_virtual(l, sh, side, lambda, sigma_long, sigma_short, 1, 1, 2)
        };
        let bought = ICBSCurve::calculate_buy(s, usdc, lambda, o, 1, 1, 2, is_long, sigma_long, sigma_short);
        if let (Ok((delta, after)), Ok(before), Ok(other_before)) = (bought, quote(s, own), quote(s, other)) {
            assert!(delta >= 1);
            assert!(after >= before);
            assert_eq!(quote(s + delta, own), Ok(after));
            assert!(quote(s + delta, other).unwrap() <= other_before);
        }
    }
}

#[test]
fn a_buy_can_leave_the_price_where_it_was() {
    // with nothing on the other side the price of a side is lambda, whatever
    // its supply
    let before =
        ICBSCurve::sqrt_marginal_price_from_virtual(10, 0, TokenSide::Long, Q96, Q64, Q64, 1, 1, 2)
            .unwrap();
    let (delta, after) = ICBSCurve::calculate_buy(10, 5, Q96, 0, 1, 1, 2, true, Q64, Q64).unwrap();
    assert_eq!(delta, 5);
    assert_eq!(after, before);
    assert_eq!(after, Q96);
}

#[test]
fn a_sell_never_raises_the_price_sold() {
    let mut seed = 11u64;
    for _ in 0..300 {
        let s = 1 + next(&mut seed) % 100_000_000;
        let o = next(&mut seed) % 100_000_000;
        let tokens = 1 + next(&mut seed) % s;
        let lambda = Q96 / 4 + (next(&mut seed) as u128) * (Q96 / 1_000_000);
        let sigma = (1u128 << 56) + ((next(&mut seed) as u128) << 40);
        let is_long = next(&mut seed) % 2 == 0;
        let side = if is_long { TokenSide::Long } else { TokenSide::Short };
        let (l, sh) = if is_long { (s, o) } else { (o, s) };
        let before =
            ICBSCurve::sqrt_marginal_price_from_virtual(l, sh, side, lambda, sigma, sigma, 1, 1, 2);
        let sold = ICBSCurve::calculate_sell(s, tokens, lambda, o, 1, 1, 2, is_long, sigma, sigma);
        if let (Ok((_, after)), Ok(before)) = (sold, before) {
            assert!(after <= before);
        }
    }
}

#[test]
fn a_round_trip_returns_the_payment_less_its_rounding() {
    let mut seed = 13u64;
    let mut trips = 0;
    for _ in 0..500 {
        let s = 1 + next(&mut seed) % 100_000_000;
        let o = next(&mut seed) % 100_000_000;
        let usdc = 1 + next(&mut seed) % 10_000_000;
        let lambda = Q96 / 4 + (next(&mut seed) as u128) * (Q96 / 100_000);
        let is_long = next(&mut seed) % 2 == 0;
        if let Ok((delta, _)) = ICBSCurve::calculate_buy(s, usdc, lambda, o, 1, 1, 2, is_long, Q64, Q64) {
            let (out, _) =
                ICBSCurve::calculate_sell(s + delta, delta, lambda, o, 1, 1, 2, is_long, Q64, Q64)
                    .unwrap();
            trips += 1;
            assert!(out <= usdc);
            assert!(out as u128 + 2 * (lambda / Q96) + 2 >= usdc as u128);
            if usdc as u128 >= 200 * (lambda / Q96 + 1) {
                assert!(100 * out as u128 >= 99 * usdc as u128);
            }
        }
    }
    assert!(trips > 100);
}

#[test]
fn a_small_round_trip_at_a_large_lambda_loses_more_than_one_percent() {
    // lambda of 1000: 2000 micro-units buy one unit of norm
    let lambda = Q96 * 1000;
    let (delta, _) =
        ICBSCurve::calculate_buy(10_000_000, 2_000, lambda, 10_000_000, 1, 1, 2, true, Q64, Q64)
            .unwrap();
    assert_eq!(delta, 1);
    let (out, _) = ICBSCurve::calculate_sell(
        10_000_001, 1, lambda, 10_000_000, 1, 1, 2, true, Q64, Q64,
    )
    .unwrap();
    assert_eq!(out, 1_000);
}

#[test]
fn liquidity_is_split_by_the_prediction() {
    // reserves 300_038_887 and 699_961_112: q = 300_038 millionths
    let mut pool = deployed(1_000_000_000, 300_000_000);
    assert_eq!((pool.s_long, pool.s_short), (4_583, 7_000));
    assert_eq!((pool.r_long, pool.r_short), (300_038_887, 699_961_112));
    let vault = pool.vault_balance;
    let event =
        add_liquidity::handler(&mut pool, key(20), key(25), vault, 100_000_000).unwrap();
    // 30_003_800 for the long side, the rest for the short side
    assert_eq!((event.long_tokens_out, event.short_tokens_out), (416, 636));
    assert_eq!((pool.s_long, pool.s_short), (4_999, 7_636));
    assert_eq!((pool.r_long, pool.r_short), (330_009_657, 769_990_342));
    assert_eq!(pool.r_long + pool.r_short, pool.vault_balance);
    // whole tokens are minted, so the prediction moves a little: 300_038 to 300_008
    assert_eq!(pool.r_long as u128 * 1_000_000 / pool.vault_balance as u128, 300_008);
}
