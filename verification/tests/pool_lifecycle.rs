use anchor_lang::prelude::Pubkey;
use veritas_curation::content_pool::errors::ContentPoolError;
use veritas_curation::content_pool::instructions::{
    add_liquidity, close_pool, deploy_market, get_current_state, settle_epoch, trade,
};
use veritas_curation::content_pool::state::{
    Address, ContentPool, TokenSide, TradeType, MIN_POOL_LIQUIDITY, Q64,
};
use veritas_curation::pool_factory::state::PoolFactory;

fn key(tag: u8) -> Address {
    let mut bytes = [0u8; 32];
    bytes[0] = tag;
    bytes[31] = tag;
    Address { bytes }
}

fn created_pool() -> ContentPool {
    ContentPool {
        content_id: key(1),
        creator: key(2),
        market_deployer: Address::unset(),
        post_creator: key(3),
        long_mint: Address::unset(),
        short_mint: Address::unset(),
        vault: Address::unset(),
        stake_vault: key(4),
        f: 1,
        beta_num: 1,
        beta_den: 2,
        s_long: 0,
        s_short: 0,
        r_long: 0,
        r_short: 0,
        sqrt_price_long_x96: 0,
        sqrt_price_short_x96: 0,
        s_scale_long_q64: Q64,
        s_scale_short_q64: Q64,
        lambda_long_q96: 0,
        lambda_short_q96: 0,
        last_settle_ts: 0,
        min_settle_interval: 7200,
        current_epoch: 0,
        expiration_timestamp: i64::MAX,
        last_decay_update: 0,
        vault_balance: 0,
        initial_q: 0,
        factory: key(5),
        bump: 255,
    }
}

fn factory(total_fee_bps: u16, creator_split_bps: u16, default_p0: u64) -> PoolFactory {
    PoolFactory {
        factory_authority: key(6),
        pool_authority: key(7),
        protocol_authority: key(8),
        total_pools: 1,
        total_fee_bps,
        creator_split_bps,
        protocol_treasury: key(9),
        default_f: 1,
        default_beta_num: 1,
        default_beta_den: 2,
        default_p0,
        min_initial_deposit: 100_000_000,
        min_settle_interval: 7200,
        custodian: key(10),
        bump: 254,
    }
}

const POOL: u8 = 20;
const DEPLOYER: u8 = 21;
const LONG_MINT: u8 = 22;
const SHORT_MINT: u8 = 23;
const VAULT: u8 = 24;
const TRADER: u8 = 25;
const NOW: i64 = 1_700_000_000;
const USDC_MINT: u8 = 26;

/// The accounts of a deployment that fits `created_pool`.
fn accounts() -> deploy_market::DeployAccounts {
    deploy_market::DeployAccounts {
        pool_key: key(POOL),
        factory_key: key(5),
        program_id: key(27),
        deployer: key(DEPLOYER),
        usdc_mint: key(USDC_MINT),
        long_mint: key(LONG_MINT),
        short_mint: key(SHORT_MINT),
        vault: key(VAULT),
    }
}

/// What the host would read of accounts that fit.
fn readings() -> deploy_market::HostReadings {
    deploy_market::HostReadings {
        derived_pool: Some(key(POOL)),
        deployer_usdc: Some((key(DEPLOYER), key(USDC_MINT))),
        usdc_decimals: Some(6),
    }
}

/// A pool deployed with 1000 of the stablecoin, split evenly, at the initial
/// price 0.1.
fn deployed_pool() -> ContentPool {
    let mut pool = created_pool();
    deploy_market::deploy_with(&mut pool, &factory(0, 0, 100_000), &accounts(), &readings(), NOW, 1_000_000_000, 500_000_000)
    .unwrap();
    pool
}

fn same(a: &Address, b: &Address) -> bool {
    a.bytes == b.bytes
}

#[test]
fn deploy_splits_an_even_deposit_evenly() {
    let mut pool = created_pool();
    let outcome = deploy_market::deploy_with(&mut pool, &factory(0, 0, 100_000), &accounts(), &readings(), NOW, 1_000_000_000, 500_000_000)
    .unwrap();
    // sqrt(5e8 * 5e8) / 1e5 = 5000 tokens a side
    assert_eq!(pool.s_long, 5_000);
    assert_eq!(pool.s_short, 5_000);
    assert_eq!(pool.r_long, 500_000_000);
    assert_eq!(pool.r_short, 500_000_000);
    assert_eq!(pool.vault_balance, 1_000_000_000);
    // one half in Q32.32
    assert_eq!(pool.initial_q, 1u64 << 31);
    assert_eq!(pool.sqrt_price_long_x96, 25_054_144_837_504_793_082_108_619_784_192);
    assert_eq!(pool.sqrt_price_short_x96, pool.sqrt_price_long_x96);
    // the telemetry fields hold the root of lambda
    assert_eq!(pool.lambda_long_q96, 29_794_424_435_091_616_338_831_042_674_688);
    assert_eq!(pool.lambda_short_q96, pool.lambda_long_q96);
    assert_eq!(outcome.lambda_q96, 11_204_446_742_767_262_622_478_985_456_517_120);
    assert_eq!(outcome.long_atomic, 5_000_000_000);
    assert_eq!(outcome.short_atomic, 5_000_000_000);
    assert_eq!(outcome.event.long_tokens, 5_000);
    assert_eq!(outcome.event.short_allocation, 500_000_000);
    assert_eq!(outcome.event.initial_q, 1u64 << 31);
    assert_eq!(outcome.event.timestamp, NOW);
    assert!(same(&pool.market_deployer, &key(DEPLOYER)));
    assert!(same(&pool.long_mint, &key(LONG_MINT)));
    assert!(same(&pool.short_mint, &key(SHORT_MINT)));
    assert!(same(&pool.vault, &key(VAULT)));
    assert_eq!(pool.current_epoch, 0);
}

#[test]
fn deploy_keeps_the_reserves_within_a_basis_point_of_the_deposit() {
    let deposits: [(u64, u64, u64); 5] = [
        (1_000_000_000, 300_000_000, 100_000),
        (123_456_789, 23_456_789, 1_000_000),
        (10_000_000_000, 9_000_000_000, 1_000_000),
        (100_000_000, 50_000_000, 1_000_000),
        (777_777_777, 400_000_000, 333_333),
    ];
    for (deposit, long_allocation, p0) in deposits {
        let mut pool = created_pool();
        deploy_market::deploy_with(&mut pool, &factory(0, 0, p0), &accounts(), &readings(), NOW, deposit, long_allocation)
        .unwrap();
        let sum = pool.r_long + pool.r_short;
        assert_eq!(sum, pool.vault_balance);
        let diff = if sum > deposit { sum - deposit } else { deposit - sum };
        assert!(diff <= deposit / 10_000);
        assert!(pool.s_long >= 10 && pool.s_short >= 10);
    }
}

#[test]
fn a_small_deposit_deploys_fewer_tokens_than_a_sell_would_leave() {
    // 50 of the stablecoin a side at the initial price 1: 50 tokens a side
    let mut pool = created_pool();
    deploy_market::deploy_with(
        &mut pool, &factory(0, 0, 1_000_000), &accounts(), &readings(), NOW, 100_000_000, 50_000_000,
    )
        .unwrap();
    assert_eq!((pool.s_long, pool.s_short), (50, 50));
    assert_eq!((pool.r_long, pool.r_short), (50_000_000, 50_000_000));
    assert!(pool.s_long < MIN_POOL_LIQUIDITY);
}

#[test]
fn deploy_refuses_what_it_must() {
    let deploy = |pool: &mut ContentPool, fac: &PoolFactory, deposit: u64, long: u64| {
        deploy_market::deploy_with(pool, fac, &accounts(), &readings(), NOW, deposit, long)
            .map(|_| ())
    };
    let fac = factory(0, 0, 100_000);

    let mut pool = deployed_pool();
    let before = pool;
    assert_eq!(
        deploy(&mut pool, &fac, 1_000_000_000, 500_000_000),
        Err(ContentPoolError::MarketAlreadyDeployed)
    );
    assert_eq!(pool.s_long, before.s_long);

    let mut pool = created_pool();
    assert_eq!(
        deploy(&mut pool, &fac, 99_999_999, 50_000_000),
        Err(ContentPoolError::BelowMinimumDeposit)
    );
    assert_eq!(
        deploy(&mut pool, &fac, 1_000_000_000, 1_000_000_001),
        Err(ContentPoolError::InvalidAllocation)
    );
    assert_eq!(
        deploy(&mut pool, &fac, 1_000_000_000, 0),
        Err(ContentPoolError::InvalidAllocation)
    );
    assert_eq!(
        deploy(&mut pool, &fac, 1_000_000_000, 1_000_000_000),
        Err(ContentPoolError::InvalidAllocation)
    );
    // each side needs ten initial prices: 10 * 100_000
    assert_eq!(
        deploy(&mut pool, &fac, 1_000_000_000, 999_999),
        Err(ContentPoolError::InvalidAllocation)
    );
    assert_eq!(
        deploy(&mut pool, &fac, 1_000_000_000, 999_000_001),
        Err(ContentPoolError::InvalidAllocation)
    );
    assert!(deploy(&mut created_pool(), &fac, 1_000_000_000, 1_000_000).is_ok());
    // no initial price
    assert_eq!(
        deploy(&mut pool, &factory(0, 0, 0), 1_000_000_000, 500_000_000),
        Err(ContentPoolError::InvalidParameter)
    );
    // only F = 1, beta = 1/2
    let mut other = created_pool();
    other.f = 2;
    assert_eq!(
        deploy(&mut other, &fac, 1_000_000_000, 500_000_000),
        Err(ContentPoolError::InvalidParameter)
    );
    // a large deposit on few tokens: the deposit per unit of squared norm
    // does not fit a Q96 word
    assert_eq!(
        deploy(&mut pool, &factory(0, 0, 50_000_000_000), 1_000_000_000_000, 500_000_000_000),
        Err(ContentPoolError::NumericalOverflow)
    );
    // accounts that do not fit the pool
    let misfit = |a: deploy_market::DeployAccounts, r: deploy_market::HostReadings| {
        deploy_market::deploy_with(&mut created_pool(), &fac, &a, &r, NOW, 1_000_000_000, 500_000_000)
            .map(|_| ())
    };
    let wrong = Err(ContentPoolError::InvalidParameter);
    assert_eq!(misfit(accounts(), readings()), Ok(()));
    let mut r = readings();
    r.derived_pool = Some(key(99));
    assert_eq!(misfit(accounts(), r), wrong);
    r.derived_pool = None;
    assert_eq!(misfit(accounts(), r), wrong);
    let mut a = accounts();
    a.factory_key = key(99);
    assert_eq!(misfit(a, readings()), wrong);
    let mut r = readings();
    r.deployer_usdc = Some((key(99), key(USDC_MINT)));
    assert_eq!(misfit(accounts(), r), wrong);
    r.deployer_usdc = Some((key(DEPLOYER), key(99)));
    assert_eq!(misfit(accounts(), r), wrong);
    r.deployer_usdc = None;
    assert_eq!(misfit(accounts(), r), wrong);
    let mut r = readings();
    r.usdc_decimals = Some(9);
    assert_eq!(misfit(accounts(), r), wrong);
    r.usdc_decimals = None;
    assert_eq!(misfit(accounts(), r), wrong);
    // the address of the record is looked at before anything else
    let mut twice = deployed_pool();
    let mut r = readings();
    r.derived_pool = Some(key(99));
    assert_eq!(
        deploy_market::deploy_with(&mut twice, &fac, &accounts(), &r, NOW, 1_000_000_000, 500_000_000)
            .map(|_| ()),
        wrong
    );
    // nothing was written by the refusals
    assert!(pool.market_deployer.is_default());
    assert_eq!(pool.s_long, 0);
    assert_eq!(pool.vault_balance, 0);
}

#[test]
fn buy_long_with_fees_and_skim() {
    let mut pool = deployed_pool();
    let outcome = trade::handler(
        &mut pool,
        key(POOL),
        &factory(100, 5000, 100_000),
        key(TRADER),
        key(LONG_MINT),
        1_000_000_000,
        NOW,
        TokenSide::Long,
        TradeType::Buy,
        10_000_000,
        200_000,
        0,
        0,
    )
    .unwrap();
    // 9.8 after the skim, 1% fee of it, half of the fee to the creator
    assert_eq!(outcome.fill.usdc_to_stake, 200_000);
    assert_eq!(outcome.fill.total_fee, 98_000);
    assert_eq!(outcome.fill.creator_fee, 49_000);
    assert_eq!(outcome.fill.protocol_fee, 49_000);
    assert_eq!(outcome.fill.usdc_traded, 9_702_000);
    assert_eq!(outcome.fill.tokens_display, 96);
    assert_eq!(outcome.fill.tokens_atomic, 96_000_000);
    assert_eq!(pool.s_long, 5_096);
    assert_eq!(pool.s_short, 5_000);
    assert_eq!(pool.vault_balance, 1_009_702_000);
    assert_eq!(pool.r_long, 519_348_912);
    assert_eq!(pool.r_short, 490_353_088);
    assert_eq!(pool.r_long + pool.r_short, pool.vault_balance);
    // the norm was lifted into its band: both gauges went from 2^64 to 2^60
    assert_eq!(pool.s_scale_long_q64, 1u128 << 60);
    assert_eq!(pool.s_scale_short_q64, 1u128 << 60);
    assert_eq!(pool.sqrt_price_long_x96, 25_293_744_688_800_364_640_511_144_755_200);
    assert_eq!(pool.sqrt_price_short_x96, 25_055_441_873_842_440_419_307_377_655_808);
    assert_eq!(pool.lambda_long_q96, 707_079_329_900_719_748_595_742_451_560_142);
    assert_eq!(pool.lambda_short_q96, pool.lambda_long_q96);
    // the record
    assert_eq!(outcome.event.usdc_amount, 10_000_000);
    assert_eq!(outcome.event.usdc_to_trade, 9_702_000);
    assert_eq!(outcome.event.usdc_to_stake, 200_000);
    assert_eq!(outcome.event.tokens_traded, 96);
    assert_eq!(outcome.event.s_long_before, 5_000);
    assert_eq!(outcome.event.s_long_after, 5_096);
    assert_eq!(outcome.event.sqrt_price_long_x96_before, 25_054_144_837_504_793_082_108_619_784_192);
    assert_eq!(outcome.event.sqrt_price_long_x96_after, pool.sqrt_price_long_x96);
    assert_eq!(outcome.event.r_long_after, pool.r_long);
    assert_eq!(outcome.event.vault_balance_after, pool.vault_balance);
    assert_eq!(outcome.fee_event.total_fee_micro_usdc, 98_000);
    assert!(same(&outcome.fee_event.post_creator, &key(3)));
    assert!(same(&outcome.fee_event.protocol_treasury, &key(9)));
    assert!(outcome.decay.is_none());
}

#[test]
fn sell_long_after_a_buy() {
    let mut pool = deployed_pool();
    let fac = factory(100, 5000, 100_000);
    let bought = trade::handler(
        &mut pool, key(POOL), &fac, key(TRADER), key(LONG_MINT), 1_000_000_000, NOW,
        TokenSide::Long, TradeType::Buy, 10_000_000, 200_000, 0, 0,
    )
    .unwrap();
    let vault = 1_000_000_000 + bought.fill.usdc_traded;
    let sold = trade::handler(
        &mut pool, key(POOL), &fac, key(TRADER), key(LONG_MINT), vault, NOW,
        TokenSide::Long, TradeType::Sell, 10_000_000, 0, 0, 0,
    )
    .unwrap();
    assert_eq!(sold.fill.tokens_display, 10);
    assert_eq!(sold.fill.tokens_atomic, 10_000_000);
    assert_eq!(sold.fill.usdc_traded, 1_007_686);
    assert_eq!(sold.fill.total_fee, 10_076);
    assert_eq!(sold.fill.creator_fee, 5_038);
    assert_eq!(sold.fill.protocol_fee, 5_038);
    assert_eq!(sold.fill.usdc_to_trader, 997_610);
    assert_eq!(pool.s_long, 5_086);
    assert_eq!(pool.vault_balance, 1_008_694_314);
    assert_eq!(pool.r_long, 512_949_241);
    assert_eq!(pool.r_short, 495_745_073);
    assert_eq!(pool.sqrt_price_long_x96, 25_161_040_785_983_307_002_446_727_872_512);
    assert_eq!(pool.sqrt_price_short_x96, 24_947_407_784_478_854_893_949_327_245_312);
    // a sell reports the net proceeds and the atomic tokens burned
    assert_eq!(sold.event.usdc_amount, 997_610);
    assert_eq!(sold.event.usdc_to_trade, 997_610);
    assert_eq!(sold.event.usdc_to_stake, 0);
    assert_eq!(sold.event.tokens_traded, 10_000_000);
}

#[test]
fn buy_short_moves_the_short_side() {
    let mut pool = deployed_pool();
    let outcome = trade::handler(
        &mut pool, key(POOL), &factory(0, 0, 100_000), key(TRADER), key(SHORT_MINT),
        1_000_000_000, NOW, TokenSide::Short, TradeType::Buy, 100_000_000, 0, 0, 0,
    )
    .unwrap();
    assert_eq!(outcome.fill.tokens_display, 874);
    assert_eq!(pool.s_long, 5_000);
    assert_eq!(pool.s_short, 5_874);
    // the reserve of the traded side comes from lambda, the other is the rest
    assert_eq!(pool.r_short, 695_821_066);
    assert_eq!(pool.r_long, 404_178_934);
    assert_eq!(pool.vault_balance, 1_100_000_000);
    assert_eq!(pool.sqrt_price_short_x96, 27_268_654_531_308_782_465_134_513_618_944);
    assert_eq!(pool.sqrt_price_long_x96, 25_158_459_876_073_933_500_938_520_100_864);
}

fn buy_err(pool: &mut ContentPool, fac: &PoolFactory, mint: u8, vault: u64, side: TokenSide,
           amount: u64, skim: u64, min_tokens_out: u64) -> ContentPoolError {
    trade::handler(
        pool, key(POOL), fac, key(TRADER), key(mint), vault, NOW, side, TradeType::Buy, amount,
        skim, min_tokens_out, 0,
    )
    .map(|_| ())
    .unwrap_err()
}

fn sell_err(pool: &mut ContentPool, fac: &PoolFactory, vault: u64, side: TokenSide, amount: u64,
            min_usdc_out: u64) -> ContentPoolError {
    let mint = match side {
        TokenSide::Long => LONG_MINT,
        TokenSide::Short => SHORT_MINT,
    };
    trade::handler(
        pool, key(POOL), fac, key(TRADER), key(mint), vault, NOW, side, TradeType::Sell, amount,
        0, 0, min_usdc_out,
    )
    .map(|_| ())
    .unwrap_err()
}

#[test]
fn trade_refuses_what_it_must() {
    let fac = factory(100, 5000, 100_000);
    let v = 1_000_000_000;

    let mut fresh = created_pool();
    assert_eq!(
        buy_err(&mut fresh, &fac, LONG_MINT, v, TokenSide::Long, 10_000_000, 0, 0),
        ContentPoolError::MarketNotDeployed
    );

    let mut pool = deployed_pool();
    let before = pool;
    // a buy below 0.1 or above 1M of the stablecoin
    assert_eq!(
        buy_err(&mut pool, &fac, LONG_MINT, v, TokenSide::Long, 99_999, 0, 0),
        ContentPoolError::InvalidTradeAmount
    );
    assert_eq!(
        buy_err(&mut pool, &fac, LONG_MINT, v, TokenSide::Long, 1_000_000_000_001, 0, 0),
        ContentPoolError::InvalidTradeAmount
    );
    // the mint of the other side
    assert_eq!(
        buy_err(&mut pool, &fac, SHORT_MINT, v, TokenSide::Long, 10_000_000, 0, 0),
        ContentPoolError::InvalidMint
    );
    // a skim of more than half
    assert_eq!(
        buy_err(&mut pool, &fac, LONG_MINT, v, TokenSide::Long, 10_000_000, 5_000_001, 0),
        ContentPoolError::InvalidStakeSkim
    );
    // a fee of more than the whole
    assert_eq!(
        buy_err(&mut pool, &factory(10_001, 5000, 100_000), LONG_MINT, v, TokenSide::Long, 10_000_000, 0, 0),
        ContentPoolError::FeeCalculationOverflow
    );
    // a creator's share of more than the fee
    assert_eq!(
        buy_err(&mut pool, &factory(100, 10_001, 100_000), LONG_MINT, v, TokenSide::Long, 10_000_000, 0, 0),
        ContentPoolError::FeeCalculationOverflow
    );
    // 96 tokens come out, 97 were asked for
    assert_eq!(
        buy_err(&mut pool, &fac, LONG_MINT, v, TokenSide::Long, 10_000_000, 200_000, 96_000_001),
        ContentPoolError::SlippageExceeded
    );
    // a vault that cannot back the supplies: lambda under its least value
    assert_eq!(
        buy_err(&mut pool, &fac, LONG_MINT, 0, TokenSide::Long, 100_000, 0, 0),
        ContentPoolError::InvalidParameter
    );
    // a sell that is no whole number of tokens
    assert_eq!(
        sell_err(&mut pool, &fac, v, TokenSide::Long, 1_500_000, 0),
        ContentPoolError::InvalidTradeAmount
    );
    assert_eq!(
        sell_err(&mut pool, &fac, v, TokenSide::Long, 0, 0),
        ContentPoolError::InvalidTradeAmount
    );
    // more than the side holds
    assert_eq!(
        sell_err(&mut pool, &fac, v, TokenSide::Long, 5_001_000_000, 0),
        ContentPoolError::InsufficientBalance
    );
    // a sell that would leave the side under the liquidity floor
    assert_eq!(
        sell_err(&mut pool, &fac, v, TokenSide::Long, 4_001_000_000, 0),
        ContentPoolError::NoLiquidity
    );
    // the trader's limit on the net proceeds
    assert_eq!(
        sell_err(&mut pool, &fac, v, TokenSide::Long, 10_000_000, 1_000_000_000),
        ContentPoolError::SlippageExceeded
    );
    // no refusal wrote anything
    assert_eq!(pool.s_long, before.s_long);
    assert_eq!(pool.s_short, before.s_short);
    assert_eq!(pool.r_long, before.r_long);
    assert_eq!(pool.vault_balance, before.vault_balance);
    assert_eq!(pool.s_scale_long_q64, before.s_scale_long_q64);
    assert_eq!(pool.sqrt_price_long_x96, before.sqrt_price_long_x96);
    assert_eq!(pool.lambda_long_q96, before.lambda_long_q96);
}

#[test]
fn a_sell_through_a_zero_gauge_is_a_division_by_zero() {
    let mut pool = deployed_pool();
    pool.s_scale_long_q64 = 0;
    pool.s_scale_short_q64 = 0;
    pool.vault_balance = 1_000;
    pool.r_long = 500;
    pool.r_short = 500;
    assert_eq!(
        sell_err(&mut pool, &factory(0, 0, 100_000), 1_000, TokenSide::Long, 1_000_000, 0),
        ContentPoolError::DivisionByZero
    );
}

#[test]
fn sell_leaves_both_supplies_at_the_floor_or_above() {
    let mut pool = deployed_pool();
    let fac = factory(0, 0, 100_000);
    // down to the floor exactly
    trade::handler(
        &mut pool, key(POOL), &fac, key(TRADER), key(LONG_MINT), 1_000_000_000, NOW,
        TokenSide::Long, TradeType::Sell, 4_000_000_000, 0, 0, 0,
    )
    .unwrap();
    assert_eq!(pool.s_long, MIN_POOL_LIQUIDITY);
    assert!(pool.s_short >= MIN_POOL_LIQUIDITY);
    assert_eq!(pool.r_long + pool.r_short, pool.vault_balance);
    // and no further
    let vault = pool.vault_balance;
    assert_eq!(
        sell_err(&mut pool, &fac, vault, TokenSide::Long, 1_000_000, 0),
        ContentPoolError::NoLiquidity
    );
}

#[test]
fn settle_moves_reserves_and_gauges_but_not_holdings() {
    let mut pool = deployed_pool();
    pool.r_long = 600_000_000;
    pool.r_short = 400_000_000;
    let event = settle_epoch::handler(&mut pool, key(POOL), key(TRADER), 1_000_000_000, NOW, 300_000)
        .unwrap();
    // q = 0.6, score 0.3: f_L = 0.3 / 0.6 = 0.5, f_S = 0.7 / 0.4 = 1.75
    assert_eq!(event.market_prediction_q, 600_000);
    assert_eq!(event.f_long, 500_000);
    assert_eq!(event.f_short, 1_750_000);
    assert_eq!(pool.r_long, 300_000_000);
    assert_eq!(pool.r_short, 700_000_000);
    assert_eq!(pool.vault_balance, 1_000_000_000);
    assert_eq!(pool.s_long, 5_000);
    assert_eq!(pool.s_short, 5_000);
    // gauges: 2^64 * 0.5 and 2^64 * 1.75, then shifted right by 4 for the norm
    assert_eq!(pool.s_scale_long_q64, 576_460_752_303_423_488);
    assert_eq!(pool.s_scale_short_q64, 2_017_612_633_061_982_208);
    assert_eq!(pool.sqrt_price_long_x96, 34_068_736_118_901_591_955_096_993_792_000);
    assert_eq!(pool.sqrt_price_short_x96, 9_734_000_651_389_380_957_655_258_890_240);
    assert_eq!(pool.current_epoch, 1);
    assert_eq!(pool.last_settle_ts, NOW);
    assert_eq!(event.epoch, 1);
    assert_eq!(event.bd_score, 300_000);
    assert_eq!(event.r_long_before, 600_000_000);
    assert_eq!(event.r_long_after, 300_000_000);
    assert_eq!(event.s_scale_long_before, Q64);
    assert_eq!(event.s_scale_long_after, pool.s_scale_long_q64);
}

#[test]
fn settle_gives_the_vault_out_by_the_score_where_both_reserves_round_to_zero() {
    // 50 on the long side at a score of 0: the factor 0.01 leaves nothing of
    // it, and the short side had nothing
    let mut pool = deployed_pool();
    pool.r_long = 50;
    pool.r_short = 0;
    pool.vault_balance = 50;
    settle_epoch::handler(&mut pool, key(POOL), key(TRADER), 1_000_000_000, NOW, 0).unwrap();
    assert_eq!((pool.r_long, pool.r_short), (0, 50));
    assert_eq!(pool.vault_balance, 50);
    // 1% of a vault of one: 10_000 to the long side
    let mut pool = deployed_pool();
    pool.r_long = 50;
    pool.r_short = 0;
    pool.vault_balance = 1_000_000;
    settle_epoch::handler(&mut pool, key(POOL), key(TRADER), 1_000_000_000, NOW, 10_000).unwrap();
    assert_eq!((pool.r_long, pool.r_short), (10_000, 990_000));
    // no reserves at all, and a vault: the same
    let mut pool = deployed_pool();
    pool.r_long = 0;
    pool.r_short = 0;
    pool.vault_balance = 7;
    settle_epoch::handler(&mut pool, key(POOL), key(TRADER), 1_000_000_000, NOW, 500_000).unwrap();
    assert_eq!((pool.r_long, pool.r_short), (3, 4));
    // something left of either side: its share of the vault, as ever
    let mut pool = deployed_pool();
    pool.r_long = 50;
    pool.r_short = 0;
    pool.vault_balance = 50;
    settle_epoch::handler(&mut pool, key(POOL), key(TRADER), 1_000_000_000, NOW, 300_000).unwrap();
    assert_eq!((pool.r_long, pool.r_short), (50, 0));
}

#[test]
fn settle_refuses_what_it_must() {
    let mut pool = deployed_pool();
    let before = pool;
    pool.last_settle_ts = NOW - 7199;
    assert_eq!(
        settle_epoch::handler(&mut pool, key(POOL), key(TRADER), 1_000_000_000, NOW, 300_000)
            .map(|_| ()),
        Err(ContentPoolError::SettlementCooldown)
    );
    pool.last_settle_ts = NOW - 7200;
    assert_eq!(
        settle_epoch::handler(&mut pool, key(POOL), key(TRADER), 1_000_000_000, NOW, 1_000_001)
            .map(|_| ()),
        Err(ContentPoolError::InvalidBDScore)
    );
    pool.current_epoch = u64::MAX;
    assert_eq!(
        settle_epoch::handler(&mut pool, key(POOL), key(TRADER), 1_000_000_000, NOW, 500_000)
            .map(|_| ()),
        Err(ContentPoolError::NumericalOverflow)
    );
    assert_eq!(pool.r_long, before.r_long);
    assert_eq!(pool.s_scale_long_q64, before.s_scale_long_q64);
    pool.current_epoch = 0;
    assert!(
        settle_epoch::handler(&mut pool, key(POOL), key(TRADER), 1_000_000_000, NOW, 500_000)
            .is_ok()
    );
    // and at once again: the cooldown
    assert_eq!(
        settle_epoch::handler(&mut pool, key(POOL), key(TRADER), 1_000_000_000, NOW + 7199, 500_000)
            .map(|_| ()),
        Err(ContentPoolError::SettlementCooldown)
    );
}

#[test]
fn settle_clamps_its_factors() {
    // q = 0.5; a score of 0 asks for f_L = 0: held at 0.01; f_S = 2
    let mut pool = deployed_pool();
    let event = settle_epoch::handler(&mut pool, key(POOL), key(TRADER), 1_000_000_000, NOW, 0)
        .unwrap();
    assert_eq!(event.f_long, 10_000);
    assert_eq!(event.f_short, 2_000_000);
    assert_eq!(pool.r_long + pool.r_short, pool.vault_balance);
    // q = 0.1% after the clamp: a score of 1 asks for f_L = 1000: held at 100
    let mut pool = deployed_pool();
    pool.r_long = 1;
    pool.r_short = 999_999_999;
    let event =
        settle_epoch::handler(&mut pool, key(POOL), key(TRADER), 1_000_000_000, NOW, 1_000_000)
            .unwrap();
    assert_eq!(event.market_prediction_q, 0);
    assert_eq!(event.f_long, 100_000_000);
    assert_eq!(event.f_short, 10_000);
}

#[test]
fn close_pool_needs_an_empty_pool_and_the_right_signer() {
    let pool = deployed_pool();
    assert_eq!(
        close_pool::handler(&pool, key(POOL), key(7), key(2), 5, NOW).map(|_| ()),
        Err(ContentPoolError::PositionsStillOpen)
    );
    let empty = created_pool();
    assert_eq!(
        close_pool::handler(&empty, key(POOL), key(7), key(99), 5, NOW).map(|_| ()),
        Err(ContentPoolError::Unauthorized)
    );
    // the creator, or the pool authority
    let event = close_pool::handler(&empty, key(POOL), key(7), key(2), 5, NOW).unwrap();
    assert_eq!(event.remaining_usdc, 5);
    assert_eq!(event.timestamp, NOW);
    assert!(same(&event.creator, &key(2)));
    assert!(close_pool::handler(&empty, key(POOL), key(7), key(7), 0, NOW).is_ok());
}

#[test]
fn get_current_state_reports_the_pool() {
    let pool = deployed_pool();
    let state = get_current_state::handler(&pool).unwrap();
    assert_eq!(state.r_long, 500_000_000);
    assert_eq!(state.q, 1u64 << 31);
    // 5e8 micro-units over 5000 tokens, times one million
    assert_eq!(state.price_long, 100_000_000_000);
    assert_eq!(state.price_short, 100_000_000_000);
    assert_eq!(state.s_long, 5_000);
    assert_eq!(state.sqrt_price_long_x96, pool.sqrt_price_long_x96);
    assert_eq!(state.days_expired, 0);
    assert!(!state.decay_pending);
    // an empty pool: one half, and one million a side
    let empty = get_current_state::handler(&created_pool()).unwrap();
    assert_eq!(empty.q, 1u64 << 31);
    assert_eq!(empty.price_long, 1_000_000);
    assert_eq!(empty.price_short, 1_000_000);
    // a price beyond 64 bits
    let mut odd = created_pool();
    odd.r_long = u64::MAX;
    odd.s_long = 1;
    assert_eq!(
        get_current_state::handler(&odd).map(|_| ()),
        Err(ContentPoolError::NumericalOverflow)
    );
}

#[test]
fn add_liquidity_mints_both_sides_and_keeps_the_reserve_sum() {
    let mut pool = deployed_pool();
    let event =
        add_liquidity::handler(&mut pool, key(POOL), key(TRADER), 1_000_000_000, 100_000_000)
            .unwrap();
    assert_eq!(pool.vault_balance, 1_100_000_000);
    assert_eq!(pool.r_long + pool.r_short, pool.vault_balance);
    assert_eq!(pool.s_long, 5_000 + event.long_tokens_out);
    assert_eq!(pool.s_short, 5_000 + event.short_tokens_out);
    // an even pool mints evenly
    assert_eq!(event.long_tokens_out, event.short_tokens_out);
    assert_eq!(event.new_r_long, pool.r_long);
    assert_eq!(event.new_s_short, pool.s_short);
    assert_eq!(event.usdc_amount, 100_000_000);
}

#[test]
fn add_liquidity_refuses_what_it_must() {
    let mut pool = deployed_pool();
    assert_eq!(
        add_liquidity::handler(&mut pool, key(POOL), key(TRADER), 1_000_000_000, 0).map(|_| ()),
        Err(ContentPoolError::InvalidTradeAmount)
    );
    let mut fresh = created_pool();
    assert_eq!(
        add_liquidity::handler(&mut fresh, key(POOL), key(TRADER), 0, 5).map(|_| ()),
        Err(ContentPoolError::MarketNotDeployed)
    );
    let mut drained = deployed_pool();
    drained.r_long = 0;
    drained.r_short = 0;
    assert_eq!(
        add_liquidity::handler(&mut drained, key(POOL), key(TRADER), 1_000_000_000, 5)
            .map(|_| ()),
        Err(ContentPoolError::NoLiquidity)
    );
    assert_eq!(
        add_liquidity::handler(&mut pool, key(POOL), key(TRADER), u64::MAX, 5).map(|_| ()),
        Err(ContentPoolError::NumericalOverflow)
    );
    assert_eq!(pool.vault_balance, 1_000_000_000);
    assert_eq!(pool.s_long, 5_000);
}

/// A token account as the token program stores it.
fn stored_token_account(mint: &Address, owner: &Address, state: u8) -> Vec<u8> {
    let mut data = vec![0u8; 165];
    data[..32].copy_from_slice(&mint.bytes);
    data[32..64].copy_from_slice(&owner.bytes);
    data[64..72].copy_from_slice(&5_000_000_000u64.to_le_bytes());
    data[108] = state;
    data
}

/// A mint as the token program stores it.
fn stored_mint(decimals: u8, initialized: u8) -> Vec<u8> {
    let mut data = vec![0u8; 82];
    data[36..44].copy_from_slice(&1_000_000_000_000u64.to_le_bytes());
    data[44] = decimals;
    data[45] = initialized;
    data
}

#[test]
fn deploy_reads_the_accounts_through_the_sdks() {
    let program = Pubkey::new_from_array(key(27).bytes);
    let mut pool = created_pool();
    let (derived, bump) =
        Pubkey::find_program_address(&[b"content_pool", &pool.content_id.bytes], &program);
    assert!(bump > 0);
    let mut a = accounts();
    a.pool_key = Address { bytes: derived.to_bytes() };
    let usdc = stored_token_account(&key(USDC_MINT), &key(DEPLOYER), 1);
    let mint = stored_mint(6, 1);
    let fac = factory(0, 0, 100_000);
    let wrong = Err(ContentPoolError::InvalidParameter);
    let mut deploy = |pool: &mut ContentPool, a: &deploy_market::DeployAccounts, usdc: &[u8], mint: &[u8]| {
        deploy_market::handler(pool, &fac, a, usdc, mint, NOW, 1_000_000_000, 500_000_000)
            .map(|_| ())
    };

    // a record that is not at the derived address, or derived under another program
    assert_eq!(deploy(&mut pool, &accounts(), &usdc, &mint), wrong);
    let mut elsewhere = a;
    elsewhere.program_id = key(28);
    assert_eq!(deploy(&mut pool, &elsewhere, &usdc, &mint), wrong);
    // the program's own address is not the derived address either
    let mut own = a;
    own.pool_key = a.program_id;
    assert_eq!(deploy(&mut pool, &own, &usdc, &mint), wrong);
    // an account of another owner, of another mint, not initialized, or cut short
    assert_eq!(deploy(&mut pool, &a, &stored_token_account(&key(USDC_MINT), &key(99), 1), &mint), wrong);
    assert_eq!(deploy(&mut pool, &a, &stored_token_account(&key(99), &key(DEPLOYER), 1), &mint), wrong);
    assert_eq!(deploy(&mut pool, &a, &stored_token_account(&key(USDC_MINT), &key(DEPLOYER), 0), &mint), wrong);
    assert_eq!(deploy(&mut pool, &a, &usdc[..164], &mint), wrong);
    // a frozen account is an account; one with a state of 3, or with a
    // malformed tag of an optional field, is none
    let mut odd = usdc.clone();
    odd[108] = 3;
    assert_eq!(deploy(&mut pool, &a, &odd, &mint), wrong);
    for tag_at in [72usize, 109, 129] {
        let mut odd = usdc.clone();
        odd[tag_at] = 2;
        assert_eq!(deploy(&mut pool, &a, &odd, &mint), wrong);
        let mut odd = usdc.clone();
        odd[tag_at + 3] = 1;
        assert_eq!(deploy(&mut pool, &a, &odd, &mint), wrong);
    }
    for tag_at in [0usize, 46] {
        let mut odd = mint.clone();
        odd[tag_at] = 2;
        assert_eq!(deploy(&mut pool, &a, &usdc, &odd), wrong);
        let mut odd = mint.clone();
        odd[tag_at + 1] = 1;
        assert_eq!(deploy(&mut pool, &a, &usdc, &odd), wrong);
    }
    assert_eq!(deploy(&mut pool, &a, &usdc, &stored_mint(6, 2)), wrong);
    // a mint with other decimals, not initialized, or cut short
    assert_eq!(deploy(&mut pool, &a, &usdc, &stored_mint(9, 1)), wrong);
    assert_eq!(deploy(&mut pool, &a, &usdc, &stored_mint(6, 0)), wrong);
    assert_eq!(deploy(&mut pool, &a, &usdc, &mint[..81]), wrong);
    assert!(pool.market_deployer.is_default());

    // accounts that fit: here a frozen account with a delegate and a close
    // authority, and a mint with both authorities
    let mut full = stored_token_account(&key(USDC_MINT), &key(DEPLOYER), 2);
    full[72] = 1;
    full[109] = 1;
    full[129] = 1;
    let mut ruled = stored_mint(6, 1);
    ruled[0] = 1;
    ruled[46] = 1;
    assert_eq!(deploy(&mut pool, &a, &full, &ruled), Ok(()));
    assert_eq!((pool.s_long, pool.s_short), (5_000, 5_000));
    assert!(same(&pool.market_deployer, &key(DEPLOYER)));
}
