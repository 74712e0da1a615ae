//! Bilateral liquidity: a deposit that mints both sides at once.
//!
//! The deposit is split between the sides in the proportion of the market's
//! prediction, and each part buys its side at the side's present price.

use vstd::prelude::*;
use vstd::math::min;
use crate::content_pool::curve::{
    display_price_q96, price_q96, reserve_result,
    sqrt_marginal_price_from_virtual_result, ICBSCurve, SUPPLY_SCALE,
};
use crate::content_pool::errors::ContentPoolError;
use crate::content_pool::events::LiquidityAdded;
use crate::content_pool::instructions::settle_epoch::MICRO;
use crate::content_pool::instructions::trade::{
    derive_lambda, pool_lambda_result, renormalize_pool, renormalized_pool,
    side_virtual,
};
use crate::content_pool::math::{
    div_256_by_128, isqrt_u128, lemma_limb_product, lemma_product_bound, lemma_quotient_fits, mul_div_u128, virtual_supply, wide, TWO_32, TWO_64, TWO_96,
};
use crate::content_pool::state::{Address, ContentPool, TokenSide};

verus! {

/// The LONG part of a deposit: the deposit times the prediction in
/// millionths, floored.
pub open spec fn long_part(usdc_amount: int, r_long: int, r_short: int) -> int {
    (usdc_amount * ((r_long * MICRO) / (r_long + r_short))) / (MICRO as int)
}

/// Price of a display token of a side, in Q96, from lambda and the virtual
/// supplies. An empty side is priced at `lambda / sigma`.
pub open spec fn liquidity_price_q96(
    v_self: int,
    v_other: int,
    sigma_self: int,
    lambda_q96: int,
) -> int {
    if v_self > 0 {
        display_price_q96(price_q96(v_self, v_self, v_other, lambda_q96), sigma_self)
    } else {
        display_price_q96(lambda_q96, sigma_self)
    }
}

/// What pricing a side for a deposit returns.
pub open spec fn liquidity_price_result(
    v_self: int,
    v_other: int,
    sigma_self: int,
    lambda_q96: int,
) -> Result<u128, ContentPoolError> {
    if sigma_self == 0 {
        Err(ContentPoolError::DivisionByZero)
    } else if liquidity_price_q96(v_self, v_other, sigma_self, lambda_q96) > u128::MAX {
        Err(ContentPoolError::NumericalOverflow)
    } else {
        Ok(liquidity_price_q96(v_self, v_other, sigma_self, lambda_q96) as u128)
    }
}

/// Display tokens that `usdc` buys at the price `p`: `floor(usdc * 2^96 / p)`.
pub open spec fn tokens_for(usdc: int, p_display_q96: int) -> int {
    (usdc * (TWO_96 as int)) / p_display_q96
}

/// What converting a part of the deposit into tokens returns.
pub open spec fn tokens_for_result(usdc: int, p_display_q96: int) -> Result<
    u64,
    ContentPoolError,
> {
    if p_display_q96 == 0 || tokens_for(usdc, p_display_q96) > u64::MAX {
        Err(ContentPoolError::NumericalOverflow)
    } else {
        Ok(tokens_for(usdc, p_display_q96) as u64)
    }
}

/// What adding liquidity does: the pool it leaves and its record, or the
/// error.
pub open spec fn add_liquidity_result(
    pool: ContentPool,
    pool_key: Address,
    user: Address,
    vault_amount: u64,
    usdc_amount: u64,
) -> Result<(ContentPool, LiquidityAdded), ContentPoolError> {
    let gauged = renormalized_pool(pool);
    let v_long = side_virtual(gauged, TokenSide::Long);
    let v_short = side_virtual(gauged, TokenSide::Short);
    let long_usdc = long_part(usdc_amount as int, pool.r_long as int, pool.r_short as int);
    let short_usdc = usdc_amount - long_usdc;
    if usdc_amount == 0 {
        Err(ContentPoolError::InvalidTradeAmount)
    } else if !pool.is_deployed() {
        Err(ContentPoolError::MarketNotDeployed)
    } else if pool.r_long + pool.r_short == 0 {
        Err(ContentPoolError::NoLiquidity)
    } else if vault_amount + usdc_amount > u64::MAX {
        Err(ContentPoolError::NumericalOverflow)
    } else {
        match pool_lambda_result(vault_amount + usdc_amount, gauged) {
            Err(e) => Err(e),
            Ok(lambda) => match liquidity_price_result(
                v_long,
                v_short,
                gauged.s_scale_long_q64 as int,
                lambda as int,
            ) {
                Err(e) => Err(e),
                Ok(p_long) => match liquidity_price_result(
                    v_short,
                    v_long,
                    gauged.s_scale_short_q64 as int,
                    lambda as int,
                ) {
                    Err(e) => Err(e),
                    Ok(p_short) => match tokens_for_result(long_usdc, p_long as int) {
                        Err(e) => Err(e),
                        Ok(long_tokens) => match tokens_for_result(short_usdc, p_short as int) {
                            Err(e) => Err(e),
                            Ok(short_tokens) => {
                                if long_tokens * SUPPLY_SCALE > u64::MAX || short_tokens
                                    * SUPPLY_SCALE > u64::MAX {
                                    Err(ContentPoolError::SupplyOverflow)
                                } else if pool.s_long + long_tokens > u64::MAX || pool.s_short
                                    + short_tokens > u64::MAX || pool.vault_balance + usdc_amount
                                    > u64::MAX {
                                    Err(ContentPoolError::NumericalOverflow)
                                } else {
                                    let grown = ContentPool {
                                        s_long: (pool.s_long + long_tokens) as u64,
                                        s_short: (pool.s_short + short_tokens) as u64,
                                        vault_balance: (pool.vault_balance + usdc_amount) as u64,
                                        ..gauged
                                    };
                                    match repriced_pool(grown, vault_amount + usdc_amount) {
                                        Err(e) => Err(e),
                                        Ok(after) => Ok(
                                            (
                                                after,
                                                LiquidityAdded {
                                                    pool: pool_key,
                                                    user,
                                                    usdc_amount,
                                                    long_tokens_out: long_tokens,
                                                    short_tokens_out: short_tokens,
                                                    new_r_long: after.r_long,
                                                    new_r_short: after.r_short,
                                                    new_s_long: after.s_long,
                                                    new_s_short: after.s_short,
                                                },
                                            ),
                                        ),
                                    }
                                }
                            },
                        },
                    },
                },
            },
        }
    }
}

/// The pool with both root prices and both reserves recomputed from a fresh
/// lambda: the LONG reserve from lambda, capped by the vault balance, and
/// the SHORT reserve the rest of the balance.
pub open spec fn repriced_pool(pool: ContentPool, vault: int) -> Result<
    ContentPool,
    ContentPoolError,
> {
    let v_long = side_virtual(pool, TokenSide::Long);
    let v_short = side_virtual(pool, TokenSide::Short);
    match pool_lambda_result(vault, pool) {
        Err(e) => Err(e),
        Ok(lambda) => match sqrt_marginal_price_from_virtual_result(
            v_long,
            v_short,
            TokenSide::Long,
            lambda as int,
            pool.s_scale_long_q64 as int,
            pool.s_scale_short_q64 as int,
            pool.f,
            pool.beta_num,
            pool.beta_den,
        ) {
            Err(e) => Err(e),
            Ok(price_long) => match sqrt_marginal_price_from_virtual_result(
                v_long,
                v_short,
                TokenSide::Short,
                lambda as int,
                pool.s_scale_long_q64 as int,
                pool.s_scale_short_q64 as int,
                pool.f,
                pool.beta_num,
                pool.beta_den,
            ) {
                Err(e) => Err(e),
                Ok(price_short) => match reserve_result(v_long, v_short, lambda as int) {
                    Err(e) => Err(e),
                    Ok(reserve) => {
                        let r_long = min(reserve as int, pool.vault_balance as int);
                        Ok(
                            ContentPool {
                                sqrt_price_long_x96: price_long,
                                sqrt_price_short_x96: price_short,
                                r_long: r_long as u64,
                                r_short: (pool.vault_balance - r_long) as u64,
                                ..pool
                            },
                        )
                    },
                },
            },
        }
    }
}

/// Recompute prices and reserves of a pool from a fresh lambda.
fn reprice(pool: &ContentPool, vault: u64) -> (res: Result<ContentPool, ContentPoolError>)
    ensures
        res == repriced_pool(*pool, vault as int),
        res matches Ok(after) ==> after.reserves_match_vault() && after.s_long == pool.s_long
            && after.s_short == pool.s_short && after.vault_balance == pool.vault_balance,
{
    let lambda_q96 = match derive_lambda(vault, pool) {
        Ok(v) => v,
        Err(e) => {
            return Err(e);
        },
    };
    let v_long: u64 = virtual_supply(pool.s_long, pool.s_scale_long_q64) as u64;
    let v_short: u64 = virtual_supply(pool.s_short, pool.s_scale_short_q64) as u64;
    let price_long = match ICBSCurve::sqrt_marginal_price_from_virtual(
        v_long,
        v_short,
        TokenSide::Long,
        lambda_q96,
        pool.s_scale_long_q64,
        pool.s_scale_short_q64,
        pool.f,
        pool.beta_num,
        pool.beta_den,
    ) {
        Ok(v) => v,
        Err(e) => {
            return Err(e);
        },
    };
    let price_short = match ICBSCurve::sqrt_marginal_price_from_virtual(
        v_long,
        v_short,
        TokenSide::Short,
        lambda_q96,
        pool.s_scale_long_q64,
        pool.s_scale_short_q64,
        pool.f,
        pool.beta_num,
        pool.beta_den,
    ) {
        Ok(v) => v,
        Err(e) => {
            return Err(e);
        },
    };
    let reserve = match ICBSCurve::reserve_from_lambda_and_virtual(v_long, v_short, lambda_q96) {
        Ok(v) => v,
        Err(e) => {
            return Err(e);
        },
    };
    let mut after: ContentPool = *pool;
    after.sqrt_price_long_x96 = price_long;
    after.sqrt_price_short_x96 = price_short;
    after.r_long = if reserve < pool.vault_balance {
        reserve
    } else {
        pool.vault_balance
    };
    after.r_short = pool.vault_balance - after.r_long;
    Ok(after)
}

/// Price of a display token of one side for a deposit.
fn liquidity_price(v_self: u64, v_other: u64, sigma_self: u128, lambda_q96: u128) -> (res: Result<
    u128,
    ContentPoolError,
>)
    requires
        crate::content_pool::curve::norm_sq(v_self as int, v_other as int) <= u128::MAX,
    ensures
        res == liquidity_price_result(
            v_self as int,
            v_other as int,
            sigma_self as int,
            lambda_q96 as int,
        ),
{
    if v_self > 0 {
        proof {
            lemma_limb_product(v_self as u128, v_self as u128);
            lemma_limb_product(v_other as u128, v_other as u128);
        }
        let sum_sq: u128 = (v_self as u128) * (v_self as u128) + (v_other as u128) * (
        v_other as u128);
        let root = isqrt_u128(sum_sq);
        let norm_v: u128 = if root < 1 {
            1
        } else {
            root
        };
        proof {
            crate::content_pool::curve::lemma_price_at_most_lambda(
                v_self as int,
                v_self as int,
                v_other as int,
                lambda_q96 as int,
            );
        }
        let p_v_q96 = match mul_div_u128(lambda_q96, v_self as u128, norm_v) {
            Ok(v) => v,
            Err(e) => {
                return Err(e);
            },
        };
        mul_div_u128(p_v_q96, TWO_64, sigma_self)
    } else {
        mul_div_u128(lambda_q96, TWO_64, sigma_self)
    }
}

/// Display tokens that a part of the deposit buys.
fn to_display_tokens(usdc: u64, p_d_q96: u128) -> (res: Result<u64, ContentPoolError>)
    ensures
        res == tokens_for_result(usdc as int, p_d_q96 as int),
{
    if p_d_q96 == 0 {
        return Err(ContentPoolError::NumericalOverflow);
    }
    proof {
        lemma_product_bound(
            ((usdc as u128) % TWO_32) as int,
            TWO_96 as int,
            0xffff_ffff,
            0x1_0000_0000_0000_0000_0000_0000,
        );
    }
    let hi: u128 = (usdc as u128) / TWO_32;
    let lo: u128 = ((usdc as u128) % TWO_32) * TWO_96;
    proof {
        assert(wide(hi, lo) == usdc * TWO_96);
        lemma_quotient_fits(hi, lo, p_d_q96);
    }
    let t = match div_256_by_128(hi, lo, p_d_q96) {
        Ok(v) => v,
        Err(_) => {
            return Err(ContentPoolError::NumericalOverflow);
        },
    };
    if t > u64::MAX as u128 {
        return Err(ContentPoolError::NumericalOverflow);
    }
    Ok(t as u64)
}

/// Add `usdc_amount` of bilateral liquidity.
///
/// `vault_amount` is the balance of the reserve account before the deposit.
/// On success the pool holds the state after it and the record names the
/// tokens to mint on each side, in display tokens; on an error the pool is
/// unchanged. Supplies never shrink, and the reserves add up to the vault
/// balance afterwards.
pub fn handler(
    pool: &mut ContentPool,
    pool_key: Address,
    user: Address,
    vault_amount: u64,
    usdc_amount: u64,
) -> (res: Result<LiquidityAdded, ContentPoolError>)
    ensures
        match res {
            Ok(event) => add_liquidity_result(
                *old(pool),
                pool_key,
                user,
                vault_amount,
                usdc_amount,
            ) == Ok::<(ContentPool, LiquidityAdded), ContentPoolError>((*final(pool), event)),
            Err(e) => add_liquidity_result(*old(pool), pool_key, user, vault_amount, usdc_amount)
                == Err::<(ContentPool, LiquidityAdded), ContentPoolError>(e) && *final(pool)
                == *old(pool),
        },
        res is Ok ==> final(pool).reserves_match_vault(),
        res is Ok && old(pool).is_liquid() ==> final(pool).is_liquid(),
        res matches Ok(event) ==> final(pool).s_long == old(pool).s_long + event.long_tokens_out
            && final(pool).s_short == old(pool).s_short + event.short_tokens_out && final(pool).vault_balance == old(pool).vault_balance + usdc_amount,
{
    if usdc_amount == 0 {
        return Err(ContentPoolError::InvalidTradeAmount);
    }
    if pool.market_deployer.is_default() {
        return Err(ContentPoolError::MarketNotDeployed);
    }
    let mut gauged: ContentPool = *pool;
    renormalize_pool(&mut gauged);
    let total_reserves: u128 = pool.r_long as u128 + pool.r_short as u128;
    if total_reserves == 0 {
        return Err(ContentPoolError::NoLiquidity);
    }
    proof {
        let r = pool.r_long as int;
        let t = total_reserves as int;
        assert(0 <= r * MICRO <= t * MICRO) by (nonlinear_arith)
            requires
                0 <= r <= t,
        ;
        vstd::arithmetic::div_mod::lemma_div_is_ordered(r * MICRO, t * MICRO, t);
        vstd::arithmetic::div_mod::lemma_div_multiples_vanish(MICRO as int, t);
        assert(t * MICRO == MICRO * t) by (nonlinear_arith);
        vstd::arithmetic::div_mod::lemma_div_pos_is_pos(r * MICRO, t);
    }
    proof {
        lemma_product_bound(pool.r_long as int, MICRO as int, 0xffff_ffff_ffff_ffff, 1_000_000);
    }
    let q_micro: u128 = (pool.r_long as u128 * MICRO as u128) / total_reserves;
    proof {
        assert(0 <= usdc_amount * q_micro <= usdc_amount * MICRO) by (nonlinear_arith)
            requires
                0 <= q_micro <= MICRO,
                0 <= usdc_amount,
        ;
        lemma_product_bound(usdc_amount as int, MICRO as int, 0xffff_ffff_ffff_ffff, 1_000_000);
    }
    let long_usdc: u64 = ((usdc_amount as u128 * q_micro) / (MICRO as u128)) as u64;
    let short_usdc: u64 = usdc_amount - long_usdc;
    let vault_after = match vault_amount.checked_add(usdc_amount) {
        Some(v) => v,
        None => {
            return Err(ContentPoolError::NumericalOverflow);
        },
    };
    let lambda_q96 = match derive_lambda(vault_after, &gauged) {
        Ok(v) => v,
        Err(e) => {
            return Err(e);
        },
    };
    let v_long: u64 = virtual_supply(gauged.s_long, gauged.s_scale_long_q64) as u64;
    let v_short: u64 = virtual_supply(gauged.s_short, gauged.s_scale_short_q64) as u64;
    let p_long = match liquidity_price(v_long, v_short, gauged.s_scale_long_q64, lambda_q96) {
        Ok(v) => v,
        Err(e) => {
            return Err(e);
        },
    };
    let p_short = match liquidity_price(v_short, v_long, gauged.s_scale_short_q64, lambda_q96) {
        Ok(v) => v,
        Err(e) => {
            return Err(e);
        },
    };
    let long_tokens = match to_display_tokens(long_usdc, p_long) {
        Ok(v) => v,
        Err(e) => {
            return Err(e);
        },
    };
    let short_tokens = match to_display_tokens(short_usdc, p_short) {
        Ok(v) => v,
        Err(e) => {
            return Err(e);
        },
    };
    if long_tokens.checked_mul(SUPPLY_SCALE).is_none() || short_tokens.checked_mul(
        SUPPLY_SCALE,
    ).is_none() {
        return Err(ContentPoolError::SupplyOverflow);
    }
    let s_long = match pool.s_long.checked_add(long_tokens) {
        Some(v) => v,
        None => {
            return Err(ContentPoolError::NumericalOverflow);
        },
    };
    let s_short = match pool.s_short.checked_add(short_tokens) {
        Some(v) => v,
        None => {
            return Err(ContentPoolError::NumericalOverflow);
        },
    };
    let vault_balance = match pool.vault_balance.checked_add(usdc_amount) {
        Some(v) => v,
        None => {
            return Err(ContentPoolError::NumericalOverflow);
        },
    };
    let mut grown: ContentPool = gauged;
    grown.s_long = s_long;
    grown.s_short = s_short;
    grown.vault_balance = vault_balance;
    let after = match reprice(&grown, vault_after) {
        Ok(v) => v,
        Err(e) => {
            return Err(e);
        },
    };
    *pool = after;
    Ok(
        LiquidityAdded {
            pool: pool_key,
            user,
            usdc_amount,
            long_tokens_out: long_tokens,
            short_tokens_out: short_tokens,
            new_r_long: after.r_long,
            new_r_short: after.r_short,
            new_s_long: after.s_long,
            new_s_short: after.s_short,
        },
    )
}

} // verus!
