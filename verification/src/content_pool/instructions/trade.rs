//! Buying and selling one side of a market.

use vstd::prelude::*;
use vstd::math::min;
use crate::content_pool::curve::{
    calculate_buy_result, calculate_sell_result, norm_divisor, norm_sq, reserve_result,
    side_sigma, side_supply, sqrt_marginal_price_from_virtual_result, ICBSCurve, Q96,
};
use crate::content_pool::decay::{apply_decay_if_needed, apply_decay_result, DecayAppliedEvent};
use crate::content_pool::errors::ContentPoolError;
use crate::content_pool::events::{TradeEvent, TradeFeeEvent};
use crate::content_pool::math::{
    isqrt_u128, lemma_limb_product, lemma_product_bound, renormalize_scales, renormalized, round_half_even,
    round_half_even_u128, virtual_supply, virtual_supply_spec, TWO_32, TWO_64, TWO_96,
};
use crate::content_pool::state::{
    Address, ContentPool, TokenSide, TradeType, MAX_TRADE_SIZE, MIN_POOL_LIQUIDITY,
    MIN_TOKEN_TRADE_SIZE, MIN_TRADE_SIZE, S_DISPLAY_CAP, TOKEN_SCALE,
};
use crate::pool_factory::state::PoolFactory;

verus! {

/// Display tokens as atomic units, for minting and burning.
pub fn to_atomic(display_tokens: u64) -> (res: Result<u64, ContentPoolError>)
    ensures
        display_tokens * TOKEN_SCALE <= u64::MAX ==> res == Ok::<u64, ContentPoolError>(
            (display_tokens * TOKEN_SCALE) as u64,
        ),
        display_tokens * TOKEN_SCALE > u64::MAX ==> res == Err::<u64, ContentPoolError>(
            ContentPoolError::SupplyOverflow,
        ),
{
    match display_tokens.checked_mul(TOKEN_SCALE) {
        Some(v) => Ok(v),
        None => Err(ContentPoolError::SupplyOverflow),
    }
}

/// Atomic units as display tokens; the amount must be a whole number of tokens.
pub fn atomic_to_display_exact(atomic: u64) -> (res: Result<u64, ContentPoolError>)
    ensures
        atomic % TOKEN_SCALE == 0 ==> res == Ok::<u64, ContentPoolError>(atomic / TOKEN_SCALE),
        atomic % TOKEN_SCALE != 0 ==> res == Err::<u64, ContentPoolError>(
            ContentPoolError::InvalidTradeAmount,
        ),
{
    if atomic % TOKEN_SCALE != 0 {
        return Err(ContentPoolError::InvalidTradeAmount);
    }
    Ok(atomic / TOKEN_SCALE)
}

/// The fee on `amount`: `floor(amount * total_bps / 10_000)`.
pub open spec fn total_fee(amount: int, total_bps: int) -> int {
    (amount * total_bps) / 10000
}

/// The creator's share of a fee: `floor(fee * split_bps / 10_000)`.
pub open spec fn creator_fee(fee: int, split_bps: int) -> int {
    (fee * split_bps) / 10000
}

/// What `calc_fees` returns: the fee, the creator's share of it, and the
/// protocol's share, which is the rest.
pub open spec fn calc_fees_result(amount: int, total_bps: int, split_bps: int) -> Result<
    (u64, u64, u64),
    ContentPoolError,
> {
    let total = total_fee(amount, total_bps);
    let creator = creator_fee(total, split_bps);
    if total > u64::MAX || creator > u64::MAX || creator > total {
        Err(ContentPoolError::FeeCalculationOverflow)
    } else {
        Ok((total as u64, creator as u64, (total - creator) as u64))
    }
}

/// Trading fees on `amount`, as `(total, creator, protocol)`.
pub fn calc_fees(amount: u64, total_bps: u16, split_bps: u16) -> (res: Result<
    (u64, u64, u64),
    ContentPoolError,
>)
    ensures
        res == calc_fees_result(amount as int, total_bps as int, split_bps as int),
        res matches Ok(fees) ==> fees.1 + fees.2 == fees.0,
{
    proof {
        assert(amount * total_bps <= 0xffff_ffff_ffff_ffff * 0xffff) by (nonlinear_arith)
            requires
                amount <= 0xffff_ffff_ffff_ffff,
                total_bps <= 0xffff,
        ;
        assert(amount * total_bps >= 0) by (nonlinear_arith)
            requires
                amount >= 0,
                total_bps >= 0,
        ;
    }
    let total: u128 = ((amount as u128) * (total_bps as u128)) / 10000;
    if total > u64::MAX as u128 {
        return Err(ContentPoolError::FeeCalculationOverflow);
    }
    proof {
        assert(total * split_bps <= 0xffff_ffff_ffff_ffff * 0xffff) by (nonlinear_arith)
            requires
                total <= 0xffff_ffff_ffff_ffff,
                split_bps <= 0xffff,
        ;
        assert(total * split_bps >= 0) by (nonlinear_arith)
            requires
                total >= 0,
                split_bps >= 0,
        ;
    }
    let creator: u128 = (total * (split_bps as u128)) / 10000;
    if creator > u64::MAX as u128 {
        return Err(ContentPoolError::FeeCalculationOverflow);
    }
    if creator > total {
        return Err(ContentPoolError::FeeCalculationOverflow);
    }
    let protocol: u128 = total - creator;
    Ok((total as u64, creator as u64, protocol as u64))
}

/// Lambda for a vault balance and a norm: `floor(vault * 2^96 / norm)`.
pub open spec fn derived_lambda(vault: int, norm: int) -> int {
    (vault * (TWO_96 as int)) / norm
}

/// Least lambda that is accepted, in whole micro-units.
pub const LAMBDA_MIN_USDC: u128 = 10;

/// Largest lambda that is accepted, in whole micro-units.
pub const LAMBDA_MAX_USDC: u128 = 100_000_000_000;

/// What `derive_lambda` returns.
///
/// The quotient is formed division first, so it fails where the whole
/// part of `vault / norm`, or the remainder, does not leave room for the
/// 96 fraction bits. A lambda that fits is below 2^32 whole micro-units, so
/// of the two bounds on lambda only the lower one can refuse.
pub open spec fn derive_lambda_result(
    vault: int,
    s_long: int,
    s_short: int,
    sigma_long: int,
    sigma_short: int,
) -> Result<u128, ContentPoolError> {
    let vl = virtual_supply_spec(s_long, sigma_long);
    let vs = virtual_supply_spec(s_short, sigma_short);
    let n = norm_divisor(vl, vs);
    let lambda = derived_lambda(vault, n);
    if vl > u64::MAX || vs > u64::MAX {
        Err(ContentPoolError::VirtualSupplyOverflow)
    } else if norm_sq(vl, vs) > u128::MAX {
        Err(ContentPoolError::NumericalOverflow)
    } else if vault / n >= TWO_32 || vault % n >= TWO_32 {
        Err(ContentPoolError::NumericalOverflow)
    } else if lambda / (TWO_96 as int) < LAMBDA_MIN_USDC || lambda / (TWO_96 as int)
        > LAMBDA_MAX_USDC {
        Err(ContentPoolError::InvalidParameter)
    } else {
        Ok(lambda as u128)
    }
}

/// Division first gives the same quotient as multiplication first.
proof fn lemma_division_first(a: int, d: int, k: int)
    requires
        0 <= a,
        0 < d,
        0 < k,
    ensures
        (a / d) * k + ((a % d) * k) / d == (a * k) / d,
{
    let q = a / d;
    let r = a % d;
    vstd::arithmetic::div_mod::lemma_fundamental_div_mod(a, d);
    assert(a * k == d * (q * k) + r * k) by (nonlinear_arith)
        requires
            a == d * q + r,
    ;
    vstd::arithmetic::div_mod::lemma_div_multiples_vanish_fancy(q * k, 0, d);
    vstd::arithmetic::div_mod::lemma_hoist_over_denominator(r * k, q * k, d as nat);
    assert(q * k * d == d * (q * k)) by (nonlinear_arith);
}

/// Derive lambda from the balance of the reserve account and the pool's
/// display supplies and gauges.
///
/// Lambda is never stored as truth: every price-affecting transition derives
/// it anew with this function.
pub fn derive_lambda(vault_amount: u64, pool: &ContentPool) -> (res: Result<u128, ContentPoolError>)
    ensures
        res == derive_lambda_result(
            vault_amount as int,
            pool.s_long as int,
            pool.s_short as int,
            pool.s_scale_long_q64 as int,
            pool.s_scale_short_q64 as int,
        ),
        res matches Ok(lambda) ==> LAMBDA_MIN_USDC <= lambda / TWO_96 <= LAMBDA_MAX_USDC,
{
    let s_long_virtual = virtual_supply(pool.s_long, pool.s_scale_long_q64);
    let s_short_virtual = virtual_supply(pool.s_short, pool.s_scale_short_q64);
    if s_long_virtual > u64::MAX as u128 {
        return Err(ContentPoolError::VirtualSupplyOverflow);
    }
    if s_short_virtual > u64::MAX as u128 {
        return Err(ContentPoolError::VirtualSupplyOverflow);
    }
    proof {
        lemma_limb_product(s_long_virtual, s_long_virtual);
        lemma_limb_product(s_short_virtual, s_short_virtual);
    }
    let norm_sq_v = match (s_long_virtual * s_long_virtual).checked_add(
        s_short_virtual * s_short_virtual,
    ) {
        Some(v) => v,
        None => {
            return Err(ContentPoolError::NumericalOverflow);
        },
    };
    let root = isqrt_u128(norm_sq_v);
    let norm: u128 = if root < 1 {
        1
    } else {
        root
    };
    let a: u128 = vault_amount as u128;
    let q: u128 = a / norm;
    let r: u128 = a % norm;
    if q >= TWO_32 {
        return Err(ContentPoolError::NumericalOverflow);
    }
    if r >= TWO_32 {
        return Err(ContentPoolError::NumericalOverflow);
    }
    proof {
        lemma_product_bound(
            q as int,
            Q96 as int,
            0xffff_ffff,
            0x1_0000_0000_0000_0000_0000_0000,
        );
        lemma_product_bound(
            r as int,
            Q96 as int,
            0xffff_ffff,
            0x1_0000_0000_0000_0000_0000_0000,
        );
    }
    let term1: u128 = q * Q96;
    let term2: u128 = (r * Q96) / norm;
    proof {
        lemma_division_first(a as int, norm as int, TWO_96 as int);
        vstd::arithmetic::div_mod::lemma_multiply_divide_lt(
            r as int * TWO_96 as int,
            norm as int,
            TWO_96 as int,
        );
        assert(r * TWO_96 < norm * TWO_96) by (nonlinear_arith)
            requires
                r < norm,
        ;
    }
    let lambda_q96: u128 = term1 + term2;
    let lambda_usdc: u128 = lambda_q96 / Q96;
    if lambda_usdc < LAMBDA_MIN_USDC || lambda_usdc > LAMBDA_MAX_USDC {
        return Err(ContentPoolError::InvalidParameter);
    }
    Ok(lambda_q96)
}

/// The pool with its gauges set to `gauges`.
pub open spec fn with_gauges(pool: ContentPool, gauges: (int, int)) -> ContentPool {
    ContentPool {
        s_scale_long_q64: gauges.0 as u128,
        s_scale_short_q64: gauges.1 as u128,
        ..pool
    }
}

/// The pool with its gauges renormalized for its supplies.
pub open spec fn renormalized_pool(pool: ContentPool) -> ContentPool {
    with_gauges(
        pool,
        renormalized(
            pool.s_scale_long_q64 as int,
            pool.s_scale_short_q64 as int,
            pool.s_long as int,
            pool.s_short as int,
        ),
    )
}

/// Lambda derived for the pool from the vault balance `vault`.
pub open spec fn pool_lambda_result(vault: int, pool: ContentPool) -> Result<
    u128,
    ContentPoolError,
> {
    derive_lambda_result(
        vault,
        pool.s_long as int,
        pool.s_short as int,
        pool.s_scale_long_q64 as int,
        pool.s_scale_short_q64 as int,
    )
}

/// Virtual supply of `side` in the pool.
pub open spec fn side_virtual(pool: ContentPool, side: TokenSide) -> int {
    match side {
        TokenSide::Long => virtual_supply_spec(pool.s_long as int, pool.s_scale_long_q64 as int),
        TokenSide::Short => virtual_supply_spec(
            pool.s_short as int,
            pool.s_scale_short_q64 as int,
        ),
    }
}

/// The other side.
pub open spec fn opposite(side: TokenSide) -> TokenSide {
    match side {
        TokenSide::Long => TokenSide::Short,
        TokenSide::Short => TokenSide::Long,
    }
}

/// Renormalize the gauges of the pool in place.
pub fn renormalize_pool(pool: &mut ContentPool)
    ensures
        *final(pool) == renormalized_pool(*old(pool)),
{
    let mut sigma_long = pool.s_scale_long_q64;
    let mut sigma_short = pool.s_scale_short_q64;
    renormalize_scales(&mut sigma_long, &mut sigma_short, pool.s_long, pool.s_short);
    pool.s_scale_long_q64 = sigma_long;
    pool.s_scale_short_q64 = sigma_short;
}

/// The pool after a trade on `side`, once the traded side's new supplies and
/// price are known: the other side's price is recomputed, the traded side's
/// reserve is taken from lambda and capped by the vault, and the other
/// side's reserve is what is left of the vault.
pub open spec fn recoupled_pool(
    pool: ContentPool,
    side: TokenSide,
    lambda_q96: u128,
    s_side_new: int,
    v_side_new: int,
    v_other: int,
    price_side: u128,
    vault_new: int,
    enforce_floor: bool,
) -> Result<ContentPool, ContentPoolError> {
    let is_long = side == TokenSide::Long;
    let v_long = if is_long {
        v_side_new
    } else {
        v_other
    };
    let v_short = if is_long {
        v_other
    } else {
        v_side_new
    };
    let s_long_new = if is_long {
        s_side_new
    } else {
        pool.s_long as int
    };
    let s_short_new = if is_long {
        pool.s_short as int
    } else {
        s_side_new
    };
    match sqrt_marginal_price_from_virtual_result(
        v_long,
        v_short,
        opposite(side),
        lambda_q96 as int,
        pool.s_scale_long_q64 as int,
        pool.s_scale_short_q64 as int,
        pool.f,
        pool.beta_num,
        pool.beta_den,
    ) {
        Err(e) => Err(e),
        Ok(price_other) => {
            if enforce_floor && !(s_long_new >= MIN_POOL_LIQUIDITY && s_short_new
                >= MIN_POOL_LIQUIDITY) {
                Err(ContentPoolError::NoLiquidity)
            } else {
                match reserve_result(v_side_new, v_other, lambda_q96 as int) {
                    Err(e) => Err(e),
                    Ok(reserve) => {
                        let r_this = min(reserve as int, vault_new);
                        let r_rest = vault_new - r_this;
                        Ok(
                            ContentPool {
                                s_long: s_long_new as u64,
                                s_short: s_short_new as u64,
                                r_long: (if is_long {
                                    r_this
                                } else {
                                    r_rest
                                }) as u64,
                                r_short: (if is_long {
                                    r_rest
                                } else {
                                    r_this
                                }) as u64,
                                sqrt_price_long_x96: if is_long {
                                    price_side
                                } else {
                                    price_other
                                },
                                sqrt_price_short_x96: if is_long {
                                    price_other
                                } else {
                                    price_side
                                },
                                lambda_long_q96: lambda_q96,
                                lambda_short_q96: lambda_q96,
                                vault_balance: vault_new as u64,
                                ..pool
                            },
                        )
                    },
                }
            }
        },
    }
}

/// Complete a trade on `side`: see `recoupled_pool`.
fn recouple(
    pool: &ContentPool,
    side: TokenSide,
    lambda_q96: u128,
    s_side_new: u64,
    v_side_new: u64,
    v_other: u64,
    price_side: u128,
    vault_new: u64,
    enforce_floor: bool,
) -> (res: Result<ContentPool, ContentPoolError>)
    ensures
        res == recoupled_pool(
            *pool,
            side,
            lambda_q96,
            s_side_new as int,
            v_side_new as int,
            v_other as int,
            price_side,
            vault_new as int,
            enforce_floor,
        ),
        res matches Ok(after) ==> after.reserves_match_vault(),
{
    let mut after: ContentPool = *pool;
    let price_other = match side {
        TokenSide::Long => ICBSCurve::sqrt_marginal_price_from_virtual(
            v_side_new,
            v_other,
            TokenSide::Short,
            lambda_q96,
            pool.s_scale_long_q64,
            pool.s_scale_short_q64,
            pool.f,
            pool.beta_num,
            pool.beta_den,
        ),
        TokenSide::Short => ICBSCurve::sqrt_marginal_price_from_virtual(
            v_other,
            v_side_new,
            TokenSide::Long,
            lambda_q96,
            pool.s_scale_long_q64,
            pool.s_scale_short_q64,
            pool.f,
            pool.beta_num,
            pool.beta_den,
        ),
    };
    let price_other = match price_other {
        Ok(v) => v,
        Err(e) => {
            return Err(e);
        },
    };
    match side {
        TokenSide::Long => {
            after.s_long = s_side_new;
            after.sqrt_price_long_x96 = price_side;
            after.sqrt_price_short_x96 = price_other;
        },
        TokenSide::Short => {
            after.s_short = s_side_new;
            after.sqrt_price_short_x96 = price_side;
            after.sqrt_price_long_x96 = price_other;
        },
    }
    if enforce_floor && !(after.s_long >= MIN_POOL_LIQUIDITY && after.s_short
        >= MIN_POOL_LIQUIDITY) {
        return Err(ContentPoolError::NoLiquidity);
    }
    let reserve = match ICBSCurve::reserve_from_lambda_and_virtual(v_side_new, v_other, lambda_q96) {
        Ok(v) => v,
        Err(e) => {
            return Err(e);
        },
    };
    let r_this: u64 = if reserve < vault_new {
        reserve
    } else {
        vault_new
    };
    let r_rest: u64 = vault_new - r_this;
    match side {
        TokenSide::Long => {
            after.r_long = r_this;
            after.r_short = r_rest;
        },
        TokenSide::Short => {
            after.r_short = r_this;
            after.r_long = r_rest;
        },
    }
    after.vault_balance = vault_new;
    after.lambda_long_q96 = lambda_q96;
    after.lambda_short_q96 = lambda_q96;
    Ok(after)
}

/// What a trade moves: the amounts that the host transfers, mints or burns.
#[derive(Clone, Copy, Debug)]
pub struct TradeFill {
    /// Buy: the stablecoin that reaches the vault. Sell: the gross proceeds
    /// that leave the curve.
    pub usdc_traded: u64,
    /// Buy: the skim for the stake vault. Sell: zero.
    pub usdc_to_stake: u64,
    /// Sell: what the trader receives. Buy: zero.
    pub usdc_to_trader: u64,
    /// The whole fee.
    pub total_fee: u64,
    /// The creator's share of the fee.
    pub creator_fee: u64,
    /// The protocol's share of the fee.
    pub protocol_fee: u64,
    /// Display tokens minted (buy) or burned (sell).
    pub tokens_display: u64,
    /// The same in atomic units.
    pub tokens_atomic: u64,
}

/// The books of a buy balance: what was paid is the skim, the fee and what
/// reached the vault; the fee is the creator's share and the protocol's; the
/// bought side grew by what was minted and the other side stayed.
pub open spec fn books_of_buy(
    before: ContentPool,
    after: ContentPool,
    fill: TradeFill,
    side: TokenSide,
    amount: u64,
) -> bool {
    &&& fill.usdc_traded + fill.total_fee + fill.usdc_to_stake == amount
    &&& fill.creator_fee + fill.protocol_fee == fill.total_fee
    &&& after.vault_balance == before.vault_balance + fill.usdc_traded
    &&& fill.tokens_atomic == fill.tokens_display * TOKEN_SCALE
    &&& side_supply(side, after.s_long as int, after.s_short as int) == side_supply(
        side,
        before.s_long as int,
        before.s_short as int,
    ) + fill.tokens_display
    &&& side_supply(opposite(side), after.s_long as int, after.s_short as int) == side_supply(
        opposite(side),
        before.s_long as int,
        before.s_short as int,
    )
}

/// The books of a sell balance: what left the vault is the fee and what the
/// trader received; the fee is the creator's share and the protocol's; the
/// sold side shrank by what was burned and the other side stayed.
pub open spec fn books_of_sell(
    before: ContentPool,
    after: ContentPool,
    fill: TradeFill,
    side: TokenSide,
) -> bool {
    &&& fill.usdc_to_trader + fill.total_fee == fill.usdc_traded
    &&& fill.creator_fee + fill.protocol_fee == fill.total_fee
    &&& after.vault_balance + fill.usdc_traded == before.vault_balance
    &&& fill.tokens_atomic == fill.tokens_display * TOKEN_SCALE
    &&& side_supply(side, after.s_long as int, after.s_short as int) + fill.tokens_display
        == side_supply(side, before.s_long as int, before.s_short as int)
    &&& side_supply(opposite(side), after.s_long as int, after.s_short as int) == side_supply(
        opposite(side),
        before.s_long as int,
        before.s_short as int,
    )
}

/// What `buy` returns: the pool after the buy and what the buy moves.
///
/// Fees come off before the curve. Lambda is derived from the vault with the
/// net payment already in it.
pub open spec fn buy_result(
    pool: ContentPool,
    total_fee_bps: u16,
    creator_split_bps: u16,
    vault_amount: u64,
    side: TokenSide,
    amount: u64,
    stake_skim: u64,
    min_tokens_out: u64,
) -> Result<(ContentPool, TradeFill), ContentPoolError> {
    let after_skim = amount - stake_skim;
    if stake_skim > amount / 2 {
        Err(ContentPoolError::InvalidStakeSkim)
    } else {
        match calc_fees_result(after_skim, total_fee_bps as int, creator_split_bps as int) {
            Err(e) => Err(e),
            Ok(fees) => {
                let usdc = after_skim - fees.0;
                let pool_r = renormalized_pool(pool);
                if fees.0 > after_skim {
                    Err(ContentPoolError::FeeCalculationOverflow)
                } else if vault_amount + usdc > u64::MAX {
                    Err(ContentPoolError::NumericalOverflow)
                } else {
                    match pool_lambda_result(vault_amount + usdc, pool_r) {
                        Err(e) => Err(e),
                        Ok(lambda) => {
                            let v_side = side_virtual(pool_r, side);
                            let v_other = side_virtual(pool_r, opposite(side));
                            let sigma = side_sigma(
                                side,
                                pool_r.s_scale_long_q64 as int,
                                pool_r.s_scale_short_q64 as int,
                            );
                            let s_side = side_supply(side, pool.s_long as int, pool.s_short as int);
                            match calculate_buy_result(
                                v_side,
                                usdc,
                                lambda as int,
                                v_other,
                                pool.f,
                                pool.beta_num,
                                pool.beta_den,
                                side == TokenSide::Long,
                                pool_r.s_scale_long_q64 as int,
                                pool_r.s_scale_short_q64 as int,
                            ) {
                                Err(e) => Err(e),
                                Ok(bought) => {
                                    let delta = round_half_even(bought.0 * sigma, TWO_64 as int);
                                    if delta == 0 && usdc > 0 {
                                        Err(ContentPoolError::TooSmallAfterRounding)
                                    } else if s_side + delta > u64::MAX {
                                        Err(ContentPoolError::NumericalOverflow)
                                    } else if s_side + delta > S_DISPLAY_CAP {
                                        Err(ContentPoolError::SupplyOverflow)
                                    } else if delta * TOKEN_SCALE < min_tokens_out {
                                        Err(ContentPoolError::SlippageExceeded)
                                    } else if pool.vault_balance + usdc > u64::MAX {
                                        Err(ContentPoolError::NumericalOverflow)
                                    } else {
                                        match recoupled_pool(
                                            pool_r,
                                            side,
                                            lambda,
                                            s_side + delta,
                                            v_side + bought.0,
                                            v_other,
                                            bought.1,
                                            pool.vault_balance + usdc,
                                            false,
                                        ) {
                                            Err(e) => Err(e),
                                            Ok(after) => Ok(
                                                (
                                                    after,
                                                    TradeFill {
                                                        usdc_traded: usdc as u64,
                                                        usdc_to_stake: stake_skim,
                                                        usdc_to_trader: 0,
                                                        total_fee: fees.0,
                                                        creator_fee: fees.1,
                                                        protocol_fee: fees.2,
                                                        tokens_display: delta as u64,
                                                        tokens_atomic: (delta * TOKEN_SCALE) as u64,
                                                    },
                                                ),
                                            ),
                                        }
                                    }
                                },
                            }
                        },
                    }
                }
            },
        }
    }
}

/// The values that a trade reads off a renormalized pool: the virtual supply
/// and the gauge of the traded side, and the virtual supply of the other.
fn traded_side(pool: &ContentPool, side: TokenSide) -> (r: (u128, u128, u128, u64))
    ensures
        r.0 == side_virtual(*pool, side),
        r.1 == side_virtual(*pool, opposite(side)),
        r.2 == side_sigma(side, pool.s_scale_long_q64 as int, pool.s_scale_short_q64 as int),
        r.3 == side_supply(side, pool.s_long as int, pool.s_short as int),
{
    let v_long = virtual_supply(pool.s_long, pool.s_scale_long_q64);
    let v_short = virtual_supply(pool.s_short, pool.s_scale_short_q64);
    match side {
        TokenSide::Long => (v_long, v_short, pool.s_scale_long_q64, pool.s_long),
        TokenSide::Short => (v_short, v_long, pool.s_scale_short_q64, pool.s_short),
    }
}

/// Buy `side` with `amount` of the stablecoin, of which `stake_skim` goes to
/// the stake vault.
///
/// `vault_amount` is the balance of the reserve account before the buy. The
/// pool is not changed: the pool after the buy is returned.
pub fn buy(
    pool: &ContentPool,
    total_fee_bps: u16,
    creator_split_bps: u16,
    vault_amount: u64,
    side: TokenSide,
    amount: u64,
    stake_skim: u64,
    min_tokens_out: u64,
) -> (res: Result<(ContentPool, TradeFill), ContentPoolError>)
    ensures
        res == buy_result(
            *pool,
            total_fee_bps,
            creator_split_bps,
            vault_amount,
            side,
            amount,
            stake_skim,
            min_tokens_out,
        ),
        res matches Ok(done) ==> done.0.reserves_match_vault() && done.0.s_long >= pool.s_long
            && done.0.s_short >= pool.s_short,
        res matches Ok(done) ==> books_of_buy(*pool, done.0, done.1, side, amount)
            && done.1.tokens_atomic >= min_tokens_out && side_supply(
            side,
            done.0.s_long as int,
            done.0.s_short as int,
        ) <= S_DISPLAY_CAP,
{
    if stake_skim > amount / 2 {
        return Err(ContentPoolError::InvalidStakeSkim);
    }
    let after_skim: u64 = amount - stake_skim;
    let (total_fee, creator_fee, protocol_fee) = match calc_fees(
        after_skim,
        total_fee_bps,
        creator_split_bps,
    ) {
        Ok(v) => v,
        Err(e) => {
            return Err(e);
        },
    };
    if total_fee > after_skim {
        return Err(ContentPoolError::FeeCalculationOverflow);
    }
    let usdc_to_trade: u64 = after_skim - total_fee;
    let vault_after = match vault_amount.checked_add(usdc_to_trade) {
        Some(v) => v,
        None => {
            return Err(ContentPoolError::NumericalOverflow);
        },
    };
    let mut quoted: ContentPool = *pool;
    renormalize_pool(&mut quoted);
    let lambda_q96 = match derive_lambda(vault_after, &quoted) {
        Ok(v) => v,
        Err(e) => {
            return Err(e);
        },
    };
    let (v_side, v_other, sigma, s_side) = traded_side(&quoted, side);
    let is_long = match side {
        TokenSide::Long => true,
        TokenSide::Short => false,
    };
    let (delta_s_virtual, new_sqrt_price) = match ICBSCurve::calculate_buy(
        v_side as u64,
        usdc_to_trade,
        lambda_q96,
        v_other as u64,
        quoted.f,
        quoted.beta_num,
        quoted.beta_den,
        is_long,
        quoted.s_scale_long_q64,
        quoted.s_scale_short_q64,
    ) {
        Ok(v) => v,
        Err(e) => {
            return Err(e);
        },
    };
    let delta_display: u128 = match (delta_s_virtual as u128).checked_mul(sigma) {
        Some(product) => round_half_even_u128(product, TWO_64),
        None => {
            proof {
                // a product beyond one word rounds to more than any supply
                assert(round_half_even(delta_s_virtual * sigma, TWO_64 as int) >= TWO_64);
            }
            return Err(ContentPoolError::NumericalOverflow);
        },
    };
    if delta_display == 0 && usdc_to_trade > 0 {
        return Err(ContentPoolError::TooSmallAfterRounding);
    }
    if delta_display > (u64::MAX - s_side) as u128 {
        return Err(ContentPoolError::NumericalOverflow);
    }
    let new_supply: u64 = s_side + delta_display as u64;
    if new_supply > S_DISPLAY_CAP {
        return Err(ContentPoolError::SupplyOverflow);
    }
    proof {
        lemma_product_bound(
            delta_display as int,
            TOKEN_SCALE as int,
            1_000_000_000_000,
            1_000_000,
        );
    }
    let delta_atomic: u64 = match to_atomic(delta_display as u64) {
        Ok(v) => v,
        Err(e) => {
            return Err(e);
        },
    };
    if delta_atomic < min_tokens_out {
        return Err(ContentPoolError::SlippageExceeded);
    }
    let vault_balance = match pool.vault_balance.checked_add(usdc_to_trade) {
        Some(v) => v,
        None => {
            return Err(ContentPoolError::NumericalOverflow);
        },
    };
    let after = match recouple(
        &quoted,
        side,
        lambda_q96,
        new_supply,
        v_side as u64 + delta_s_virtual,
        v_other as u64,
        new_sqrt_price,
        vault_balance,
        false,
    ) {
        Ok(v) => v,
        Err(e) => {
            return Err(e);
        },
    };
    Ok(
        (
            after,
            TradeFill {
                usdc_traded: usdc_to_trade,
                usdc_to_stake: stake_skim,
                usdc_to_trader: 0,
                total_fee,
                creator_fee,
                protocol_fee,
                tokens_display: delta_display as u64,
                tokens_atomic: delta_atomic,
            },
        ),
    )
}

/// What `sell` returns: the pool after the sell and what the sell moves.
///
/// The curve gives the gross proceeds; fees come off them; the trader's
/// limit is held against the net.
pub open spec fn sell_result(
    pool: ContentPool,
    total_fee_bps: u16,
    creator_split_bps: u16,
    vault_amount: u64,
    side: TokenSide,
    amount: u64,
    min_usdc_out: u64,
) -> Result<(ContentPool, TradeFill), ContentPoolError> {
    let sell_display = amount as int / TOKEN_SCALE as int;
    let pool_r = renormalized_pool(pool);
    if amount as int % TOKEN_SCALE as int != 0 || sell_display < MIN_TOKEN_TRADE_SIZE {
        Err(ContentPoolError::InvalidTradeAmount)
    } else {
        match pool_lambda_result(vault_amount as int, pool_r) {
            Err(e) => Err(e),
            Ok(lambda) => {
                let v_side = side_virtual(pool_r, side);
                let v_other = side_virtual(pool_r, opposite(side));
                let sigma = side_sigma(
                    side,
                    pool_r.s_scale_long_q64 as int,
                    pool_r.s_scale_short_q64 as int,
                );
                let s_side = side_supply(side, pool.s_long as int, pool.s_short as int);
                let sell_virtual = round_half_even(sell_display * TWO_64, sigma);
                if sigma == 0 {
                    Err(ContentPoolError::DivisionByZero)
                } else if sell_virtual == 0 {
                    Err(ContentPoolError::TooSmallAfterRounding)
                } else {
                    match calculate_sell_result(
                        v_side,
                        sell_virtual,
                        lambda as int,
                        v_other,
                        pool.f,
                        pool.beta_num,
                        pool.beta_den,
                        side == TokenSide::Long,
                        pool_r.s_scale_long_q64 as int,
                        pool_r.s_scale_short_q64 as int,
                    ) {
                        Err(e) => Err(e),
                        Ok(sold) => match calc_fees_result(
                            sold.0 as int,
                            total_fee_bps as int,
                            creator_split_bps as int,
                        ) {
                            Err(e) => Err(e),
                            Ok(fees) => {
                                if fees.0 > sold.0 {
                                    Err(ContentPoolError::FeeCalculationOverflow)
                                } else if sold.0 - fees.0 < min_usdc_out {
                                    Err(ContentPoolError::SlippageExceeded)
                                } else if sold.0 > pool.vault_balance || sell_display > s_side {
                                    Err(ContentPoolError::InsufficientBalance)
                                } else {
                                    match recoupled_pool(
                                        pool_r,
                                        side,
                                        lambda,
                                        s_side - sell_display,
                                        v_side - sell_virtual,
                                        v_other,
                                        sold.1,
                                        pool.vault_balance - sold.0,
                                        true,
                                    ) {
                                        Err(e) => Err(e),
                                        Ok(after) => Ok(
                                            (
                                                after,
                                                TradeFill {
                                                    usdc_traded: sold.0,
                                                    usdc_to_stake: 0,
                                                    usdc_to_trader: (sold.0 - fees.0) as u64,
                                                    total_fee: fees.0,
                                                    creator_fee: fees.1,
                                                    protocol_fee: fees.2,
                                                    tokens_display: sell_display as u64,
                                                    tokens_atomic: amount,
                                                },
                                            ),
                                        ),
                                    }
                                }
                            },
                        },
                    }
                }
            },
        }
    }
}

/// Sell `amount` atomic tokens of `side`; the amount must be a whole number
/// of display tokens.
///
/// `vault_amount` is the balance of the reserve account before the sell. A
/// sell that would leave either supply under the liquidity floor is
/// refused. The pool is not changed: the pool after the sell is returned.
pub fn sell(
    pool: &ContentPool,
    total_fee_bps: u16,
    creator_split_bps: u16,
    vault_amount: u64,
    side: TokenSide,
    amount: u64,
    min_usdc_out: u64,
) -> (res: Result<(ContentPool, TradeFill), ContentPoolError>)
    ensures
        res == sell_result(
            *pool,
            total_fee_bps,
            creator_split_bps,
            vault_amount,
            side,
            amount,
            min_usdc_out,
        ),
        res matches Ok(done) ==> done.0.reserves_match_vault() && done.0.is_liquid(),
        res matches Ok(done) ==> books_of_sell(*pool, done.0, done.1, side)
            && done.1.tokens_atomic == amount && done.1.usdc_to_trader >= min_usdc_out,
{
    let sell_display: u64 = match atomic_to_display_exact(amount) {
        Ok(v) => v,
        Err(e) => {
            return Err(e);
        },
    };
    if sell_display < MIN_TOKEN_TRADE_SIZE {
        return Err(ContentPoolError::InvalidTradeAmount);
    }
    let mut quoted: ContentPool = *pool;
    renormalize_pool(&mut quoted);
    let lambda_q96 = match derive_lambda(vault_amount, &quoted) {
        Ok(v) => v,
        Err(e) => {
            return Err(e);
        },
    };
    let (v_side, v_other, sigma, s_side) = traded_side(&quoted, side);
    let is_long = match side {
        TokenSide::Long => true,
        TokenSide::Short => false,
    };
    if sigma == 0 {
        return Err(ContentPoolError::DivisionByZero);
    }
    proof {
        lemma_product_bound(
            sell_display as int,
            TWO_64 as int,
            0xffff_ffff_ffff_ffff,
            0x1_0000_0000_0000_0000,
        );
    }
    let sell_virtual: u128 = round_half_even_u128((sell_display as u128) * TWO_64, sigma);
    if sell_virtual == 0 {
        return Err(ContentPoolError::TooSmallAfterRounding);
    }
    if sell_virtual > u64::MAX as u128 {
        return Err(ContentPoolError::InsufficientBalance);
    }
    let (gross_usdc_out, new_sqrt_price) = match ICBSCurve::calculate_sell(
        v_side as u64,
        sell_virtual as u64,
        lambda_q96,
        v_other as u64,
        quoted.f,
        quoted.beta_num,
        quoted.beta_den,
        is_long,
        quoted.s_scale_long_q64,
        quoted.s_scale_short_q64,
    ) {
        Ok(v) => v,
        Err(e) => {
            return Err(e);
        },
    };
    let (total_fee, creator_fee, protocol_fee) = match calc_fees(
        gross_usdc_out,
        total_fee_bps,
        creator_split_bps,
    ) {
        Ok(v) => v,
        Err(e) => {
            return Err(e);
        },
    };
    if total_fee > gross_usdc_out {
        return Err(ContentPoolError::FeeCalculationOverflow);
    }
    let net_usdc_out: u64 = gross_usdc_out - total_fee;
    if net_usdc_out < min_usdc_out {
        return Err(ContentPoolError::SlippageExceeded);
    }
    if gross_usdc_out > pool.vault_balance || sell_display > s_side {
        return Err(ContentPoolError::InsufficientBalance);
    }
    let after = match recouple(
        &quoted,
        side,
        lambda_q96,
        s_side - sell_display,
        v_side as u64 - sell_virtual as u64,
        v_other as u64,
        new_sqrt_price,
        pool.vault_balance - gross_usdc_out,
        true,
    ) {
        Ok(v) => v,
        Err(e) => {
            return Err(e);
        },
    };
    Ok(
        (
            after,
            TradeFill {
                usdc_traded: gross_usdc_out,
                usdc_to_stake: 0,
                usdc_to_trader: net_usdc_out,
                total_fee,
                creator_fee,
                protocol_fee,
                tokens_display: sell_display,
                tokens_atomic: amount,
            },
        ),
    )
}

/// What a trade hands back to the host: the two records to emit, the amounts
/// to move, and the record of decay where the trade applied it.
#[derive(Clone, Copy, Debug)]
pub struct TradeOutcome {
    pub event: TradeEvent,
    pub fee_event: TradeFeeEvent,
    pub fill: TradeFill,
    pub decay: Option<DecayAppliedEvent>,
}

/// A buy is between the least and the largest trade size; a sell is at least
/// the least token amount.
pub open spec fn trade_size_ok(trade_type: TradeType, amount: u64) -> bool {
    match trade_type {
        TradeType::Buy => MIN_TRADE_SIZE <= amount <= MAX_TRADE_SIZE,
        TradeType::Sell => amount >= MIN_TOKEN_TRADE_SIZE,
    }
}

/// The mint of `side`.
pub open spec fn side_mint(pool: ContentPool, side: TokenSide) -> Address {
    match side {
        TokenSide::Long => pool.long_mint,
        TokenSide::Short => pool.short_mint,
    }
}

/// The record of a trade: supplies and prices as the trade found them, the
/// pool as it left it, and the amounts moved.
pub open spec fn trade_event_of(
    before: ContentPool,
    after: ContentPool,
    fill: TradeFill,
    pool_key: Address,
    trader: Address,
    side: TokenSide,
    trade_type: TradeType,
    amount: u64,
    now: i64,
) -> TradeEvent {
    let is_buy = trade_type == TradeType::Buy;
    TradeEvent {
        pool: pool_key,
        trader,
        side,
        trade_type,
        usdc_amount: if is_buy {
            amount
        } else {
            fill.usdc_to_trader
        },
        usdc_to_trade: if is_buy {
            fill.usdc_traded
        } else {
            fill.usdc_to_trader
        },
        usdc_to_stake: fill.usdc_to_stake,
        tokens_traded: if is_buy {
            fill.tokens_display
        } else {
            fill.tokens_atomic
        },
        s_long_before: before.s_long,
        s_short_before: before.s_short,
        sqrt_price_long_x96_before: before.sqrt_price_long_x96,
        sqrt_price_short_x96_before: before.sqrt_price_short_x96,
        s_long_after: after.s_long,
        s_short_after: after.s_short,
        sqrt_price_long_x96_after: after.sqrt_price_long_x96,
        sqrt_price_short_x96_after: after.sqrt_price_short_x96,
        r_long_after: after.r_long,
        r_short_after: after.r_short,
        vault_balance_after: after.vault_balance,
        timestamp: now,
    }
}

/// The record of a trade's fees.
pub open spec fn fee_event_of(
    pool: ContentPool,
    factory: PoolFactory,
    fill: TradeFill,
    pool_key: Address,
    trader: Address,
    side: TokenSide,
    trade_type: TradeType,
    now: i64,
) -> TradeFeeEvent {
    TradeFeeEvent {
        pool: pool_key,
        trader,
        side,
        trade_type,
        total_fee_micro_usdc: fill.total_fee,
        creator_fee_micro_usdc: fill.creator_fee,
        protocol_fee_micro_usdc: fill.protocol_fee,
        post_creator: pool.post_creator,
        protocol_treasury: factory.protocol_treasury,
        timestamp: now,
    }
}

/// Why a trade is refused for its amounts alone, if it is: a buy for its
/// skim or its fee, a sell for an amount that is no whole number of tokens.
pub open spec fn trade_amounts_refusal(
    trade_type: TradeType,
    amount: u64,
    stake_skim: u64,
    total_fee_bps: u16,
    creator_split_bps: u16,
) -> Option<ContentPoolError> {
    match trade_type {
        TradeType::Buy => {
            if stake_skim > amount / 2 {
                Some(ContentPoolError::InvalidStakeSkim)
            } else {
                match calc_fees_result(
                    amount - stake_skim,
                    total_fee_bps as int,
                    creator_split_bps as int,
                ) {
                    Err(e) => Some(e),
                    Ok(fees) => if fees.0 > amount - stake_skim {
                        Some(ContentPoolError::FeeCalculationOverflow)
                    } else {
                        None
                    },
                }
            }
        },
        TradeType::Sell => {
            if (amount as int) % (TOKEN_SCALE as int) != 0 || (amount as int) / (
            TOKEN_SCALE as int) < (MIN_TOKEN_TRADE_SIZE as int) {
                Some(ContentPoolError::InvalidTradeAmount)
            } else {
                None
            }
        },
    }
}

/// Check what can be told of a trade from its amounts alone.
pub fn check_trade_amounts(
    trade_type: TradeType,
    amount: u64,
    stake_skim: u64,
    total_fee_bps: u16,
    creator_split_bps: u16,
) -> (res: Result<(), ContentPoolError>)
    ensures
        match trade_amounts_refusal(
            trade_type,
            amount,
            stake_skim,
            total_fee_bps,
            creator_split_bps,
        ) {
            Some(e) => res == Err::<(), ContentPoolError>(e),
            None => res is Ok,
        },
{
    match trade_type {
        TradeType::Buy => {
            if stake_skim > amount / 2 {
                return Err(ContentPoolError::InvalidStakeSkim);
            }
            let after_skim: u64 = amount - stake_skim;
            let fees = match calc_fees(after_skim, total_fee_bps, creator_split_bps) {
                Ok(v) => v,
                Err(e) => {
                    return Err(e);
                },
            };
            if fees.0 > after_skim {
                return Err(ContentPoolError::FeeCalculationOverflow);
            }
            Ok(())
        },
        TradeType::Sell => {
            let sell_display = match atomic_to_display_exact(amount) {
                Ok(v) => v,
                Err(e) => {
                    return Err(e);
                },
            };
            if sell_display < MIN_TOKEN_TRADE_SIZE {
                return Err(ContentPoolError::InvalidTradeAmount);
            }
            Ok(())
        },
    }
}

/// What a trade does: the pool it leaves and what it hands back, or the
/// error.
///
/// In order: the market must be deployed; the size of the trade, the mint
/// and what else can be told of the amounts alone are checked; decay is
/// applied if due; then the buy or the sell.
pub open spec fn trade_result(
    pool: ContentPool,
    pool_key: Address,
    factory: PoolFactory,
    trader: Address,
    token_mint: Address,
    vault_amount: u64,
    now: i64,
    side: TokenSide,
    trade_type: TradeType,
    amount: u64,
    stake_skim: u64,
    min_tokens_out: u64,
    min_usdc_out: u64,
) -> Result<(ContentPool, TradeOutcome), ContentPoolError> {
    if !pool.is_deployed() {
        Err(ContentPoolError::MarketNotDeployed)
    } else if !trade_size_ok(trade_type, amount) {
        Err(ContentPoolError::InvalidTradeAmount)
    } else if !token_mint.same_as(&side_mint(pool, side)) {
        Err(ContentPoolError::InvalidMint)
    } else {
        match trade_amounts_refusal(
            trade_type,
            amount,
            stake_skim,
            factory.total_fee_bps,
            factory.creator_split_bps,
        ) {
            Some(e) => Err(e),
            None => match apply_decay_result(pool, pool_key, vault_amount, now) {
                    Err(e) => Err(e),
                    Ok(decayed) => {
                    let traded = match trade_type {
                        TradeType::Buy => buy_result(
                            decayed.0,
                            factory.total_fee_bps,
                            factory.creator_split_bps,
                            vault_amount,
                            side,
                            amount,
                            stake_skim,
                            min_tokens_out,
                        ),
                        TradeType::Sell => sell_result(
                            decayed.0,
                            factory.total_fee_bps,
                            factory.creator_split_bps,
                            vault_amount,
                            side,
                            amount,
                            min_usdc_out,
                        ),
                    };
                    match traded {
                        Err(e) => Err(e),
                        Ok(done) => Ok(
                            (
                                done.0,
                                TradeOutcome {
                                    event: trade_event_of(
                                        pool,
                                        done.0,
                                        done.1,
                                        pool_key,
                                        trader,
                                        side,
                                        trade_type,
                                        amount,
                                        now,
                                    ),
                                    fee_event: fee_event_of(
                                        pool,
                                        factory,
                                        done.1,
                                        pool_key,
                                        trader,
                                        side,
                                        trade_type,
                                        now,
                                    ),
                                    fill: done.1,
                                    decay: decayed.1,
                                },
                            ),
                        ),
                    }
                },
            },
        }
    }
}

/// Trade on the market: buy or sell LONG or SHORT tokens.
///
/// `vault_amount` is the balance of the reserve account before the trade and
/// `now` the host's clock. On success the pool holds the state after the
/// trade, and the outcome names every amount that the host has to move. On
/// an error the pool is unchanged.
pub fn handler(
    pool: &mut ContentPool,
    pool_key: Address,
    factory: &PoolFactory,
    trader: Address,
    token_mint: Address,
    vault_amount: u64,
    now: i64,
    side: TokenSide,
    trade_type: TradeType,
    amount: u64,
    stake_skim: u64,
    min_tokens_out: u64,
    min_usdc_out: u64,
) -> (res: Result<TradeOutcome, ContentPoolError>)
    ensures
        match res {
            Ok(outcome) => trade_result(
                *old(pool),
                pool_key,
                *factory,
                trader,
                token_mint,
                vault_amount,
                now,
                side,
                trade_type,
                amount,
                stake_skim,
                min_tokens_out,
                min_usdc_out,
            ) == Ok::<(ContentPool, TradeOutcome), ContentPoolError>((*final(pool), outcome)),
            Err(e) => trade_result(
                *old(pool),
                pool_key,
                *factory,
                trader,
                token_mint,
                vault_amount,
                now,
                side,
                trade_type,
                amount,
                stake_skim,
                min_tokens_out,
                min_usdc_out,
            ) == Err::<(ContentPool, TradeOutcome), ContentPoolError>(e) && *final(pool) == *old(pool),
        },
        res is Ok ==> final(pool).reserves_match_vault(),
        res is Ok && trade_type == TradeType::Sell ==> final(pool).is_liquid(),
        res is Ok && old(pool).is_liquid() ==> final(pool).is_liquid(),
        res matches Ok(outcome) ==> (trade_type == TradeType::Buy ==> books_of_buy(
            *old(pool),
            *final(pool),
            outcome.fill,
            side,
            amount,
        )),
        res matches Ok(outcome) ==> (trade_type == TradeType::Sell ==> books_of_sell(
            *old(pool),
            *final(pool),
            outcome.fill,
            side,
        )),
{
    if pool.market_deployer.is_default() {
        return Err(ContentPoolError::MarketNotDeployed);
    }
    let size_ok = match trade_type {
        TradeType::Buy => amount >= MIN_TRADE_SIZE && amount <= MAX_TRADE_SIZE,
        TradeType::Sell => amount >= MIN_TOKEN_TRADE_SIZE,
    };
    if !size_ok {
        return Err(ContentPoolError::InvalidTradeAmount);
    }
    let expected_mint = match side {
        TokenSide::Long => pool.long_mint,
        TokenSide::Short => pool.short_mint,
    };
    if !token_mint.equals(&expected_mint) {
        return Err(ContentPoolError::InvalidMint);
    }
    match check_trade_amounts(
        trade_type,
        amount,
        stake_skim,
        factory.total_fee_bps,
        factory.creator_split_bps,
    ) {
        Ok(_) => {},
        Err(e) => {
            return Err(e);
        },
    }
    let before: ContentPool = *pool;
    let mut decayed: ContentPool = *pool;
    let decay = match apply_decay_if_needed(&mut decayed, pool_key, vault_amount, now) {
        Ok(v) => v,
        Err(e) => {
            return Err(e);
        },
    };
    let traded = match trade_type {
        TradeType::Buy => buy(
            &decayed,
            factory.total_fee_bps,
            factory.creator_split_bps,
            vault_amount,
            side,
            amount,
            stake_skim,
            min_tokens_out,
        ),
        TradeType::Sell => sell(
            &decayed,
            factory.total_fee_bps,
            factory.creator_split_bps,
            vault_amount,
            side,
            amount,
            min_usdc_out,
        ),
    };
    let (after, fill) = match traded {
        Ok(v) => v,
        Err(e) => {
            return Err(e);
        },
    };
    let is_buy = match trade_type {
        TradeType::Buy => true,
        TradeType::Sell => false,
    };
    let event = TradeEvent {
        pool: pool_key,
        trader,
        side,
        trade_type,
        usdc_amount: if is_buy {
            amount
        } else {
            fill.usdc_to_trader
        },
        usdc_to_trade: if is_buy {
            fill.usdc_traded
        } else {
            fill.usdc_to_trader
        },
        usdc_to_stake: fill.usdc_to_stake,
        tokens_traded: if is_buy {
            fill.tokens_display
        } else {
            fill.tokens_atomic
        },
        s_long_before: before.s_long,
        s_short_before: before.s_short,
        sqrt_price_long_x96_before: before.sqrt_price_long_x96,
        sqrt_price_short_x96_before: before.sqrt_price_short_x96,
        s_long_after: after.s_long,
        s_short_after: after.s_short,
        sqrt_price_long_x96_after: after.sqrt_price_long_x96,
        sqrt_price_short_x96_after: after.sqrt_price_short_x96,
        r_long_after: after.r_long,
        r_short_after: after.r_short,
        vault_balance_after: after.vault_balance,
        timestamp: now,
    };
    let fee_event = TradeFeeEvent {
        pool: pool_key,
        trader,
        side,
        trade_type,
        total_fee_micro_usdc: fill.total_fee,
        creator_fee_micro_usdc: fill.creator_fee,
        protocol_fee_micro_usdc: fill.protocol_fee,
        post_creator: before.post_creator,
        protocol_treasury: factory.protocol_treasury,
        timestamp: now,
    };
    *pool = after;
    Ok(TradeOutcome { event, fee_event, fill, decay })
}

} // verus!
