//! Time-based decay.
//!
//! After a pool expires its prediction drifts towards a floor, one step per
//! whole day, by rescaling the two reserves as a settlement would. Supplies
//! and gauges are left alone. The stored prices are recomputed at the lambda
//! derived from the vault: no stored lambda is read.

use vstd::prelude::*;
use vstd::math::max;
use super::curve::{sqrt_marginal_price_from_virtual_result, ICBSCurve};
use super::errors::ContentPoolError;
use super::instructions::trade::{derive_lambda, pool_lambda_result, side_virtual};
use super::math::{lemma_product_bound, virtual_supply};
use super::state::{
    Address, ContentPool, TokenSide, DECAY_MIN_Q_BPS, DECAY_TIER_1_BPS, DECAY_TIER_2_BPS,
    DECAY_TIER_3_BPS, Q32_ONE, SECONDS_PER_DAY,
};

verus! {

/// Decay was applied to a pool.
#[derive(Clone, Copy, Debug)]
pub struct DecayAppliedEvent {
    pub pool: Address,
    /// Whole days since decay was last applied.
    pub days_applied: i64,
    pub r_long_before: u64,
    pub r_short_before: u64,
    pub r_long_after: u64,
    pub r_short_after: u64,
    pub timestamp: i64,
}

/// Whole days from `from` to `to`, for `to >= from`.
pub open spec fn whole_days(from: int, to: int) -> int {
    (to - from) / (SECONDS_PER_DAY as int)
}

/// Daily fall of the prediction, in basis points, by the age of the expiry.
pub open spec fn decay_rate_bps(days_expired: int) -> int {
    if days_expired < 7 {
        DECAY_TIER_1_BPS as int
    } else if days_expired < 30 {
        DECAY_TIER_2_BPS as int
    } else {
        DECAY_TIER_3_BPS as int
    }
}

/// The prediction in basis points: the LONG share of the reserves.
pub open spec fn prediction_bps(r_long: int, r_short: int) -> int {
    (r_long * 10000) / (r_long + r_short)
}

/// The prediction in Q32.32.
pub open spec fn prediction_q32(r_long: int, r_short: int) -> int {
    (r_long * (Q32_ONE as int)) / (r_long + r_short)
}

/// The prediction that decay aims at, in basis points: the present one less
/// the fall of every expired day, and at least the floor.
pub open spec fn decay_target_bps(r_long: int, r_short: int, days_expired: int) -> int {
    max(
        prediction_bps(r_long, r_short) - days_expired * decay_rate_bps(days_expired),
        DECAY_MIN_Q_BPS as int,
    )
}

/// The target of decay in Q32.32.
pub open spec fn decay_target_q32(r_long: int, r_short: int, days_expired: int) -> int {
    (decay_target_bps(r_long, r_short, days_expired) * (Q32_ONE as int)) / 10000
}

/// Factor of the LONG reserve, Q32.32: target over prediction.
pub open spec fn decay_factor_long(r_long: int, r_short: int, days_expired: int) -> int {
    (decay_target_q32(r_long, r_short, days_expired) * (Q32_ONE as int)) / prediction_q32(
        r_long,
        r_short,
    )
}

/// Factor of the SHORT reserve, Q32.32: the complements, target over
/// prediction.
pub open spec fn decay_factor_short(r_long: int, r_short: int, days_expired: int) -> int {
    ((Q32_ONE - decay_target_q32(r_long, r_short, days_expired)) * (Q32_ONE as int)) / (Q32_ONE
        - prediction_q32(r_long, r_short))
}

/// What `calculate_decayed_reserves` returns.
pub open spec fn decayed_reserves_result(
    r_long: int,
    r_short: int,
    expiration: int,
    now: int,
) -> Result<(u64, u64), ContentPoolError> {
    let days = whole_days(expiration, now);
    let q = prediction_q32(r_long, r_short);
    let long_after = (r_long * decay_factor_long(r_long, r_short, days)) / (Q32_ONE as int);
    let short_after = (r_short * decay_factor_short(r_long, r_short, days)) / (Q32_ONE as int);
    if now <= expiration {
        Ok((r_long as u64, r_short as u64))
    } else if now - expiration > i64::MAX {
        Err(ContentPoolError::NumericalOverflow)
    } else if days == 0 {
        Ok((r_long as u64, r_short as u64))
    } else if r_long + r_short == 0 {
        Ok((0u64, 0u64))
    } else if q == 0 || q == Q32_ONE {
        Err(ContentPoolError::NumericalOverflow)
    } else if long_after > u64::MAX || short_after > u64::MAX {
        Err(ContentPoolError::NumericalOverflow)
    } else {
        Ok((long_after as u64, short_after as u64))
    }
}

proof fn lemma_share_bounded(r_long: int, total: int, scale: int)
    requires
        0 <= r_long <= total,
        0 < total,
        0 < scale,
    ensures
        0 <= (r_long * scale) / total <= scale,
{
    assert(0 <= r_long * scale <= total * scale) by (nonlinear_arith)
        requires
            0 <= r_long <= total,
            0 < scale,
    ;
    vstd::arithmetic::div_mod::lemma_div_is_ordered(r_long * scale, total * scale, total);
    vstd::arithmetic::div_mod::lemma_div_multiples_vanish(scale, total);
    assert(total * scale == scale * total) by (nonlinear_arith);
    vstd::arithmetic::div_mod::lemma_div_pos_is_pos(r_long * scale, total);
}

/// The reserves that decay leaves at `current_timestamp`.
///
/// Nothing changes before the first whole day after expiry, nor in an empty
/// pool. A pool whose whole reserve is on one side cannot be rescaled.
pub fn calculate_decayed_reserves(pool: &ContentPool, current_timestamp: i64) -> (res: Result<
    (u64, u64),
    ContentPoolError,
>)
    ensures
        res == decayed_reserves_result(
            pool.r_long as int,
            pool.r_short as int,
            pool.expiration_timestamp as int,
            current_timestamp as int,
        ),
{
    if current_timestamp <= pool.expiration_timestamp {
        return Ok((pool.r_long, pool.r_short));
    }
    let seconds_expired: i64 = match current_timestamp.checked_sub(pool.expiration_timestamp) {
        Some(v) => v,
        None => {
            return Err(ContentPoolError::NumericalOverflow);
        },
    };
    let days_expired: i64 = seconds_expired / SECONDS_PER_DAY;
    if days_expired == 0 {
        return Ok((pool.r_long, pool.r_short));
    }
    let total_reserves: u128 = pool.r_long as u128 + pool.r_short as u128;
    if total_reserves == 0 {
        return Ok((0, 0));
    }
    let one: u128 = Q32_ONE as u128;
    proof {
        lemma_share_bounded(pool.r_long as int, total_reserves as int, Q32_ONE as int);
        lemma_share_bounded(pool.r_long as int, total_reserves as int, 10000);
        assert(pool.r_long * Q32_ONE <= 0xffff_ffff_ffff_ffff * 0x1_0000_0000) by (nonlinear_arith)
            requires
                pool.r_long <= 0xffff_ffff_ffff_ffff,
                Q32_ONE == 0x1_0000_0000,
        ;
    }
    let q: u128 = (pool.r_long as u128 * one) / total_reserves;
    let decay_rate_bps: u128 = if days_expired < 7 {
        DECAY_TIER_1_BPS as u128
    } else if days_expired < 30 {
        DECAY_TIER_2_BPS as u128
    } else {
        DECAY_TIER_3_BPS as u128
    };
    let q_bps: u128 = (pool.r_long as u128 * 10000) / total_reserves;
    proof {
        assert(0 <= days_expired * decay_rate_bps <= 0x7fff_ffff_ffff_ffff * 300)
            by (nonlinear_arith)
            requires
                0 <= days_expired <= 0x7fff_ffff_ffff_ffff,
                0 <= decay_rate_bps <= 300,
        ;
    }
    let total_decay_bps: u128 = (days_expired as u128) * decay_rate_bps;
    let lowered: u128 = q_bps.saturating_sub(total_decay_bps);
    let x_decay_bps: u128 = if lowered < DECAY_MIN_Q_BPS as u128 {
        DECAY_MIN_Q_BPS as u128
    } else {
        lowered
    };
    proof {
        lemma_product_bound(x_decay_bps as int, one as int, 10_000, 0x1_0000_0000);
    }
    let x_decay: u128 = (x_decay_bps * one) / 10000;
    if q == 0 || q == one {
        return Err(ContentPoolError::NumericalOverflow);
    }
    proof {
        lemma_product_bound(x_decay as int, one as int, 0x1_0000_0000, 0x1_0000_0000);
        lemma_product_bound(one - x_decay, one as int, 0x1_0000_0000, 0x1_0000_0000);
    }
    let f_long: u128 = (x_decay * one) / q;
    let f_short: u128 = ((one - x_decay) * one) / (one - q);
    proof {
        assert(x_decay <= one);
        assert(0 <= f_long <= 0x1_0000_0000_0000_0000) by {
            vstd::arithmetic::div_mod::lemma_div_is_ordered_by_denominator(
                (x_decay * one) as int,
                1,
                q as int,
            );
        }
        assert(0 <= f_short <= 0x1_0000_0000_0000_0000) by {
            vstd::arithmetic::div_mod::lemma_div_is_ordered_by_denominator(
                ((one - x_decay) * one) as int,
                1,
                (one - q) as int,
            );
        }
        lemma_limb_bound(pool.r_long as int, f_long as int);
        lemma_limb_bound(pool.r_short as int, f_short as int);
    }
    let r_long_decayed: u128 = (pool.r_long as u128 * f_long) / one;
    let r_short_decayed: u128 = (pool.r_short as u128 * f_short) / one;
    if r_long_decayed > u64::MAX as u128 || r_short_decayed > u64::MAX as u128 {
        return Err(ContentPoolError::NumericalOverflow);
    }
    Ok((r_long_decayed as u64, r_short_decayed as u64))
}

proof fn lemma_limb_bound(x: int, y: int)
    requires
        0 <= x <= 0xffff_ffff_ffff_ffff,
        0 <= y <= 0x1_0000_0000_0000_0000,
    ensures
        0 <= x * y <= 0xffff_ffff_ffff_ffff_0000_0000_0000_0000,
{
    assert(0 <= x * y <= 0xffff_ffff_ffff_ffff * 0x1_0000_0000_0000_0000) by (nonlinear_arith)
        requires
            0 <= x <= 0xffff_ffff_ffff_ffff,
            0 <= y <= 0x1_0000_0000_0000_0000,
    ;
}

/// Whether decay is due: the pool has expired and a whole day has passed
/// since decay was last applied.
pub open spec fn decay_due(pool: ContentPool, now: int) -> bool {
    now > pool.expiration_timestamp && whole_days(pool.last_decay_update as int, now) >= 1
}

/// The pool after decay at `now`, given the decayed reserves and the two
/// recomputed root prices.
pub open spec fn decayed_pool(
    pool: ContentPool,
    reserves: (u64, u64),
    price_long: u128,
    price_short: u128,
    now: i64,
) -> ContentPool {
    ContentPool {
        r_long: reserves.0,
        r_short: reserves.1,
        last_decay_update: now,
        sqrt_price_long_x96: price_long,
        sqrt_price_short_x96: price_short,
        ..pool
    }
}

/// The display root price of `side` at the pool's supplies and gauges and
/// the lambda `lambda_q96`.
pub open spec fn pool_price_result(pool: ContentPool, side: TokenSide, lambda_q96: u128) -> Result<
    u128,
    ContentPoolError,
> {
    sqrt_marginal_price_from_virtual_result(
        side_virtual(pool, TokenSide::Long),
        side_virtual(pool, TokenSide::Short),
        side,
        lambda_q96 as int,
        pool.s_scale_long_q64 as int,
        pool.s_scale_short_q64 as int,
        pool.f,
        pool.beta_num,
        pool.beta_den,
    )
}

/// What `apply_decay_if_needed` does: the pool it leaves and the record it
/// returns, or the error.
pub open spec fn apply_decay_result(
    pool: ContentPool,
    pool_key: Address,
    vault_amount: u64,
    now: i64,
) -> Result<(ContentPool, Option<DecayAppliedEvent>), ContentPoolError> {
    if now - pool.last_decay_update > i64::MAX || now - pool.last_decay_update < i64::MIN {
        Err(ContentPoolError::NumericalOverflow)
    } else if !decay_due(pool, now as int) {
        Ok((pool, None))
    } else {
        match decayed_reserves_result(
            pool.r_long as int,
            pool.r_short as int,
            pool.expiration_timestamp as int,
            now as int,
        ) {
            Err(e) => Err(e),
            Ok(reserves) => match pool_lambda_result(vault_amount as int, pool) {
                Err(e) => Err(e),
                Ok(lambda) => match pool_price_result(pool, TokenSide::Long, lambda) {
                    Err(e) => Err(e),
                    Ok(price_long) => match pool_price_result(pool, TokenSide::Short, lambda) {
                        Err(e) => Err(e),
                        Ok(price_short) => Ok(
                            (
                                decayed_pool(pool, reserves, price_long, price_short, now),
                                Some(
                                    DecayAppliedEvent {
                                        pool: pool_key,
                                        days_applied: whole_days(
                                            pool.last_decay_update as int,
                                            now as int,
                                        ) as i64,
                                        r_long_before: pool.r_long,
                                        r_short_before: pool.r_short,
                                        r_long_after: reserves.0,
                                        r_short_after: reserves.1,
                                        timestamp: now,
                                    },
                                ),
                            ),
                        ),
                    },
                },
            },
        }
    }
}

/// Apply decay to the pool if it is due.
///
/// `vault_amount` is the balance of the reserve account. Where decay is due,
/// the reserves are rescaled, both root prices are recomputed from the
/// supplies, the gauges and the lambda derived from the vault, and the time
/// is noted; the record of it is returned. Where it is not due, or on an
/// error, the pool is unchanged.
pub fn apply_decay_if_needed(
    pool: &mut ContentPool,
    pool_key: Address,
    vault_amount: u64,
    current_timestamp: i64,
) -> (res: Result<Option<DecayAppliedEvent>, ContentPoolError>)
    ensures
        match res {
            Ok(event) => apply_decay_result(*old(pool), pool_key, vault_amount, current_timestamp)
                == Ok::<(ContentPool, Option<DecayAppliedEvent>), ContentPoolError>(
                (*final(pool), event),
            ),
            Err(e) => apply_decay_result(*old(pool), pool_key, vault_amount, current_timestamp)
                == Err::<(ContentPool, Option<DecayAppliedEvent>), ContentPoolError>(e) && *final(pool) == *old(pool),
        },
        res is Ok ==> final(pool).s_long == old(pool).s_long && final(pool).s_short == old(pool).s_short && final(pool).vault_balance == old(pool).vault_balance,
{
    let elapsed: i64 = match current_timestamp.checked_sub(pool.last_decay_update) {
        Some(v) => v,
        None => {
            return Err(ContentPoolError::NumericalOverflow);
        },
    };
    // whole days, rounded towards the past for a clock that ran backwards
    let days_since_update: i64 = if elapsed >= 0 {
        elapsed / SECONDS_PER_DAY
    } else {
        -1
    };
    if days_since_update < 1 || current_timestamp <= pool.expiration_timestamp {
        return Ok(None);
    }
    let r_long_before = pool.r_long;
    let r_short_before = pool.r_short;
    let (r_long_decayed, r_short_decayed) = match calculate_decayed_reserves(
        pool,
        current_timestamp,
    ) {
        Ok(v) => v,
        Err(e) => {
            return Err(e);
        },
    };
    let lambda_q96 = match derive_lambda(vault_amount, pool) {
        Ok(v) => v,
        Err(e) => {
            return Err(e);
        },
    };
    let v_long: u64 = virtual_supply(pool.s_long, pool.s_scale_long_q64) as u64;
    let v_short: u64 = virtual_supply(pool.s_short, pool.s_scale_short_q64) as u64;
    let price_long = match ICBSCurve::sqrt_marginal_price_from_virtual(
        v_long,
        v_short,
        TokenSide::Long,
        lambda_q96,
        pool.s_scale_long_q64,
        pool.s_scale_short_q64,
        pool.f,
        pool.beta_num,
        pool.beta_den,
    ) {
        Ok(v) => v,
        Err(e) => {
            return Err(e);
        },
    };
    let price_short = match ICBSCurve::sqrt_marginal_price_from_virtual(
        v_long,
        v_short,
        TokenSide::Short,
        lambda_q96,
        pool.s_scale_long_q64,
        pool.s_scale_short_q64,
        pool.f,
        pool.beta_num,
        pool.beta_den,
    ) {
        Ok(v) => v,
        Err(e) => {
            return Err(e);
        },
    };
    pool.r_long = r_long_decayed;
    pool.r_short = r_short_decayed;
    pool.last_decay_update = current_timestamp;
    pool.sqrt_price_long_x96 = price_long;
    pool.sqrt_price_short_x96 = price_short;
    Ok(
        Some(
            DecayAppliedEvent {
                pool: pool_key,
                days_applied: days_since_update,
                r_long_before,
                r_short_before,
                r_long_after: r_long_decayed,
                r_short_after: r_short_decayed,
                timestamp: current_timestamp,
            },
        ),
    )
}

} // verus!
