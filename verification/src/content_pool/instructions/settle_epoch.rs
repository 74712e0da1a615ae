//! Settlement: an oracle's score moves value between the two sides.
//!
//! Settlement changes the valuation of the holdings, not the holdings: the
//! vault balance and both supplies stay as they are. The gauges and the
//! reserves are scaled by two factors, the reserves are tied back to the
//! vault, and the stored prices are recomputed.

use vstd::prelude::*;
use vstd::math::{max, min};
use crate::content_pool::curve::{sqrt_marginal_price_from_virtual_result, ICBSCurve};
use crate::content_pool::errors::ContentPoolError;
use crate::content_pool::events::SettlementEvent;
use crate::content_pool::instructions::trade::{
    derive_lambda, pool_lambda_result, renormalize_pool, renormalized_pool, side_virtual,
};
use crate::content_pool::math::{
    lemma_product_bound, mul_div_u128, two_128, virtual_supply, TWO_64,
};
use crate::content_pool::state::{Address, ContentPool, TokenSide, F_MAX, F_MIN};

verus! {

/// One, in millionths.
pub const MICRO: u64 = 1_000_000;

/// Lower clamp of the prediction in a settlement, in millionths: 0.1%.
pub const Q_CLAMP_MIN: u64 = 1_000;

/// Upper clamp of the prediction in a settlement, in millionths: 99.9%.
pub const Q_CLAMP_MAX: u64 = 999_000;

/// `x` held within `[lo, hi]`.
pub open spec fn clamp(x: int, lo: int, hi: int) -> int {
    max(lo, min(x, hi))
}

/// The market's prediction in millionths: the LONG share of the reserves,
/// one half where there are none.
pub open spec fn prediction_millionths(r_long: int, r_short: int) -> int {
    if r_long + r_short == 0 {
        500_000
    } else {
        (r_long * MICRO) / (r_long + r_short)
    }
}

/// The prediction as settlement uses it: held within 0.1% and 99.9%.
pub open spec fn clamped_prediction(r_long: int, r_short: int) -> int {
    clamp(prediction_millionths(r_long, r_short), Q_CLAMP_MIN as int, Q_CLAMP_MAX as int)
}

/// Factor of the LONG side, in millionths: score over prediction, held
/// within `[0.01, 100]`.
pub open spec fn settle_factor_long(bd_score: int, q: int) -> int {
    clamp((bd_score * MICRO) / q, F_MIN as int, F_MAX as int)
}

/// Factor of the SHORT side, in millionths: the complements, score over
/// prediction, held within `[0.01, 100]`.
pub open spec fn settle_factor_short(bd_score: int, q: int) -> int {
    clamp(((MICRO - bd_score) * MICRO) / (MICRO - q), F_MIN as int, F_MAX as int)
}

/// A factor in millionths as a Q64.64 value.
pub open spec fn factor_q64(f: int) -> int {
    (f * TWO_64) / (MICRO as int)
}

/// A gauge scaled by a factor: `floor(sigma * f_q64 / 2^64)`.
pub open spec fn scaled_gauge(sigma: int, f: int) -> int {
    (sigma * factor_q64(f)) / (TWO_64 as int)
}

/// A reserve scaled by a factor: `floor(r * f / 10^6)`.
pub open spec fn scaled_reserve(r: int, f: int) -> int {
    (r * f) / (MICRO as int)
}

/// The two scaled reserves tied back to the vault, so that they add up to
/// its balance. Where their sum differs from the balance, the LONG reserve
/// takes its share of the balance and the SHORT reserve the rest. Where both
/// have rounded to zero there are no shares to keep: the balance is given out
/// by the score, `floor(balance * score / 10^6)` to the LONG side.
pub open spec fn recoupled_reserves(
    r_long: int,
    r_short: int,
    vault_balance: int,
    bd_score: int,
) -> (int, int) {
    let total = r_long + r_short;
    if total == 0 {
        let r_long_new = (vault_balance * bd_score) / (MICRO as int);
        (r_long_new, vault_balance - r_long_new)
    } else if total != vault_balance {
        let r_long_new = (r_long * vault_balance) / total;
        (r_long_new, vault_balance - r_long_new)
    } else {
        (r_long, r_short)
    }
}

/// What a settlement does: the pool it leaves and its record, or the error.
pub open spec fn settle_result(
    pool: ContentPool,
    pool_key: Address,
    settler: Address,
    vault_amount: u64,
    now: i64,
    bd_score: u32,
) -> Result<(ContentPool, SettlementEvent), ContentPoolError> {
    let q = prediction_millionths(pool.r_long as int, pool.r_short as int);
    let q_clamped = clamped_prediction(pool.r_long as int, pool.r_short as int);
    let f_long = settle_factor_long(bd_score as int, q_clamped);
    let f_short = settle_factor_short(bd_score as int, q_clamped);
    let sigma_long = scaled_gauge(pool.s_scale_long_q64 as int, f_long);
    let sigma_short = scaled_gauge(pool.s_scale_short_q64 as int, f_short);
    let r_long_scaled = scaled_reserve(pool.r_long as int, f_long);
    let r_short_scaled = scaled_reserve(pool.r_short as int, f_short);
    let reserves = recoupled_reserves(
        r_long_scaled,
        r_short_scaled,
        pool.vault_balance as int,
        bd_score as int,
    );
    if now - pool.last_settle_ts < pool.min_settle_interval {
        Err(ContentPoolError::SettlementCooldown)
    } else if bd_score > MICRO {
        Err(ContentPoolError::InvalidBDScore)
    } else if sigma_long >= two_128() || sigma_short >= two_128() {
        Err(ContentPoolError::NumericalOverflow)
    } else if r_long_scaled > u64::MAX || r_short_scaled > u64::MAX {
        Err(ContentPoolError::NumericalOverflow)
    } else {
        let scaled = ContentPool {
            s_scale_long_q64: sigma_long as u128,
            s_scale_short_q64: sigma_short as u128,
            ..pool
        };
        let gauged = renormalized_pool(scaled);
        match pool_lambda_result(vault_amount as int, gauged) {
            Err(e) => Err(e),
            Ok(lambda) => match sqrt_marginal_price_from_virtual_result(
                side_virtual(gauged, TokenSide::Long),
                side_virtual(gauged, TokenSide::Short),
                TokenSide::Long,
                lambda as int,
                gauged.s_scale_long_q64 as int,
                gauged.s_scale_short_q64 as int,
                pool.f,
                pool.beta_num,
                pool.beta_den,
            ) {
                Err(e) => Err(e),
                Ok(price_long) => match sqrt_marginal_price_from_virtual_result(
                    side_virtual(gauged, TokenSide::Long),
                    side_virtual(gauged, TokenSide::Short),
                    TokenSide::Short,
                    lambda as int,
                    gauged.s_scale_long_q64 as int,
                    gauged.s_scale_short_q64 as int,
                    pool.f,
                    pool.beta_num,
                    pool.beta_den,
                ) {
                    Err(e) => Err(e),
                    Ok(price_short) => {
                        if pool.current_epoch == u64::MAX {
                            Err(ContentPoolError::NumericalOverflow)
                        } else {
                            let after = ContentPool {
                                r_long: reserves.0 as u64,
                                r_short: reserves.1 as u64,
                                sqrt_price_long_x96: price_long,
                                sqrt_price_short_x96: price_short,
                                last_settle_ts: now,
                                current_epoch: (pool.current_epoch + 1) as u64,
                                ..gauged
                            };
                            Ok(
                                (
                                    after,
                                    SettlementEvent {
                                        pool: pool_key,
                                        settler,
                                        epoch: after.current_epoch,
                                        bd_score,
                                        market_prediction_q: q as u128,
                                        f_long: f_long as u128,
                                        f_short: f_short as u128,
                                        r_long_before: pool.r_long as u128,
                                        r_short_before: pool.r_short as u128,
                                        r_long_after: after.r_long as u128,
                                        r_short_after: after.r_short as u128,
                                        s_scale_long_before: pool.s_scale_long_q64,
                                        s_scale_long_after: after.s_scale_long_q64,
                                        s_scale_short_before: pool.s_scale_short_q64,
                                        s_scale_short_after: after.s_scale_short_q64,
                                        timestamp: now,
                                    },
                                ),
                            )
                        }
                    },
                },
            },
        }
    }
}

proof fn lemma_share_of_million(r_long: int, total: int)
    requires
        0 <= r_long <= total,
        0 < total,
    ensures
        0 <= (r_long * MICRO) / total <= MICRO,
{
    assert(0 <= r_long * MICRO <= total * MICRO) by (nonlinear_arith)
        requires
            0 <= r_long <= total,
    ;
    vstd::arithmetic::div_mod::lemma_div_is_ordered(r_long * MICRO, total * MICRO, total);
    vstd::arithmetic::div_mod::lemma_div_multiples_vanish(MICRO as int, total);
    assert(total * MICRO == MICRO * total) by (nonlinear_arith);
    vstd::arithmetic::div_mod::lemma_div_pos_is_pos(r_long * MICRO, total);
}

/// A settlement factor for a score and a clamped prediction, in millionths.
fn settle_factor(numerator: u64, denominator: u64) -> (f: u64)
    requires
        numerator <= MICRO,
        Q_CLAMP_MIN <= denominator <= Q_CLAMP_MAX,
    ensures
        f == clamp((numerator * MICRO) / (denominator as int), F_MIN as int, F_MAX as int),
        F_MIN <= f <= F_MAX,
{
    proof {
        assert(0 <= numerator * MICRO <= 1_000_000 * 1_000_000) by (nonlinear_arith)
            requires
                0 <= numerator <= 1_000_000,
                MICRO == 1_000_000,
        ;
    }
    let raw: u128 = (numerator as u128 * MICRO as u128) / (denominator as u128);
    if raw < F_MIN as u128 {
        F_MIN
    } else if raw > F_MAX as u128 {
        F_MAX
    } else {
        raw as u64
    }
}

/// Tie two scaled reserves back to the vault balance.
fn recouple_reserves(r_long: u64, r_short: u64, vault_balance: u64, bd_score: u32) -> (r: (
    u64,
    u64,
))
    requires
        bd_score <= MICRO,
    ensures
        (r.0 as int, r.1 as int) == recoupled_reserves(
            r_long as int,
            r_short as int,
            vault_balance as int,
            bd_score as int,
        ),
        r.0 + r.1 == vault_balance,
{
    let total_after: u128 = r_long as u128 + r_short as u128;
    let target: u128 = vault_balance as u128;
    if total_after == 0 {
        proof {
            lemma_product_bound(target as int, bd_score as int, 0xffff_ffff_ffff_ffff, 1_000_000);
            assert(target * bd_score <= target * MICRO) by (nonlinear_arith)
                requires
                    0 <= bd_score <= MICRO,
                    0 <= target,
            ;
            vstd::arithmetic::div_mod::lemma_div_is_ordered(
                target * bd_score,
                target * MICRO,
                MICRO as int,
            );
            vstd::arithmetic::div_mod::lemma_div_multiples_vanish(target as int, MICRO as int);
            assert(target * MICRO == MICRO * target) by (nonlinear_arith);
        }
        let r_long_new: u128 = (target * (bd_score as u128)) / (MICRO as u128);
        (r_long_new as u64, (target - r_long_new) as u64)
    } else if total_after != target {
        proof {
            assert(0 <= r_long * target <= total_after * target) by (nonlinear_arith)
                requires
                    0 <= r_long <= total_after,
                    0 <= target,
            ;
            vstd::arithmetic::div_mod::lemma_div_is_ordered(
                r_long * target,
                total_after * target,
                total_after as int,
            );
            vstd::arithmetic::div_mod::lemma_div_multiples_vanish(target as int, total_after as int);
            assert(total_after * target == target * total_after) by (nonlinear_arith);
            vstd::arithmetic::div_mod::lemma_div_pos_is_pos(r_long * target, total_after as int);
            assert(r_long * target <= 0xffff_ffff_ffff_ffff * 0xffff_ffff_ffff_ffff)
                by (nonlinear_arith)
                requires
                    r_long <= 0xffff_ffff_ffff_ffff,
                    target <= 0xffff_ffff_ffff_ffff,
            ;
        }
        let r_long_new: u128 = (r_long as u128 * target) / total_after;
        (r_long_new as u64, (target - r_long_new) as u64)
    } else {
        (r_long, r_short)
    }
}

/// Settle an epoch with the oracle's score `bd_score`, in millionths.
///
/// `vault_amount` is the balance of the reserve account and `now` the host's
/// clock. On success the pool holds the state after the settlement; on an
/// error it is unchanged. The vault balance and both supplies are never
/// changed, and the reserves add up to the vault balance afterwards.
pub fn handler(
    pool: &mut ContentPool,
    pool_key: Address,
    settler: Address,
    vault_amount: u64,
    now: i64,
    bd_score: u32,
) -> (res: Result<SettlementEvent, ContentPoolError>)
    ensures
        match res {
            Ok(event) => settle_result(*old(pool), pool_key, settler, vault_amount, now, bd_score)
                == Ok::<(ContentPool, SettlementEvent), ContentPoolError>((*final(pool), event)),
            Err(e) => settle_result(*old(pool), pool_key, settler, vault_amount, now, bd_score)
                == Err::<(ContentPool, SettlementEvent), ContentPoolError>(e) && *final(pool)
                == *old(pool),
        },
        res is Ok ==> final(pool).vault_balance == old(pool).vault_balance && final(pool).s_long
            == old(pool).s_long && final(pool).s_short == old(pool).s_short && final(pool).current_epoch == old(pool).current_epoch + 1 && final(pool).last_settle_ts == now,
        res is Ok && old(pool).is_liquid() ==> final(pool).is_liquid(),
        res matches Ok(event) ==> F_MIN <= event.f_long <= F_MAX && F_MIN <= event.f_short
            <= F_MAX,
        res is Ok ==> final(pool).reserves_match_vault(),
{
    if (now as i128) - (pool.last_settle_ts as i128) < pool.min_settle_interval as i128 {
        return Err(ContentPoolError::SettlementCooldown);
    }
    if bd_score > 1_000_000 {
        return Err(ContentPoolError::InvalidBDScore);
    }
    let before: ContentPool = *pool;
    let total_reserves: u128 = pool.r_long as u128 + pool.r_short as u128;
    let q: u64 = if total_reserves == 0 {
        500_000
    } else {
        proof {
            lemma_share_of_million(pool.r_long as int, total_reserves as int);
            lemma_product_bound(
                pool.r_long as int,
                MICRO as int,
                0xffff_ffff_ffff_ffff,
                1_000_000,
            );
        }
        ((pool.r_long as u128 * MICRO as u128) / total_reserves) as u64
    };
    let q_clamped: u64 = if q < Q_CLAMP_MIN {
        Q_CLAMP_MIN
    } else if q > Q_CLAMP_MAX {
        Q_CLAMP_MAX
    } else {
        q
    };
    let f_long = settle_factor(bd_score as u64, q_clamped);
    let f_short = settle_factor(MICRO - bd_score as u64, MICRO - q_clamped);
    proof {
        assert(0 <= f_long * TWO_64 <= 100_000_000 * 0x1_0000_0000_0000_0000) by (nonlinear_arith)
            requires
                0 <= f_long <= 100_000_000,
                TWO_64 == 0x1_0000_0000_0000_0000,
        ;
        assert(0 <= f_short * TWO_64 <= 100_000_000 * 0x1_0000_0000_0000_0000)
            by (nonlinear_arith)
            requires
                0 <= f_short <= 100_000_000,
                TWO_64 == 0x1_0000_0000_0000_0000,
        ;
    }
    let f_long_q64: u128 = ((f_long as u128) * TWO_64) / (MICRO as u128);
    let f_short_q64: u128 = ((f_short as u128) * TWO_64) / (MICRO as u128);
    let sigma_long = match mul_div_u128(pool.s_scale_long_q64, f_long_q64, TWO_64) {
        Ok(v) => v,
        Err(e) => {
            return Err(e);
        },
    };
    let sigma_short = match mul_div_u128(pool.s_scale_short_q64, f_short_q64, TWO_64) {
        Ok(v) => v,
        Err(e) => {
            return Err(e);
        },
    };
    proof {
        assert(pool.r_long * f_long <= 0xffff_ffff_ffff_ffff * 100_000_000) by (nonlinear_arith)
            requires
                pool.r_long <= 0xffff_ffff_ffff_ffff,
                f_long <= 100_000_000,
        ;
        assert(pool.r_short * f_short <= 0xffff_ffff_ffff_ffff * 100_000_000) by (nonlinear_arith)
            requires
                pool.r_short <= 0xffff_ffff_ffff_ffff,
                f_short <= 100_000_000,
        ;
    }
    let r_long_scaled: u128 = (pool.r_long as u128 * f_long as u128) / (MICRO as u128);
    let r_short_scaled: u128 = (pool.r_short as u128 * f_short as u128) / (MICRO as u128);
    if r_long_scaled > u64::MAX as u128 || r_short_scaled > u64::MAX as u128 {
        return Err(ContentPoolError::NumericalOverflow);
    }
    let mut after: ContentPool = *pool;
    after.s_scale_long_q64 = sigma_long;
    after.s_scale_short_q64 = sigma_short;
    renormalize_pool(&mut after);
    let (r_long, r_short) = recouple_reserves(
        r_long_scaled as u64,
        r_short_scaled as u64,
        pool.vault_balance,
        bd_score,
    );
    let lambda_q96 = match derive_lambda(vault_amount, &after) {
        Ok(v) => v,
        Err(e) => {
            return Err(e);
        },
    };
    let s_long_v: u64 = virtual_supply(after.s_long, after.s_scale_long_q64) as u64;
    let s_short_v: u64 = virtual_supply(after.s_short, after.s_scale_short_q64) as u64;
    let price_long = match ICBSCurve::sqrt_marginal_price_from_virtual(
        s_long_v,
        s_short_v,
        TokenSide::Long,
        lambda_q96,
        after.s_scale_long_q64,
        after.s_scale_short_q64,
        after.f,
        after.beta_num,
        after.beta_den,
    ) {
        Ok(v) => v,
        Err(e) => {
            return Err(e);
        },
    };
    let price_short = match ICBSCurve::sqrt_marginal_price_from_virtual(
        s_long_v,
        s_short_v,
        TokenSide::Short,
        lambda_q96,
        after.s_scale_long_q64,
        after.s_scale_short_q64,
        after.f,
        after.beta_num,
        after.beta_den,
    ) {
        Ok(v) => v,
        Err(e) => {
            return Err(e);
        },
    };
    if pool.current_epoch == u64::MAX {
        return Err(ContentPoolError::NumericalOverflow);
    }
    after.r_long = r_long;
    after.r_short = r_short;
    after.sqrt_price_long_x96 = price_long;
    after.sqrt_price_short_x96 = price_short;
    after.last_settle_ts = now;
    after.current_epoch = pool.current_epoch + 1;
    *pool = after;
    Ok(
        SettlementEvent {
            pool: pool_key,
            settler,
            epoch: after.current_epoch,
            bd_score,
            market_prediction_q: q as u128,
            f_long: f_long as u128,
            f_short: f_short as u128,
            r_long_before: before.r_long as u128,
            r_short_before: before.r_short as u128,
            r_long_after: after.r_long as u128,
            r_short_after: after.r_short as u128,
            s_scale_long_before: before.s_scale_long_q64,
            s_scale_long_after: after.s_scale_long_q64,
            s_scale_short_before: before.s_scale_short_q64,
            s_scale_short_after: after.s_scale_short_q64,
            timestamp: now,
        },
    )
}

} // verus!
