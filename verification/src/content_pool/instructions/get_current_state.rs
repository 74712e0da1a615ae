//! A read-only view of the pool.

use vstd::prelude::*;
use crate::content_pool::decay::prediction_q32;
use crate::content_pool::errors::ContentPoolError;
use crate::content_pool::math::lemma_product_bound;
use crate::content_pool::state::{ContentPool, Q32_ONE, TOKEN_SCALE};

verus! {

/// The pool as a reader sees it.
#[derive(Clone, Copy, Debug)]
pub struct CurrentPoolState {
    /// LONG reserve, in micro-units.
    pub r_long: u64,
    /// SHORT reserve, in micro-units.
    pub r_short: u64,
    /// The market's prediction, Q32.32.
    pub q: u64,
    /// Reserve per million LONG tokens.
    pub price_long: u64,
    /// Reserve per million SHORT tokens.
    pub price_short: u64,
    pub s_long: u64,
    pub s_short: u64,
    pub sqrt_price_long_x96: u128,
    pub sqrt_price_short_x96: u128,
    /// Always zero: the view does not anticipate decay.
    pub days_expired: i64,
    /// Always zero: the view does not anticipate decay.
    pub days_since_last_update: i64,
    /// Always false: the view does not anticipate decay.
    pub decay_pending: bool,
    pub expiration_timestamp: i64,
    pub last_decay_update: i64,
}

/// The prediction that the view reports, Q32.32: the LONG share of the
/// reserves, one half where there are none.
pub open spec fn view_q(r_long: int, r_short: int) -> int {
    if r_long + r_short > 0 {
        prediction_q32(r_long, r_short)
    } else {
        Q32_ONE as int / 2
    }
}

/// The price that the view reports for a side: its reserve times one
/// million over its supply, and one million where the side is empty.
pub open spec fn view_price(r: int, s: int) -> int {
    if s > 0 {
        (r * (TOKEN_SCALE as int)) / s
    } else {
        TOKEN_SCALE as int
    }
}

/// The view of a pool, where both prices fit 64 bits.
pub open spec fn view_of(pool: ContentPool) -> CurrentPoolState {
    CurrentPoolState {
        r_long: pool.r_long,
        r_short: pool.r_short,
        q: view_q(pool.r_long as int, pool.r_short as int) as u64,
        price_long: view_price(pool.r_long as int, pool.s_long as int) as u64,
        price_short: view_price(pool.r_short as int, pool.s_short as int) as u64,
        s_long: pool.s_long,
        s_short: pool.s_short,
        sqrt_price_long_x96: pool.sqrt_price_long_x96,
        sqrt_price_short_x96: pool.sqrt_price_short_x96,
        days_expired: 0,
        days_since_last_update: 0,
        decay_pending: false,
        expiration_timestamp: pool.expiration_timestamp,
        last_decay_update: pool.last_decay_update,
    }
}

/// The price of one side for the view.
fn price_of(r: u64, s: u64) -> (res: Option<u64>)
    ensures
        view_price(r as int, s as int) >= 0,
        view_price(r as int, s as int) > u64::MAX ==> res.is_none(),
        view_price(r as int, s as int) <= u64::MAX ==> res == Some(
            view_price(r as int, s as int) as u64,
        ),
{
    if s > 0 {
        proof {
            lemma_product_bound(
                r as int,
                TOKEN_SCALE as int,
                0xffff_ffff_ffff_ffff,
                1_000_000,
            );
        }
        let price: u128 = ((r as u128) * (TOKEN_SCALE as u128)) / (s as u128);
        if price > u64::MAX as u128 {
            None
        } else {
            Some(price as u64)
        }
    } else {
        Some(TOKEN_SCALE)
    }
}

/// The current state of the pool. Nothing is changed.
///
/// It fails only where a price does not fit 64 bits.
pub fn handler(pool: &ContentPool) -> (res: Result<CurrentPoolState, ContentPoolError>)
    ensures
        view_price(pool.r_long as int, pool.s_long as int) > u64::MAX || view_price(
            pool.r_short as int,
            pool.s_short as int,
        ) > u64::MAX ==> res == Err::<CurrentPoolState, ContentPoolError>(
            ContentPoolError::NumericalOverflow,
        ),
        view_price(pool.r_long as int, pool.s_long as int) <= u64::MAX && view_price(
            pool.r_short as int,
            pool.s_short as int,
        ) <= u64::MAX ==> res == Ok::<CurrentPoolState, ContentPoolError>(view_of(*pool)),
{
    let total: u128 = pool.r_long as u128 + pool.r_short as u128;
    let q: u64 = if total > 0 {
        proof {
            let r = pool.r_long as int;
            let t = total as int;
            assert(0 <= r * Q32_ONE <= t * Q32_ONE) by (nonlinear_arith)
                requires
                    0 <= r <= t,
            ;
            vstd::arithmetic::div_mod::lemma_div_is_ordered(r * Q32_ONE, t * Q32_ONE, t);
            vstd::arithmetic::div_mod::lemma_div_multiples_vanish(Q32_ONE as int, t);
            assert(t * Q32_ONE == Q32_ONE * t) by (nonlinear_arith);
            vstd::arithmetic::div_mod::lemma_div_pos_is_pos(r * Q32_ONE, t);
            assert(r * Q32_ONE <= 0xffff_ffff_ffff_ffff * 0x1_0000_0000) by (nonlinear_arith)
                requires
                    0 <= r <= 0xffff_ffff_ffff_ffff,
                    Q32_ONE == 0x1_0000_0000,
            ;
        }
        (((pool.r_long as u128) * (Q32_ONE as u128)) / total) as u64
    } else {
        Q32_ONE / 2
    };
    let price_long = match price_of(pool.r_long, pool.s_long) {
        Some(v) => v,
        None => {
            return Err(ContentPoolError::NumericalOverflow);
        },
    };
    let price_short = match price_of(pool.r_short, pool.s_short) {
        Some(v) => v,
        None => {
            return Err(ContentPoolError::NumericalOverflow);
        },
    };
    Ok(
        CurrentPoolState {
            r_long: pool.r_long,
            r_short: pool.r_short,
            q,
            price_long,
            price_short,
            s_long: pool.s_long,
            s_short: pool.s_short,
            sqrt_price_long_x96: pool.sqrt_price_long_x96,
            sqrt_price_short_x96: pool.sqrt_price_short_x96,
            days_expired: 0,
            days_since_last_update: 0,
            decay_pending: false,
            expiration_timestamp: pool.expiration_timestamp,
            last_decay_update: pool.last_decay_update,
        },
    )
}

} // verus!
