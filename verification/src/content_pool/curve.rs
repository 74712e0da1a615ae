//! The coupled bonding curve, in its one supported form: F = 1, beta = 1/2.
//!
//! Cost is lambda times the Euclidean norm of the two supplies, and the price
//! of a side is lambda times its share of the norm:
//!
//! ```text
//! C(s_L, s_S) = lambda * sqrt(s_L^2 + s_S^2)
//! p_i         = lambda * s_i / sqrt(s_L^2 + s_S^2)
//! ```
//!
//! Units: supplies are whole tokens, amounts of the stablecoin are
//! micro-units, lambda and prices are Q96, square-root prices are
//! `sqrt(price_q96) * 2^48`.
//!
//! The last three functions of the module are a curve of another kind: one
//! token against one reserve, with a price that grows with the square of the
//! supply. No pool transition uses it.

use vstd::prelude::*;
use vstd::math::max;
use super::errors::ContentPoolError;
use super::math::{
    full_mul_128, is_floor_sqrt, isqrt, isqrt_u128, lemma_isqrt, lemma_limb_product, lemma_product_bound, lemma_wide_shift_96, mul_div_u128, mul_shift_right_96, two_128, TWO_32, TWO_64, TWO_96,
};
use super::state::TokenSide;
use crate::constants::PRICE_FLOOR;
use crate::errors::ErrorCode;
use crate::utils::{cube, icbrt, integer_cbrt, lemma_cube_monotone, CBRT_MAX};

verus! {

/// The curve: a namespace for its functions.
pub struct ICBSCurve;

/// 1.0 in Q96.
pub const Q96: u128 = 0x1_0000_0000_0000_0000_0000_0000;

/// Atomic units per display token.
pub const SUPPLY_SCALE: u64 = 1_000_000;

/// 2^48: the factor between the root of a Q96 price and a Q96 root price.
pub const TWO_48: u128 = 0x1_0000_0000_0000;

/// Only F = 1 with beta = 1/2 is a valid configuration.
pub open spec fn supported_parameters(f: u16, beta_num: u16, beta_den: u16) -> bool {
    f == 1 && beta_num == 1 && beta_den == 2
}

/// `s_L^2 + s_S^2`.
pub open spec fn norm_sq(s_long: int, s_short: int) -> int {
    s_long * s_long + s_short * s_short
}

/// The integer norm of the supplies: `floor(sqrt(s_L^2 + s_S^2))`.
pub open spec fn norm(s_long: int, s_short: int) -> int {
    isqrt(norm_sq(s_long, s_short))
}

/// The norm used as a divisor: never below 1.
pub open spec fn norm_divisor(s_long: int, s_short: int) -> int {
    max(norm(s_long, s_short), 1)
}

/// Cost of the supplies: `floor(lambda * norm / 2^96)`.
pub open spec fn cost(s_long: int, s_short: int, lambda_q96: int) -> int {
    (lambda_q96 * norm(s_long, s_short)) / (TWO_96 as int)
}

/// Price of the side with supply `s`, in Q96: `floor(lambda * s / norm)`.
pub open spec fn price_q96(s: int, s_long: int, s_short: int, lambda_q96: int) -> int {
    (lambda_q96 * s) / norm_divisor(s_long, s_short)
}

/// A virtual price turned into a display price: `floor(p * 2^64 / sigma)`.
pub open spec fn display_price_q96(p_virtual_q96: int, sigma_q64: int) -> int {
    (p_virtual_q96 * (TWO_64 as int)) / sigma_q64
}

/// `sqrt(price) * 2^96` from a Q96 price: `floor(sqrt(p)) * 2^48`.
pub open spec fn sqrt_price_x96(p_q96: int) -> int {
    isqrt(p_q96) * (TWO_48 as int)
}

/// The supply of `side`.
pub open spec fn side_supply(side: TokenSide, s_long: int, s_short: int) -> int {
    match side {
        TokenSide::Long => s_long,
        TokenSide::Short => s_short,
    }
}

/// The gauge of `side`.
pub open spec fn side_sigma(side: TokenSide, sigma_long: int, sigma_short: int) -> int {
    match side {
        TokenSide::Long => sigma_long,
        TokenSide::Short => sigma_short,
    }
}

/// What `cost_function` returns.
pub open spec fn cost_result(
    s_long: int,
    s_short: int,
    lambda_x96: int,
    f: u16,
    beta_num: u16,
    beta_den: u16,
) -> Result<u128, ContentPoolError> {
    if !supported_parameters(f, beta_num, beta_den) {
        Err(ContentPoolError::InvalidParameter)
    } else if norm_sq(s_long, s_short) > u128::MAX {
        Err(ContentPoolError::NumericalOverflow)
    } else {
        Ok(cost(s_long, s_short, lambda_x96) as u128)
    }
}

/// What `sqrt_marginal_price` returns.
pub open spec fn sqrt_marginal_price_result(
    s_long: int,
    s_short: int,
    side: TokenSide,
    lambda_q96: int,
    f: u16,
    beta_num: u16,
    beta_den: u16,
) -> Result<u128, ContentPoolError> {
    let s = side_supply(side, s_long, s_short);
    let p = price_q96(s, s_long, s_short, lambda_q96);
    if !supported_parameters(f, beta_num, beta_den) {
        Err(ContentPoolError::InvalidParameter)
    } else if s == 0 {
        Ok(0u128)
    } else if norm_sq(s_long, s_short) > u128::MAX {
        Err(ContentPoolError::NumericalOverflow)
    } else {
        Ok(sqrt_price_x96(p) as u128)
    }
}

/// What `sqrt_marginal_price_from_virtual` returns.
pub open spec fn sqrt_marginal_price_from_virtual_result(
    s_long_v: int,
    s_short_v: int,
    side: TokenSide,
    lambda_q96: int,
    sigma_long_q64: int,
    sigma_short_q64: int,
    f: u16,
    beta_num: u16,
    beta_den: u16,
) -> Result<u128, ContentPoolError> {
    let s = side_supply(side, s_long_v, s_short_v);
    let sigma = side_sigma(side, sigma_long_q64, sigma_short_q64);
    let p_v = price_q96(s, s_long_v, s_short_v, lambda_q96);
    let p_d = display_price_q96(p_v, sigma);
    if !supported_parameters(f, beta_num, beta_den) {
        Err(ContentPoolError::InvalidParameter)
    } else if s == 0 {
        Ok(0u128)
    } else if norm_sq(s_long_v, s_short_v) > u128::MAX {
        Err(ContentPoolError::NumericalOverflow)
    } else if sigma == 0 {
        Err(ContentPoolError::DivisionByZero)
    } else if p_d > u128::MAX {
        Err(ContentPoolError::NumericalOverflow)
    } else {
        Ok(sqrt_price_x96(p_d) as u128)
    }
}

/// Growth of the norm that `usdc_in` buys: `floor(usdc_in * 2^96 / lambda)`.
pub open spec fn bought_norm(usdc_in: int, lambda_q96: int) -> int {
    (usdc_in * (TWO_96 as int)) / lambda_q96
}

/// The norm after a buy: the norm before it plus the growth bought.
pub open spec fn norm_after_buy(current_s: int, s_other: int, usdc_in: int, lambda_q96: int) -> int {
    norm(current_s, s_other) + bought_norm(usdc_in, lambda_q96)
}

/// The bought side's supply after a buy: the largest supply whose norm with
/// the other side stays within the norm paid for.
pub open spec fn supply_after_buy(
    current_s: int,
    s_other: int,
    usdc_in: int,
    lambda_q96: int,
) -> int {
    let n = norm_after_buy(current_s, s_other, usdc_in, lambda_q96);
    isqrt(n * n - s_other * s_other)
}

/// The display price of the traded side once its virtual supply is `s_side`.
pub open spec fn price_after_trade(
    s_side: int,
    s_other: int,
    is_long: bool,
    lambda_q96: int,
    sigma_long_q64: int,
    sigma_short_q64: int,
    f: u16,
    beta_num: u16,
    beta_den: u16,
) -> Result<u128, ContentPoolError> {
    if is_long {
        sqrt_marginal_price_from_virtual_result(
            s_side,
            s_other,
            TokenSide::Long,
            lambda_q96,
            sigma_long_q64,
            sigma_short_q64,
            f,
            beta_num,
            beta_den,
        )
    } else {
        sqrt_marginal_price_from_virtual_result(
            s_other,
            s_side,
            TokenSide::Short,
            lambda_q96,
            sigma_long_q64,
            sigma_short_q64,
            f,
            beta_num,
            beta_den,
        )
    }
}

/// What `calculate_buy` returns.
pub open spec fn calculate_buy_result(
    current_s: int,
    usdc_in: int,
    lambda_q96: int,
    s_other: int,
    f: u16,
    beta_num: u16,
    beta_den: u16,
    is_long: bool,
    sigma_long_q64: int,
    sigma_short_q64: int,
) -> Result<(u64, u128), ContentPoolError> {
    let new_s = supply_after_buy(current_s, s_other, usdc_in, lambda_q96);
    if !supported_parameters(f, beta_num, beta_den) {
        Err(ContentPoolError::InvalidParameter)
    } else if norm_sq(current_s, s_other) > u128::MAX {
        Err(ContentPoolError::NumericalOverflow)
    } else if lambda_q96 == 0 {
        Err(ContentPoolError::DivisionByZero)
    } else if norm_after_buy(current_s, s_other, usdc_in, lambda_q96) > u64::MAX {
        Err(ContentPoolError::NumericalOverflow)
    } else if new_s <= current_s {
        Err(ContentPoolError::NumericalOverflow)
    } else {
        match price_after_trade(
            new_s,
            s_other,
            is_long,
            lambda_q96,
            sigma_long_q64,
            sigma_short_q64,
            f,
            beta_num,
            beta_den,
        ) {
            Err(e) => Err(e),
            Ok(p) => Ok(((new_s - current_s) as u64, p)),
        }
    }
}

/// The cost of a pool in which the traded side holds `s_side`.
pub open spec fn cost_of_sides(
    s_side: int,
    s_other: int,
    is_long: bool,
    lambda_q96: int,
    f: u16,
    beta_num: u16,
    beta_den: u16,
) -> Result<u128, ContentPoolError> {
    if is_long {
        cost_result(s_side, s_other, lambda_q96, f, beta_num, beta_den)
    } else {
        cost_result(s_other, s_side, lambda_q96, f, beta_num, beta_den)
    }
}

/// What `calculate_sell` returns.
pub open spec fn calculate_sell_result(
    current_s: int,
    tokens_to_sell: int,
    lambda_q96: int,
    s_other: int,
    f: u16,
    beta_num: u16,
    beta_den: u16,
    is_long: bool,
    sigma_long_q64: int,
    sigma_short_q64: int,
) -> Result<(u64, u128), ContentPoolError> {
    let s_new = current_s - tokens_to_sell;
    if tokens_to_sell > current_s {
        Err(ContentPoolError::InsufficientBalance)
    } else {
        match cost_of_sides(current_s, s_other, is_long, lambda_q96, f, beta_num, beta_den) {
            Err(e) => Err(e),
            Ok(before) => match cost_of_sides(
                s_new,
                s_other,
                is_long,
                lambda_q96,
                f,
                beta_num,
                beta_den,
            ) {
                Err(e) => Err(e),
                Ok(after) => {
                    let usdc_out = if before >= after {
                        before - after
                    } else {
                        0
                    };
                    if usdc_out > u64::MAX {
                        Err(ContentPoolError::NumericalOverflow)
                    } else {
                        match price_after_trade(
                            s_new,
                            s_other,
                            is_long,
                            lambda_q96,
                            sigma_long_q64,
                            sigma_short_q64,
                            f,
                            beta_num,
                            beta_den,
                        ) {
                            Err(e) => Err(e),
                            Ok(p) => Ok((usdc_out as u64, p)),
                        }
                    }
                },
            },
        }
    }
}

/// Reserve of a side from lambda and the virtual supplies:
/// `floor(p * s / 2^96)` with the side's virtual price `p`.
pub open spec fn reserve_of_side(s_this_v: int, s_other_v: int, lambda_q96: int) -> int {
    (price_q96(s_this_v, s_this_v, s_other_v, lambda_q96) * s_this_v) / (TWO_96 as int)
}

/// What `reserve_from_lambda_and_virtual` returns.
pub open spec fn reserve_result(s_this_v: int, s_other_v: int, lambda_q96: int) -> Result<
    u64,
    ContentPoolError,
> {
    if norm_sq(s_this_v, s_other_v) > u128::MAX {
        Err(ContentPoolError::NumericalOverflow)
    } else if reserve_of_side(s_this_v, s_other_v, lambda_q96) > u64::MAX {
        Err(ContentPoolError::NumericalOverflow)
    } else {
        Ok(reserve_of_side(s_this_v, s_other_v, lambda_q96) as u64)
    }
}

/// Reserve of a side from its supply and its stored root price:
/// the square of the root price, kept to 128 bits, times the supply.
pub open spec fn reserve_from_root_price(s: int, sqrt_price_x96: int) -> int {
    ((((sqrt_price_x96 * sqrt_price_x96) / (TWO_96 as int)) % two_128()) * s) / (TWO_96 as int)
}

/// What `virtual_reserves` returns.
pub open spec fn virtual_reserves_result(s: int, sqrt_price_x96: int) -> Result<
    u64,
    ContentPoolError,
> {
    if reserve_from_root_price(s, sqrt_price_x96) > u64::MAX {
        Err(ContentPoolError::NumericalOverflow)
    } else {
        Ok(reserve_from_root_price(s, sqrt_price_x96) as u64)
    }
}

/// The market's prediction from two reserves, in millionths: the LONG share
/// in basis points, times 100; one half where both reserves are zero.
pub open spec fn prediction_micro(r_long: int, r_short: int) -> int {
    if r_long == 0 && r_short == 0 {
        500_000
    } else {
        ((r_long * 10000) / (r_long + r_short)) * 100
    }
}

/// What `market_prediction` returns.
pub open spec fn market_prediction_result(
    s_long: int,
    s_short: int,
    sqrt_price_long_x96: int,
    sqrt_price_short_x96: int,
) -> Result<u64, ContentPoolError> {
    match virtual_reserves_result(s_long, sqrt_price_long_x96) {
        Err(e) => Err(e),
        Ok(r_long) => match virtual_reserves_result(s_short, sqrt_price_short_x96) {
            Err(e) => Err(e),
            Ok(r_short) => Ok(prediction_micro(r_long as int, r_short as int) as u64),
        },
    }
}

/// The norm of two supplies is at least either of them.
pub proof fn lemma_norm_at_least_side(a: int, b: int)
    requires
        0 <= a,
        0 <= b,
    ensures
        norm(a, b) >= a,
        norm(a, b) >= b,
        norm(a, b) <= a + b,
        is_floor_sqrt(norm_sq(a, b), norm(a, b)),
{
    assert(a * a >= 0 && b * b >= 0) by (nonlinear_arith);
    lemma_isqrt(norm_sq(a, b));
    let n = norm(a, b);
    if n < a {
        assert((n + 1) * (n + 1) <= a * a) by (nonlinear_arith)
            requires
                0 <= n,
                n + 1 <= a,
        ;
    }
    if n < b {
        assert((n + 1) * (n + 1) <= b * b) by (nonlinear_arith)
            requires
                0 <= n,
                n + 1 <= b,
        ;
    }
    if n > a + b {
        assert(n * n > a * a + b * b) by (nonlinear_arith)
            requires
                n >= a + b + 1,
                a >= 0,
                b >= 0,
        ;
    }
}

/// The price of a side is at most lambda: a side is at most the norm.
pub proof fn lemma_price_at_most_lambda(s: int, s_long: int, s_short: int, lambda_q96: int)
    requires
        0 <= s_long,
        0 <= s_short,
        s == s_long || s == s_short,
        0 <= lambda_q96,
    ensures
        0 <= price_q96(s, s_long, s_short, lambda_q96) <= lambda_q96,
{
    lemma_norm_at_least_side(s_long, s_short);
    let n = norm_divisor(s_long, s_short);
    assert(0 <= lambda_q96 * s <= lambda_q96 * n) by (nonlinear_arith)
        requires
            0 <= s <= n,
            0 <= lambda_q96,
    ;
    vstd::arithmetic::div_mod::lemma_div_is_ordered(lambda_q96 * s, lambda_q96 * n, n);
    vstd::arithmetic::div_mod::lemma_div_multiples_vanish(lambda_q96, n);
    assert(lambda_q96 * n == n * lambda_q96) by (nonlinear_arith);
    vstd::arithmetic::div_mod::lemma_div_pos_is_pos(lambda_q96 * s, n);
}

/// The cost of supplies whose squared norm fits a word fits a word.
pub proof fn lemma_cost_fits(s_long: int, s_short: int, lambda_q96: int)
    requires
        0 <= s_long,
        0 <= s_short,
        norm_sq(s_long, s_short) <= u128::MAX,
        0 <= lambda_q96 <= u128::MAX,
    ensures
        0 <= cost(s_long, s_short, lambda_q96) <= u128::MAX,
{
    lemma_norm_at_least_side(s_long, s_short);
    let n = norm(s_long, s_short);
    if n >= 0x1_0000_0000_0000_0000 {
        assert(n * n >= 0x1_0000_0000_0000_0000 * 0x1_0000_0000_0000_0000) by (nonlinear_arith)
            requires
                n >= 0x1_0000_0000_0000_0000,
        ;
    }
    lemma_product_bound(
        lambda_q96,
        n,
        0xffff_ffff_ffff_ffff_ffff_ffff_ffff_ffff,
        0xffff_ffff_ffff_ffff,
    );
    vstd::arithmetic::div_mod::lemma_div_is_ordered(
        lambda_q96 * n,
        0xffff_ffff_ffff_ffff_ffff_ffff_ffff_ffffint * 0xffff_ffff_ffff_ffffint,
        TWO_96 as int,
    );
    vstd::arithmetic::div_mod::lemma_div_pos_is_pos(lambda_q96 * n, TWO_96 as int);
}

/// The square of a 64-bit number fits one word.
pub proof fn lemma_square_fits(s: u64)
    ensures
        s * s <= 0xffff_ffff_ffff_fffe_0000_0000_0000_0001,
        s * s >= 0,
{
    lemma_limb_product(s as u128, s as u128);
}

/// The floor square root of a word is below 2^64.
pub proof fn lemma_isqrt_word(p: u128)
    ensures
        0 <= isqrt(p as int) < TWO_64,
        is_floor_sqrt(p as int, isqrt(p as int)),
{
    lemma_isqrt(p as int);
    let r = isqrt(p as int);
    if r >= TWO_64 {
        assert(r * r >= TWO_64 * TWO_64) by (nonlinear_arith)
            requires
                r >= TWO_64,
        ;
    }
}

/// `s_L^2 + s_S^2` as a word, or `None` where it does not fit.
fn checked_norm_sq(s_long: u64, s_short: u64) -> (r: Option<u128>)
    ensures
        norm_sq(s_long as int, s_short as int) >= 0,
        norm_sq(s_long as int, s_short as int) > u128::MAX ==> r.is_none(),
        norm_sq(s_long as int, s_short as int) <= u128::MAX ==> r == Some(
            norm_sq(s_long as int, s_short as int) as u128,
        ),
{
    proof {
        lemma_square_fits(s_long);
        lemma_square_fits(s_short);
    }
    let a: u128 = (s_long as u128) * (s_long as u128);
    let b: u128 = (s_short as u128) * (s_short as u128);
    a.checked_add(b)
}

/// `floor(sqrt(p)) * 2^48` for a Q96 price `p`.
fn root_price(p_q96: u128) -> (r: u128)
    ensures
        r == sqrt_price_x96(p_q96 as int),
{
    let root = isqrt_u128(p_q96);
    proof {
        lemma_isqrt_word(p_q96);
        lemma_product_bound(
            root as int,
            TWO_48 as int,
            0xffff_ffff_ffff_ffff,
            0x1_0000_0000_0000,
        );
    }
    root * TWO_48
}

impl ICBSCurve {
    /// The cost function `C(s_L, s_S) = lambda * sqrt(s_L^2 + s_S^2)`, floored
    /// to micro-units.
    pub fn cost_function(
        s_long: u64,
        s_short: u64,
        lambda_x96: u128,
        f: u16,
        beta_num: u16,
        beta_den: u16,
    ) -> (res: Result<u128, ContentPoolError>)
        ensures
            res == cost_result(
                s_long as int,
                s_short as int,
                lambda_x96 as int,
                f,
                beta_num,
                beta_den,
            ),
    {
        if f != 1 || beta_num != 1 || beta_den != 2 {
            return Err(ContentPoolError::InvalidParameter);
        }
        let sum_of_squares = match checked_norm_sq(s_long, s_short) {
            Some(v) => v,
            None => {
                return Err(ContentPoolError::NumericalOverflow);
            },
        };
        let norm = isqrt_u128(sum_of_squares);
        proof {
            lemma_cost_fits(s_long as int, s_short as int, lambda_x96 as int);
        }
        mul_x96(lambda_x96, norm)
    }

    /// Square root of the marginal price of `side`, from virtual supplies,
    /// turned into a price per display token by the side's gauge.
    ///
    /// This is the form that the state transitions use.
    pub fn sqrt_marginal_price_from_virtual(
        s_long_v: u64,
        s_short_v: u64,
        side: TokenSide,
        lambda_q96: u128,
        sigma_long_q64: u128,
        sigma_short_q64: u128,
        f: u16,
        beta_num: u16,
        beta_den: u16,
    ) -> (res: Result<u128, ContentPoolError>)
        ensures
            res == sqrt_marginal_price_from_virtual_result(
                s_long_v as int,
                s_short_v as int,
                side,
                lambda_q96 as int,
                sigma_long_q64 as int,
                sigma_short_q64 as int,
                f,
                beta_num,
                beta_den,
            ),
    {
        if f != 1 || beta_num != 1 || beta_den != 2 {
            return Err(ContentPoolError::InvalidParameter);
        }
        let s_v: u64 = match side {
            TokenSide::Long => s_long_v,
            TokenSide::Short => s_short_v,
        };
        let sigma_side_q64: u128 = match side {
            TokenSide::Long => sigma_long_q64,
            TokenSide::Short => sigma_short_q64,
        };
        if s_v == 0 {
            return Ok(0);
        }
        let sum_of_squares = match checked_norm_sq(s_long_v, s_short_v) {
            Some(v) => v,
            None => {
                return Err(ContentPoolError::NumericalOverflow);
            },
        };
        let root = isqrt_u128(sum_of_squares);
        let norm_v: u128 = if root < 1 {
            1
        } else {
            root
        };
        proof {
            lemma_price_at_most_lambda(
                s_v as int,
                s_long_v as int,
                s_short_v as int,
                lambda_q96 as int,
            );
        }
        let p_v_q96 = match mul_div_u128(lambda_q96, s_v as u128, norm_v) {
            Ok(v) => v,
            Err(e) => {
                return Err(e);
            },
        };
        let p_d_q96 = match mul_div_u128(p_v_q96, TWO_64, sigma_side_q64) {
            Ok(v) => v,
            Err(e) => {
                return Err(e);
            },
        };
        Ok(root_price(p_d_q96))
    }

    /// Square root of the marginal price of `side`, with no gauge: supplies
    /// and price are in one unit.
    pub fn sqrt_marginal_price(
        s_long: u64,
        s_short: u64,
        side: TokenSide,
        lambda_q96: u128,
        f: u16,
        beta_num: u16,
        beta_den: u16,
    ) -> (res: Result<u128, ContentPoolError>)
        ensures
            res == sqrt_marginal_price_result(
                s_long as int,
                s_short as int,
                side,
                lambda_q96 as int,
                f,
                beta_num,
                beta_den,
            ),
    {
        if f != 1 || beta_num != 1 || beta_den != 2 {
            return Err(ContentPoolError::InvalidParameter);
        }
        let s: u64 = match side {
            TokenSide::Long => s_long,
            TokenSide::Short => s_short,
        };
        if s == 0 {
            return Ok(0);
        }
        let sum_of_squares = match checked_norm_sq(s_long, s_short) {
            Some(v) => v,
            None => {
                return Err(ContentPoolError::NumericalOverflow);
            },
        };
        let root = isqrt_u128(sum_of_squares);
        let norm: u128 = if root < 1 {
            1
        } else {
            root
        };
        proof {
            lemma_price_at_most_lambda(s as int, s_long as int, s_short as int, lambda_q96 as int);
        }
        let p_q96 = match mul_div_u128(lambda_q96, s as u128, norm) {
            Ok(v) => v,
            Err(e) => {
                return Err(e);
            },
        };
        Ok(root_price(p_q96))
    }

    /// Tokens received for a buy, by the closed form of the curve.
    ///
    /// The amount paid grows the norm by `usdc_in / lambda`; the new supply
    /// of the side is what lifts the norm that far with the other side fixed.
    /// Supplies are virtual; the price returned is per display token.
    pub fn calculate_buy(
        current_s: u64,
        usdc_in: u64,
        lambda_q96: u128,
        s_other: u64,
        f: u16,
        beta_num: u16,
        beta_den: u16,
        is_long: bool,
        sigma_long_q64: u128,
        sigma_short_q64: u128,
    ) -> (res: Result<(u64, u128), ContentPoolError>)
        ensures
            res == calculate_buy_result(
                current_s as int,
                usdc_in as int,
                lambda_q96 as int,
                s_other as int,
                f,
                beta_num,
                beta_den,
                is_long,
                sigma_long_q64 as int,
                sigma_short_q64 as int,
            ),
            res matches Ok(bought) ==> bought.0 >= 1 && current_s + bought.0 <= u64::MAX
                && current_s + bought.0 == supply_after_buy(
                current_s as int,
                s_other as int,
                usdc_in as int,
                lambda_q96 as int,
            ),
    {
        if f != 1 || beta_num != 1 || beta_den != 2 {
            return Err(ContentPoolError::InvalidParameter);
        }
        let sum_sq = match checked_norm_sq(current_s, s_other) {
            Some(v) => v,
            None => {
                return Err(ContentPoolError::NumericalOverflow);
            },
        };
        let norm_before = isqrt_u128(sum_sq);
        proof {
            lemma_norm_at_least_side(current_s as int, s_other as int);
        }
        let delta_norm = match mul_div_u128(usdc_in as u128, Q96, lambda_q96) {
            Ok(v) => v,
            Err(e) => {
                return Err(e);
            },
        };
        let norm_after = match norm_before.checked_add(delta_norm) {
            Some(v) => v,
            None => {
                return Err(ContentPoolError::NumericalOverflow);
            },
        };
        if norm_after > u64::MAX as u128 {
            return Err(ContentPoolError::NumericalOverflow);
        }
        proof {
            lemma_limb_product(norm_after, norm_after);
            lemma_square_fits(s_other);
            assert(norm_after * norm_after >= s_other * s_other) by (nonlinear_arith)
                requires
                    norm_after >= s_other,
                    s_other >= 0,
            ;
        }
        let norm_after_sq: u128 = norm_after * norm_after;
        let s_other_sq: u128 = (s_other as u128) * (s_other as u128);
        let new_s_sq: u128 = norm_after_sq - s_other_sq;
        let new_s = isqrt_u128(new_s_sq);
        proof {
            // the new supply is at most the new norm, so it fits 64 bits
            if new_s > norm_after {
                assert(new_s * new_s > norm_after * norm_after) by (nonlinear_arith)
                    requires
                        new_s > norm_after,
                        norm_after >= 0,
                ;
            }
        }
        if new_s <= current_s as u128 {
            return Err(ContentPoolError::NumericalOverflow);
        }
        let result: u64 = (new_s - current_s as u128) as u64;
        let final_s: u64 = new_s as u64;
        let final_sqrt_price = if is_long {
            Self::sqrt_marginal_price_from_virtual(
                final_s,
                s_other,
                TokenSide::Long,
                lambda_q96,
                sigma_long_q64,
                sigma_short_q64,
                f,
                beta_num,
                beta_den,
            )
        } else {
            Self::sqrt_marginal_price_from_virtual(
                s_other,
                final_s,
                TokenSide::Short,
                lambda_q96,
                sigma_long_q64,
                sigma_short_q64,
                f,
                beta_num,
                beta_den,
            )
        };
        match final_sqrt_price {
            Ok(p) => Ok((result, p)),
            Err(e) => Err(e),
        }
    }

    /// Proceeds of a sell: the fall of the cost function, never negative.
    ///
    /// Supplies are virtual; the price returned is per display token.
    pub fn calculate_sell(
        current_s: u64,
        tokens_to_sell: u64,
        lambda_q96: u128,
        s_other: u64,
        f: u16,
        beta_num: u16,
        beta_den: u16,
        is_long: bool,
        sigma_long_q64: u128,
        sigma_short_q64: u128,
    ) -> (res: Result<(u64, u128), ContentPoolError>)
        ensures
            res == calculate_sell_result(
                current_s as int,
                tokens_to_sell as int,
                lambda_q96 as int,
                s_other as int,
                f,
                beta_num,
                beta_den,
                is_long,
                sigma_long_q64 as int,
                sigma_short_q64 as int,
            ),
    {
        if tokens_to_sell > current_s {
            return Err(ContentPoolError::InsufficientBalance);
        }
        let s_new: u64 = current_s - tokens_to_sell;
        let cost_before = if is_long {
            Self::cost_function(current_s, s_other, lambda_q96, f, beta_num, beta_den)
        } else {
            Self::cost_function(s_other, current_s, lambda_q96, f, beta_num, beta_den)
        };
        let cost_before = match cost_before {
            Ok(v) => v,
            Err(e) => {
                return Err(e);
            },
        };
        let cost_after = if is_long {
            Self::cost_function(s_new, s_other, lambda_q96, f, beta_num, beta_den)
        } else {
            Self::cost_function(s_other, s_new, lambda_q96, f, beta_num, beta_den)
        };
        let cost_after = match cost_after {
            Ok(v) => v,
            Err(e) => {
                return Err(e);
            },
        };
        let usdc_out: u128 = cost_before.saturating_sub(cost_after);
        if usdc_out > u64::MAX as u128 {
            return Err(ContentPoolError::NumericalOverflow);
        }
        let usdc_out_u64: u64 = usdc_out as u64;
        let sqrt_price_after = if is_long {
            Self::sqrt_marginal_price_from_virtual(
                s_new,
                s_other,
                TokenSide::Long,
                lambda_q96,
                sigma_long_q64,
                sigma_short_q64,
                f,
                beta_num,
                beta_den,
            )
        } else {
            Self::sqrt_marginal_price_from_virtual(
                s_other,
                s_new,
                TokenSide::Short,
                lambda_q96,
                sigma_long_q64,
                sigma_short_q64,
                f,
                beta_num,
                beta_den,
            )
        };
        match sqrt_price_after {
            Ok(p) => Ok((usdc_out_u64, p)),
            Err(e) => Err(e),
        }
    }

    /// Reserve of a side from lambda and the virtual supplies.
    ///
    /// The one sanctioned way to a per-side reserve: it never squares a
    /// stored root price, and so never mixes display and virtual units.
    pub fn reserve_from_lambda_and_virtual(s_this_v: u64, s_other_v: u64, lambda_q96: u128) -> (res:
        Result<u64, ContentPoolError>)
        ensures
            res == reserve_result(s_this_v as int, s_other_v as int, lambda_q96 as int),
    {
        let sum_sq = match checked_norm_sq(s_this_v, s_other_v) {
            Some(v) => v,
            None => {
                return Err(ContentPoolError::NumericalOverflow);
            },
        };
        let root = isqrt_u128(sum_sq);
        let norm_v: u128 = if root < 1 {
            1
        } else {
            root
        };
        proof {
            lemma_price_at_most_lambda(
                s_this_v as int,
                s_this_v as int,
                s_other_v as int,
                lambda_q96 as int,
            );
        }
        let p_v_q96 = match mul_div_u128(lambda_q96, s_this_v as u128, norm_v) {
            Ok(v) => v,
            Err(e) => {
                return Err(e);
            },
        };
        let r_this_u128 = match mul_div_u128(p_v_q96, s_this_v as u128, Q96) {
            Ok(v) => v,
            Err(e) => {
                return Err(e);
            },
        };
        if r_this_u128 > u64::MAX as u128 {
            return Err(ContentPoolError::NumericalOverflow);
        }
        Ok(r_this_u128 as u64)
    }

    /// Reserve of a side from its supply and a root price.
    ///
    /// Supply and price must be in one unit: both virtual, or both display.
    pub fn virtual_reserves(s: u64, sqrt_price_x96: u128) -> (res: Result<u64, ContentPoolError>)
        ensures
            res == virtual_reserves_result(s as int, sqrt_price_x96 as int),
    {
        let price_q96 = mul_x96_wide(sqrt_price_x96, sqrt_price_x96);
        let reserve = match mul_x96(price_q96, s as u128) {
            Ok(v) => v,
            Err(e) => {
                return Err(e);
            },
        };
        if reserve > u64::MAX as u128 {
            return Err(ContentPoolError::NumericalOverflow);
        }
        Ok(reserve as u64)
    }

    /// The market's prediction `q = r_long / (r_long + r_short)` in
    /// millionths, from supplies and stored root prices.
    pub fn market_prediction(
        s_long: u64,
        s_short: u64,
        sqrt_price_long_x96: u128,
        sqrt_price_short_x96: u128,
    ) -> (res: Result<u64, ContentPoolError>)
        ensures
            res == market_prediction_result(
                s_long as int,
                s_short as int,
                sqrt_price_long_x96 as int,
                sqrt_price_short_x96 as int,
            ),
    {
        let r_long = match Self::virtual_reserves(s_long, sqrt_price_long_x96) {
            Ok(v) => v,
            Err(e) => {
                return Err(e);
            },
        };
        let r_short = match Self::virtual_reserves(s_short, sqrt_price_short_x96) {
            Ok(v) => v,
            Err(e) => {
                return Err(e);
            },
        };
        if r_long == 0 && r_short == 0 {
            return Ok(500_000);
        }
        let total: u128 = r_long as u128 + r_short as u128;
        let q_bps: u128 = (r_long as u128 * 10000) / total;
        proof {
            vstd::arithmetic::div_mod::lemma_div_is_ordered(
                r_long as int * 10000,
                total as int * 10000,
                total as int,
            );
            vstd::arithmetic::div_mod::lemma_div_multiples_vanish(10000, total as int);
            assert(total as int * 10000 == 10000 * total as int);
        }
        Ok((q_bps * 100) as u64)
    }
}

/// `floor(a * b / 2^96)`: the product of a Q96 value and an integer, or of
/// two Q96 values.
pub fn mul_x96(a: u128, b: u128) -> (res: Result<u128, ContentPoolError>)
    ensures
        (a * b) / (TWO_96 as int) >= two_128() ==> res == Err::<u128, ContentPoolError>(
            ContentPoolError::NumericalOverflow,
        ),
        (a * b) / (TWO_96 as int) < two_128() ==> res == Ok::<u128, ContentPoolError>(
            ((a * b) / (TWO_96 as int)) as u128,
        ),
{
    mul_shift_right_96(a, b)
}

/// The low 128 bits of `floor(a * b / 2^96)`, from the full 256-bit product.
///
/// For factors beyond 2^96, such as the square of a large root price.
pub fn mul_x96_wide(a: u128, b: u128) -> (r: u128)
    ensures
        r == ((a * b) / (TWO_96 as int)) % two_128(),
{
    let (hi, lo) = full_mul_128(a, b);
    proof {
        lemma_product_bound(
            (hi % TWO_96) as int,
            TWO_32 as int,
            0xffff_ffff_ffff_ffff_ffff_ffff,
            0x1_0000_0000,
        );
        lemma_wide_shift_96(hi, lo);
        let low = (hi % TWO_96) * TWO_32 + lo / TWO_96;
        assert(hi * TWO_32 + lo / TWO_96 == (hi / TWO_96) * two_128() + low);
        vstd::arithmetic::div_mod::lemma_fundamental_div_mod_converse(
            hi * TWO_32 + lo / TWO_96,
            two_128(),
            (hi / TWO_96) as int,
            low,
        );
    }
    (hi % TWO_96) * TWO_32 + lo / TWO_96
}

/// Floor of the square root. It cannot fail.
pub fn integer_sqrt(n: u128) -> (res: Result<u128, ContentPoolError>)
    ensures
        res == Ok::<u128, ContentPoolError>(isqrt(n as int) as u128),
        is_floor_sqrt(n as int, isqrt(n as int)),
{
    Ok(isqrt_u128(n))
}

// The single-sided quadratic curve.
//
// One token against one reserve: the price of a token grows with the square
// of the supply and never falls below a floor. Supplies are atomic units
// (10^-6 token), amounts are micro-units of the stablecoin.

/// `(10^6)^2`: atomic units squared per token squared.
pub const ATOMIC_SQ: u128 = 1_000_000_000_000;

/// `3 * (10^6)^3`: the divisor between `k * s^3` and the reserve behind `s`.
pub const RESERVE_DIVISOR: u128 = 3_000_000_000_000_000_000;

/// Price of a token at `supply`, in micro-units: `k * s^2` for `s` in whole
/// tokens, and at least the floor.
pub open spec fn quadratic_price(supply: int, k: int) -> int {
    max((k * (supply * supply)) / (ATOMIC_SQ as int), PRICE_FLOOR as int)
}

/// Reserve behind `supply`, in micro-units: the integral of the unfloored
/// price, `k * s^3 / 3` for `s` in whole tokens.
pub open spec fn quadratic_reserve(supply: int, k: int) -> int {
    (k * cube(supply)) / (RESERVE_DIVISOR as int)
}

/// The supply that `reserve` backs: the floor of the cube root of
/// `3 * reserve / k`, taken in atomic units.
pub open spec fn backed_supply(reserve: int, k: int) -> int {
    icbrt((reserve * (RESERVE_DIVISOR as int)) / k)
}

/// Price of a token at `supply` on the quadratic curve, floored at
/// `PRICE_FLOOR`.
pub fn calculate_price_with_floor(supply: u128, k: u128) -> (res: Result<u128, ErrorCode>)
    ensures
        supply * supply > u128::MAX || (k * (supply * supply)) / (ATOMIC_SQ as int) > u128::MAX
            ==> res == Err::<u128, ErrorCode>(ErrorCode::NumericalOverflow),
        supply * supply <= u128::MAX && (k * (supply * supply)) / (ATOMIC_SQ as int) <= u128::MAX
            ==> res == Ok::<u128, ErrorCode>(quadratic_price(supply as int, k as int) as u128),
{
    let squared = match supply.checked_mul(supply) {
        Some(v) => v,
        None => {
            return Err(ErrorCode::NumericalOverflow);
        },
    };
    let raw = match mul_div_u128(k, squared, ATOMIC_SQ) {
        Ok(v) => v,
        Err(_) => {
            return Err(ErrorCode::NumericalOverflow);
        },
    };
    if raw < PRICE_FLOOR {
        Ok(PRICE_FLOOR)
    } else {
        Ok(raw)
    }
}

/// Supply after `usdc_amount` is paid into a pool that holds `reserve0`
/// behind the supply `s0`: the supply that the new reserve backs, and never
/// less than `s0`.
pub fn calculate_buy_supply(s0: u128, reserve0: u128, usdc_amount: u128, k: u128) -> (res: Result<
    u128,
    ErrorCode,
>)
    ensures
        k == 0 ==> res == Err::<u128, ErrorCode>(ErrorCode::InvalidParameters),
        k != 0 && (reserve0 + usdc_amount) * RESERVE_DIVISOR > u128::MAX ==> res == Err::<
            u128,
            ErrorCode,
        >(ErrorCode::NumericalOverflow),
        k != 0 && (reserve0 + usdc_amount) * RESERVE_DIVISOR <= u128::MAX ==> res == Ok::<
            u128,
            ErrorCode,
        >(max(backed_supply(reserve0 + usdc_amount, k as int), s0 as int) as u128),
{
    if k == 0 {
        return Err(ErrorCode::InvalidParameters);
    }
    let total = match reserve0.checked_add(usdc_amount) {
        Some(v) => v,
        None => {
            proof {
                assert((reserve0 + usdc_amount) * RESERVE_DIVISOR > u128::MAX) by (nonlinear_arith)
                    requires
                        reserve0 + usdc_amount > u128::MAX,
                ;
            }
            return Err(ErrorCode::NumericalOverflow);
        },
    };
    let scaled = match total.checked_mul(RESERVE_DIVISOR) {
        Some(v) => v,
        None => {
            return Err(ErrorCode::NumericalOverflow);
        },
    };
    let radicand: u128 = scaled / k;
    let root = match integer_cbrt(radicand) {
        Ok(v) => v,
        Err(e) => {
            return Err(e);
        },
    };
    if root < s0 {
        Ok(s0)
    } else {
        Ok(root)
    }
}

/// Proceeds of lowering the supply from `s0` to `s1`: the fall of the
/// reserve that the curve asks for, and at most what the pool holds.
pub fn calculate_sell_payout(s0: u128, s1: u128, reserve0: u128, k: u128) -> (res: Result<
    u128,
    ErrorCode,
>)
    ensures
        s1 > s0 ==> res == Err::<u128, ErrorCode>(ErrorCode::InvalidAmount),
        s1 <= s0 && (s0 > CBRT_MAX || quadratic_reserve(s0 as int, k as int) > u128::MAX)
            ==> res == Err::<u128, ErrorCode>(ErrorCode::NumericalOverflow),
        s1 <= s0 && s0 <= CBRT_MAX && quadratic_reserve(s0 as int, k as int) <= u128::MAX ==> res
            == Ok::<u128, ErrorCode>(
            vstd::math::min(
                quadratic_reserve(s0 as int, k as int) - quadratic_reserve(s1 as int, k as int),
                reserve0 as int,
            ) as u128,
        ),
        res matches Ok(payout) ==> payout <= reserve0,
{
    if s1 > s0 {
        return Err(ErrorCode::InvalidAmount);
    }
    if s0 > CBRT_MAX {
        return Err(ErrorCode::NumericalOverflow);
    }
    proof {
        lemma_cube_monotone(s0 as int, CBRT_MAX as int);
        lemma_cube_monotone(s1 as int, s0 as int);
        assert(cube(CBRT_MAX as int) <= u128::MAX) by (nonlinear_arith);
        assert((CBRT_MAX as int) * (CBRT_MAX as int) <= u128::MAX) by (nonlinear_arith);
    }
    let cube0: u128 = s0 * s0 * s0;
    let cube1: u128 = s1 * s1 * s1;
    let before = match mul_div_u128(k, cube0, RESERVE_DIVISOR) {
        Ok(v) => v,
        Err(_) => {
            return Err(ErrorCode::NumericalOverflow);
        },
    };
    proof {
        assert(k * cube1 <= k * cube0) by (nonlinear_arith)
            requires
                cube1 <= cube0,
                k >= 0,
        ;
        assert(k * cube1 >= 0) by (nonlinear_arith)
            requires
                cube1 >= 0,
                k >= 0,
        ;
        vstd::arithmetic::div_mod::lemma_div_is_ordered(
            k * cube1,
            k * cube0,
            RESERVE_DIVISOR as int,
        );
    }
    let after = match mul_div_u128(k, cube1, RESERVE_DIVISOR) {
        Ok(v) => v,
        Err(_) => {
            return Err(ErrorCode::NumericalOverflow);
        },
    };
    let fall: u128 = before - after;
    if fall > reserve0 {
        Ok(reserve0)
    } else {
        Ok(fall)
    }
}

} // verus!
