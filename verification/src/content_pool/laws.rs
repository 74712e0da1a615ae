//! Laws of the curve: what holds of its functions for all supplies.
//!
//! The curve works in integers, so the laws of the real-valued curve hold up
//! to rounding. Each law below states the rounding exactly.

use vstd::prelude::*;
use vstd::math::max;
use vstd::arithmetic::div_mod::{
    lemma_div_is_ordered, lemma_div_is_ordered_by_denominator, lemma_div_multiples_vanish,
    lemma_div_pos_is_pos, lemma_fundamental_div_mod, lemma_mod_bound,
};
use vstd::arithmetic::power2::{lemma_pow2_adds, lemma_pow2_pos, pow2};
use super::curve::{
    bought_norm, calculate_buy_result, calculate_sell_result, cost, display_price_q96,
    lemma_norm_at_least_side, norm, norm_after_buy, norm_divisor, norm_sq, price_after_trade,
    price_q96, side_sigma, side_supply, sqrt_marginal_price_from_virtual_result, sqrt_price_x96,
    supply_after_buy,
};
use super::instructions::add_liquidity::long_part;
use super::instructions::settle_epoch::MICRO;
use super::decay::apply_decay_result;
use super::errors::ContentPoolError;
use super::instructions::trade::{
    buy_result, derived_lambda, sell_result, side_mint, trade_result, TradeOutcome,
};
use super::state::{
    Address, ContentPool, TradeType, MAX_TRADE_SIZE, MIN_TRADE_SIZE, TOKEN_SCALE,
};
use crate::pool_factory::state::PoolFactory;
use super::math::{
    bit_length, isqrt, lemma_bit_length_bounds, lemma_bit_length_shift, lemma_bit_length_upper,
    lemma_isqrt, lemma_isqrt_monotone, lemma_pow2_values, lower_gauges, raise_gauges,
    renormalized, saturating_norm_sq, two_128, virtual_supply_spec, SIGMA_MAX_BITS,
    SIGMA_MIN_BITS, TWO_64, TWO_96, VIRTUAL_NORM_MAX_SQ, VIRTUAL_NORM_MIN_SQ,
};
use super::state::{TokenSide, SIGMA_MAX, SIGMA_MIN};

verus! {

/// The root of `k^2 * n` lies between `k` times the root of `n` and `k` times
/// its successor.
pub proof fn lemma_isqrt_scaled(n: int, k: int)
    requires
        0 <= n,
        1 <= k,
    ensures
        k * isqrt(n) <= isqrt((k * k) * n) < k * (isqrt(n) + 1),
{
    lemma_isqrt(n);
    let r = isqrt(n);
    let m = (k * k) * n;
    assert(m >= 0) by (nonlinear_arith)
        requires
            n >= 0,
            m == (k * k) * n,
    ;
    lemma_isqrt(m);
    let rk = isqrt(m);
    assert((k * r) * (k * r) == (k * k) * (r * r)) by (nonlinear_arith);
    assert((k * (r + 1)) * (k * (r + 1)) == (k * k) * ((r + 1) * (r + 1))) by (nonlinear_arith);
    assert((k * k) * (r * r) <= (k * k) * n) by (nonlinear_arith)
        requires
            r * r <= n,
    ;
    assert((k * k) * ((r + 1) * (r + 1)) > (k * k) * n) by (nonlinear_arith)
        requires
            (r + 1) * (r + 1) > n,
            k >= 1,
    ;
    assert(k * r >= 0) by (nonlinear_arith)
        requires
            k >= 1,
            r >= 0,
    ;
    if rk < k * r {
        assert((rk + 1) * (rk + 1) <= (k * r) * (k * r)) by (nonlinear_arith)
            requires
                0 <= rk,
                rk + 1 <= k * r,
        ;
    }
    if rk >= k * (r + 1) {
        assert(rk * rk >= (k * (r + 1)) * (k * (r + 1))) by (nonlinear_arith)
            requires
                rk >= k * (r + 1),
                k * (r + 1) >= 0,
        ;
    }
}

/// Homogeneity of the cost: scaling both supplies by `k` scales the cost by
/// `k`, up to rounding. The scaled cost is never less than `k` times the
/// cost, and exceeds it by less than `k + (k - 1) * (lambda / 2^96 + 1)`.
pub proof fn law_cost_homogeneous(s_long: int, s_short: int, k: int, lambda_q96: int)
    requires
        0 <= s_long,
        0 <= s_short,
        1 <= k,
        0 <= lambda_q96,
    ensures
        k * cost(s_long, s_short, lambda_q96) <= cost(k * s_long, k * s_short, lambda_q96),
        cost(k * s_long, k * s_short, lambda_q96) < k * cost(s_long, s_short, lambda_q96) + k + (k
            - 1) * (lambda_q96 / (TWO_96 as int) + 1),
{
    let q = TWO_96 as int;
    let n2 = norm_sq(s_long, s_short);
    assert(s_long * s_long >= 0 && s_short * s_short >= 0) by (nonlinear_arith);
    assert(norm_sq(k * s_long, k * s_short) == (k * k) * n2) by (nonlinear_arith)
        requires
            n2 == s_long * s_long + s_short * s_short,
    ;
    lemma_isqrt_scaled(n2, k);
    lemma_isqrt(n2);
    let n = norm(s_long, s_short);
    let nk = norm(k * s_long, k * s_short);
    let c = cost(s_long, s_short, lambda_q96);
    let ck = cost(k * s_long, k * s_short, lambda_q96);
    let x = lambda_q96 * n;
    let r = x % q;
    lemma_fundamental_div_mod(x, q);
    assert(x >= 0) by (nonlinear_arith)
        requires
            lambda_q96 >= 0,
            n >= 0,
            x == lambda_q96 * n,
    ;
    // lower bound: lambda * nk >= k * (c * q)
    assert(lambda_q96 * nk >= lambda_q96 * (k * n)) by (nonlinear_arith)
        requires
            nk >= k * n,
            lambda_q96 >= 0,
    ;
    assert(lambda_q96 * (k * n) == k * x) by (nonlinear_arith)
        requires
            x == lambda_q96 * n,
    ;
    assert(k * x >= (k * c) * q) by (nonlinear_arith)
        requires
            x == q * c + r,
            r >= 0,
            k >= 1,
    ;
    lemma_div_is_ordered((k * c) * q, lambda_q96 * nk, q);
    lemma_div_multiples_vanish(k * c, q);
    assert((k * c) * q == q * (k * c)) by (nonlinear_arith);
    // upper bound: lambda * nk <= k * x + (k - 1) * lambda
    let l = lambda_q96 / q;
    lemma_fundamental_div_mod(lambda_q96, q);
    assert(k * (n + 1) == k * n + k) by (nonlinear_arith);
    assert(lambda_q96 * nk <= lambda_q96 * (k * n + k - 1)) by (nonlinear_arith)
        requires
            nk <= k * n + k - 1,
            lambda_q96 >= 0,
    ;
    assert(lambda_q96 * (k * n + k - 1) == k * x + (k - 1) * lambda_q96) by (nonlinear_arith)
        requires
            x == lambda_q96 * n,
    ;
    let bound = k * c + k + (k - 1) * (l + 1);
    assert(k * x + (k - 1) * lambda_q96 < bound * q) by (nonlinear_arith)
        requires
            x == q * c + r,
            r < q,
            lambda_q96 < (l + 1) * q,
            k >= 1,
            q > 0,
            bound == k * c + k + (k - 1) * (l + 1),
    ;
    lemma_div_is_ordered(lambda_q96 * nk, bound * q - 1, q);
    vstd::arithmetic::div_mod::lemma_fundamental_div_mod_converse(
        bound * q - 1,
        q,
        bound - 1,
        q - 1,
    );
    assert((bound - 1) * q + (q - 1) == bound * q - 1) by (nonlinear_arith);
}

/// Homogeneity within one percent: where the cost is at least a hundred
/// times `lambda / 2^96 + 2`, scaling both supplies by `k` scales the cost
/// by `k` to within one percent.
pub proof fn law_cost_homogeneous_within_one_percent(
    s_long: int,
    s_short: int,
    k: int,
    lambda_q96: int,
)
    requires
        0 <= s_long,
        0 <= s_short,
        1 <= k,
        0 <= lambda_q96,
        cost(s_long, s_short, lambda_q96) >= 100 * (lambda_q96 / (TWO_96 as int) + 2),
    ensures
        0 <= cost(k * s_long, k * s_short, lambda_q96) - k * cost(s_long, s_short, lambda_q96),
        100 * (cost(k * s_long, k * s_short, lambda_q96) - k * cost(s_long, s_short, lambda_q96))
            <= k * cost(s_long, s_short, lambda_q96),
{
    law_cost_homogeneous(s_long, s_short, k, lambda_q96);
    let c = cost(s_long, s_short, lambda_q96);
    let l = lambda_q96 / (TWO_96 as int);
    lemma_div_pos_is_pos(lambda_q96, TWO_96 as int);
    assert(100 * (k + (k - 1) * (l + 1)) <= k * c) by (nonlinear_arith)
        requires
            c >= 100 * (l + 2),
            k >= 1,
            l >= 0,
    ;
}

/// Linearity in lambda: doubling lambda doubles the cost, or doubles it and
/// adds one.
pub proof fn law_cost_linear_in_lambda(s_long: int, s_short: int, lambda_q96: int)
    requires
        0 <= s_long,
        0 <= s_short,
        0 <= lambda_q96,
    ensures
        2 * cost(s_long, s_short, lambda_q96) <= cost(s_long, s_short, 2 * lambda_q96) <= 2 * cost(
            s_long,
            s_short,
            lambda_q96,
        ) + 1,
{
    let n = norm(s_long, s_short);
    let x = lambda_q96 * n;
    assert((2 * lambda_q96) * n == 2 * x) by (nonlinear_arith)
        requires
            x == lambda_q96 * n,
    ;
    let q = TWO_96 as int;
    lemma_fundamental_div_mod(x, q);
    lemma_fundamental_div_mod(2 * x, q);
}

/// Linearity in lambda within one percent: where the cost is at least 50,
/// doubling lambda doubles the cost to within one percent.
pub proof fn law_cost_linear_in_lambda_within_one_percent(
    s_long: int,
    s_short: int,
    lambda_q96: int,
)
    requires
        0 <= s_long,
        0 <= s_short,
        0 <= lambda_q96,
        cost(s_long, s_short, lambda_q96) >= 50,
    ensures
        0 <= cost(s_long, s_short, 2 * lambda_q96) - 2 * cost(s_long, s_short, lambda_q96),
        100 * (cost(s_long, s_short, 2 * lambda_q96) - 2 * cost(s_long, s_short, lambda_q96)) <= 2
            * cost(s_long, s_short, lambda_q96),
{
    law_cost_linear_in_lambda(s_long, s_short, lambda_q96);
}

/// The cost does not fall when a supply grows. So the proceeds of a sell,
/// the cost before it less the cost after it, are never negative.
pub proof fn law_cost_monotone_in_supply(s: int, s_up: int, s_other: int, lambda_q96: int)
    requires
        0 <= s <= s_up,
        0 <= s_other,
        0 <= lambda_q96,
    ensures
        0 <= cost(s, s_other, lambda_q96) <= cost(s_up, s_other, lambda_q96),
        cost(s_other, s, lambda_q96) == cost(s, s_other, lambda_q96),
        cost(s_other, s_up, lambda_q96) == cost(s_up, s_other, lambda_q96),
{
    lemma_norm_monotone(s, s_up, s_other);
    lemma_norm_at_least_side(s, s_other);
    let n = norm(s, s_other);
    let n_up = norm(s_up, s_other);
    assert(0 <= lambda_q96 * n <= lambda_q96 * n_up) by (nonlinear_arith)
        requires
            0 <= n <= n_up,
            0 <= lambda_q96,
    ;
    lemma_div_is_ordered(lambda_q96 * n, lambda_q96 * n_up, TWO_96 as int);
    lemma_div_pos_is_pos(lambda_q96 * n, TWO_96 as int);
    assert(norm_sq(s_other, s) == norm_sq(s, s_other));
    assert(norm_sq(s_other, s_up) == norm_sq(s_up, s_other));
}

/// Lambda ties the cost to the vault: at the lambda derived from a vault
/// balance and a norm of at least 1 and at most 2^96, the cost of that norm
/// is the vault balance, or one less.
pub proof fn law_derived_lambda_prices_the_vault(vault: int, n: int)
    requires
        0 <= vault,
        1 <= n <= TWO_96,
    ensures
        vault - 1 <= (derived_lambda(vault, n) * n) / (TWO_96 as int) <= vault,
{
    let q = TWO_96 as int;
    let lambda = derived_lambda(vault, n);
    lemma_fundamental_div_mod(vault * q, n);
    lemma_mod_bound(vault * q, n);
    let x = lambda * n;
    assert(x == n * lambda) by (nonlinear_arith)
        requires
            x == lambda * n,
    ;
    // vault * q - n < lambda * n <= vault * q
    assert(x <= vault * q);
    assert(x > vault * q - n);
    lemma_div_is_ordered(x, vault * q, q);
    lemma_div_multiples_vanish(vault, q);
    assert(vault * q == q * vault);
    // vault * q - n >= (vault - 1) * q
    lemma_div_is_ordered((vault - 1) * q, x, q);
    lemma_div_multiples_vanish(vault - 1, q);
    assert((vault - 1) * q == q * (vault - 1));
}

/// Raising one supply by one raises the norm by at most one.
pub proof fn lemma_norm_step(t: int, o: int)
    requires
        0 <= t,
        0 <= o,
    ensures
        norm(t, o) <= norm(t + 1, o) <= norm(t, o) + 1,
{
    lemma_norm_at_least_side(t, o);
    lemma_norm_at_least_side(t + 1, o);
    let m = norm(t, o);
    let m1 = norm(t + 1, o);
    assert(norm_sq(t + 1, o) == norm_sq(t, o) + 2 * t + 1) by (nonlinear_arith);
    lemma_isqrt_monotone(norm_sq(t, o), norm_sq(t + 1, o));
    if m1 >= m + 2 {
        assert(m1 * m1 >= (m + 2) * (m + 2)) by (nonlinear_arith)
            requires
                m1 >= m + 2,
                m >= 0,
        ;
        assert((m + 2) * (m + 2) == (m + 1) * (m + 1) + 2 * m + 3) by (nonlinear_arith);
    }
}

/// The norm does not fall when a supply grows.
pub proof fn lemma_norm_monotone(s: int, s2: int, o: int)
    requires
        0 <= s <= s2,
        0 <= o,
    ensures
        norm(s, o) <= norm(s2, o),
        norm_divisor(s, o) <= norm_divisor(s2, o),
{
    assert(s * s <= s2 * s2) by (nonlinear_arith)
        requires
            0 <= s <= s2,
    ;
    assert(s * s >= 0 && o * o >= 0) by (nonlinear_arith);
    lemma_isqrt_monotone(norm_sq(s, o), norm_sq(s2, o));
}

/// A side's share of the norm does not fall when the side grows:
/// `s / norm(s, o) <= s2 / norm(s2, o)`, cross-multiplied.
pub proof fn lemma_share_monotone(s: int, s2: int, o: int)
    requires
        0 <= s <= s2,
        0 <= o,
    ensures
        s * norm(s2, o) <= s2 * norm(s, o),
    decreases s2 - s,
{
    lemma_norm_at_least_side(s, o);
    if s2 > s {
        let t = s2 - 1;
        lemma_share_monotone(s, t, o);
        lemma_norm_step(t, o);
        let n = norm(s, o);
        assert(s * norm(s2, o) <= s * (norm(t, o) + 1)) by (nonlinear_arith)
            requires
                norm(s2, o) <= norm(t, o) + 1,
                s >= 0,
        ;
        assert(s * (norm(t, o) + 1) == s * norm(t, o) + s) by (nonlinear_arith);
        assert(s2 * n == t * n + n) by (nonlinear_arith)
            requires
                s2 == t + 1,
        ;
    }
}

/// `a / b <= c / d` where `a * d <= c * b`.
pub proof fn lemma_cross_ordered(a: int, b: int, c: int, d: int)
    requires
        0 <= a,
        0 < b,
        0 <= c,
        0 < d,
        a * d <= c * b,
    ensures
        a / b <= c / d,
{
    let q = a / b;
    lemma_fundamental_div_mod(a, b);
    lemma_mod_bound(a, b);
    lemma_div_pos_is_pos(a, b);
    assert((q * b) * d <= a * d) by (nonlinear_arith)
        requires
            a == b * q + a % b,
            a % b >= 0,
            d > 0,
    ;
    assert((q * b) * d == (q * d) * b) by (nonlinear_arith);
    assert(q * d <= c) by (nonlinear_arith)
        requires
            (q * d) * b <= c * b,
            b > 0,
    ;
    lemma_div_is_ordered(q * d, c, d);
    lemma_div_multiples_vanish(q, d);
    assert(q * d == d * q) by (nonlinear_arith);
}

/// The virtual price of a side does not fall when the side's supply grows.
pub proof fn lemma_price_monotone(s: int, s2: int, o: int, lambda_q96: int)
    requires
        0 <= s <= s2,
        0 <= o,
        0 <= lambda_q96,
    ensures
        0 <= price_q96(s, s, o, lambda_q96) <= price_q96(s2, s2, o, lambda_q96),
        price_q96(s, o, s, lambda_q96) == price_q96(s, s, o, lambda_q96),
        price_q96(s2, o, s2, lambda_q96) == price_q96(s2, s2, o, lambda_q96),
{
    lemma_share_monotone(s, s2, o);
    lemma_norm_monotone(s, s2, o);
    lemma_norm_at_least_side(s, o);
    lemma_norm_at_least_side(s2, o);
    let b = norm_divisor(s, o);
    let d = norm_divisor(s2, o);
    let a = lambda_q96 * s;
    let c = lambda_q96 * s2;
    assert(a >= 0 && c >= 0) by (nonlinear_arith)
        requires
            a == lambda_q96 * s,
            c == lambda_q96 * s2,
            lambda_q96 >= 0,
            s >= 0,
            s2 >= 0,
    ;
    if norm(s, o) >= 1 {
        assert(a * d <= c * b) by (nonlinear_arith)
            requires
                a == lambda_q96 * s,
                c == lambda_q96 * s2,
                s * d <= s2 * b,
                lambda_q96 >= 0,
        ;
    } else {
        assert(s == 0);
        assert(a == 0) by (nonlinear_arith)
            requires
                a == lambda_q96 * s,
                s == 0,
        ;
        assert(a * d == 0) by (nonlinear_arith)
            requires
                a == 0,
        ;
        assert(c * b >= 0) by (nonlinear_arith)
            requires
                c >= 0,
                b >= 0,
        ;
    }
    lemma_cross_ordered(a, b, c, d);
    lemma_div_pos_is_pos(a, b);
    assert(norm_sq(o, s) == norm_sq(s, o));
    assert(norm_sq(o, s2) == norm_sq(s2, o));
}

/// The virtual price of a side does not rise when the other side grows.
pub proof fn lemma_price_antitone_in_other(o: int, s: int, s2: int, lambda_q96: int)
    requires
        0 <= s <= s2,
        0 <= o,
        0 <= lambda_q96,
    ensures
        0 <= price_q96(o, s2, o, lambda_q96) <= price_q96(o, s, o, lambda_q96),
        price_q96(o, o, s, lambda_q96) == price_q96(o, s, o, lambda_q96),
        price_q96(o, o, s2, lambda_q96) == price_q96(o, s2, o, lambda_q96),
{
    lemma_norm_monotone(s, s2, o);
    lemma_norm_at_least_side(s, o);
    lemma_norm_at_least_side(s2, o);
    let a = lambda_q96 * o;
    assert(a >= 0) by (nonlinear_arith)
        requires
            a == lambda_q96 * o,
            lambda_q96 >= 0,
            o >= 0,
    ;
    lemma_div_is_ordered_by_denominator(a, norm_divisor(s, o), norm_divisor(s2, o));
    lemma_div_pos_is_pos(a, norm_divisor(s2, o));
    assert(norm_sq(o, s) == norm_sq(s, o));
    assert(norm_sq(o, s2) == norm_sq(s2, o));
}

/// The root price follows the price: `floor(sqrt(p * 2^64 / sigma)) * 2^48`
/// does not fall when `p` grows.
pub proof fn lemma_root_price_monotone(p: int, p_up: int, sigma: int)
    requires
        0 <= p <= p_up,
        0 < sigma,
    ensures
        0 <= sqrt_price_x96(display_price_q96(p, sigma)) <= sqrt_price_x96(
            display_price_q96(p_up, sigma),
        ),
        0 <= display_price_q96(p, sigma) <= display_price_q96(p_up, sigma),
{
    lemma_div_is_ordered(p * (TWO_64 as int), p_up * (TWO_64 as int), sigma);
    lemma_div_pos_is_pos(p * (TWO_64 as int), sigma);
    lemma_isqrt_monotone(display_price_q96(p, sigma), display_price_q96(p_up, sigma));
    lemma_isqrt(display_price_q96(p, sigma));
}

/// The root of a word, times 2^48, is itself a word.
proof fn lemma_root_price_is_word(p: int)
    requires
        0 <= p <= u128::MAX,
    ensures
        0 <= sqrt_price_x96(p) <= u128::MAX,
{
    lemma_isqrt(p);
    let r = isqrt(p);
    if r >= 0x1_0000_0000_0000_0000 {
        assert(r * r >= 0x1_0000_0000_0000_0000 * 0x1_0000_0000_0000_0000) by (nonlinear_arith)
            requires
                r >= 0x1_0000_0000_0000_0000,
        ;
    }
}

/// Monotone price, for the side whose supply moves: with lambda, the gauges
/// and the other side fixed, the display root price of a side at the supply
/// `s2` is at least its price at any smaller supply `s`.
pub proof fn law_price_monotone_in_own_supply(
    s: int,
    s2: int,
    s_other: int,
    is_long: bool,
    lambda_q96: int,
    sigma_long_q64: int,
    sigma_short_q64: int,
)
    requires
        0 <= s <= s2,
        0 <= s_other,
        0 <= lambda_q96,
        0 <= sigma_long_q64,
        0 <= sigma_short_q64,
        price_after_trade(s, s_other, is_long, lambda_q96, sigma_long_q64, sigma_short_q64, 1, 1, 2)
            is Ok,
        price_after_trade(s2, s_other, is_long, lambda_q96, sigma_long_q64, sigma_short_q64, 1, 1, 2)
            is Ok,
    ensures
        price_after_trade(
            s,
            s_other,
            is_long,
            lambda_q96,
            sigma_long_q64,
            sigma_short_q64,
            1,
            1,
            2,
        )->Ok_0 <= price_after_trade(
            s2,
            s_other,
            is_long,
            lambda_q96,
            sigma_long_q64,
            sigma_short_q64,
            1,
            1,
            2,
        )->Ok_0,
{
    lemma_price_monotone(s, s2, s_other, lambda_q96);
    let sigma = if is_long {
        sigma_long_q64
    } else {
        sigma_short_q64
    };
    if s > 0 {
        let p = price_q96(s, s, s_other, lambda_q96);
        let p_up = price_q96(s2, s2, s_other, lambda_q96);
        lemma_root_price_monotone(p, p_up, sigma);
        lemma_root_price_is_word(display_price_q96(p, sigma));
        lemma_root_price_is_word(display_price_q96(p_up, sigma));
    }
}

/// Monotone price, for the side whose supply stays: with lambda, the gauges
/// and its own supply fixed, the display root price of a side does not rise
/// when the other side's supply grows from `s` to `s2`.
pub proof fn law_price_antitone_in_other_supply(
    s: int,
    s2: int,
    s_fixed: int,
    moving_is_long: bool,
    lambda_q96: int,
    sigma_long_q64: int,
    sigma_short_q64: int,
)
    requires
        0 <= s <= s2,
        0 <= s_fixed,
        0 <= lambda_q96,
        0 <= sigma_long_q64,
        0 <= sigma_short_q64,
        price_after_trade(
            s_fixed,
            s,
            !moving_is_long,
            lambda_q96,
            sigma_long_q64,
            sigma_short_q64,
            1,
            1,
            2,
        ) is Ok,
        price_after_trade(
            s_fixed,
            s2,
            !moving_is_long,
            lambda_q96,
            sigma_long_q64,
            sigma_short_q64,
            1,
            1,
            2,
        ) is Ok,
    ensures
        price_after_trade(
            s_fixed,
            s2,
            !moving_is_long,
            lambda_q96,
            sigma_long_q64,
            sigma_short_q64,
            1,
            1,
            2,
        )->Ok_0 <= price_after_trade(
            s_fixed,
            s,
            !moving_is_long,
            lambda_q96,
            sigma_long_q64,
            sigma_short_q64,
            1,
            1,
            2,
        )->Ok_0,
{
    lemma_price_antitone_in_other(s_fixed, s, s2, lambda_q96);
    let sigma = if moving_is_long {
        sigma_short_q64
    } else {
        sigma_long_q64
    };
    if s_fixed > 0 {
        let p = price_q96(s_fixed, s, s_fixed, lambda_q96);
        let p_up = price_q96(s_fixed, s2, s_fixed, lambda_q96);
        lemma_root_price_monotone(p_up, p, sigma);
        lemma_root_price_is_word(display_price_q96(p, sigma));
        lemma_root_price_is_word(display_price_q96(p_up, sigma));
    }
}

/// The supply after a buy, against the norm paid for: it is at most that
/// norm, and its norm with the other side is that norm or one less.
pub proof fn lemma_bought_supply_bounds(current_s: int, s_other: int, usdc_in: int, lambda_q96: int)
    requires
        0 <= current_s,
        0 <= s_other,
        0 <= usdc_in,
        0 < lambda_q96,
    ensures
        s_other <= norm_after_buy(current_s, s_other, usdc_in, lambda_q96),
        0 <= bought_norm(usdc_in, lambda_q96),
        0 <= supply_after_buy(current_s, s_other, usdc_in, lambda_q96) <= norm_after_buy(
            current_s,
            s_other,
            usdc_in,
            lambda_q96,
        ),
        norm_after_buy(current_s, s_other, usdc_in, lambda_q96) - 1 <= norm(
            supply_after_buy(current_s, s_other, usdc_in, lambda_q96),
            s_other,
        ) <= norm_after_buy(current_s, s_other, usdc_in, lambda_q96),
{
    let na = norm_after_buy(current_s, s_other, usdc_in, lambda_q96);
    let new_s = supply_after_buy(current_s, s_other, usdc_in, lambda_q96);
    let o = s_other;
    lemma_norm_at_least_side(current_s, o);
    lemma_div_pos_is_pos(usdc_in * (TWO_96 as int), lambda_q96);
    assert(na >= o);
    assert(na * na >= o * o) by (nonlinear_arith)
        requires
            na >= o,
            o >= 0,
    ;
    assert(o * o >= 0) by (nonlinear_arith);
    let m = na * na - o * o;
    lemma_isqrt(m);
    if new_s > na {
        assert(new_s * new_s > na * na) by (nonlinear_arith)
            requires
                new_s > na,
                na >= 0,
        ;
    }
    lemma_norm_at_least_side(new_s, o);
    let n1 = norm(new_s, o);
    // new_s^2 + o^2 <= na^2, so the norm is at most na
    if n1 > na {
        assert(n1 * n1 > na * na) by (nonlinear_arith)
            requires
                n1 > na,
                na >= 0,
        ;
    }
    // (new_s + 1)^2 + o^2 > na^2, so the norm is at least na - 1
    if n1 < na - 1 {
        assert((n1 + 1) * (n1 + 1) <= (na - 1) * (na - 1)) by (nonlinear_arith)
            requires
                0 <= n1,
                n1 + 1 <= na - 1,
        ;
        assert((new_s + 1) * (new_s + 1) == new_s * new_s + 2 * new_s + 1) by (nonlinear_arith);
        assert((na - 1) * (na - 1) == na * na - 2 * na + 1) by (nonlinear_arith);
        if new_s == na {
            assert(new_s * new_s == na * na);
        }
    }
}

/// Buy monotone price: the price that a buy returns for the side bought is
/// at least the side's price before the buy, at the same lambda and gauges.
pub proof fn law_buy_raises_price(
    current_s: int,
    usdc_in: int,
    lambda_q96: int,
    s_other: int,
    is_long: bool,
    sigma_long_q64: int,
    sigma_short_q64: int,
)
    requires
        0 <= current_s,
        0 <= s_other,
        0 <= usdc_in,
        0 <= lambda_q96,
        0 <= sigma_long_q64,
        0 <= sigma_short_q64,
        calculate_buy_result(
            current_s,
            usdc_in,
            lambda_q96,
            s_other,
            1,
            1,
            2,
            is_long,
            sigma_long_q64,
            sigma_short_q64,
        ) is Ok,
        price_after_trade(
            current_s,
            s_other,
            is_long,
            lambda_q96,
            sigma_long_q64,
            sigma_short_q64,
            1,
            1,
            2,
        ) is Ok,
    ensures
        calculate_buy_result(
            current_s,
            usdc_in,
            lambda_q96,
            s_other,
            1,
            1,
            2,
            is_long,
            sigma_long_q64,
            sigma_short_q64,
        )->Ok_0.1 >= price_after_trade(
            current_s,
            s_other,
            is_long,
            lambda_q96,
            sigma_long_q64,
            sigma_short_q64,
            1,
            1,
            2,
        )->Ok_0,
        calculate_buy_result(
            current_s,
            usdc_in,
            lambda_q96,
            s_other,
            1,
            1,
            2,
            is_long,
            sigma_long_q64,
            sigma_short_q64,
        )->Ok_0.0 >= 1,
{
    let new_s = supply_after_buy(current_s, s_other, usdc_in, lambda_q96);
    lemma_bought_supply_bounds(current_s, s_other, usdc_in, lambda_q96);
    law_price_monotone_in_own_supply(
        current_s,
        new_s,
        s_other,
        is_long,
        lambda_q96,
        sigma_long_q64,
        sigma_short_q64,
    );
}

/// Buy monotone price, other side: after a buy the price of the side not
/// bought is at most what it was, at the same lambda and gauges.
pub proof fn law_buy_lowers_other_price(
    current_s: int,
    usdc_in: int,
    lambda_q96: int,
    s_other: int,
    is_long: bool,
    sigma_long_q64: int,
    sigma_short_q64: int,
)
    requires
        0 <= current_s,
        0 <= s_other,
        0 <= usdc_in,
        0 <= lambda_q96,
        0 <= sigma_long_q64,
        0 <= sigma_short_q64,
        calculate_buy_result(
            current_s,
            usdc_in,
            lambda_q96,
            s_other,
            1,
            1,
            2,
            is_long,
            sigma_long_q64,
            sigma_short_q64,
        ) is Ok,
        price_after_trade(
            s_other,
            current_s,
            !is_long,
            lambda_q96,
            sigma_long_q64,
            sigma_short_q64,
            1,
            1,
            2,
        ) is Ok,
        price_after_trade(
            s_other,
            supply_after_buy(current_s, s_other, usdc_in, lambda_q96),
            !is_long,
            lambda_q96,
            sigma_long_q64,
            sigma_short_q64,
            1,
            1,
            2,
        ) is Ok,
    ensures
        price_after_trade(
            s_other,
            supply_after_buy(current_s, s_other, usdc_in, lambda_q96),
            !is_long,
            lambda_q96,
            sigma_long_q64,
            sigma_short_q64,
            1,
            1,
            2,
        )->Ok_0 <= price_after_trade(
            s_other,
            current_s,
            !is_long,
            lambda_q96,
            sigma_long_q64,
            sigma_short_q64,
            1,
            1,
            2,
        )->Ok_0,
{
    law_price_antitone_in_other_supply(
        current_s,
        supply_after_buy(current_s, s_other, usdc_in, lambda_q96),
        s_other,
        is_long,
        lambda_q96,
        sigma_long_q64,
        sigma_short_q64,
    );
}

/// Sell monotone price, other side: after a sell the price of the side not
/// sold is at least what it was, at the same lambda and gauges.
pub proof fn law_sell_raises_other_price(
    current_s: int,
    tokens_to_sell: int,
    lambda_q96: int,
    s_other: int,
    is_long: bool,
    sigma_long_q64: int,
    sigma_short_q64: int,
)
    requires
        0 <= tokens_to_sell <= current_s,
        0 <= s_other,
        0 <= lambda_q96,
        0 <= sigma_long_q64,
        0 <= sigma_short_q64,
        price_after_trade(
            s_other,
            current_s,
            !is_long,
            lambda_q96,
            sigma_long_q64,
            sigma_short_q64,
            1,
            1,
            2,
        ) is Ok,
        price_after_trade(
            s_other,
            current_s - tokens_to_sell,
            !is_long,
            lambda_q96,
            sigma_long_q64,
            sigma_short_q64,
            1,
            1,
            2,
        ) is Ok,
    ensures
        price_after_trade(
            s_other,
            current_s,
            !is_long,
            lambda_q96,
            sigma_long_q64,
            sigma_short_q64,
            1,
            1,
            2,
        )->Ok_0 <= price_after_trade(
            s_other,
            current_s - tokens_to_sell,
            !is_long,
            lambda_q96,
            sigma_long_q64,
            sigma_short_q64,
            1,
            1,
            2,
        )->Ok_0,
{
    law_price_antitone_in_other_supply(
        current_s - tokens_to_sell,
        current_s,
        s_other,
        is_long,
        lambda_q96,
        sigma_long_q64,
        sigma_short_q64,
    );
}

/// Sell monotone price: the price that a sell returns for the side sold is
/// at most the side's price before the sell, at the same lambda and gauges.
pub proof fn law_sell_lowers_price(
    current_s: int,
    tokens_to_sell: int,
    lambda_q96: int,
    s_other: int,
    is_long: bool,
    sigma_long_q64: int,
    sigma_short_q64: int,
)
    requires
        0 <= current_s,
        0 <= s_other,
        0 <= tokens_to_sell,
        0 <= lambda_q96,
        0 <= sigma_long_q64,
        0 <= sigma_short_q64,
        calculate_sell_result(
            current_s,
            tokens_to_sell,
            lambda_q96,
            s_other,
            1,
            1,
            2,
            is_long,
            sigma_long_q64,
            sigma_short_q64,
        ) is Ok,
        price_after_trade(
            current_s,
            s_other,
            is_long,
            lambda_q96,
            sigma_long_q64,
            sigma_short_q64,
            1,
            1,
            2,
        ) is Ok,
    ensures
        calculate_sell_result(
            current_s,
            tokens_to_sell,
            lambda_q96,
            s_other,
            1,
            1,
            2,
            is_long,
            sigma_long_q64,
            sigma_short_q64,
        )->Ok_0.1 <= price_after_trade(
            current_s,
            s_other,
            is_long,
            lambda_q96,
            sigma_long_q64,
            sigma_short_q64,
            1,
            1,
            2,
        )->Ok_0,
{
    law_price_monotone_in_own_supply(
        current_s - tokens_to_sell,
        current_s,
        s_other,
        is_long,
        lambda_q96,
        sigma_long_q64,
        sigma_short_q64,
    );
}

/// The cost rises by at most `u` when the norm grows by what `u` buys, and
/// by at least `u - 2 * (lambda / 2^96) - 2` when it grows by one less.
proof fn lemma_cost_of_bought_norm(n0: int, usdc_in: int, lambda_q96: int)
    requires
        0 <= n0,
        0 <= usdc_in,
        0 < lambda_q96,
    ensures
        (lambda_q96 * (n0 + bought_norm(usdc_in, lambda_q96))) / (TWO_96 as int) <= (lambda_q96
            * n0) / (TWO_96 as int) + usdc_in,
        (lambda_q96 * (n0 + bought_norm(usdc_in, lambda_q96) - 1)) / (TWO_96 as int) >= (lambda_q96
            * n0) / (TWO_96 as int) + usdc_in - 2 * (lambda_q96 / (TWO_96 as int)) - 2,
{
    let q = TWO_96 as int;
    let d = bought_norm(usdc_in, lambda_q96);
    let x = lambda_q96 * n0;
    let l = lambda_q96 / q;
    lemma_fundamental_div_mod(usdc_in * q, lambda_q96);
    lemma_mod_bound(usdc_in * q, lambda_q96);
    lemma_fundamental_div_mod(lambda_q96, q);
    lemma_fundamental_div_mod(x, q);
    assert(x >= 0) by (nonlinear_arith)
        requires
            x == lambda_q96 * n0,
            lambda_q96 > 0,
            n0 >= 0,
    ;
    let ld = lambda_q96 * d;
    // usdc_in * q - lambda < lambda * d <= usdc_in * q
    assert(ld <= usdc_in * q && ld > usdc_in * q - lambda_q96) by {
        assert(lambda_q96 * d == ld);
    }
    assert(lambda_q96 * (n0 + d) == x + ld) by (nonlinear_arith)
        requires
            x == lambda_q96 * n0,
            ld == lambda_q96 * d,
    ;
    assert(lambda_q96 * (n0 + d - 1) == x + ld - lambda_q96) by (nonlinear_arith)
        requires
            x == lambda_q96 * n0,
            ld == lambda_q96 * d,
    ;
    // upper: (x + ld) / q <= (x + usdc_in * q) / q == x / q + usdc_in
    lemma_div_is_ordered(x + ld, x + usdc_in * q, q);
    vstd::arithmetic::div_mod::lemma_fundamental_div_mod_converse(
        x + usdc_in * q,
        q,
        x / q + usdc_in,
        x % q,
    );
    // lower: x + ld - lambda >= x + (usdc_in - 2l - 2) * q
    let low = x + (usdc_in - 2 * l - 2) * q;
    assert(x + ld - lambda_q96 >= low);
    lemma_div_is_ordered(low, x + ld - lambda_q96, q);
    vstd::arithmetic::div_mod::lemma_fundamental_div_mod_converse(
        low,
        q,
        x / q + usdc_in - 2 * l - 2,
        x % q,
    );
}

/// Round trip: a buy of `usdc_in` followed at once by the sale of the tokens
/// bought returns no more than was paid, and no less than it minus
/// `2 * (lambda / 2^96) + 2` micro-units.
pub proof fn law_round_trip(
    current_s: int,
    usdc_in: int,
    lambda_q96: int,
    s_other: int,
    is_long: bool,
    sigma_long_q64: int,
    sigma_short_q64: int,
)
    requires
        0 <= current_s,
        0 <= s_other,
        0 <= usdc_in,
        0 <= lambda_q96 <= u128::MAX,
        calculate_buy_result(
            current_s,
            usdc_in,
            lambda_q96,
            s_other,
            1,
            1,
            2,
            is_long,
            sigma_long_q64,
            sigma_short_q64,
        ) is Ok,
        calculate_sell_result(
            supply_after_buy(current_s, s_other, usdc_in, lambda_q96),
            supply_after_buy(current_s, s_other, usdc_in, lambda_q96) - current_s,
            lambda_q96,
            s_other,
            1,
            1,
            2,
            is_long,
            sigma_long_q64,
            sigma_short_q64,
        ) is Ok,
    ensures
        current_s + calculate_buy_result(
            current_s,
            usdc_in,
            lambda_q96,
            s_other,
            1,
            1,
            2,
            is_long,
            sigma_long_q64,
            sigma_short_q64,
        )->Ok_0.0 == supply_after_buy(current_s, s_other, usdc_in, lambda_q96),
        calculate_sell_result(
            supply_after_buy(current_s, s_other, usdc_in, lambda_q96),
            supply_after_buy(current_s, s_other, usdc_in, lambda_q96) - current_s,
            lambda_q96,
            s_other,
            1,
            1,
            2,
            is_long,
            sigma_long_q64,
            sigma_short_q64,
        )->Ok_0.0 <= usdc_in,
        calculate_sell_result(
            supply_after_buy(current_s, s_other, usdc_in, lambda_q96),
            supply_after_buy(current_s, s_other, usdc_in, lambda_q96) - current_s,
            lambda_q96,
            s_other,
            1,
            1,
            2,
            is_long,
            sigma_long_q64,
            sigma_short_q64,
        )->Ok_0.0 >= usdc_in - 2 * (lambda_q96 / (TWO_96 as int)) - 2,
{
    let o = s_other;
    let new_s = supply_after_buy(current_s, o, usdc_in, lambda_q96);
    let na = norm_after_buy(current_s, o, usdc_in, lambda_q96);
    let n0 = norm(current_s, o);
    let n1 = norm(new_s, o);
    let q = TWO_96 as int;
    lemma_bought_supply_bounds(current_s, o, usdc_in, lambda_q96);
    lemma_norm_at_least_side(current_s, o);
    lemma_cost_of_bought_norm(n0, usdc_in, lambda_q96);
    assert(norm_sq(o, current_s) == norm_sq(current_s, o));
    assert(norm_sq(o, new_s) == norm_sq(new_s, o));
    super::curve::lemma_cost_fits(current_s, o, lambda_q96);
    super::curve::lemma_cost_fits(new_s, o, lambda_q96);
    // cost after the buy lies between the costs of the norms na - 1 and na
    assert(lambda_q96 * (na - 1) <= lambda_q96 * n1 <= lambda_q96 * na) by (nonlinear_arith)
        requires
            na - 1 <= n1 <= na,
            lambda_q96 >= 0,
    ;
    lemma_div_is_ordered(lambda_q96 * (na - 1), lambda_q96 * n1, q);
    lemma_div_is_ordered(lambda_q96 * n1, lambda_q96 * na, q);
    assert(lambda_q96 * n0 >= 0) by (nonlinear_arith)
        requires
            lambda_q96 >= 0,
            n0 >= 0,
    ;
    lemma_div_pos_is_pos(lambda_q96 * n0, q);
    assert(na - 1 == n0 + bought_norm(usdc_in, lambda_q96) - 1);
}

/// Round trip within one percent: where the payment is at least two hundred
/// times `lambda / 2^96 + 1`, what the round trip returns is at least 99% of
/// the payment.
pub proof fn law_round_trip_within_one_percent(
    current_s: int,
    usdc_in: int,
    lambda_q96: int,
    s_other: int,
    is_long: bool,
    sigma_long_q64: int,
    sigma_short_q64: int,
)
    requires
        0 <= current_s,
        0 <= s_other,
        0 <= lambda_q96 <= u128::MAX,
        usdc_in >= 200 * (lambda_q96 / (TWO_96 as int) + 1),
        calculate_buy_result(
            current_s,
            usdc_in,
            lambda_q96,
            s_other,
            1,
            1,
            2,
            is_long,
            sigma_long_q64,
            sigma_short_q64,
        ) is Ok,
        calculate_sell_result(
            supply_after_buy(current_s, s_other, usdc_in, lambda_q96),
            supply_after_buy(current_s, s_other, usdc_in, lambda_q96) - current_s,
            lambda_q96,
            s_other,
            1,
            1,
            2,
            is_long,
            sigma_long_q64,
            sigma_short_q64,
        ) is Ok,
    ensures
        100 * calculate_sell_result(
            supply_after_buy(current_s, s_other, usdc_in, lambda_q96),
            supply_after_buy(current_s, s_other, usdc_in, lambda_q96) - current_s,
            lambda_q96,
            s_other,
            1,
            1,
            2,
            is_long,
            sigma_long_q64,
            sigma_short_q64,
        )->Ok_0.0 >= 99 * usdc_in,
{
    lemma_div_pos_is_pos(lambda_q96, TWO_96 as int);
    law_round_trip(
        current_s,
        usdc_in,
        lambda_q96,
        s_other,
        is_long,
        sigma_long_q64,
        sigma_short_q64,
    );
}

/// Gauge invariance of the display price: shifting a virtual price and the
/// gauge that divides it by the same power of two leaves the display price,
/// and its root, unchanged.
pub proof fn law_display_price_gauge_invariant(p_virtual_q96: int, sigma_q64: int, k: nat)
    requires
        0 <= p_virtual_q96,
        0 < sigma_q64,
    ensures
        display_price_q96(p_virtual_q96 * pow2(k), sigma_q64 * pow2(k)) == display_price_q96(
            p_virtual_q96,
            sigma_q64,
        ),
        sqrt_price_x96(display_price_q96(p_virtual_q96 * pow2(k), sigma_q64 * pow2(k)))
            == sqrt_price_x96(display_price_q96(p_virtual_q96, sigma_q64)),
{
    let c = pow2(k) as int;
    lemma_pow2_pos(k);
    let a = p_virtual_q96 * (TWO_64 as int);
    vstd::arithmetic::div_mod::lemma_div_multiples_vanish_quotient(c, a, sigma_q64);
    assert((p_virtual_q96 * c) * (TWO_64 as int) == c * a) by (nonlinear_arith)
        requires
            a == p_virtual_q96 * (TWO_64 as int),
    ;
    assert(sigma_q64 * c == c * sigma_q64) by (nonlinear_arith);
}

/// `(a * c) / (b * c) == a / b`, and an exact quotient stays exact.
proof fn lemma_exact_quotient_scales(a: int, b: int, c: int)
    requires
        0 <= a,
        0 < b,
        0 < c,
        a % (b * c) == 0,
    ensures
        a % b == 0,
        a / b == c * (a / (b * c)),
{
    let q = a / (b * c);
    assert(b * c > 0) by (nonlinear_arith)
        requires
            0 < b,
            0 < c,
    ;
    lemma_fundamental_div_mod(a, b * c);
    assert(a == (c * q) * b) by (nonlinear_arith)
        requires
            a == (b * c) * q,
    ;
    vstd::arithmetic::div_mod::lemma_fundamental_div_mod_converse(a, b, c * q, 0);
}

/// Gauge invariance over the whole chain, where every step is exact.
///
/// Take virtual supplies `(w_long, w_short)` under some gauges, and the same
/// pool with both gauges shifted right by `k` bits, so that its virtual
/// supplies are `2^k` times as large. Suppose that the norm of the larger
/// supplies is `2^k` times the norm of the smaller, that the lambda derived
/// for the larger norm from the vault is an exact quotient, and that so is
/// the virtual price of the side at the larger supplies. Then the price
/// quoted for the side is the same under both gauges, each at its own
/// derived lambda.
pub proof fn law_gauge_shift_keeps_quoted_price(
    vault: int,
    w_long: int,
    w_short: int,
    side: TokenSide,
    sigma_long_q64: int,
    sigma_short_q64: int,
    k: nat,
)
    requires
        0 <= vault,
        0 <= w_long,
        0 <= w_short,
        0 <= sigma_long_q64,
        0 <= sigma_short_q64,
        norm_sq(w_long * pow2(k), w_short * pow2(k)) <= u128::MAX,
        norm_divisor(w_long * pow2(k), w_short * pow2(k)) == norm_divisor(w_long, w_short) * pow2(
            k,
        ),
        (vault * TWO_96) % (norm_divisor(w_long, w_short) * pow2(k)) == 0,
        (derived_lambda(vault, norm_divisor(w_long, w_short) * pow2(k)) * (side_supply(
            side,
            w_long,
            w_short,
        ) * pow2(k))) % (norm_divisor(w_long, w_short) * pow2(k)) == 0,
    ensures
        sqrt_marginal_price_from_virtual_result(
            w_long,
            w_short,
            side,
            derived_lambda(vault, norm_divisor(w_long, w_short)),
            sigma_long_q64 * pow2(k),
            sigma_short_q64 * pow2(k),
            1,
            1,
            2,
        ) == sqrt_marginal_price_from_virtual_result(
            w_long * pow2(k),
            w_short * pow2(k),
            side,
            derived_lambda(vault, norm_divisor(w_long, w_short) * pow2(k)),
            sigma_long_q64,
            sigma_short_q64,
            1,
            1,
            2,
        ),
{
    let c = pow2(k) as int;
    lemma_pow2_pos(k);
    let d = norm_divisor(w_long, w_short);
    let w = side_supply(side, w_long, w_short);
    let sigma = side_sigma(side, sigma_long_q64, sigma_short_q64);
    let lambda_fine = derived_lambda(vault, d * c);
    let lambda_coarse = derived_lambda(vault, d);
    let big = vault * (TWO_96 as int);
    // the supplies, the gauge and the squared norm of the two pools
    assert(side_supply(side, w_long * c, w_short * c) == w * c);
    assert(side_sigma(side, sigma_long_q64 * c, sigma_short_q64 * c) == sigma * c);
    assert(w * c >= 0 && (w == 0 <==> w * c == 0)) by (nonlinear_arith)
        requires
            w >= 0,
            c > 0,
    ;
    assert(sigma * c >= 0 && (sigma == 0 <==> sigma * c == 0)) by (nonlinear_arith)
        requires
            sigma >= 0,
            c > 0,
    ;
    assert(norm_sq(w_long, w_short) <= norm_sq(w_long * c, w_short * c)) by (nonlinear_arith)
        requires
            c >= 1,
    ;
    // lambda of the coarse pool is 2^k times lambda of the fine pool
    lemma_exact_quotient_scales(big, d, c);
    assert(lambda_coarse == c * lambda_fine);
    lemma_div_pos_is_pos(big, d * c);
    // and so is its virtual price
    let x = lambda_fine * (w * c);
    assert(x >= 0) by (nonlinear_arith)
        requires
            x == lambda_fine * (w * c),
            lambda_fine >= 0,
            w >= 0,
            c > 0,
    ;
    lemma_exact_quotient_scales(x, d, c);
    let p_fine = x / (d * c);
    assert(lambda_coarse * w == x) by (nonlinear_arith)
        requires
            lambda_coarse == c * lambda_fine,
            x == lambda_fine * (w * c),
    ;
    assert(price_q96(w, w_long, w_short, lambda_coarse) == c * p_fine);
    assert(price_q96(w * c, w_long * c, w_short * c, lambda_fine) == p_fine);
    lemma_div_pos_is_pos(x, d * c);
    // the display price divides the virtual price by the gauge
    if sigma > 0 {
        law_display_price_gauge_invariant(p_fine, sigma, k);
        assert(p_fine * c == c * p_fine) by (nonlinear_arith);
    }
}

/// Renormalization leaves alone what is in band: gauges within
/// `[2^48, 2^96]` whose squared virtual norm is zero or within
/// `[(2^16)^2, (2^31)^2]` come back as they went in.
pub proof fn law_renormalize_fixes_what_is_in_band(
    sigma_long: int,
    sigma_short: int,
    s_long: int,
    s_short: int,
)
    requires
        SIGMA_MIN <= sigma_long <= SIGMA_MAX,
        SIGMA_MIN <= sigma_short <= SIGMA_MAX,
        saturating_norm_sq(
            virtual_supply_spec(s_long, sigma_long),
            virtual_supply_spec(s_short, sigma_short),
        ) == 0 || VIRTUAL_NORM_MIN_SQ <= saturating_norm_sq(
            virtual_supply_spec(s_long, sigma_long),
            virtual_supply_spec(s_short, sigma_short),
        ) <= VIRTUAL_NORM_MAX_SQ,
    ensures
        renormalized(sigma_long, sigma_short, s_long, s_short) == (sigma_long, sigma_short),
{
}

/// The first step of renormalization brings the larger gauge below 2^97.
pub proof fn law_lowered_gauges_are_bounded(sigma_long: int, sigma_short: int)
    requires
        0 <= sigma_long < two_128(),
        0 <= sigma_short < two_128(),
    ensures
        0 <= lower_gauges(sigma_long, sigma_short).0 < 2 * SIGMA_MAX,
        0 <= lower_gauges(sigma_long, sigma_short).1 < 2 * SIGMA_MAX,
        max(sigma_long, sigma_short) > SIGMA_MAX ==> max(
            lower_gauges(sigma_long, sigma_short).0,
            lower_gauges(sigma_long, sigma_short).1,
        ) >= SIGMA_MAX,
{
    lemma_pow2_values();
    let m = max(sigma_long, sigma_short);
    if m > SIGMA_MAX {
        lemma_bit_length_shift(m, 96);
        lemma_bit_length_bounds(m);
        let b = bit_length(m);
        let e = (b - SIGMA_MAX_BITS) as nat;
        lemma_pow2_pos(e);
        // m < 2^b = 2^97 * 2^e, and m >= 2^(b-1) = 2^96 * 2^e
        lemma_pow2_adds(97, e);
        lemma_pow2_adds(96, e);
        vstd::arithmetic::power2::lemma_pow2_unfold(97);
        let c = pow2(e) as int;
        assert(pow2(97) == 2 * SIGMA_MAX);
        assert(m < (2 * SIGMA_MAX) * c);
        assert(m >= SIGMA_MAX * c);
        vstd::arithmetic::div_mod::lemma_multiply_divide_lt(m, c, 2 * SIGMA_MAX);
        vstd::arithmetic::div_mod::lemma_div_is_ordered(SIGMA_MAX * c, m, c);
        vstd::arithmetic::div_mod::lemma_div_multiples_vanish(SIGMA_MAX as int, c);
        assert(SIGMA_MAX * c == c * SIGMA_MAX) by (nonlinear_arith);
        vstd::arithmetic::div_mod::lemma_div_is_ordered(sigma_long, m, c);
        vstd::arithmetic::div_mod::lemma_div_is_ordered(sigma_short, m, c);
        vstd::arithmetic::div_mod::lemma_div_pos_is_pos(sigma_long, c);
        vstd::arithmetic::div_mod::lemma_div_pos_is_pos(sigma_short, c);
    }
}

/// The second step of renormalization brings a positive smaller gauge into
/// `[2^48, 2^49)`, or leaves it where it is at or above 2^48.
pub proof fn law_raised_gauge_is_in_band(sigma_long: int, sigma_short: int)
    requires
        0 < sigma_long < two_128(),
        0 < sigma_short < two_128(),
        sigma_long <= sigma_short,
    ensures
        raise_gauges(sigma_long, sigma_short).0 >= SIGMA_MIN,
        sigma_long < SIGMA_MIN ==> raise_gauges(sigma_long, sigma_short).0 < 2 * SIGMA_MIN,
{
    lemma_pow2_values();
    vstd::arithmetic::power2::lemma2_to64_rest();
    let m = sigma_long;
    if m < SIGMA_MIN {
        lemma_bit_length_upper(m, 48);
        lemma_bit_length_bounds(m);
        let b = bit_length(m);
        let d = (SIGMA_MIN_BITS - b) as nat;
        let c = pow2(d) as int;
        lemma_pow2_pos(d);
        lemma_pow2_adds((b - 1) as nat, d);
        lemma_pow2_adds(b, d);
        vstd::arithmetic::power2::lemma_pow2_unfold(49);
        assert(pow2(49) == 2 * SIGMA_MIN);
        assert(m * c >= SIGMA_MIN) by (nonlinear_arith)
            requires
                m >= pow2((b - 1) as nat),
                pow2((b - 1) as nat) * c == SIGMA_MIN,
                c > 0,
        ;
        assert(m * c < 2 * SIGMA_MIN) by (nonlinear_arith)
            requires
                m < pow2(b),
                pow2(b) * c == 2 * SIGMA_MIN,
                c > 0,
        ;
        vstd::arithmetic::div_mod::lemma_small_mod((m * c) as nat, two_128() as nat);
    }
}

/// The split of a deposit follows the prediction: the LONG part is the
/// deposit times the prediction in millionths, floored, so it is within one
/// micro-unit of that share and never more than the deposit.
pub proof fn law_liquidity_split_follows_prediction(usdc_amount: int, r_long: int, r_short: int)
    requires
        0 <= usdc_amount,
        0 <= r_long,
        0 <= r_short,
        0 < r_long + r_short,
    ensures
        0 <= long_part(usdc_amount, r_long, r_short) <= usdc_amount,
        long_part(usdc_amount, r_long, r_short) * MICRO <= usdc_amount * ((r_long * MICRO) / (
        r_long + r_short)) < (long_part(usdc_amount, r_long, r_short) + 1) * MICRO,
{
    let total = r_long + r_short;
    let q = (r_long * MICRO) / total;
    assert(0 <= r_long * MICRO <= total * MICRO) by (nonlinear_arith)
        requires
            0 <= r_long <= total,
    ;
    lemma_div_is_ordered(r_long * MICRO, total * MICRO, total);
    lemma_div_multiples_vanish(MICRO as int, total);
    assert(total * MICRO == MICRO * total) by (nonlinear_arith);
    lemma_div_pos_is_pos(r_long * MICRO, total);
    let x = usdc_amount * q;
    assert(0 <= x <= usdc_amount * MICRO) by (nonlinear_arith)
        requires
            x == usdc_amount * q,
            0 <= q <= MICRO,
            0 <= usdc_amount,
    ;
    lemma_fundamental_div_mod(x, MICRO as int);
    lemma_div_is_ordered(x, usdc_amount * MICRO, MICRO as int);
    lemma_div_multiples_vanish(usdc_amount, MICRO as int);
    assert(usdc_amount * MICRO == MICRO * usdc_amount) by (nonlinear_arith);
    lemma_div_pos_is_pos(x, MICRO as int);
}

/// The errors that blame the request itself: its size, its skim, its mint,
/// or a market that is not deployed.
pub open spec fn blames_the_request(e: ContentPoolError) -> bool {
    e == ContentPoolError::InvalidTradeAmount || e == ContentPoolError::InvalidStakeSkim || e
        == ContentPoolError::InvalidMint || e == ContentPoolError::MarketNotDeployed
}

/// Decay never blames the request.
proof fn lemma_decay_does_not_blame_the_request(
    pool: ContentPool,
    pool_key: Address,
    vault_amount: u64,
    now: i64,
)
    ensures
        apply_decay_result(pool, pool_key, vault_amount, now) matches Err(e) ==> !blames_the_request(
            e,
        ),
{
}

/// A buy whose skim is at most half of the amount never blames the request.
proof fn lemma_buy_blames_the_skim_only(
    pool: ContentPool,
    total_fee_bps: u16,
    creator_split_bps: u16,
    vault_amount: u64,
    side: TokenSide,
    amount: u64,
    stake_skim: u64,
    min_tokens_out: u64,
)
    requires
        stake_skim <= amount / 2,
    ensures
        buy_result(
            pool,
            total_fee_bps,
            creator_split_bps,
            vault_amount,
            side,
            amount,
            stake_skim,
            min_tokens_out,
        ) matches Err(e) ==> !blames_the_request(e),
{
}

/// A sell of a whole number of tokens never blames the request.
proof fn lemma_sell_blames_the_amount_only(
    pool: ContentPool,
    total_fee_bps: u16,
    creator_split_bps: u16,
    vault_amount: u64,
    side: TokenSide,
    amount: u64,
    min_usdc_out: u64,
)
    requires
        amount > 0,
        amount % TOKEN_SCALE == 0,
    ensures
        sell_result(pool, total_fee_bps, creator_split_bps, vault_amount, side, amount, min_usdc_out)
            matches Err(e) ==> !blames_the_request(e),
{
}

/// A trade is refused for its size exactly where its size is wrong, and for
/// its skim exactly where its skim is more than half of a buy of a right
/// size: whatever the state of the pool, these two errors name the request
/// and nothing else.
///
/// On a deployed market and with the mint of the side: `InvalidTradeAmount`
/// comes exactly for a buy below the least or above the largest size and for
/// a sell of nothing or of no whole number of tokens; `InvalidStakeSkim`
/// comes exactly for a buy of a right size whose skim is more than half of
/// it.
pub proof fn law_trade_refuses_the_request_first(
    pool: ContentPool,
    pool_key: Address,
    factory: PoolFactory,
    trader: Address,
    token_mint: Address,
    vault_amount: u64,
    now: i64,
    side: TokenSide,
    trade_type: TradeType,
    amount: u64,
    stake_skim: u64,
    min_tokens_out: u64,
    min_usdc_out: u64,
)
    requires
        pool.is_deployed(),
        token_mint.same_as(&side_mint(pool, side)),
    ensures
        trade_result(
            pool,
            pool_key,
            factory,
            trader,
            token_mint,
            vault_amount,
            now,
            side,
            trade_type,
            amount,
            stake_skim,
            min_tokens_out,
            min_usdc_out,
        ) == Err::<(ContentPool, TradeOutcome), ContentPoolError>(
            ContentPoolError::InvalidTradeAmount,
        ) <==> (trade_type == TradeType::Buy && (amount < MIN_TRADE_SIZE || amount
            > MAX_TRADE_SIZE)) || (trade_type == TradeType::Sell && (amount == 0 || amount
            % TOKEN_SCALE != 0)),
        trade_result(
            pool,
            pool_key,
            factory,
            trader,
            token_mint,
            vault_amount,
            now,
            side,
            trade_type,
            amount,
            stake_skim,
            min_tokens_out,
            min_usdc_out,
        ) == Err::<(ContentPool, TradeOutcome), ContentPoolError>(
            ContentPoolError::InvalidStakeSkim,
        ) <==> trade_type == TradeType::Buy && MIN_TRADE_SIZE <= amount <= MAX_TRADE_SIZE
            && stake_skim > amount / 2,
{
    lemma_decay_does_not_blame_the_request(pool, pool_key, vault_amount, now);
    match apply_decay_result(pool, pool_key, vault_amount, now) {
        Ok(decayed) => {
            if trade_type == TradeType::Buy && stake_skim <= amount / 2 {
                lemma_buy_blames_the_skim_only(
                    decayed.0,
                    factory.total_fee_bps,
                    factory.creator_split_bps,
                    vault_amount,
                    side,
                    amount,
                    stake_skim,
                    min_tokens_out,
                );
            }
            if trade_type == TradeType::Sell && amount > 0 && amount % TOKEN_SCALE == 0 {
                lemma_sell_blames_the_amount_only(
                    decayed.0,
                    factory.total_fee_bps,
                    factory.creator_split_bps,
                    vault_amount,
                    side,
                    amount,
                    min_usdc_out,
                );
            }
        },
        Err(_) => {},
    }
}

} // verus!
