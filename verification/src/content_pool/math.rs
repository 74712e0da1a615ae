//! Overflow-safe fixed-point arithmetic: the building blocks of the curve.
//!
//! All values are unsigned 128-bit integers. Products are formed in 256 bits,
//! as a pair of 128-bit words, and every function states its result over the
//! mathematical integers.

pub mod q32;
pub mod q64;

use vstd::prelude::*;
use vstd::arithmetic::div_mod::lemma_fundamental_div_mod_converse;
use vstd::arithmetic::power2::{
    lemma2_to64, lemma_pow2_adds, lemma_pow2_pos, lemma_pow2_subtracts, lemma_pow2_unfold, pow2,
};
use vstd::math::{max, min};
use super::errors::ContentPoolError;
use super::state::{SIGMA_MAX, SIGMA_MIN};

verus! {

/// 2^32: the scale of Q32.32 values.
pub const TWO_32: u128 = 0x1_0000_0000;

/// 2^64: the scale of Q64.64 values and the base of the 64-bit limbs.
pub const TWO_64: u128 = 0x1_0000_0000_0000_0000;

/// 2^96: the scale of Q96 values.
pub const TWO_96: u128 = 0x1_0000_0000_0000_0000_0000_0000;

/// 2^127: the weight of the top bit of a word.
pub const TWO_127: u128 = 0x8000_0000_0000_0000_0000_0000_0000_0000;

/// 2^128 as a mathematical integer.
pub open spec fn two_128() -> int {
    0x1_0000_0000_0000_0000_0000_0000_0000_0000int
}

/// The value of the 256-bit number whose words are `hi` and `lo`.
pub open spec fn wide(hi: u128, lo: u128) -> int {
    hi * two_128() + lo
}

/// The product of two bounded naturals is bounded by the product of the bounds.
pub proof fn lemma_product_bound(x: int, y: int, x_max: int, y_max: int)
    requires
        0 <= x <= x_max,
        0 <= y <= y_max,
    ensures
        0 <= x * y <= x_max * y_max,
{
    assert(0 <= x * y <= x_max * y_max) by (nonlinear_arith)
        requires
            0 <= x <= x_max,
            0 <= y <= y_max,
    ;
}

/// The product of two 64-bit limbs fits one word.
pub proof fn lemma_limb_product(x: u128, y: u128)
    requires
        x < TWO_64,
        y < TWO_64,
    ensures
        x * y <= 0xffff_ffff_ffff_fffe_0000_0000_0000_0001,
        (x * y) / (TWO_64 as int) <= 0xffff_ffff_ffff_fffe,
{
    assert(x * y <= 0xffff_ffff_ffff_ffff * 0xffff_ffff_ffff_ffff) by (nonlinear_arith)
        requires
            x <= 0xffff_ffff_ffff_ffff,
            y <= 0xffff_ffff_ffff_ffff,
    ;
}

proof fn lemma_limb_expansion(a1: int, a0: int, b1: int, b0: int, q: int)
    ensures
        (a1 * q + a0) * (b1 * q + b0) == (a1 * b1) * (q * q) + (a0 * b1 + a1 * b0) * q + a0 * b0,
{
    let x = a1 * q;
    let y = b1 * q;
    assert((x + a0) * (y + b0) == x * y + x * b0 + a0 * y + a0 * b0) by (nonlinear_arith);
    assert(x * y == (a1 * b1) * (q * q)) by (nonlinear_arith)
        requires
            x == a1 * q,
            y == b1 * q,
    ;
    assert(x * b0 == (a1 * b0) * q) by (nonlinear_arith)
        requires
            x == a1 * q,
    ;
    assert(a0 * y == (a0 * b1) * q) by (nonlinear_arith)
        requires
            y == b1 * q,
    ;
    assert((a0 * b1 + a1 * b0) * q == (a0 * b1) * q + (a1 * b0) * q) by (nonlinear_arith);
}

/// Exact 128 x 128 -> 256-bit product, as the words `(hi, lo)`.
///
/// Each factor is split into two 64-bit limbs; the four limb products are
/// summed column by column, the carries moving up.
pub fn full_mul_128(a: u128, b: u128) -> (r: (u128, u128))
    ensures
        wide(r.0, r.1) == a * b,
{
    let a0: u128 = a % TWO_64;
    let a1: u128 = a / TWO_64;
    let b0: u128 = b % TWO_64;
    let b1: u128 = b / TWO_64;
    proof {
        lemma_limb_product(a0, b0);
        lemma_limb_product(a0, b1);
        lemma_limb_product(a1, b0);
        lemma_limb_product(a1, b1);
    }
    let ll: u128 = a0 * b0;
    let lh: u128 = a0 * b1;
    let hl: u128 = a1 * b0;
    let hh: u128 = a1 * b1;

    // middle column: the high limb of `ll` and the low limbs of the cross terms
    let t: u128 = ll / TWO_64 + lh % TWO_64 + hl % TWO_64;
    proof {
        lemma_product_bound(
            (t % TWO_64) as int,
            TWO_64 as int,
            0xffff_ffff_ffff_ffff,
            0x1_0000_0000_0000_0000,
        );
    }
    let low: u128 = (t % TWO_64) * TWO_64 + ll % TWO_64;
    let high: u128 = hh + lh / TWO_64 + hl / TWO_64 + t / TWO_64;
    proof {
        lemma_limb_expansion(a1 as int, a0 as int, b1 as int, b0 as int, TWO_64 as int);
        assert((TWO_64 as int) * (TWO_64 as int) == two_128());
        assert((hh as int) * two_128() + (lh + hl) * (TWO_64 as int) + ll == a * b);
    }
    (high, low)
}

/// The powers of two that the kernel's constants stand for.
pub proof fn lemma_pow2_values()
    ensures
        pow2(0) == 1,
        pow2(64) == TWO_64,
        pow2(96) == TWO_96,
        pow2(127) == TWO_127,
        pow2(128) == two_128(),
{
    lemma2_to64();
    lemma_pow2_adds(64, 32);
    lemma_pow2_adds(64, 64);
    lemma_pow2_unfold(128);
}

proof fn lemma_long_division_step(q: int, d: int, r: int, bit: int, n: int)
    requires
        n == q * d + r,
    ensures
        2 * n + bit == (2 * q) * d + (2 * r + bit),
        2 * n + bit == (2 * q + 1) * d + (2 * r + bit - d),
{
    assert((2 * q) * d == 2 * (q * d)) by (nonlinear_arith);
    assert((2 * q + 1) * d == 2 * (q * d) + d) by (nonlinear_arith);
}

/// Floor of the 256-bit number `(hi, lo)` divided by `d`.
///
/// The quotient must fit one word, which is the case exactly when `hi < d`.
/// Bitwise long division: the high word is the first remainder, then each bit
/// of the low word is shifted in, from the top down.
pub fn div_256_by_128(hi: u128, lo: u128, d: u128) -> (res: Result<u128, ContentPoolError>)
    ensures
        d == 0 ==> res == Err::<u128, ContentPoolError>(ContentPoolError::DivisionByZero),
        d != 0 && hi >= d ==> res == Err::<u128, ContentPoolError>(
            ContentPoolError::NumericalOverflow,
        ),
        d != 0 && hi < d ==> res == Ok::<u128, ContentPoolError>((wide(hi, lo) / (d as int)) as u128)
            && wide(hi, lo) / (d as int) < two_128(),
{
    if d == 0 {
        return Err(ContentPoolError::DivisionByZero);
    }
    if hi >= d {
        return Err(ContentPoolError::NumericalOverflow);
    }
    let mut q: u128 = 0;
    let mut r: u128 = hi;
    let mut rest: u128 = lo;
    let mut n: u32 = 0;
    let ghost mut top: int = 0;
    proof {
        lemma_pow2_values();
        assert(0 * (d as int) == 0);
    }
    while n < 128
        invariant
            n <= 128,
            d != 0,
            r < d,
            0 <= top,
            lo * pow2(n as nat) == top * two_128() + rest,
            hi * pow2(n as nat) + top == q * d + r,
            q < pow2(n as nat),
            pow2(128) == two_128(),
        decreases 128 - n,
    {
        let bit: u128 = rest / TWO_127;
        let carry: u128 = r / TWO_127;
        let low: u128 = (r % TWO_127) * 2 + bit;
        proof {
            lemma_pow2_unfold((n + 1) as nat);
            let p = pow2(n as nat) as int;
            assert(lo * (2 * p) == 2 * (lo * p)) by (nonlinear_arith);
            assert(hi * (2 * p) == 2 * (hi * p)) by (nonlinear_arith);
            lemma_long_division_step(
                q as int,
                d as int,
                r as int,
                bit as int,
                hi * pow2(n as nat) + top,
            );
            if n < 127 {
                vstd::arithmetic::power2::lemma_pow2_strictly_increases((n + 1) as nat, 128);
            }
            top = 2 * top + bit;
        }
        rest = (rest % TWO_127) * 2;
        if carry == 1 || low >= d {
            r = if carry == 1 {
                low + (u128::MAX - d) + 1
            } else {
                low - d
            };
            q = q * 2 + 1;
        } else {
            r = low;
            q = q * 2;
        }
        n = n + 1;
    }
    proof {
        assert(n == 128);
        assert(lo * pow2(128) == lo * two_128());
        assert(hi * pow2(128) == hi * two_128());
        assert(top == lo);
        lemma_fundamental_div_mod_converse(wide(hi, lo), d as int, q as int, r as int);
    }
    Ok(q)
}

/// `floor(a * b / d)`, the product formed in 256 bits.
pub fn mul_div_u128(a: u128, b: u128, d: u128) -> (res: Result<u128, ContentPoolError>)
    ensures
        d == 0 ==> res == Err::<u128, ContentPoolError>(ContentPoolError::DivisionByZero),
        d != 0 && (a * b) / (d as int) >= two_128() ==> res == Err::<u128, ContentPoolError>(
            ContentPoolError::NumericalOverflow,
        ),
        d != 0 && (a * b) / (d as int) < two_128() ==> res == Ok::<u128, ContentPoolError>(
            ((a * b) / (d as int)) as u128,
        ),
{
    let (hi, lo) = full_mul_128(a, b);
    proof {
        if d != 0 {
            lemma_quotient_fits(hi, lo, d);
        }
    }
    div_256_by_128(hi, lo, d)
}

/// The quotient of a 256-bit number by `d` fits one word exactly when the
/// high word is below `d`.
pub proof fn lemma_quotient_fits(hi: u128, lo: u128, d: u128)
    requires
        d != 0,
    ensures
        hi < d <==> wide(hi, lo) / (d as int) < two_128(),
{
    let n = wide(hi, lo);
    let dd = d as int;
    if hi < d {
        assert(n < dd * two_128()) by (nonlinear_arith)
            requires
                n == hi * two_128() + lo,
                lo < two_128(),
                hi + 1 <= dd,
                two_128() > 0,
        ;
        vstd::arithmetic::div_mod::lemma_div_is_ordered(n, dd * two_128() - 1, dd);
        vstd::arithmetic::div_mod::lemma_fundamental_div_mod_converse(
            dd * two_128() - 1,
            dd,
            two_128() - 1,
            dd - 1,
        );
        assert(dd * (two_128() - 1) + (dd - 1) == dd * two_128() - 1) by (nonlinear_arith);
    } else {
        assert(n >= dd * two_128()) by (nonlinear_arith)
            requires
                n == hi * two_128() + lo,
                lo >= 0,
                hi >= dd,
                two_128() > 0,
        ;
        vstd::arithmetic::div_mod::lemma_div_is_ordered(dd * two_128(), n, dd);
        vstd::arithmetic::div_mod::lemma_div_multiples_vanish(two_128(), dd);
        assert(dd * two_128() == two_128() * dd) by (nonlinear_arith);
    }
}

/// `r` is the floor of the square root of `n`.
pub open spec fn is_floor_sqrt(n: int, r: int) -> bool {
    0 <= r && r * r <= n < (r + 1) * (r + 1)
}

/// The floor of the square root of `n`.
pub open spec fn isqrt(n: int) -> int {
    choose|r: int| is_floor_sqrt(n, r)
}

/// At most one number is the floor of the square root of `n`.
pub proof fn lemma_floor_sqrt_unique(n: int, a: int, b: int)
    requires
        is_floor_sqrt(n, a),
        is_floor_sqrt(n, b),
    ensures
        a == b,
{
    if a < b {
        assert((a + 1) * (a + 1) <= b * b) by (nonlinear_arith)
            requires
                0 <= a,
                a + 1 <= b,
        ;
    } else if b < a {
        assert((b + 1) * (b + 1) <= a * a) by (nonlinear_arith)
            requires
                0 <= b,
                b + 1 <= a,
        ;
    }
}

/// Every natural number has a floor square root, and `isqrt` names it.
pub proof fn lemma_isqrt(n: int)
    requires
        0 <= n,
    ensures
        is_floor_sqrt(n, isqrt(n)),
    decreases n,
{
    if n == 0 {
        assert(is_floor_sqrt(0, 0));
    } else {
        lemma_isqrt(n - 1);
        let r = isqrt(n - 1);
        if (r + 1) * (r + 1) <= n {
            assert((r + 2) * (r + 2) > (r + 1) * (r + 1)) by (nonlinear_arith)
                requires
                    0 <= r,
            ;
            assert(is_floor_sqrt(n, r + 1));
        } else {
            assert(is_floor_sqrt(n, r));
        }
    }
}

/// A number that squares to at most `n` and whose successor squares above `n`
/// is `isqrt(n)`.
pub proof fn lemma_isqrt_is(n: int, r: int)
    requires
        is_floor_sqrt(n, r),
    ensures
        isqrt(n) == r,
{
    lemma_floor_sqrt_unique(n, r, isqrt(n));
}

/// `isqrt` is monotone.
pub proof fn lemma_isqrt_monotone(a: int, b: int)
    requires
        0 <= a <= b,
    ensures
        isqrt(a) <= isqrt(b),
{
    lemma_isqrt(a);
    lemma_isqrt(b);
    let x = isqrt(a);
    let y = isqrt(b);
    if y < x {
        assert((y + 1) * (y + 1) <= x * x) by (nonlinear_arith)
            requires
                0 <= y,
                y + 1 <= x,
        ;
    }
}

/// One Newton step from any positive `x` lands at or above the root.
pub proof fn lemma_newton_step_stays_above(n: int, x: int, y: int)
    requires
        0 <= n,
        0 < x,
        y == (x + n / x) / 2,
    ensures
        (y + 1) * (y + 1) > n,
        n >= 1 ==> y >= 1,
{
    let q = n / x;
    let r = n % x;
    vstd::arithmetic::div_mod::lemma_fundamental_div_mod(n, x);
    vstd::arithmetic::div_mod::lemma_mod_bound(n, x);
    vstd::arithmetic::div_mod::lemma_div_pos_is_pos(n, x);
    let z = 2 * (y + 1);
    let t = x - q;
    assert(z >= x + q + 1);
    assert(z * z >= (x + q + 1) * (x + q + 1)) by (nonlinear_arith)
        requires
            z >= x + q + 1,
            x + q + 1 >= 0,
    ;
    assert((x + q + 1) * (x + q + 1) == 4 * (x * q) + t * t + 2 * x + 2 * q + 1)
        by (nonlinear_arith)
        requires
            t == x - q,
    ;
    assert(t * t - 2 * t + 5 > 0) by (nonlinear_arith);
    assert(z * z == 4 * ((y + 1) * (y + 1))) by (nonlinear_arith)
        requires
            z == 2 * (y + 1),
    ;
    if n >= 1 && y < 1 {
        // x + q < 2 and x >= 1 force x == 1 and q == 0, but then q == n
        assert(x == 1);
        assert(n / 1 == n);
    }
}

/// When a Newton step no longer descends, `x` squares to at most `n`.
pub proof fn lemma_newton_fixpoint(n: int, x: int, y: int)
    requires
        0 <= n,
        0 < x,
        y == (x + n / x) / 2,
        y >= x,
    ensures
        x * x <= n,
{
    let q = n / x;
    vstd::arithmetic::div_mod::lemma_fundamental_div_mod(n, x);
    vstd::arithmetic::div_mod::lemma_mod_bound(n, x);
    assert(q >= x);
    assert(x * q >= x * x) by (nonlinear_arith)
        requires
            q >= x,
            x > 0,
    ;
}

/// Above the root, the quotient `n / x` is at most `x + 2`.
pub proof fn lemma_newton_quotient_bound(n: int, x: int)
    requires
        0 <= n,
        0 < x,
        (x + 1) * (x + 1) > n,
    ensures
        n / x <= x + 2,
{
    assert((x + 1) * (x + 1) == x * (x + 2) + 1) by (nonlinear_arith);
    vstd::arithmetic::div_mod::lemma_div_is_ordered(n, x * (x + 2), x);
    vstd::arithmetic::div_mod::lemma_div_multiples_vanish(x + 2, x);
    assert(x * (x + 2) == (x + 2) * x) by (nonlinear_arith);
}

/// Floor of the square root, by Newton's iteration on integers.
///
/// The iterates descend strictly from `n` and never fall below the root; the
/// first one that does not descend is the root.
pub fn isqrt_u128(n: u128) -> (x: u128)
    ensures
        x == isqrt(n as int),
        is_floor_sqrt(n as int, x as int),
{
    if n == 0 {
        proof {
            lemma_isqrt_is(0, 0);
        }
        return 0;
    }
    let mut x: u128 = n;
    let mut y: u128 = n / 2 + n % 2;
    proof {
        assert(n as int / n as int == 1) by (nonlinear_arith)
            requires
                n > 0,
        ;
        assert((n + 1) * (n + 1) > n) by (nonlinear_arith)
            requires
                n > 0,
        ;
    }
    while y < x
        invariant
            n > 0,
            x > 0,
            y > 0,
            y <= TWO_127,
            (x + 1) * (x + 1) > n,
            y as int == (x as int + n as int / x as int) / 2,
        decreases x,
    {
        proof {
            lemma_newton_step_stays_above(n as int, x as int, y as int);
            lemma_newton_quotient_bound(n as int, y as int);
            if y >= TWO_64 {
                vstd::arithmetic::div_mod::lemma_div_is_ordered_by_denominator(
                    n as int,
                    TWO_64 as int,
                    y as int,
                );
            }
        }
        x = y;
        y = (x + n / x) / 2;
        proof {
            lemma_newton_step_stays_above(n as int, x as int, y as int);
        }
    }
    proof {
        lemma_newton_fixpoint(n as int, x as int, y as int);
        lemma_isqrt_is(n as int, x as int);
    }
    x
}

/// `floor(a_q96 * b / 2^96)`: the product of a Q96 value and an integer.
///
/// The 256-bit product is formed from 64-bit limbs and its top 160 bits are
/// kept; a result beyond one word is an overflow.
pub fn mul_shift_right_96(a_q96: u128, b: u128) -> (res: Result<u128, ContentPoolError>)
    ensures
        (a_q96 * b) / (TWO_96 as int) >= two_128() ==> res == Err::<u128, ContentPoolError>(
            ContentPoolError::NumericalOverflow,
        ),
        (a_q96 * b) / (TWO_96 as int) < two_128() ==> res == Ok::<u128, ContentPoolError>(
            ((a_q96 * b) / (TWO_96 as int)) as u128,
        ),
{
    let (hi, lo) = full_mul_128(a_q96, b);
    proof {
        lemma_wide_shift_96(hi, lo);
    }
    if hi >= TWO_96 {
        return Err(ContentPoolError::NumericalOverflow);
    }
    proof {
        lemma_product_bound(
            hi as int,
            TWO_32 as int,
            0xffff_ffff_ffff_ffff_ffff_ffff,
            0x1_0000_0000,
        );
    }
    Ok(hi * TWO_32 + lo / TWO_96)
}

/// A 256-bit number shifted right by 96 places, from its two words.
pub proof fn lemma_wide_shift_96(hi: u128, lo: u128)
    ensures
        wide(hi, lo) / (TWO_96 as int) == hi * TWO_32 + lo / TWO_96,
{
    let q = hi * TWO_32 + lo / TWO_96;
    let r = (lo % TWO_96) as int;
    assert(wide(hi, lo) == q * (TWO_96 as int) + r);
    lemma_fundamental_div_mod_converse(wide(hi, lo), TWO_96 as int, q, r);
}

/// The nearest integer to `value / divisor`, a tie going to the even neighbour.
pub open spec fn round_half_even(value: int, divisor: int) -> int {
    let q = value / divisor;
    let rem = value % divisor;
    if 2 * rem > divisor || (2 * rem == divisor && q % 2 == 1) {
        q + 1
    } else {
        q
    }
}

/// Round `value / divisor` to the nearest integer, halves to even, as a word.
pub fn round_half_even_u128(value: u128, divisor: u128) -> (r: u128)
    requires
        divisor != 0,
    ensures
        r == round_half_even(value as int, divisor as int),
{
    let quotient: u128 = value / divisor;
    let remainder: u128 = value % divisor;
    // `remainder` against half of `divisor`, without doubling it
    let rest: u128 = divisor - remainder;
    proof {
        vstd::arithmetic::div_mod::lemma_fundamental_div_mod(value as int, divisor as int);
        if remainder >= rest && quotient == u128::MAX {
            // then divisor is 1 and the remainder is 0
            assert(divisor * quotient >= quotient) by (nonlinear_arith)
                requires
                    divisor >= 1,
                    quotient >= 0,
            ;
            assert(divisor * quotient >= 2 * quotient) by (nonlinear_arith)
                requires
                    divisor >= 2,
                    quotient >= 0,
            ;
        }
    }
    if remainder > rest || (remainder == rest && quotient % 2 == 1) {
        quotient + 1
    } else {
        quotient
    }
}

/// Round `value / divisor` to the nearest integer, halves to even.
///
/// Used between display and virtual units, where a steady bias would add up.
pub fn round_to_nearest(value: u128, divisor: u128) -> (r: u64)
    requires
        divisor != 0,
        round_half_even(value as int, divisor as int) <= u64::MAX,
    ensures
        r == round_half_even(value as int, divisor as int),
{
    round_half_even_u128(value, divisor) as u64
}

/// `ceil(a / b)`; zero when `b` is zero.
pub open spec fn ceil_div_spec(a: int, b: int) -> int {
    if b == 0 {
        0
    } else {
        (a + b - 1) / b
    }
}

/// Ceiling division. It keeps a positive virtual supply from rounding to zero.
pub fn ceil_div(a: u128, b: u128) -> (r: u128)
    ensures
        r == ceil_div_spec(a as int, b as int),
{
    if b == 0 {
        return 0;
    }
    let q: u128 = a / b;
    let rem: u128 = a % b;
    proof {
        let ai = a as int;
        let bi = b as int;
        let qi = q as int;
        vstd::arithmetic::div_mod::lemma_fundamental_div_mod(ai, bi);
        vstd::arithmetic::div_mod::lemma_mod_bound(ai, bi);
        assert(bi * qi == qi * bi) by (nonlinear_arith);
        if rem == 0 {
            lemma_fundamental_div_mod_converse(ai + bi - 1, bi, qi, bi - 1);
        } else {
            assert((qi + 1) * bi == qi * bi + bi) by (nonlinear_arith);
            lemma_fundamental_div_mod_converse(ai + bi - 1, bi, qi + 1, rem - 1);
            assert(qi + 1 <= ai) by (nonlinear_arith)
                requires
                    ai == bi * qi + rem,
                    rem >= 1,
                    rem < bi,
                    qi >= 0,
            ;
        }
    }
    if rem == 0 {
        q
    } else {
        q + 1
    }
}

/// The number of binary digits of `x`: the place of its highest set bit.
pub open spec fn bit_length(x: int) -> nat
    decreases x,
{
    if x <= 0 {
        0
    } else {
        1 + bit_length(x / 2)
    }
}

/// Dropping `k` low digits of a number of more than `k` digits drops `k` from
/// its length.
pub proof fn lemma_bit_length_shift(v: int, k: nat)
    requires
        v >= pow2(k),
    ensures
        bit_length(v) == k + bit_length(v / (pow2(k) as int)),
    decreases k,
{
    lemma_pow2_pos(k);
    if k == 0 {
        lemma_pow2_values();
        assert(v / 1 == v);
    } else {
        lemma_pow2_unfold(k);
        let h = pow2((k - 1) as nat) as int;
        lemma_pow2_pos((k - 1) as nat);
        assert(v >= 2 * h);
        assert(v / 2 >= h);
        lemma_bit_length_shift(v / 2, (k - 1) as nat);
        vstd::arithmetic::div_mod::lemma_div_denominator(v, 2, h);
        assert(2 * h == pow2(k));
        assert((v / 2) / h == v / (2 * h));
        assert(bit_length(v) == 1 + bit_length(v / 2));
    }
}

/// A number below `2^k` has at most `k` digits.
pub proof fn lemma_bit_length_upper(v: int, k: nat)
    requires
        v < pow2(k),
    ensures
        bit_length(v) <= k,
    decreases k,
{
    if v > 0 {
        if k == 0 {
            lemma_pow2_values();
        } else {
            lemma_pow2_unfold(k);
            lemma_bit_length_upper(v / 2, (k - 1) as nat);
        }
    }
}

/// A positive number lies between the two powers of two that its length names.
pub proof fn lemma_bit_length_bounds(v: int)
    requires
        v > 0,
    ensures
        bit_length(v) >= 1,
        pow2((bit_length(v) - 1) as nat) <= v < pow2(bit_length(v)),
    decreases v,
{
    if v == 1 {
        reveal_with_fuel(bit_length, 2);
        lemma2_to64();
    } else {
        lemma_bit_length_bounds(v / 2);
        lemma_pow2_unfold(bit_length(v));
        lemma_pow2_unfold(bit_length(v / 2));
    }
}

/// One step of the search for the highest set bit: if `v` has more than `k`
/// digits, drop its `k` low digits and count them.
fn bitlen_step(v: u128, n: u32, k: u32) -> (r: (u128, u32))
    requires
        1 <= k <= 64,
        v < pow2((2 * k) as nat),
        n + 2 * k <= 128,
    ensures
        r.0 < pow2(k as nat),
        r.1 + bit_length(r.0 as int) == n + bit_length(v as int),
        r.1 + k <= 128,
{
    let p = pow2_u128(k);
    if v >= p {
        proof {
            lemma_bit_length_shift(v as int, k as nat);
            lemma_pow2_adds(k as nat, k as nat);
            lemma_pow2_pos(k as nat);
            vstd::arithmetic::div_mod::lemma_multiply_divide_lt(v as int, p as int, p as int);
        }
        (v / p, n + k)
    } else {
        (v, n)
    }
}

/// Bit length of a word, by halving the search interval seven times.
pub fn bitlen_u128(x: u128) -> (n: u32)
    ensures
        n == bit_length(x as int),
        n <= 128,
{
    proof {
        lemma_pow2_values();
        lemma2_to64();
    }
    let (v64, n64) = bitlen_step(x, 0, 64);
    let (v32, n32) = bitlen_step(v64, n64, 32);
    let (v16, n16) = bitlen_step(v32, n32, 16);
    let (v8, n8) = bitlen_step(v16, n16, 8);
    let (v4, n4) = bitlen_step(v8, n8, 4);
    let (v2, n2) = bitlen_step(v4, n4, 2);
    let (v1, n1) = bitlen_step(v2, n2, 1);
    proof {
        reveal_with_fuel(bit_length, 2);
    }
    if v1 >= 1 {
        n1 + 1
    } else {
        n1
    }
}

/// `2^k` as a word.
pub fn pow2_u128(k: u32) -> (p: u128)
    requires
        k < 128,
    ensures
        p == pow2(k as nat),
{
    let shift: u128 = (127 - k) as u128;
    proof {
        lemma_pow2_values();
        vstd::bits::lemma_u128_shr_is_div(TWO_127, shift);
        lemma_pow2_subtracts(shift as nat, 127);
    }
    TWO_127 >> shift
}

/// `x` shifted right by `k` places.
pub open spec fn shr_spec(x: int, k: nat) -> int {
    x / (pow2(k) as int)
}

/// `x` shifted left by `k` places within a 128-bit word: the bits that leave
/// the word are lost.
pub open spec fn shl_spec(x: int, k: nat) -> int {
    (x * pow2(k)) % two_128()
}

/// Right shift of a word.
pub fn shr_u128(x: u128, k: u32) -> (r: u128)
    requires
        k < 128,
    ensures
        r == shr_spec(x as int, k as nat),
{
    let p = pow2_u128(k);
    proof {
        lemma_pow2_pos(k as nat);
    }
    x / p
}

/// Left shift of a word.
pub fn shl_u128(x: u128, k: u32) -> (r: u128)
    requires
        k < 128,
    ensures
        r == shl_spec(x as int, k as nat),
{
    if k == 0 {
        proof {
            lemma_pow2_values();
            assert(x * 1 == x);
            vstd::arithmetic::div_mod::lemma_small_mod(x as nat, two_128() as nat);
        }
        return x;
    }
    let p = pow2_u128(k);
    let m = pow2_u128(128 - k);
    proof {
        lemma_pow2_values();
        lemma_pow2_adds((128 - k) as nat, k as nat);
        lemma_pow2_pos(k as nat);
        lemma_pow2_pos((128 - k) as nat);
        let a = (x / m) as int;
        let c = (x % m) as int;
        let pi = p as int;
        let mi = m as int;
        assert(c * pi < mi * pi) by (nonlinear_arith)
            requires
                0 <= c < mi,
                pi > 0,
        ;
        assert(c * pi >= 0) by (nonlinear_arith)
            requires
                0 <= c,
                pi > 0,
        ;
        vstd::arithmetic::div_mod::lemma_fundamental_div_mod(x as int, mi);
        assert(x * pi == a * (mi * pi) + c * pi) by (nonlinear_arith)
            requires
                x == mi * a + c,
        ;
        assert(a * two_128() == two_128() * a) by (nonlinear_arith);
        lemma_fundamental_div_mod_converse(x * pi, two_128(), a, c * pi);
    }
    (x % m) * p
}

/// The virtual supply of a side: `ceil(s * 2^64 / sigma)`, and at least 1
/// whenever the display supply `s` is positive.
pub open spec fn virtual_supply_spec(s: int, sigma: int) -> int {
    if s > 0 {
        max(ceil_div_spec(s * (TWO_64 as int), sigma), 1)
    } else {
        0
    }
}

/// Virtual supply of a side from its display supply and its gauge.
///
/// The ceiling keeps the virtual supply from collapsing to zero under a
/// large gauge. The result may exceed 64 bits.
pub fn virtual_supply(s_display: u64, sigma_q64: u128) -> (v: u128)
    ensures
        v == virtual_supply_spec(s_display as int, sigma_q64 as int),
{
    if s_display > 0 {
        proof {
            lemma_product_bound(
                s_display as int,
                TWO_64 as int,
                0xffff_ffff_ffff_ffff,
                0x1_0000_0000_0000_0000,
            );
        }
        let v = ceil_div((s_display as u128) * TWO_64, sigma_q64);
        if v < 1 {
            1
        } else {
            v
        }
    } else {
        0
    }
}

/// `vl^2 + vs^2`, held at the largest word where it would exceed it.
pub open spec fn saturating_norm_sq(vl: int, vs: int) -> int {
    min(vl * vl + vs * vs, u128::MAX as int)
}

/// Squared norm of two virtual supplies, saturating.
pub fn norm_sq_saturating(vl: u128, vs: u128) -> (n2: u128)
    ensures
        n2 == saturating_norm_sq(vl as int, vs as int),
{
    let a: u128 = match vl.checked_mul(vl) {
        Some(x) => x,
        None => u128::MAX,
    };
    let b: u128 = match vs.checked_mul(vs) {
        Some(x) => x,
        None => u128::MAX,
    };
    proof {
        assert(vl * vl >= 0) by (nonlinear_arith);
        assert(vs * vs >= 0) by (nonlinear_arith);
    }
    a.saturating_add(b)
}

/// Bit length of 2^96, the upper end of the gauge band.
pub const SIGMA_MAX_BITS: u32 = 97;

/// Bit length of 2^48, the lower end of the gauge band.
pub const SIGMA_MIN_BITS: u32 = 49;

/// Bit length of (2^16)^2, the square of the least virtual norm.
pub const NORM_MIN_SQ_BITS: u32 = 33;

/// Bit length of (2^31)^2, the square of the largest virtual norm.
pub const NORM_MAX_SQ_BITS: u32 = 63;

/// (2^16)^2.
pub const VIRTUAL_NORM_MIN_SQ: u128 = 0x1_0000_0000;

/// (2^31)^2.
pub const VIRTUAL_NORM_MAX_SQ: u128 = 0x4000_0000_0000_0000;

/// First step of the renormalization: where the larger gauge is above 2^96,
/// both are shifted right by its excess bit length.
pub open spec fn lower_gauges(sl: int, ss: int) -> (int, int) {
    let m = max(sl, ss);
    if m > SIGMA_MAX {
        let e = (bit_length(m) - SIGMA_MAX_BITS) as nat;
        (shr_spec(sl, e), shr_spec(ss, e))
    } else {
        (sl, ss)
    }
}

/// Second step: where the smaller gauge is below 2^48, both are shifted left
/// by its deficit.
pub open spec fn raise_gauges(sl: int, ss: int) -> (int, int) {
    let m = min(sl, ss);
    if m < SIGMA_MIN {
        let d = (SIGMA_MIN_BITS - bit_length(m)) as nat;
        (shl_spec(sl, d), shl_spec(ss, d))
    } else {
        (sl, ss)
    }
}

/// Third step: where the squared virtual norm is outside
/// `[(2^16)^2, (2^31)^2]`, both gauges are shifted by half the distance in
/// bits, rounded up and one more: right to raise the norm, left to lower it.
pub open spec fn fit_norm(sl: int, ss: int, s_long: int, s_short: int) -> (int, int) {
    let n2 = saturating_norm_sq(virtual_supply_spec(s_long, sl), virtual_supply_spec(s_short, ss));
    if n2 == 0 {
        (sl, ss)
    } else if n2 < VIRTUAL_NORM_MIN_SQ {
        let k = ((NORM_MIN_SQ_BITS - bit_length(n2)) / 2 + 1) as nat;
        (shr_spec(sl, k), shr_spec(ss, k))
    } else if n2 > VIRTUAL_NORM_MAX_SQ {
        let k = ((bit_length(n2) - NORM_MAX_SQ_BITS) / 2 + 1) as nat;
        (shl_spec(sl, k), shl_spec(ss, k))
    } else {
        (sl, ss)
    }
}

/// The gauges after renormalization: the three steps in turn.
pub open spec fn renormalized(sl: int, ss: int, s_long: int, s_short: int) -> (int, int) {
    let a = lower_gauges(sl, ss);
    let b = raise_gauges(a.0, a.1);
    fit_norm(b.0, b.1, s_long, s_short)
}

/// Renormalize the two gauges so that they and the virtual norm move back
/// towards their bands.
///
/// Both gauges are always shifted by the same number of bits, so their ratio
/// is kept up to the bits that a shift drops. No loop, no square root.
pub fn renormalize_scales(
    sigma_long: &mut u128,
    sigma_short: &mut u128,
    s_long_display: u64,
    s_short_display: u64,
)
    ensures
        (*final(sigma_long) as int, *final(sigma_short) as int) == renormalized(
            *old(sigma_long) as int,
            *old(sigma_short) as int,
            s_long_display as int,
            s_short_display as int,
        ),
{
    proof {
        lemma_pow2_values();
        lemma2_to64();
        vstd::arithmetic::power2::lemma2_to64_rest();
    }
    let max_sigma: u128 = if *sigma_long >= *sigma_short {
        *sigma_long
    } else {
        *sigma_short
    };
    if max_sigma > SIGMA_MAX {
        proof {
            lemma_bit_length_shift(max_sigma as int, 96);
        }
        let excess_bits: u32 = bitlen_u128(max_sigma) - SIGMA_MAX_BITS;
        *sigma_long = shr_u128(*sigma_long, excess_bits);
        *sigma_short = shr_u128(*sigma_short, excess_bits);
    }
    let min_sigma: u128 = if *sigma_long <= *sigma_short {
        *sigma_long
    } else {
        *sigma_short
    };
    if min_sigma < SIGMA_MIN {
        proof {
            lemma_bit_length_upper(min_sigma as int, 48);
        }
        let deficit_bits: u32 = SIGMA_MIN_BITS - bitlen_u128(min_sigma);
        *sigma_long = shl_u128(*sigma_long, deficit_bits);
        *sigma_short = shl_u128(*sigma_short, deficit_bits);
    }
    let s_long_virtual = virtual_supply(s_long_display, *sigma_long);
    let s_short_virtual = virtual_supply(s_short_display, *sigma_short);
    let norm_sq = norm_sq_saturating(s_long_virtual, s_short_virtual);
    if norm_sq == 0 {
        return ;
    }
    if norm_sq < VIRTUAL_NORM_MIN_SQ {
        proof {
            lemma_bit_length_upper(norm_sq as int, 32);
        }
        let k: u32 = (NORM_MIN_SQ_BITS - bitlen_u128(norm_sq)) / 2 + 1;
        *sigma_long = shr_u128(*sigma_long, k);
        *sigma_short = shr_u128(*sigma_short, k);
    } else if norm_sq > VIRTUAL_NORM_MAX_SQ {
        proof {
            lemma_bit_length_shift(norm_sq as int, 62);
        }
        let k: u32 = (bitlen_u128(norm_sq) - NORM_MAX_SQ_BITS) / 2 + 1;
        *sigma_long = shl_u128(*sigma_long, k);
        *sigma_short = shl_u128(*sigma_short, k);
    }
}

} // verus!
