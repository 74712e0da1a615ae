//! Q64.64 fixed point: 64 integer bits, 64 fraction bits.

use vstd::prelude::*;
use super::super::errors::ContentPoolError;
use super::{
    div_256_by_128, full_mul_128, is_floor_sqrt, isqrt, isqrt_u128, lemma_isqrt_is,
    lemma_newton_fixpoint, lemma_newton_step_stays_above, lemma_product_bound, two_128, wide,
    TWO_64,
};

verus! {

/// 1.0 in Q64.64.
pub const ONE: u128 = 0x1_0000_0000_0000_0000;

/// 0.5 in Q64.64.
pub const HALF: u128 = 0x8000_0000_0000_0000;

/// The integer `n` as a Q64.64 value.
pub fn from_u64(n: u64) -> (r: u128)
    ensures
        r == n * TWO_64,
{
    proof {
        lemma_product_bound(
            n as int,
            TWO_64 as int,
            0xffff_ffff_ffff_ffff,
            0x1_0000_0000_0000_0000,
        );
    }
    (n as u128) * TWO_64
}

/// The integer part of a Q64.64 value.
pub fn to_u64(q: u128) -> (res: Result<u64, ContentPoolError>)
    ensures
        res == Ok::<u64, ContentPoolError>((q / TWO_64) as u64),
{
    let result: u128 = q / TWO_64;
    Ok(result as u64)
}

/// The raw bits of a Q64.64 value.
pub fn to_u128(q: u128) -> (r: u128)
    ensures
        r == q,
{
    q
}

/// Product of two Q64.64 values: `floor(a * b / 2^64)`.
pub fn mul(a: u128, b: u128) -> (res: Result<u128, ContentPoolError>)
    ensures
        (a * b) / (TWO_64 as int) < two_128() ==> res == Ok::<u128, ContentPoolError>(
            ((a * b) / (TWO_64 as int)) as u128,
        ),
        (a * b) / (TWO_64 as int) >= two_128() ==> res == Err::<u128, ContentPoolError>(
            ContentPoolError::NumericalOverflow,
        ),
{
    let (hi, lo) = full_mul_128(a, b);
    proof {
        let q = hi * TWO_64 + lo / TWO_64;
        let r = (lo % TWO_64) as int;
        assert(wide(hi, lo) == q * (TWO_64 as int) + r);
        vstd::arithmetic::div_mod::lemma_fundamental_div_mod_converse(
            wide(hi, lo),
            TWO_64 as int,
            q,
            r,
        );
    }
    if hi >= TWO_64 {
        return Err(ContentPoolError::NumericalOverflow);
    }
    proof {
        lemma_product_bound(
            hi as int,
            TWO_64 as int,
            0xffff_ffff_ffff_ffff,
            0x1_0000_0000_0000_0000,
        );
    }
    Ok(hi * TWO_64 + lo / TWO_64)
}

/// Quotient of two Q64.64 values: `floor(a * 2^64 / b)`.
pub fn div(a: u128, b: u128) -> (res: Result<u128, ContentPoolError>)
    ensures
        b == 0 ==> res == Err::<u128, ContentPoolError>(ContentPoolError::DivisionByZero),
        b != 0 && (a * TWO_64) / (b as int) >= two_128() ==> res == Err::<u128, ContentPoolError>(
            ContentPoolError::NumericalOverflow,
        ),
        b != 0 && (a * TWO_64) / (b as int) < two_128() ==> res == Ok::<u128, ContentPoolError>(
            ((a * TWO_64) / (b as int)) as u128,
        ),
{
    if b == 0 {
        return Err(ContentPoolError::DivisionByZero);
    }
    proof {
        lemma_product_bound(
            (a % TWO_64) as int,
            TWO_64 as int,
            0xffff_ffff_ffff_ffff,
            0x1_0000_0000_0000_0000,
        );
    }
    let hi: u128 = a / TWO_64;
    let lo: u128 = (a % TWO_64) * TWO_64;
    proof {
        assert(wide(hi, lo) == a * TWO_64);
        super::lemma_quotient_fits(hi, lo, b);
    }
    div_256_by_128(hi, lo, b)
}

/// A point at or above the root lies above the integer part of `n`, so the
/// quotient of a Newton step fits one word.
proof fn lemma_iterate_above_integer_part(n: int, x: int)
    requires
        0 < n < two_128(),
        0 < x,
        (x + 1) * (x + 1) > n * TWO_64,
    ensures
        x > n / (TWO_64 as int),
{
    let h = n / (TWO_64 as int);
    if x <= h {
        assert(h >= 1);
        assert((x + 1) * (x + 1) <= (h + 1) * (h + 1)) by (nonlinear_arith)
            requires
                0 < x <= h,
        ;
        assert((h + 1) * (h + 1) <= h * two_128()) by (nonlinear_arith)
            requires
                1 <= h < TWO_64,
                two_128() == TWO_64 * TWO_64,
        ;
        assert(h * two_128() <= n * TWO_64) by (nonlinear_arith)
            requires
                h * TWO_64 <= n,
                two_128() == TWO_64 * TWO_64,
        ;
    }
}

/// Square root of a Q64.64 value, in Q64.64: `floor(sqrt(n * 2^64))`.
///
/// Newton's iteration on Q64.64 values. The seed is the integer square root
/// of the integer part, plus one, which lies above the root; from there the
/// iterates descend to it.
pub fn sqrt(n: u128) -> (res: Result<u128, ContentPoolError>)
    ensures
        res == Ok::<u128, ContentPoolError>(isqrt(n * TWO_64) as u128),
        is_floor_sqrt(n * TWO_64, isqrt(n * TWO_64)),
        isqrt(n * TWO_64) < two_128(),
{
    if n == 0 {
        proof {
            lemma_isqrt_is(0, 0);
        }
        return Ok(0);
    }
    let ghost big: int = n * TWO_64;
    let int_part: u128 = n / TWO_64;
    let root: u128 = isqrt_u128(int_part);
    proof {
        // root * root <= int_part < 2^64, so root < 2^32
        if root >= 0x1_0000_0000 {
            assert(root * root >= 0x1_0000_0000 * 0x1_0000_0000) by (nonlinear_arith)
                requires
                    root >= 0x1_0000_0000,
            ;
        }
    }
    proof {
        lemma_product_bound(
            root + 1,
            TWO_64 as int,
            0x1_0000_0000,
            0x1_0000_0000_0000_0000,
        );
    }
    let mut x: u128 = (root + 1) * TWO_64;
    proof {
        let r1 = root as int + 1;
        assert((x + 1) * (x + 1) > (r1 * r1) * two_128()) by (nonlinear_arith)
            requires
                x == r1 * TWO_64,
                r1 > 0,
                two_128() == TWO_64 * TWO_64,
        ;
        assert((r1 * r1) * two_128() >= (int_part + 1) * two_128()) by (nonlinear_arith)
            requires
                r1 * r1 >= int_part + 1,
        ;
        assert((int_part + 1) * two_128() > n * TWO_64) by (nonlinear_arith)
            requires
                n < (int_part + 1) * TWO_64,
                two_128() == TWO_64 * TWO_64,
        ;
    }
    proof {
        lemma_product_bound(
            (n % TWO_64) as int,
            TWO_64 as int,
            0xffff_ffff_ffff_ffff,
            0x1_0000_0000_0000_0000,
        );
    }
    let hi: u128 = n / TWO_64;
    let lo: u128 = (n % TWO_64) * TWO_64;
    assert(wide(hi, lo) == big);
    loop
        invariant
            0 < n,
            big == n * TWO_64,
            wide(hi, lo) == big,
            hi == n / TWO_64,
            0 < x,
            (x + 1) * (x + 1) > big,
        decreases x,
    {
        proof {
            lemma_iterate_above_integer_part(n as int, x as int);
            super::lemma_quotient_fits(hi, lo, x);
        }
        let quotient: u128 = match div_256_by_128(hi, lo, x) {
            Ok(v) => v,
            Err(_) => {
                return Err(ContentPoolError::NumericalOverflow);
            },
        };
        // (x + quotient) / 2 without forming the sum
        let y: u128 = x / 2 + quotient / 2 + (x % 2 + quotient % 2) / 2;
        proof {
            assert(y as int == (x as int + big / (x as int)) / 2);
            lemma_newton_step_stays_above(big, x as int, y as int);
        }
        if y >= x {
            proof {
                lemma_newton_fixpoint(big, x as int, y as int);
                lemma_isqrt_is(big, x as int);
            }
            return Ok(x);
        }
        x = y;
    }
}

} // verus!
