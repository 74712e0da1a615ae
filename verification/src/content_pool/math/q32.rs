//! Q32.32 fixed point: 32 integer bits, 32 fraction bits.

use vstd::prelude::*;
use super::super::errors::ContentPoolError;
use super::{lemma_product_bound, TWO_32};

verus! {

/// 1.0 in Q32.32.
pub const ONE: u64 = 0x1_0000_0000;

/// Widen a Q32.32 value to Q64.64.
pub fn to_q64(q32: u64) -> (r: u128)
    ensures
        r == q32 * TWO_32,
{
    proof {
        lemma_product_bound(q32 as int, TWO_32 as int, 0xffff_ffff_ffff_ffff, 0x1_0000_0000);
    }
    (q32 as u128) * TWO_32
}

/// Narrow a Q64.64 value to Q32.32, dropping the low 32 fraction bits.
pub fn from_q64(q64: u128) -> (res: Result<u64, ContentPoolError>)
    ensures
        q64 / TWO_32 <= u64::MAX ==> res == Ok::<u64, ContentPoolError>((q64 / TWO_32) as u64),
        q64 / TWO_32 > u64::MAX ==> res == Err::<u64, ContentPoolError>(
            ContentPoolError::NumericalOverflow,
        ),
{
    let result: u128 = q64 / TWO_32;
    if result > u64::MAX as u128 {
        return Err(ContentPoolError::NumericalOverflow);
    }
    Ok(result as u64)
}

} // verus!
