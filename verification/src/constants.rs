//! Precision constants.

use vstd::prelude::*;

verus! {

/// Decimals of the stablecoin.
pub const USDC_DECIMALS: u8 = 6;

/// Least price of a token on the single-sided curve, in micro-units.
pub const PRICE_FLOOR: u128 = 100;

} // verus!
