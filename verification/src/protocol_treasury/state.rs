//! The treasury's record.

use vstd::prelude::*;
use crate::content_pool::state::Address;

verus! {

/// The treasury.
#[derive(Clone, Copy, Debug)]
pub struct ProtocolTreasury {
    /// May manage the treasury.
    pub authority: Address,
    /// The treasury's vault.
    pub usdc_vault: Address,
    /// Bump seed of the treasury's derived address.
    pub bump: u8,
}

} // verus!
