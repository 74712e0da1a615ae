//! The custodian's record.

use vstd::prelude::*;
use crate::content_pool::state::Address;

verus! {

/// The custodian.
#[derive(Clone, Copy, Debug)]
pub struct VeritasCustodian {
    /// May pay out of the vault.
    pub protocol_authority: Address,
    /// The pooled vault.
    pub usdc_vault: Address,
    /// Everything ever paid in.
    pub total_deposits: u128,
    /// Everything ever paid out.
    pub total_withdrawals: u128,
    /// While set, nothing is paid out.
    pub emergency_pause: bool,
    /// Bump seed of the custodian's derived address.
    pub bump: u8,
}

/// Something was paid in.
#[derive(Clone, Copy, Debug)]
pub struct DepositEvent {
    pub depositor: Address,
    pub amount: u64,
    pub timestamp: i64,
}

/// Something was paid out.
#[derive(Clone, Copy, Debug)]
pub struct WithdrawEvent {
    pub recipient: Address,
    pub amount: u64,
    pub authority: Address,
    pub timestamp: i64,
}

/// Least deposit: one stablecoin.
pub const MIN_DEPOSIT: u64 = 1_000_000;

/// Decimals of the stablecoin.
pub const USDC_DECIMALS: u8 = 6;

} // verus!
