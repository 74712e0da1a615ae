//! Error kinds shared by the custodian and the single-sided curve.

use vstd::prelude::*;

verus! {

/// Failure kinds outside the two-sided pool.
#[derive(Clone, Copy, Debug, PartialEq, Eq, Structural)]
pub enum ErrorCode {
    InvalidParameters,
    Unauthorized,
    InsufficientBalance,
    InsufficientReserve,
    InvalidAmount,
    NumericalOverflow,
    TransferFailed,
    InvalidFactory,
    InvalidAuthority,
    InvalidPostId,
    BelowMinimum,
    InsufficientVaultBalance,
    AlreadyInitialized,
    PoolAlreadyExists,
    InvalidVault,
    InvalidRecipient,
    InvalidMint,
    InvalidAccountingState,
    SystemPaused,
    InvalidProgramData,
    InvalidUpgradeAuthority,
}

} // verus!
