//! Error kinds raised by the pool engine.

use vstd::prelude::*;

verus! {

/// Failure kinds of the pool's pricing and state transitions.
#[derive(Clone, Copy, Debug, PartialEq, Eq, Structural)]
pub enum ContentPoolError {
    InvalidExponent,
    InvalidBeta,
    InvalidFactory,
    InvalidParameter,
    MarketAlreadyDeployed,
    MarketNotDeployed,
    BelowMinimumDeposit,
    InvalidAllocation,
    TradeTooSmall,
    TradeTooLarge,
    InsufficientBalance,
    InvalidStakeSkim,
    InvalidTradeAmount,
    SlippageExceeded,
    SupplyOverflow,
    SettlementCooldown,
    InvalidBDScore,
    NoLiquidity,
    SettlementInvariantViolation,
    SettlementConvergenceFailed,
    NumericalOverflow,
    DivisionByZero,
    ReserveInvariantViolation,
    PriceCalculationFailed,
    SolverConvergenceFailed,
    Unauthorized,
    UnauthorizedProtocol,
    InvalidMint,
    InvalidVault,
    InvalidStakeVault,
    InvalidOwner,
    PositionsStillOpen,
    VaultNotEmpty,
    InvalidPostCreator,
    FeeCalculationOverflow,
    VirtualSupplyOverflow,
    TooSmallAfterRounding,
}

} // verus!
