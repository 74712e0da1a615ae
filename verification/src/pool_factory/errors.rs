//! Error kinds of the factory.

use vstd::prelude::*;

verus! {

/// Failure kinds of the factory's operations.
#[derive(Clone, Copy, Debug, PartialEq, Eq, Structural)]
pub enum FactoryError {
    AlreadyInitialized,
    InvalidAuthority,
    PoolAlreadyExists,
    InvalidContentId,
    InvalidParameters,
    Unauthorized,
    UnauthorizedProtocol,
    InvalidF,
    InvalidBeta,
    InvalidMinDeposit,
    InvalidSettleInterval,
    InvalidUpgradeAuthority,
    InvalidProgramData,
    InvalidFeeConfiguration,
    InvalidCreatorSplit,
    FeeCalculationOverflow,
}

impl FactoryError {
    /// The number under which the host reports the error.
    pub fn code(&self) -> (c: u32)
        ensures
            c == match *self {
                FactoryError::AlreadyInitialized => 7000u32,
                FactoryError::InvalidAuthority => 7001u32,
                FactoryError::PoolAlreadyExists => 7010u32,
                FactoryError::InvalidContentId => 7011u32,
                FactoryError::InvalidParameters => 7012u32,
                FactoryError::Unauthorized => 7020u32,
                FactoryError::UnauthorizedProtocol => 7021u32,
                FactoryError::InvalidF => 7030u32,
                FactoryError::InvalidBeta => 7031u32,
                FactoryError::InvalidMinDeposit => 7032u32,
                FactoryError::InvalidSettleInterval => 7033u32,
                FactoryError::InvalidUpgradeAuthority => 7040u32,
                FactoryError::InvalidProgramData => 7041u32,
                FactoryError::InvalidFeeConfiguration => 7042u32,
                FactoryError::InvalidCreatorSplit => 7043u32,
                FactoryError::FeeCalculationOverflow => 7044u32,
            },
    {
        match *self {
            FactoryError::AlreadyInitialized => 7000,
            FactoryError::InvalidAuthority => 7001,
            FactoryError::PoolAlreadyExists => 7010,
            FactoryError::InvalidContentId => 7011,
            FactoryError::InvalidParameters => 7012,
            FactoryError::Unauthorized => 7020,
            FactoryError::UnauthorizedProtocol => 7021,
            FactoryError::InvalidF => 7030,
            FactoryError::InvalidBeta => 7031,
            FactoryError::InvalidMinDeposit => 7032,
            FactoryError::InvalidSettleInterval => 7033,
            FactoryError::InvalidUpgradeAuthority => 7040,
            FactoryError::InvalidProgramData => 7041,
            FactoryError::InvalidFeeConfiguration => 7042,
            FactoryError::InvalidCreatorSplit => 7043,
            FactoryError::FeeCalculationOverflow => 7044,
        }
    }
}

} // verus!
