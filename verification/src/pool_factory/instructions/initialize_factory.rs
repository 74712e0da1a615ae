//! Making the one factory.

use vstd::prelude::*;
use crate::content_pool::state::{unset_address, Address};
use crate::governance::{
    check_upgrade_authority, names_upgrade_authority, GovernanceRefusal, PROGRAM_DATA_HEAD,
};
use crate::pool_factory::errors::FactoryError;
use crate::pool_factory::events::FactoryInitializedEvent;
use crate::pool_factory::state::{
    PoolFactory, DEFAULT_BETA_DEN, DEFAULT_BETA_NUM, DEFAULT_F, DEFAULT_MIN_INITIAL_DEPOSIT,
    DEFAULT_MIN_SETTLE_INTERVAL, DEFAULT_P0,
};

verus! {

/// Largest share of a fee, in basis points: the whole.
pub const MAX_SPLIT_BPS: u16 = 10000;

/// The factory as it is first made.
pub open spec fn initial_factory(
    protocol_authority: Address,
    custodian: Address,
    total_fee_bps: u16,
    creator_split_bps: u16,
    protocol_treasury: Address,
    bump: u8,
) -> PoolFactory {
    PoolFactory {
        factory_authority: unset_address(),
        pool_authority: unset_address(),
        protocol_authority,
        total_pools: 0,
        total_fee_bps,
        creator_split_bps,
        protocol_treasury,
        default_f: DEFAULT_F,
        default_beta_num: DEFAULT_BETA_NUM,
        default_beta_den: DEFAULT_BETA_DEN,
        default_p0: DEFAULT_P0,
        min_initial_deposit: DEFAULT_MIN_INITIAL_DEPOSIT,
        min_settle_interval: DEFAULT_MIN_SETTLE_INTERVAL,
        custodian,
        bump,
    }
}

/// What `initialize_factory` returns.
pub open spec fn initialize_factory_result(
    program_data: Seq<u8>,
    upgrade_authority: Address,
    factory_key: Address,
    protocol_authority: Address,
    custodian: Address,
    total_fee_bps: u16,
    creator_split_bps: u16,
    protocol_treasury: Address,
    bump: u8,
    now: i64,
) -> Result<(PoolFactory, FactoryInitializedEvent), FactoryError> {
    if program_data.len() < PROGRAM_DATA_HEAD {
        Err(FactoryError::InvalidProgramData)
    } else if !names_upgrade_authority(program_data, upgrade_authority) {
        Err(FactoryError::InvalidUpgradeAuthority)
    } else if protocol_authority.is_unset() || custodian.is_unset() || protocol_treasury.is_unset() {
        Err(FactoryError::InvalidAuthority)
    } else if creator_split_bps > MAX_SPLIT_BPS {
        Err(FactoryError::InvalidCreatorSplit)
    } else {
        Ok(
            (
                initial_factory(
                    protocol_authority,
                    custodian,
                    total_fee_bps,
                    creator_split_bps,
                    protocol_treasury,
                    bump,
                ),
                FactoryInitializedEvent {
                    factory: factory_key,
                    protocol_authority,
                    custodian,
                    total_fee_bps,
                    creator_split_bps,
                    protocol_treasury,
                    timestamp: now,
                },
            ),
        )
    }
}

/// A governance refusal as a factory error.
pub fn refusal_as_factory_error(refusal: GovernanceRefusal) -> (e: FactoryError)
    ensures
        e == match refusal {
            GovernanceRefusal::InvalidProgramData => FactoryError::InvalidProgramData,
            GovernanceRefusal::InvalidUpgradeAuthority => FactoryError::InvalidUpgradeAuthority,
        },
{
    match refusal {
        GovernanceRefusal::InvalidProgramData => FactoryError::InvalidProgramData,
        GovernanceRefusal::InvalidUpgradeAuthority => FactoryError::InvalidUpgradeAuthority,
    }
}

/// Make the factory, with the protocol authority and the fee schedule.
///
/// Only the program's upgrade authority may do so. The defaults for new
/// pools are the built-in ones.
pub fn initialize_factory(
    program_data: &[u8],
    upgrade_authority: Address,
    factory_key: Address,
    protocol_authority: Address,
    custodian: Address,
    total_fee_bps: u16,
    creator_split_bps: u16,
    protocol_treasury: Address,
    bump: u8,
    now: i64,
) -> (res: Result<(PoolFactory, FactoryInitializedEvent), FactoryError>)
    ensures
        res == initialize_factory_result(
            program_data@,
            upgrade_authority,
            factory_key,
            protocol_authority,
            custodian,
            total_fee_bps,
            creator_split_bps,
            protocol_treasury,
            bump,
            now,
        ),
{
    match check_upgrade_authority(program_data, &upgrade_authority) {
        Ok(_) => {},
        Err(refusal) => {
            return Err(refusal_as_factory_error(refusal));
        },
    }
    if protocol_authority.is_default() || custodian.is_default() || protocol_treasury.is_default() {
        return Err(FactoryError::InvalidAuthority);
    }
    if creator_split_bps > MAX_SPLIT_BPS {
        return Err(FactoryError::InvalidCreatorSplit);
    }
    let factory = PoolFactory {
        factory_authority: Address::unset(),
        pool_authority: Address::unset(),
        protocol_authority,
        total_pools: 0,
        total_fee_bps,
        creator_split_bps,
        protocol_treasury,
        default_f: DEFAULT_F,
        default_beta_num: DEFAULT_BETA_NUM,
        default_beta_den: DEFAULT_BETA_DEN,
        default_p0: DEFAULT_P0,
        min_initial_deposit: DEFAULT_MIN_INITIAL_DEPOSIT,
        min_settle_interval: DEFAULT_MIN_SETTLE_INTERVAL,
        custodian,
        bump,
    };
    Ok(
        (
            factory,
            FactoryInitializedEvent {
                factory: factory_key,
                protocol_authority,
                custodian,
                total_fee_bps,
                creator_split_bps,
                protocol_treasury,
                timestamp: now,
            },
        ),
    )
}

} // verus!
