//! Changing the fee schedule.

use vstd::prelude::*;
use crate::content_pool::state::Address;
use crate::governance::{check_upgrade_authority, names_upgrade_authority, PROGRAM_DATA_HEAD};
use crate::pool_factory::errors::FactoryError;
use crate::pool_factory::events::FeeConfigUpdatedEvent;
use crate::pool_factory::instructions::initialize_factory::{
    refusal_as_factory_error, MAX_SPLIT_BPS,
};
use crate::pool_factory::instructions::update_defaults::updated;
use crate::pool_factory::state::PoolFactory;

verus! {

/// The factory with the fee schedule changed.
pub open spec fn with_fee_config(
    factory: PoolFactory,
    new_total_fee_bps: Option<u16>,
    new_creator_split_bps: Option<u16>,
    new_protocol_treasury: Option<Address>,
) -> PoolFactory {
    PoolFactory {
        total_fee_bps: updated(new_total_fee_bps, factory.total_fee_bps),
        creator_split_bps: updated(new_creator_split_bps, factory.creator_split_bps),
        protocol_treasury: updated(new_protocol_treasury, factory.protocol_treasury),
        ..factory
    }
}

/// Why the change is refused, if it is.
pub open spec fn fee_config_refusal(
    program_data: Seq<u8>,
    upgrade_authority: Address,
    new_creator_split_bps: Option<u16>,
) -> Option<FactoryError> {
    if program_data.len() < PROGRAM_DATA_HEAD {
        Some(FactoryError::InvalidProgramData)
    } else if !names_upgrade_authority(program_data, upgrade_authority) {
        Some(FactoryError::InvalidUpgradeAuthority)
    } else if new_creator_split_bps matches Some(split) && split > MAX_SPLIT_BPS {
        Some(FactoryError::InvalidCreatorSplit)
    } else {
        None
    }
}

/// Change the fee, the creator's share of it, or the treasury; `None`
/// leaves a value as it is.
///
/// Only the program's upgrade authority may do so. On an error the factory
/// is unchanged.
pub fn update_fee_config(
    factory: &mut PoolFactory,
    factory_key: Address,
    program_data: &[u8],
    upgrade_authority: Address,
    new_total_fee_bps: Option<u16>,
    new_creator_split_bps: Option<u16>,
    new_protocol_treasury: Option<Address>,
    now: i64,
) -> (res: Result<FeeConfigUpdatedEvent, FactoryError>)
    ensures
        match fee_config_refusal(program_data@, upgrade_authority, new_creator_split_bps) {
            Some(e) => res == Err::<FeeConfigUpdatedEvent, FactoryError>(e) && *final(factory)
                == *old(factory),
            None => *final(factory) == with_fee_config(
                *old(factory),
                new_total_fee_bps,
                new_creator_split_bps,
                new_protocol_treasury,
            ) && res == Ok::<FeeConfigUpdatedEvent, FactoryError>(
                FeeConfigUpdatedEvent {
                    factory: factory_key,
                    total_fee_bps: final(factory).total_fee_bps,
                    creator_split_bps: final(factory).creator_split_bps,
                    protocol_treasury: final(factory).protocol_treasury,
                    updated_by: upgrade_authority,
                    timestamp: now,
                },
            ),
        },
{
    match check_upgrade_authority(program_data, &upgrade_authority) {
        Ok(_) => {},
        Err(refusal) => {
            return Err(refusal_as_factory_error(refusal));
        },
    }
    let mut after: PoolFactory = *factory;
    match new_total_fee_bps {
        Some(fee) => {
            after.total_fee_bps = fee;
        },
        None => {},
    }
    match new_creator_split_bps {
        Some(split) => {
            if split > MAX_SPLIT_BPS {
                return Err(FactoryError::InvalidCreatorSplit);
            }
            after.creator_split_bps = split;
        },
        None => {},
    }
    match new_protocol_treasury {
        Some(treasury) => {
            after.protocol_treasury = treasury;
        },
        None => {},
    }
    *factory = after;
    Ok(
        FeeConfigUpdatedEvent {
            factory: factory_key,
            total_fee_bps: after.total_fee_bps,
            creator_split_bps: after.creator_split_bps,
            protocol_treasury: after.protocol_treasury,
            updated_by: upgrade_authority,
            timestamp: now,
        },
    )
}

} // verus!
