//! Changing the defaults that new pools are made with.

use vstd::prelude::*;
use crate::content_pool::state::Address;
use crate::governance::{check_upgrade_authority, names_upgrade_authority, PROGRAM_DATA_HEAD};
use crate::pool_factory::errors::FactoryError;
use crate::pool_factory::events::DefaultsUpdatedEvent;
use crate::pool_factory::instructions::initialize_factory::refusal_as_factory_error;
use crate::pool_factory::state::{PoolFactory, MAX_F, MIN_F};

verus! {

/// The changes asked for; `None` leaves a default as it is.
#[derive(Clone, Copy, Debug)]
pub struct DefaultsUpdate {
    pub default_f: Option<u16>,
    pub default_beta_num: Option<u16>,
    pub default_beta_den: Option<u16>,
    pub default_p0: Option<u64>,
    pub min_initial_deposit: Option<u64>,
    pub min_settle_interval: Option<i64>,
}

/// `new`, or `old` where nothing new is given.
pub open spec fn updated<T>(new: Option<T>, old: T) -> T {
    match new {
        Some(v) => v,
        None => old,
    }
}

/// The coupling coefficient `num / den` lies within `[0.1, 0.9]`.
pub open spec fn beta_in_range(num: int, den: int) -> bool {
    den > 0 && den <= 10 * num && 10 * num <= 9 * den
}

/// The factory with the changes made.
pub open spec fn with_defaults(factory: PoolFactory, u: DefaultsUpdate) -> PoolFactory {
    PoolFactory {
        default_f: updated(u.default_f, factory.default_f),
        default_beta_num: updated(u.default_beta_num, factory.default_beta_num),
        default_beta_den: updated(u.default_beta_den, factory.default_beta_den),
        default_p0: updated(u.default_p0, factory.default_p0),
        min_initial_deposit: updated(u.min_initial_deposit, factory.min_initial_deposit),
        min_settle_interval: updated(u.min_settle_interval, factory.min_settle_interval),
        ..factory
    }
}

/// Why the changes are refused, if they are. The checks run in this order.
pub open spec fn defaults_refusal(
    factory: PoolFactory,
    program_data: Seq<u8>,
    upgrade_authority: Address,
    u: DefaultsUpdate,
) -> Option<FactoryError> {
    let after = with_defaults(factory, u);
    if program_data.len() < PROGRAM_DATA_HEAD {
        Some(FactoryError::InvalidProgramData)
    } else if !names_upgrade_authority(program_data, upgrade_authority) {
        Some(FactoryError::InvalidUpgradeAuthority)
    } else if u.default_f matches Some(f) && !(MIN_F <= f <= MAX_F) {
        Some(FactoryError::InvalidF)
    } else if u.default_beta_num == Some(0u16) || u.default_beta_den == Some(0u16) {
        Some(FactoryError::InvalidBeta)
    } else if !beta_in_range(after.default_beta_num as int, after.default_beta_den as int) {
        Some(FactoryError::InvalidBeta)
    } else if u.default_p0 == Some(0u64) {
        Some(FactoryError::InvalidParameters)
    } else if u.min_initial_deposit == Some(0u64) {
        Some(FactoryError::InvalidMinDeposit)
    } else if u.min_settle_interval matches Some(interval) && interval <= 0 {
        Some(FactoryError::InvalidSettleInterval)
    } else {
        None
    }
}

/// Change the defaults for new pools.
///
/// Only the program's upgrade authority may do so. Every value given is
/// checked, and the coupling coefficient must lie within `[0.1, 0.9]` once
/// the changes are made. On an error the factory is unchanged.
pub fn update_defaults(
    factory: &mut PoolFactory,
    factory_key: Address,
    program_data: &[u8],
    upgrade_authority: Address,
    update: DefaultsUpdate,
    now: i64,
) -> (res: Result<DefaultsUpdatedEvent, FactoryError>)
    ensures
        match defaults_refusal(*old(factory), program_data@, upgrade_authority, update) {
            Some(e) => res == Err::<DefaultsUpdatedEvent, FactoryError>(e) && *final(factory)
                == *old(factory),
            None => *final(factory) == with_defaults(*old(factory), update) && res == Ok::<
                DefaultsUpdatedEvent,
                FactoryError,
            >(
                DefaultsUpdatedEvent {
                    factory: factory_key,
                    default_f: final(factory).default_f,
                    default_beta_num: final(factory).default_beta_num,
                    default_beta_den: final(factory).default_beta_den,
                    default_p0: final(factory).default_p0,
                    min_initial_deposit: final(factory).min_initial_deposit,
                    min_settle_interval: final(factory).min_settle_interval,
                    timestamp: now,
                },
            ),
        },
{
    match check_upgrade_authority(program_data, &upgrade_authority) {
        Ok(_) => {},
        Err(refusal) => {
            return Err(refusal_as_factory_error(refusal));
        },
    }
    let mut after: PoolFactory = *factory;
    match update.default_f {
        Some(f) => {
            if !(f >= MIN_F && f <= MAX_F) {
                return Err(FactoryError::InvalidF);
            }
            after.default_f = f;
        },
        None => {},
    }
    match update.default_beta_num {
        Some(num) => {
            if num == 0 {
                return Err(FactoryError::InvalidBeta);
            }
            after.default_beta_num = num;
        },
        None => {},
    }
    match update.default_beta_den {
        Some(den) => {
            if den == 0 {
                return Err(FactoryError::InvalidBeta);
            }
            after.default_beta_den = den;
        },
        None => {},
    }
    let num: u32 = after.default_beta_num as u32;
    let den: u32 = after.default_beta_den as u32;
    if !(den > 0 && den <= 10 * num && 10 * num <= 9 * den) {
        return Err(FactoryError::InvalidBeta);
    }
    match update.default_p0 {
        Some(p0) => {
            if p0 == 0 {
                return Err(FactoryError::InvalidParameters);
            }
            after.default_p0 = p0;
        },
        None => {},
    }
    match update.min_initial_deposit {
        Some(min_deposit) => {
            if min_deposit == 0 {
                return Err(FactoryError::InvalidMinDeposit);
            }
            after.min_initial_deposit = min_deposit;
        },
        None => {},
    }
    match update.min_settle_interval {
        Some(interval) => {
            if interval <= 0 {
                return Err(FactoryError::InvalidSettleInterval);
            }
            after.min_settle_interval = interval;
        },
        None => {},
    }
    *factory = after;
    Ok(
        DefaultsUpdatedEvent {
            factory: factory_key,
            default_f: after.default_f,
            default_beta_num: after.default_beta_num,
            default_beta_den: after.default_beta_den,
            default_p0: after.default_p0,
            min_initial_deposit: after.min_initial_deposit,
            min_settle_interval: after.min_settle_interval,
            timestamp: now,
        },
    )
}

} // verus!
