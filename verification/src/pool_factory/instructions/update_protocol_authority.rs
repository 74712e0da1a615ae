//! Replacing the protocol authority.

use vstd::prelude::*;
use crate::content_pool::state::Address;
use crate::governance::{check_upgrade_authority, names_upgrade_authority, PROGRAM_DATA_HEAD};
use crate::pool_factory::errors::FactoryError;
use crate::pool_factory::events::ProtocolAuthorityUpdatedEvent;
use crate::pool_factory::instructions::initialize_factory::refusal_as_factory_error;
use crate::pool_factory::state::PoolFactory;

verus! {

/// Replace the authority that co-signs trades and settles epochs.
///
/// Only the program's upgrade authority may do so, and the new authority
/// must be set. On an error the factory is unchanged.
pub fn update_protocol_authority(
    factory: &mut PoolFactory,
    factory_key: Address,
    program_data: &[u8],
    upgrade_authority: Address,
    new_authority: Address,
    now: i64,
) -> (res: Result<ProtocolAuthorityUpdatedEvent, FactoryError>)
    ensures
        program_data@.len() < PROGRAM_DATA_HEAD ==> res == Err::<
            ProtocolAuthorityUpdatedEvent,
            FactoryError,
        >(FactoryError::InvalidProgramData),
        program_data@.len() >= PROGRAM_DATA_HEAD && !names_upgrade_authority(
            program_data@,
            upgrade_authority,
        ) ==> res == Err::<ProtocolAuthorityUpdatedEvent, FactoryError>(
            FactoryError::InvalidUpgradeAuthority,
        ),
        names_upgrade_authority(program_data@, upgrade_authority) && new_authority.is_unset()
            ==> res == Err::<ProtocolAuthorityUpdatedEvent, FactoryError>(
            FactoryError::InvalidAuthority,
        ),
        names_upgrade_authority(program_data@, upgrade_authority) && !new_authority.is_unset()
            ==> res == Ok::<ProtocolAuthorityUpdatedEvent, FactoryError>(
            ProtocolAuthorityUpdatedEvent {
                factory: factory_key,
                old_authority: old(factory).protocol_authority,
                new_authority,
                timestamp: now,
            },
        ) && *final(factory) == (PoolFactory { protocol_authority: new_authority, ..*old(factory) }),
        res is Err ==> *final(factory) == *old(factory),
{
    match check_upgrade_authority(program_data, &upgrade_authority) {
        Ok(_) => {},
        Err(refusal) => {
            return Err(refusal_as_factory_error(refusal));
        },
    }
    if new_authority.is_default() {
        return Err(FactoryError::InvalidAuthority);
    }
    let old_authority = factory.protocol_authority;
    factory.protocol_authority = new_authority;
    Ok(
        ProtocolAuthorityUpdatedEvent {
            factory: factory_key,
            old_authority,
            new_authority,
            timestamp: now,
        },
    )
}

} // verus!
