//! Replacing the authority for pool operations.

use vstd::prelude::*;
use crate::content_pool::state::Address;
use crate::pool_factory::errors::FactoryError;
use crate::pool_factory::events::PoolAuthorityUpdatedEvent;
use crate::pool_factory::state::PoolFactory;

verus! {

/// Replace the pool authority. Only the factory authority may do so, and
/// the new authority must be set. On an error the factory is unchanged.
pub fn update_pool_authority(
    factory: &mut PoolFactory,
    factory_key: Address,
    authority: Address,
    new_pool_authority: Address,
    now: i64,
) -> (res: Result<PoolAuthorityUpdatedEvent, FactoryError>)
    ensures
        !authority.same_as(&old(factory).factory_authority) ==> res == Err::<
            PoolAuthorityUpdatedEvent,
            FactoryError,
        >(FactoryError::Unauthorized),
        authority.same_as(&old(factory).factory_authority) && new_pool_authority.is_unset()
            ==> res == Err::<PoolAuthorityUpdatedEvent, FactoryError>(
            FactoryError::InvalidAuthority,
        ),
        authority.same_as(&old(factory).factory_authority) && !new_pool_authority.is_unset()
            ==> res == Ok::<PoolAuthorityUpdatedEvent, FactoryError>(
            PoolAuthorityUpdatedEvent {
                factory: factory_key,
                old_authority: old(factory).pool_authority,
                new_authority: new_pool_authority,
                timestamp: now,
            },
        ) && *final(factory) == (PoolFactory { pool_authority: new_pool_authority, ..*old(factory) }),
        res is Err ==> *final(factory) == *old(factory),
{
    if !authority.equals(&factory.factory_authority) {
        return Err(FactoryError::Unauthorized);
    }
    if new_pool_authority.is_default() {
        return Err(FactoryError::InvalidAuthority);
    }
    let old_authority = factory.pool_authority;
    factory.pool_authority = new_pool_authority;
    Ok(
        PoolAuthorityUpdatedEvent {
            factory: factory_key,
            old_authority,
            new_authority: new_pool_authority,
            timestamp: now,
        },
    )
}

} // verus!
