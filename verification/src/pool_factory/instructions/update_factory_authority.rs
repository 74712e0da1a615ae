//! Handing the factory over.

use vstd::prelude::*;
use crate::content_pool::state::Address;
use crate::pool_factory::errors::FactoryError;
use crate::pool_factory::events::FactoryAuthorityUpdatedEvent;
use crate::pool_factory::state::PoolFactory;

verus! {

/// Replace the factory authority. Only the present factory authority may do
/// so, and the new authority must be set. On an error the factory is
/// unchanged.
pub fn update_factory_authority(
    factory: &mut PoolFactory,
    factory_key: Address,
    authority: Address,
    new_factory_authority: Address,
    now: i64,
) -> (res: Result<FactoryAuthorityUpdatedEvent, FactoryError>)
    ensures
        !authority.same_as(&old(factory).factory_authority) ==> res == Err::<
            FactoryAuthorityUpdatedEvent,
            FactoryError,
        >(FactoryError::Unauthorized),
        authority.same_as(&old(factory).factory_authority) && new_factory_authority.is_unset()
            ==> res == Err::<FactoryAuthorityUpdatedEvent, FactoryError>(
            FactoryError::InvalidAuthority,
        ),
        authority.same_as(&old(factory).factory_authority) && !new_factory_authority.is_unset()
            ==> res == Ok::<FactoryAuthorityUpdatedEvent, FactoryError>(
            FactoryAuthorityUpdatedEvent {
                factory: factory_key,
                old_authority: old(factory).factory_authority,
                new_authority: new_factory_authority,
                timestamp: now,
            },
        ) && *final(factory) == (PoolFactory {
            factory_authority: new_factory_authority,
            ..*old(factory)
        }),
        res is Err ==> *final(factory) == *old(factory),
{
    if !authority.equals(&factory.factory_authority) {
        return Err(FactoryError::Unauthorized);
    }
    if new_factory_authority.is_default() {
        return Err(FactoryError::InvalidAuthority);
    }
    let old_authority = factory.factory_authority;
    factory.factory_authority = new_factory_authority;
    Ok(
        FactoryAuthorityUpdatedEvent {
            factory: factory_key,
            old_authority,
            new_authority: new_factory_authority,
            timestamp: now,
        },
    )
}

} // verus!
