//! Closing an empty pool.

use vstd::prelude::*;
use crate::content_pool::errors::ContentPoolError;
use crate::content_pool::events::PoolClosedEvent;
use crate::content_pool::state::{Address, ContentPool};

verus! {

/// Who may close the pool: its creator, or the factory's pool authority.
pub open spec fn may_close(pool: ContentPool, pool_authority: Address, signer: Address) -> bool {
    signer.same_as(&pool.creator) || signer.same_as(&pool_authority)
}

/// Close the pool. It must hold no tokens on either side.
///
/// The record names what the vault held: the host pays that to the receiver
/// and closes the accounts.
pub fn handler(
    pool: &ContentPool,
    pool_key: Address,
    pool_authority: Address,
    signer: Address,
    vault_amount: u64,
    now: i64,
) -> (res: Result<PoolClosedEvent, ContentPoolError>)
    ensures
        !may_close(*pool, pool_authority, signer) ==> res == Err::<
            PoolClosedEvent,
            ContentPoolError,
        >(ContentPoolError::Unauthorized),
        may_close(*pool, pool_authority, signer) && (pool.s_long != 0 || pool.s_short != 0)
            ==> res == Err::<PoolClosedEvent, ContentPoolError>(
            ContentPoolError::PositionsStillOpen,
        ),
        may_close(*pool, pool_authority, signer) && pool.s_long == 0 && pool.s_short == 0 ==> res
            == Ok::<PoolClosedEvent, ContentPoolError>(
            PoolClosedEvent {
                pool: pool_key,
                creator: pool.creator,
                remaining_usdc: vault_amount,
                timestamp: now,
            },
        ),
{
    if !(signer.equals(&pool.creator) || signer.equals(&pool_authority)) {
        return Err(ContentPoolError::Unauthorized);
    }
    if !(pool.s_long == 0 && pool.s_short == 0) {
        return Err(ContentPoolError::PositionsStillOpen);
    }
    Ok(
        PoolClosedEvent {
            pool: pool_key,
            creator: pool.creator,
            remaining_usdc: vault_amount,
            timestamp: now,
        },
    )
}

} // verus!
