//! Creating a pool: a record with the factory's defaults, no supplies and
//! no reserves, and a registry row that makes creation happen once per
//! content.

use vstd::prelude::*;
use crate::content_pool::events::PoolInitializedEvent;
use crate::content_pool::state::{unset_address, Address, ContentPool, Q64};
use crate::pool_factory::errors::FactoryError;
use crate::pool_factory::events::PoolCreatedEvent;
use crate::pool_factory::state::{PoolFactory, PoolRegistry};

verus! {

/// What the host supplies for the creation of a pool.
#[derive(Clone, Copy, Debug)]
pub struct PoolCreation {
    pub content_id: Address,
    /// Address of the pool's record.
    pub pool_key: Address,
    /// Address of the registry row.
    pub registry_key: Address,
    /// Address of the factory's record.
    pub factory_key: Address,
    pub creator: Address,
    /// Content author, who will receive the creator's share of the fees.
    pub post_creator: Address,
    /// The custodian's stake vault.
    pub stake_vault: Address,
    pub pool_bump: u8,
    pub registry_bump: u8,
    pub now: i64,
}

/// What the creation of a pool hands back.
#[derive(Clone, Copy, Debug)]
pub struct CreatedPool {
    pub pool: ContentPool,
    pub registry: PoolRegistry,
    pub initialized: PoolInitializedEvent,
    pub created: PoolCreatedEvent,
}

/// A pool as it is created: the factory's parameters, gauges of 1.0, and
/// everything else empty.
pub open spec fn new_pool(factory: PoolFactory, c: PoolCreation) -> ContentPool {
    ContentPool {
        content_id: c.content_id,
        creator: c.creator,
        market_deployer: unset_address(),
        post_creator: c.post_creator,
        long_mint: unset_address(),
        short_mint: unset_address(),
        vault: unset_address(),
        stake_vault: c.stake_vault,
        f: factory.default_f,
        beta_num: factory.default_beta_num,
        beta_den: factory.default_beta_den,
        s_long: 0,
        s_short: 0,
        r_long: 0,
        r_short: 0,
        sqrt_price_long_x96: 0,
        sqrt_price_short_x96: 0,
        s_scale_long_q64: Q64,
        s_scale_short_q64: Q64,
        lambda_long_q96: 0,
        lambda_short_q96: 0,
        last_settle_ts: 0,
        min_settle_interval: factory.min_settle_interval,
        current_epoch: 0,
        expiration_timestamp: 0,
        last_decay_update: c.now,
        vault_balance: 0,
        initial_q: 0,
        factory: c.factory_key,
        bump: c.pool_bump,
    }
}

/// Create a pool with the factory's defaults and count it.
///
/// The new pool is not deployed, holds nothing, and meets the reserve-sum
/// invariant. On an error the factory is unchanged.
pub fn create_pool(factory: &mut PoolFactory, c: PoolCreation) -> (res: Result<
    CreatedPool,
    FactoryError,
>)
    ensures
        old(factory).total_pools == u64::MAX ==> res is Err && res->Err_0
            == FactoryError::InvalidParameters && *final(factory) == *old(factory),
        old(factory).total_pools < u64::MAX ==> (res matches Ok(made) && made.pool == new_pool(
            *old(factory),
            c,
        ) && made.registry == (PoolRegistry {
            content_id: c.content_id,
            pool_address: c.pool_key,
            creator: c.creator,
            created_at: c.now,
            bump: c.registry_bump,
        }) && made.initialized == (PoolInitializedEvent {
            pool: c.pool_key,
            content_id: c.content_id,
            creator: c.creator,
            f: old(factory).default_f,
            beta_num: old(factory).default_beta_num,
            beta_den: old(factory).default_beta_den,
            timestamp: c.now,
        }) && made.created == (PoolCreatedEvent {
            pool: c.pool_key,
            content_id: c.content_id,
            creator: c.creator,
            post_creator: c.post_creator,
            f: old(factory).default_f,
            beta_num: old(factory).default_beta_num,
            beta_den: old(factory).default_beta_den,
            registry: c.registry_key,
            timestamp: c.now,
        }) && *final(factory) == (PoolFactory {
            total_pools: (old(factory).total_pools + 1) as u64,
            ..*old(factory)
        })),
        res matches Ok(made) ==> !made.pool.is_deployed() && made.pool.reserves_match_vault(),
{
    if factory.total_pools == u64::MAX {
        return Err(FactoryError::InvalidParameters);
    }
    let f = factory.default_f;
    let beta_num = factory.default_beta_num;
    let beta_den = factory.default_beta_den;
    let pool = ContentPool {
        content_id: c.content_id,
        creator: c.creator,
        market_deployer: Address::unset(),
        post_creator: c.post_creator,
        long_mint: Address::unset(),
        short_mint: Address::unset(),
        vault: Address::unset(),
        stake_vault: c.stake_vault,
        f,
        beta_num,
        beta_den,
        s_long: 0,
        s_short: 0,
        r_long: 0,
        r_short: 0,
        sqrt_price_long_x96: 0,
        sqrt_price_short_x96: 0,
        s_scale_long_q64: Q64,
        s_scale_short_q64: Q64,
        lambda_long_q96: 0,
        lambda_short_q96: 0,
        last_settle_ts: 0,
        min_settle_interval: factory.min_settle_interval,
        current_epoch: 0,
        expiration_timestamp: 0,
        last_decay_update: c.now,
        vault_balance: 0,
        initial_q: 0,
        factory: c.factory_key,
        bump: c.pool_bump,
    };
    let registry = PoolRegistry {
        content_id: c.content_id,
        pool_address: c.pool_key,
        creator: c.creator,
        created_at: c.now,
        bump: c.registry_bump,
    };
    factory.total_pools = factory.total_pools + 1;
    Ok(
        CreatedPool {
            pool,
            registry,
            initialized: PoolInitializedEvent {
                pool: c.pool_key,
                content_id: c.content_id,
                creator: c.creator,
                f,
                beta_num,
                beta_den,
                timestamp: c.now,
            },
            created: PoolCreatedEvent {
                pool: c.pool_key,
                content_id: c.content_id,
                creator: c.creator,
                post_creator: c.post_creator,
                f,
                beta_num,
                beta_den,
                registry: c.registry_key,
                timestamp: c.now,
            },
        },
    )
}

} // verus!
