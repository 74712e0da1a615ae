//! The factory record and its defaults.

use vstd::prelude::*;
use crate::content_pool::state::Address;

verus! {

/// The one factory: authorities, fee schedule, and the defaults copied into
/// every new pool.
#[derive(Clone, Copy, Debug)]
pub struct PoolFactory {
    /// May replace both authorities.
    pub factory_authority: Address,
    /// Authority for pool operations.
    pub pool_authority: Address,
    /// Authority that co-signs trades and settles epochs.
    pub protocol_authority: Address,
    /// Pools created so far.
    pub total_pools: u64,
    /// Trading fee, in basis points of the amount traded.
    pub total_fee_bps: u16,
    /// The creator's share of the fee, in basis points of the fee.
    pub creator_split_bps: u16,
    /// Receives the protocol's share of the fee.
    pub protocol_treasury: Address,
    /// Growth exponent given to new pools.
    pub default_f: u16,
    /// Coupling numerator given to new pools.
    pub default_beta_num: u16,
    /// Coupling denominator given to new pools.
    pub default_beta_den: u16,
    /// Initial price of a token, in micro-units of the stablecoin.
    pub default_p0: u64,
    /// Least deposit that deploys a market.
    pub min_initial_deposit: u64,
    /// Cooldown between settlements given to new pools, in seconds.
    pub min_settle_interval: i64,
    /// The custodian that holds protocol-owned stake.
    pub custodian: Address,
    /// Bump seed of the factory's derived address.
    pub bump: u8,
}

/// One row per content identifier: it makes pool creation idempotent.
#[derive(Clone, Copy, Debug)]
pub struct PoolRegistry {
    pub content_id: Address,
    pub pool_address: Address,
    pub creator: Address,
    pub created_at: i64,
    pub bump: u8,
}

/// Growth exponent of new pools.
pub const DEFAULT_F: u16 = 1;

/// Coupling numerator of new pools.
pub const DEFAULT_BETA_NUM: u16 = 1;

/// Coupling denominator of new pools.
pub const DEFAULT_BETA_DEN: u16 = 2;

/// Initial price: one stablecoin per token.
pub const DEFAULT_P0: u64 = 1_000_000;

/// Least initial deposit: 50 stablecoins.
pub const DEFAULT_MIN_INITIAL_DEPOSIT: u64 = 50_000_000;

/// Cooldown between settlements: two hours.
pub const DEFAULT_MIN_SETTLE_INTERVAL: i64 = 7200;

/// Least growth exponent that the factory accepts as a default.
pub const MIN_F: u16 = 1;

/// Largest growth exponent that the factory accepts as a default.
pub const MAX_F: u16 = 10;

} // verus!
