//! Records of what the factory's operations did.

use vstd::prelude::*;
use crate::content_pool::state::Address;

verus! {

/// The factory was initialized.
#[derive(Clone, Copy, Debug)]
pub struct FactoryInitializedEvent {
    pub factory: Address,
    pub protocol_authority: Address,
    pub custodian: Address,
    pub total_fee_bps: u16,
    pub creator_split_bps: u16,
    pub protocol_treasury: Address,
    pub timestamp: i64,
}

/// A pool was created.
#[derive(Clone, Copy, Debug)]
pub struct PoolCreatedEvent {
    pub pool: Address,
    pub content_id: Address,
    pub creator: Address,
    pub post_creator: Address,
    pub f: u16,
    pub beta_num: u16,
    pub beta_den: u16,
    pub registry: Address,
    pub timestamp: i64,
}

/// The protocol authority was replaced.
#[derive(Clone, Copy, Debug)]
pub struct ProtocolAuthorityUpdatedEvent {
    pub factory: Address,
    pub old_authority: Address,
    pub new_authority: Address,
    pub timestamp: i64,
}

/// The factory authority was replaced.
#[derive(Clone, Copy, Debug)]
pub struct FactoryAuthorityUpdatedEvent {
    pub factory: Address,
    pub old_authority: Address,
    pub new_authority: Address,
    pub timestamp: i64,
}

/// The pool authority was replaced.
#[derive(Clone, Copy, Debug)]
pub struct PoolAuthorityUpdatedEvent {
    pub factory: Address,
    pub old_authority: Address,
    pub new_authority: Address,
    pub timestamp: i64,
}

/// The fee schedule was changed.
#[derive(Clone, Copy, Debug)]
pub struct FeeConfigUpdatedEvent {
    pub factory: Address,
    pub total_fee_bps: u16,
    pub creator_split_bps: u16,
    pub protocol_treasury: Address,
    pub updated_by: Address,
    pub timestamp: i64,
}

/// The defaults for new pools were changed.
#[derive(Clone, Copy, Debug)]
pub struct DefaultsUpdatedEvent {
    pub factory: Address,
    pub default_f: u16,
    pub default_beta_num: u16,
    pub default_beta_den: u16,
    pub default_p0: u64,
    pub min_initial_deposit: u64,
    pub min_settle_interval: i64,
    pub timestamp: i64,
}

} // verus!
