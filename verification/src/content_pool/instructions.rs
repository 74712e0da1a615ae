//! The state transitions of a pool.

pub mod add_liquidity;
pub mod close_pool;
pub mod deploy_market;
pub mod get_current_state;
pub mod settle_epoch;
pub mod trade;
