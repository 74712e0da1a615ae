//! Pricing and settlement engine of a two-sided content-curation market.
//!
//! Every pool holds a LONG and a SHORT token against one stablecoin reserve.
//! The price of each side is set by a coupled bonding curve, so it depends on
//! both supplies. An oracle's score settles an epoch by moving value between
//! the two sides; a gauge on each side keeps the numbers of the curve in range
//! across settlements.
//!
//! - `content_pool::math`: the fixed-point kernel.
//! - `content_pool::curve`: cost, prices, and the buy and sell solvers.
//! - `content_pool::state`: the pool record and the constants.
//! - `content_pool::instructions`: the transitions of a pool. Each takes the
//!   pool and plain values, such as the balance of the reserve account and
//!   the time, and returns what the host has to move and emit.
//! - `content_pool::decay`: the drift of an expired pool.
//! - `content_pool::laws`: what holds of the curve for all inputs.
//! - `content_pool::host`: the three calls into the host's SDKs, which derive
//!   an address and read a stored token account and a stored mint. Their
//!   contracts are believed, not proved; everything else is proved.
//! - `pool_factory`, `veritas_custodian`, `protocol_treasury`, `governance`:
//!   the records around the pools and who may change them.
//!
//! Nothing here moves a token or looks at a clock: the host hands in what it
//! read and carries out what comes back.

pub mod constants;
pub mod content_pool;
pub mod errors;
pub mod governance;
pub mod pool_factory;
pub mod protocol_treasury;
pub mod utils;
pub mod veritas_custodian;

pub use content_pool::state::{TokenSide, TradeType};
