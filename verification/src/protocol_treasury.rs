//! The treasury: it receives the protocol's share of the fees.

pub mod instructions;
pub mod state;
