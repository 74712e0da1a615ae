//! The operations of the treasury.

pub mod initialize_treasury;
pub mod update_authority;
