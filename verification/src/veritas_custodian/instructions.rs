//! The operations of the custodian.

pub mod deposit;
pub mod initialize_custodian;
pub mod toggle_emergency_pause;
pub mod update_protocol_authority;
pub mod withdraw;
