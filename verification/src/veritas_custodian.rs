//! The custodian: one pooled vault of protocol-owned stake, paid into by
//! anyone and paid out by the protocol authority.

pub mod instructions;
pub mod state;
