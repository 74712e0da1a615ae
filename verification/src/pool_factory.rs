//! The factory: defaults and fee schedule that every pool is made with.

pub mod errors;
pub mod events;
pub mod instructions;
pub mod state;
