//! The pool: its arithmetic, its curve, its record and its transitions.

pub mod curve;
pub mod decay;
pub mod errors;
pub mod events;
pub mod host;
pub mod instructions;
pub mod laws;
pub mod math;
pub mod state;
