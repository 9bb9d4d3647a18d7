//! Order-management core: the per-order lifecycle state machine with its
//! journal rebuild, and small trading helpers.

pub mod lifecycle;
pub mod text;
pub mod simulation;
pub mod models;
pub mod persistence;
pub mod utils;
pub mod parity_gate;
