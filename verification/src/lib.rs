//! A custodial vault that issues a wrapped token for the native value it holds.

pub mod bank;
pub mod call;
pub mod errors;
pub mod events;
pub mod identity;
pub mod instructions;
pub mod laws;
pub mod native;
pub mod state;
pub mod token;
