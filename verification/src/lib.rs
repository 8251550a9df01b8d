//! A verified core for a Stellar/Soroban router toolkit.
pub mod fees;
pub mod harness;
pub mod session;
pub mod text;
pub mod timelock;
