//! A verified two-player Battleship engine: board commitments, the
//! turn-locked attack and reveal protocol, wager escrow and delegated
//! sessions, with every outside interaction handed back to the caller as a
//! plain value.

pub mod address;
pub mod arith;
pub mod board;
pub mod codec;
pub mod combat;
pub mod config;
pub mod contract;
pub mod effect;
pub mod error;
pub mod escrow;
pub mod game;
pub mod laws;
pub mod noir_verifier;
pub mod session;
pub mod step;
pub mod store;
