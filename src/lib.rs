//! Settlement of one transfer between two wallets of a regtest node, and the
//! attribution of every amount of the confirmed transaction to its owner.
//!
//! The node itself is driven from outside this library: each stage here takes
//! what the node answered as plain values and decides what happens next.

pub mod text;
pub mod chain;
pub mod attribute;
pub mod funding;
pub mod settlement;
pub mod wallet;
pub mod config;
pub mod report;
