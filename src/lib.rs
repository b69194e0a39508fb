//! Proof-of-work difficulty arithmetic for block headers.
//!
//! A block header stores its target threshold as a 32-bit
//! [`difficulty::CompactDifficulty`]. This crate expands it into the 256-bit
//! [`difficulty::ExpandedDifficulty`] that block hashes are compared against,
//! derives the [`difficulty::Work`] contributed by the block, and accumulates
//! work along a chain.

pub mod block;
pub mod difficulty;
pub mod u256;
