//! Settlement core of a constant-product automated market maker.
//!
//! The crate is organised around four pieces: a per-account, per-asset-class
//! balance ledger with zero-balance garbage collection (`ledger`), pure
//! integer invariant math for swap pricing and liquidity minting/burning
//! (`math`), the pool state machine that orchestrates deposits, swaps,
//! withdrawals and liquidity provision against the ledger (`pool`), and the
//! factory/registry layer that records which pool serves which token pair
//! (`registry`).
//!
//! All amounts are unsigned 128-bit integers; every arithmetic step is
//! checked, every division is floor division, and the pool never rounds in
//! the user's favor.

pub mod address;
pub mod balance;
pub mod errors;
pub mod events;
pub mod ledger;
pub mod math;
pub mod msg;
pub mod pool;
pub mod registry;
pub mod token;
mod wide;
