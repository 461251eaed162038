//! Asset classes within one pool.

use vstd::prelude::*;

verus! {

/// The role a balance plays inside one pool instance.
///
/// This is not a fungible-token identity: it is a local label scoped to the
/// pool, naming which of the pool's two external tokens an amount belongs
/// to, or marking it as a claim on the pooled liquidity.
#[derive(Clone, Copy, Debug, PartialEq, Eq, Structural)]
pub enum Token {
    /// The value representing token A, the base side of the pair.
    TokenA,
    /// The value representing token B, the quote side of the pair.
    TokenB,
    /// The value representing a liquidity token: a proportional claim on
    /// both reserves, minted on provision and burned on reclaim.
    LiquidityToken,
}

} // verus!
