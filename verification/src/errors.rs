//! The failure taxonomy of the settlement core.
//!
//! Every operation that can fail reports one of these reasons and leaves the
//! state it was given unchanged; partial updates never persist.

use vstd::prelude::*;

verus! {

/// Why an operation was rejected.
#[derive(Clone, Copy, Debug, PartialEq, Eq, Structural)]
pub enum PoolError {
    /// Bad deployment parameters: duplicate token addresses, an account
    /// address where a contract address is required, or a swap fee outside
    /// `1..=999` parts per thousand.
    InvalidConfiguration,
    /// A caller-supplied token address matches neither side of the pool.
    InvalidTokenAddress,
    /// A debit would exceed the current balance.
    InsufficientFunds,
    /// Computed liquidity shares violate a minimum: a provision that would
    /// mint zero shares, or a reclaim of at least the caller's whole
    /// position.
    InsufficientLiquidity,
    /// A swap was attempted while the pool reserves are not both positive.
    NoLiquidity,
    /// A checked 128-bit arithmetic step overflowed.
    ArithmeticOverflow,
    /// A divisor was zero. Defensive: callers are expected to have
    /// established the bootstrap-liquidity precondition first.
    DivisionByZero,
    /// The caller is not the owner of an owner-gated operation.
    Unauthorized,
}

} // verus!
