//! Outbound requests the pool hands to the host runtime.
//!
//! The pool itself performs no token transfers: it emits requests addressed
//! to the external token contracts, and the runtime delivers them. A
//! deposit additionally registers a callback that the runtime later invokes
//! with the transfer's outcome and the original payload.

use vstd::prelude::*;

use crate::address::Address;
use crate::token::Token;

verus! {

/// A transfer request addressed to the external token contract at `token`,
/// asking it to move `amount` from `from` to `to`. The `action` field is
/// the token contract's dispatch tag for the request.
#[derive(Clone, Copy, Debug, PartialEq, Eq, Structural)]
pub struct TransferRequest {
    /// The external token contract that executes the transfer.
    pub token: Address,
    /// The token contract's action tag: transfer, or transfer-from.
    pub action: u32,
    /// The party whose tokens move.
    pub from: Address,
    /// The party who receives them.
    pub to: Address,
    /// How many tokens move.
    pub amount: u128,
}

/// The payload a deposit registers with the runtime: when the pulled-funds
/// transfer settles, the runtime calls back with this payload and the
/// outcome, and only then is any balance credited.
#[derive(Clone, Copy, Debug, PartialEq, Eq, Structural)]
pub struct DepositCallback {
    /// Which side of the pool the deposit belongs to.
    pub token: Token,
    /// The deposited amount.
    pub amount: u128,
}

} // verus!
