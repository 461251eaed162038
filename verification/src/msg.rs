//! Wrap messages for pools whose base side wraps an externally issued
//! coin behind a native fungible-token interface.
//!
//! A wrap message asks such a token contract to pull `amount` of the
//! underlying coin and mint the wrapped equivalent; as an outbound event
//! it is one interaction carrying the amount as its single argument.

use vstd::prelude::*;

use crate::address::Address;

verus! {

/// The action tag under which a wrapping token contract accepts a wrap
/// request.
pub const WRAP_ACTION: u32 = 0x17;

/// One outbound interaction: a call of `action` on the contract at
/// `dest`, carrying a single amount argument.
#[derive(Clone, Copy, Debug, PartialEq, Eq, Structural)]
pub struct Interaction {
    /// The contract the call is addressed to.
    pub dest: Address,
    /// The contract's dispatch tag for the call.
    pub action: u32,
    /// The call's single argument.
    pub argument: u128,
}

/// A request to wrap `amount` of an externally issued coin.
#[derive(Clone, Copy, Debug, PartialEq, Eq, Structural)]
pub struct WrapMsg {
    /// How much of the underlying coin to wrap.
    pub amount: u128,
}

impl WrapMsg {
    /// This message as the outbound interaction addressed to the token
    /// contract at `dest`: the wrap action tag with the amount as its
    /// argument.
    pub fn as_interaction(&self, dest: &Address) -> (r: Interaction)
        ensures
            r == (Interaction { dest: *dest, action: WRAP_ACTION, argument: self.amount }),
    {
        Interaction { dest: *dest, action: WRAP_ACTION, argument: self.amount }
    }
}

} // verus!
