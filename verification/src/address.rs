//! Account and contract identities.
//!
//! The host runtime identifies every party by an address; the settlement
//! logic only ever reads two things from one: whether it denotes an account
//! or a deployed contract, and whether two addresses are equal. An address
//! is therefore modelled as that pair of plain values.

use vstd::prelude::*;

verus! {

/// What kind of entity an address denotes.
#[derive(Clone, Copy, Debug, PartialEq, Eq, Structural)]
pub enum AddressKind {
    /// A user account. Token sides of a pool may not be accounts.
    Account,
    /// A deployed contract: a token contract, a pool, or the factory.
    Contract,
}

/// The identity of one party: an account, a token contract, or a pool.
#[derive(Clone, Copy, Debug, PartialEq, Eq, Structural)]
pub struct Address {
    /// Whether this address denotes an account or a contract.
    pub kind: AddressKind,
    /// The numeric identifier distinguishing this address from all others
    /// of the same kind.
    pub id: u128,
}

impl Address {
    /// Whether this address denotes a deployed contract rather than an
    /// account.
    pub fn is_contract(&self) -> (r: bool)
        ensures
            r == (self.kind == AddressKind::Contract),
    {
        match self.kind {
            AddressKind::Contract => true,
            AddressKind::Account => false,
        }
    }
}

} // verus!
