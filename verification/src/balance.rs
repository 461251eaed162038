//! One account's balances within one pool.

use vstd::prelude::*;

use crate::token::Token;

verus! {

/// A record of three non-negative amounts, one per asset class, for one
/// account within one pool.
///
/// A record with all three amounts zero is the canonical empty sentinel:
/// the ledger never stores one, so it is indistinguishable from a missing
/// entry.
#[derive(Clone, Copy, Debug, PartialEq, Eq, Structural)]
pub struct TokenBalance {
    /// The amount of token A that the account can withdraw from the pool.
    pub a_tokens: u128,
    /// The amount of token B that the account can withdraw from the pool.
    pub b_tokens: u128,
    /// The amount of liquidity tokens that the account may burn.
    pub liquidity_tokens: u128,
}

impl TokenBalance {
    /// The amount recorded for `token` in this record.
    pub open spec fn spec_amount_of(self, token: Token) -> u128 {
        match token {
            Token::TokenA => self.a_tokens,
            Token::TokenB => self.b_tokens,
            Token::LiquidityToken => self.liquidity_tokens,
        }
    }

    /// This record with the amount for `token` replaced by `amount`.
    pub open spec fn spec_with_amount(self, token: Token, amount: u128) -> TokenBalance {
        match token {
            Token::TokenA => TokenBalance { a_tokens: amount, ..self },
            Token::TokenB => TokenBalance { b_tokens: amount, ..self },
            Token::LiquidityToken => TokenBalance { liquidity_tokens: amount, ..self },
        }
    }

    /// Whether all three amounts are zero: the empty sentinel.
    pub open spec fn spec_is_zero(self) -> bool {
        self.a_tokens == 0 && self.b_tokens == 0 && self.liquidity_tokens == 0
    }

    /// The empty sentinel, returned for accounts the ledger does not hold.
    pub open spec fn spec_zero() -> TokenBalance {
        TokenBalance { a_tokens: 0, b_tokens: 0, liquidity_tokens: 0 }
    }

    /// The empty sentinel as a value.
    pub fn zero() -> (r: TokenBalance)
        ensures
            r == Self::spec_zero(),
    {
        TokenBalance { a_tokens: 0, b_tokens: 0, liquidity_tokens: 0 }
    }

    /// This record with the amount for `token` replaced by `amount`.
    pub fn with_amount(&self, token: &Token, amount: u128) -> (r: TokenBalance)
        ensures
            r == self.spec_with_amount(*token, amount),
    {
        match token {
            Token::TokenA => TokenBalance { a_tokens: amount, ..*self },
            Token::TokenB => TokenBalance { b_tokens: amount, ..*self },
            Token::LiquidityToken => TokenBalance { liquidity_tokens: amount, ..*self },
        }
    }

    /// The amount held in the asset class that matches `token`.
    pub fn get_amount_of(&self, token: &Token) -> (r: u128)
        ensures
            r == self.spec_amount_of(*token),
    {
        match token {
            Token::TokenA => self.a_tokens,
            Token::TokenB => self.b_tokens,
            Token::LiquidityToken => self.liquidity_tokens,
        }
    }

    /// A mutable reference to the amount that matches `token`; the other
    /// two asset classes are untouched by whatever the caller writes
    /// through it.
    pub fn get_mut_amount_of(&mut self, token: &Token) -> (r: &mut u128)
        ensures
            *r == old(self).spec_amount_of(*token),
            *final(self) == old(self).spec_with_amount(*token, *final(r)),
    {
        match token {
            Token::TokenA => &mut self.a_tokens,
            Token::TokenB => &mut self.b_tokens,
            Token::LiquidityToken => &mut self.liquidity_tokens,
        }
    }

    /// Whether the account holds nothing in any asset class.
    pub fn user_has_no_tokens(&self) -> (r: bool)
        ensures
            r == self.spec_is_zero(),
    {
        self.a_tokens == 0 && self.b_tokens == 0 && self.liquidity_tokens == 0
    }
}

} // verus!
