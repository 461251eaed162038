//! The pool state machine.
//!
//! One value of [`PoolContractState`] is the whole persisted state of one
//! pool: its own address, its owner, the two external token addresses it
//! serves, the swap fee in parts per thousand, and the balance ledger. The
//! pool's own address is itself a ledger key and holds the pooled
//! reserves: its token A amount is the base reserve, its token B amount
//! the quote reserve, and its liquidity amount the total outstanding
//! shares.
//!
//! Every operation either completes and reports exactly the ledger
//! described by its model function, or fails and leaves the state exactly
//! as it was: partial updates never persist.

use vstd::prelude::*;
use vstd::pervasive::unreached;

use crate::address::{Address, AddressKind};
use crate::balance::TokenBalance;
use crate::errors::PoolError;
use crate::events::{DepositCallback, TransferRequest};
use crate::ledger::{
    amount_in, credit_ok, debit_ok, lookup, move_ok, spec_credit, spec_debit, spec_move, Ledger,
};
use crate::math;
use crate::token::Token;

verus! {

/// One ledger step of a model chain: the map after the step, or the error
/// that aborts the chain. A move fails with `InsufficientFunds` when the
/// debit is not covered, else with `ArithmeticOverflow` when the credit
/// would overflow.
pub open spec fn step_move(
    m: Map<Address, TokenBalance>,
    from: Address,
    to: Address,
    token: Token,
    amount: u128,
) -> Result<Map<Address, TokenBalance>, PoolError> {
    if !debit_ok(m, from, token, amount) {
        Err(PoolError::InsufficientFunds)
    } else if !move_ok(m, from, to, token, amount) {
        Err(PoolError::ArithmeticOverflow)
    } else {
        Ok(spec_move(m, from, to, token, amount))
    }
}

/// One ledger step of a model chain: a credit, failing with
/// `ArithmeticOverflow` when it would overflow.
pub open spec fn step_credit(
    m: Map<Address, TokenBalance>,
    account: Address,
    token: Token,
    amount: u128,
) -> Result<Map<Address, TokenBalance>, PoolError> {
    if !credit_ok(m, account, token, amount) {
        Err(PoolError::ArithmeticOverflow)
    } else {
        Ok(spec_credit(m, account, token, amount))
    }
}

/// A move from an account back to itself changes nothing the account
/// holds: even when the debit momentarily empties the entry and removes
/// it, the credit restores the very same record.
proof fn lemma_self_move_preserves_lookup(
    m: Map<Address, TokenBalance>,
    account: Address,
    token: Token,
    amount: u128,
)
    requires
        debit_ok(m, account, token, amount),
    ensures
        lookup(spec_move(m, account, account, token, amount), account) == lookup(m, account),
{
    if amount > 0 {
        let before = lookup(m, account);
        let lowered = before.spec_with_amount(
            token,
            (amount_in(m, account, token) - amount) as u128,
        );
        let debited = spec_debit(m, account, token, amount);
        if lowered.spec_is_zero() {
            // The entry went away; crediting the amount back onto the
            // zero sentinel rebuilds the old record, whose other classes
            // were all zero.
            assert(lookup(debited, account) == TokenBalance::spec_zero());
            assert(TokenBalance::spec_zero().spec_with_amount(
                token,
                before.spec_amount_of(token),
            ) == before);
        } else {
            assert(lookup(debited, account) == lowered);
            assert(lowered.spec_with_amount(token, before.spec_amount_of(token)) == before);
        }
    }
}

/// What a move between two distinct accounts leaves each of them holding.
/// When the debited entry reaches all-zero it is removed, but its lookup
/// value is then the zero sentinel, which the stated balance equals.
proof fn lemma_move_distinct_effect(
    m: Map<Address, TokenBalance>,
    from: Address,
    to: Address,
    token: Token,
    amount: u128,
)
    requires
        move_ok(m, from, to, token, amount),
        from != to,
    ensures
        lookup(spec_move(m, from, to, token, amount), from) == lookup(m, from).spec_with_amount(
            token,
            (amount_in(m, from, token) - amount) as u128,
        ),
        lookup(spec_move(m, from, to, token, amount), to) == lookup(m, to).spec_with_amount(
            token,
            (amount_in(m, to, token) + amount) as u128,
        ),
{
    let from_before = lookup(m, from);
    let to_before = lookup(m, to);
    if amount == 0 {
        assert(from_before.spec_with_amount(token, from_before.spec_amount_of(token))
            == from_before);
        assert(to_before.spec_with_amount(token, to_before.spec_amount_of(token)) == to_before);
    } else {
        let lowered = from_before.spec_with_amount(
            token,
            (amount_in(m, from, token) - amount) as u128,
        );
        let debited = spec_debit(m, from, token, amount);
        if lowered.spec_is_zero() {
            assert(lookup(debited, from) == TokenBalance::spec_zero());
            assert(TokenBalance::spec_zero() == lowered);
        }
        assert(lookup(debited, from) == lowered);
        assert(lookup(debited, to) == to_before);
        let moved = spec_credit(debited, to, token, amount);
        assert(lookup(moved, to) == to_before.spec_with_amount(
            token,
            (amount_in(m, to, token) + amount) as u128,
        ));
        assert(lookup(moved, from) == lowered);
    }
}

/// Whether deployment parameters are acceptable: two distinct contract
/// addresses and a fee of one to nine hundred ninety-nine parts per
/// thousand.
pub open spec fn valid_config(
    token_a_address: Address,
    token_b_address: Address,
    swap_fee: u128,
) -> bool {
    &&& token_a_address.kind == AddressKind::Contract
    &&& token_b_address.kind == AddressKind::Contract
    &&& token_a_address != token_b_address
    &&& 1 <= swap_fee <= 999
}

/// The persisted state of one pool.
pub struct PoolContractState {
    /// The address of this pool contract; its own ledger entry holds the
    /// reserves.
    pub contract: Address,
    /// The owner recorded at deployment.
    pub owner: Address,
    /// The external address of the first token of the pair.
    pub token_a_address: Address,
    /// The external address of the second token of the pair.
    pub token_b_address: Address,
    /// The swap fee in parts per thousand, between one and nine hundred
    /// ninety-nine.
    pub swap_fees: u128,
    /// The per-account balance table, including the pool's own reserves.
    pub token_balance: Ledger,
}

impl PoolContractState {
    /// The state invariant: a well-formed ledger and acceptable
    /// configuration.
    pub open spec fn wf(&self) -> bool {
        &&& self.token_balance.wf()
        &&& valid_config(self.token_a_address, self.token_b_address, self.swap_fees)
    }

    /// Whether `other` carries the same configuration: every operation
    /// but deployment leaves these fields untouched.
    pub open spec fn same_config(&self, other: PoolContractState) -> bool {
        &&& self.contract == other.contract
        &&& self.owner == other.owner
        &&& self.token_a_address == other.token_a_address
        &&& self.token_b_address == other.token_b_address
        &&& self.swap_fees == other.swap_fees
    }

    /// Which side a token address denotes: the entry side paired with the
    /// opposite side, or nothing when the address matches neither token.
    pub open spec fn spec_side_of(&self, provided: Address) -> Option<(Token, Token)> {
        if provided == self.token_a_address {
            Some((Token::TokenA, Token::TokenB))
        } else if provided == self.token_b_address {
            Some((Token::TokenB, Token::TokenA))
        } else {
            None
        }
    }

    /// The pooled reserve of token A.
    pub open spec fn reserve_a(&self) -> u128 {
        amount_in(self.token_balance@, self.contract, Token::TokenA)
    }

    /// The pooled reserve of token B.
    pub open spec fn reserve_b(&self) -> u128 {
        amount_in(self.token_balance@, self.contract, Token::TokenB)
    }

    /// The total outstanding liquidity shares, recorded on the pool's own
    /// ledger entry.
    pub open spec fn total_shares(&self) -> u128 {
        amount_in(self.token_balance@, self.contract, Token::LiquidityToken)
    }

    /// Whether the pool is bootstrapped: both reserves strictly positive.
    pub open spec fn spec_has_liquidity(&self) -> bool {
        self.reserve_a() > 0 && self.reserve_b() > 0
    }

    /// Whether the pool is in its pre-bootstrap state: both reserves
    /// zero. Only such a pool accepts the initial liquidity provision.
    pub open spec fn spec_is_uninitialized(&self) -> bool {
        self.reserve_a() == 0 && self.reserve_b() == 0
    }

    /// The reserve pairing the data model calls for: both sides zero
    /// before bootstrap, both strictly positive after. Operations that
    /// report a bootstrapped pool guarantee it outright.
    pub open spec fn reserves_paired(&self) -> bool {
        self.spec_is_uninitialized() || self.spec_has_liquidity()
    }

    /// Deploys a pool: validates the configuration and sets up an empty
    /// ledger. Fails with `InvalidConfiguration` exactly when a token
    /// address is an account address, the two coincide, or the fee lies
    /// outside one to nine hundred ninety-nine parts per thousand.
    pub fn initialize(
        contract: Address,
        owner: Address,
        token_a_address: Address,
        token_b_address: Address,
        swap_fee: u128,
    ) -> (r: Result<PoolContractState, PoolError>)
        ensures
            !valid_config(token_a_address, token_b_address, swap_fee) ==> r == Err::<
                PoolContractState,
                PoolError,
            >(PoolError::InvalidConfiguration),
            valid_config(token_a_address, token_b_address, swap_fee) ==> (r matches Ok(s)
                && s.contract == contract && s.owner == owner && s.token_a_address
                == token_a_address && s.token_b_address == token_b_address && s.swap_fees
                == swap_fee && s.token_balance@ == Map::<Address, TokenBalance>::empty()
                && s.wf()),
    {
        if !token_a_address.is_contract() {
            return Err(PoolError::InvalidConfiguration);
        }
        if !token_b_address.is_contract() {
            return Err(PoolError::InvalidConfiguration);
        }
        if token_a_address == token_b_address {
            return Err(PoolError::InvalidConfiguration);
        }
        if swap_fee < 1 || swap_fee > 999 {
            return Err(PoolError::InvalidConfiguration);
        }
        Ok(
            PoolContractState {
                contract,
                owner,
                token_a_address,
                token_b_address,
                swap_fees: swap_fee,
                token_balance: Ledger::new(),
            },
        )
    }

    /// The balance recorded for `user`, or the zero sentinel when absent.
    pub fn get_balance_for(&self, user: &Address) -> (r: TokenBalance)
        requires
            self.wf(),
        ensures
            r == lookup(self.token_balance@, *user),
    {
        self.token_balance.get(user)
    }

    /// Which side `provided_token_address` denotes, as the pair of entry
    /// and opposite asset classes. Fails with `InvalidTokenAddress`
    /// exactly when the address matches neither token of the pair.
    pub fn deduce_tokens(&self, provided_token_address: Address) -> (r: Result<
        (Token, Token),
        PoolError,
    >)
        ensures
            match self.spec_side_of(provided_token_address) {
                Some(pair) => r == Ok::<(Token, Token), PoolError>(pair),
                None => r == Err::<(Token, Token), PoolError>(PoolError::InvalidTokenAddress),
            },
    {
        let provided_a = self.token_a_address == provided_token_address;
        let provided_b = self.token_b_address == provided_token_address;
        if !provided_a && !provided_b {
            return Err(PoolError::InvalidTokenAddress);
        }
        if provided_a {
            Ok((Token::TokenA, Token::TokenB))
        } else {
            Ok((Token::TokenB, Token::TokenA))
        }
    }

    /// Whether the pool is bootstrapped: both pooled reserves are nonzero.
    pub fn contract_pools_have_liquidity(&self) -> (r: bool)
        requires
            self.wf(),
        ensures
            r == self.spec_has_liquidity(),
    {
        let contract_token_balance = self.token_balance.get(&self.contract);
        contract_token_balance.a_tokens != 0 && contract_token_balance.b_tokens != 0
    }

    /// Adds `amount` of `token` to `user`, creating the entry when
    /// absent. Fails with `ArithmeticOverflow`, changing nothing, exactly
    /// when the addition would leave the 128-bit range.
    pub fn add_to_token_balance(&mut self, user: Address, token: Token, amount: u128) -> (r:
        Result<(), PoolError>)
        requires
            old(self).wf(),
        ensures
            final(self).wf(),
            old(self).same_config(*final(self)),
            r is Ok <==> credit_ok(old(self).token_balance@, user, token, amount),
            r is Ok ==> final(self).token_balance@ == spec_credit(
                old(self).token_balance@,
                user,
                token,
                amount,
            ),
            r is Err ==> *final(self) == *old(self) && r == Err::<(), PoolError>(
                PoolError::ArithmeticOverflow,
            ),
    {
        self.token_balance.credit(user, token, amount)
    }

    /// Subtracts `amount` of `token` from `user`, removing the entry when
    /// all three of its amounts reach zero. Fails with
    /// `InsufficientFunds`, changing nothing, exactly when `amount`
    /// exceeds the recorded value.
    pub fn deduct_from_token_balance(&mut self, user: Address, token: &Token, amount: u128) -> (r:
        Result<(), PoolError>)
        requires
            old(self).wf(),
        ensures
            final(self).wf(),
            old(self).same_config(*final(self)),
            r is Ok <==> debit_ok(old(self).token_balance@, user, *token, amount),
            r is Ok ==> final(self).token_balance@ == spec_debit(
                old(self).token_balance@,
                user,
                *token,
                amount,
            ),
            r is Err ==> *final(self) == *old(self) && r == Err::<(), PoolError>(
                PoolError::InsufficientFunds,
            ),
    {
        self.token_balance.debit(user, *token, amount)
    }

    /// Moves `amount` of `moved_token` from `from` to `to`, atomically:
    /// when the debit fails with `InsufficientFunds` or the credit would
    /// overflow, neither balance changes.
    pub fn move_tokens(&mut self, from: Address, to: Address, moved_token: Token, amount: u128) -> (
        r: Result<(), PoolError>)
        requires
            old(self).wf(),
        ensures
            final(self).wf(),
            old(self).same_config(*final(self)),
            match step_move(old(self).token_balance@, from, to, moved_token, amount) {
                Ok(m) => r is Ok && final(self).token_balance@ == m,
                Err(e) => (r matches Err(actual) && actual == e) && *final(self) == *old(self),
            },
    {
        self.token_balance.move_tokens(from, to, moved_token, amount)
    }

    /// What a swap does to the ledger, or why it fails, step for step:
    /// reject an unbootstrapped pool, resolve the entry side, price the
    /// output, move the input from the caller into the reserves, move the
    /// output from the reserves to the caller.
    pub open spec fn spec_swap_result(
        &self,
        caller: Address,
        token_address: Address,
        amount: u128,
    ) -> Result<Map<Address, TokenBalance>, PoolError> {
        let m = self.token_balance@;
        if !self.spec_has_liquidity() {
            Err(PoolError::NoLiquidity)
        } else {
            match self.spec_side_of(token_address) {
                None => Err(PoolError::InvalidTokenAddress),
                Some(pair) => {
                    let from_pool = amount_in(m, self.contract, pair.0);
                    let to_pool = amount_in(m, self.contract, pair.1);
                    let out = math::spec_swap_output(
                        from_pool as int,
                        to_pool as int,
                        amount as int,
                        self.swap_fees as int,
                    ) as u128;
                    match step_move(m, caller, self.contract, pair.0, amount) {
                        Err(e) => Err(e),
                        Ok(m1) => step_move(m1, self.contract, caller, pair.1, out),
                    }
                },
            }
        }
    }

    /// Swaps `amount` of the token `token_address` denotes for the
    /// opposite token, at the constant-product price net of the fee. The
    /// input moves from the caller's escrow into the reserves and the
    /// priced output moves from the reserves to the caller's escrow; the
    /// fee stays in the pool implicitly, which is why the product of the
    /// reserves never decreases, and strictly increases when an outside
    /// caller swaps a positive amount.
    ///
    /// Fails with `NoLiquidity` before bootstrap, `InvalidTokenAddress`
    /// on an unknown token, `ArithmeticOverflow` when a credited balance
    /// would leave the 128-bit range, and `InsufficientFunds` when the
    /// caller's escrow does not cover `amount`; every failure leaves the
    /// state unchanged. The pricing itself is carried at double width
    /// and cannot overflow.
    pub fn swap(&mut self, caller: Address, token_address: Address, amount: u128) -> (r: Result<
        (),
        PoolError,
    >)
        requires
            old(self).wf(),
        ensures
            final(self).wf(),
            old(self).same_config(*final(self)),
            match old(self).spec_swap_result(caller, token_address, amount) {
                Ok(m) => r is Ok && final(self).token_balance@ == m,
                Err(e) => (r matches Err(actual) && actual == e) && *final(self) == *old(self),
            },
            r is Ok ==> final(self).reserve_a() * final(self).reserve_b() >= old(self).reserve_a()
                * old(self).reserve_b(),
            r is Ok && amount > 0 && caller != old(self).contract ==> final(self).reserve_a()
                * final(self).reserve_b() > old(self).reserve_a() * old(self).reserve_b(),
            r is Ok ==> final(self).spec_has_liquidity() && final(self).reserves_paired(),
    {
        if !self.contract_pools_have_liquidity() {
            return Err(PoolError::NoLiquidity);
        }
        let (provided_token, opposite_token) = match self.deduce_tokens(token_address) {
            Ok(pair) => pair,
            Err(e) => {
                return Err(e);
            },
        };
        let contract_balance = self.token_balance.get(&self.contract);
        let from_pool = contract_balance.get_amount_of(&provided_token);
        let to_pool = contract_balance.get_amount_of(&opposite_token);
        let output_token_amount = match math::calculate_swap_to_amount(
            from_pool,
            to_pool,
            amount,
            self.swap_fees,
        ) {
            Ok(v) => v,
            Err(_) => {
                // A bootstrapped pool has a positive entry reserve, so
                // the divisor is never zero.
                return unreached();
            },
        };
        let ghost m = self.token_balance@;
        let mut working = self.token_balance.snapshot();
        match working.move_tokens(caller, self.contract, provided_token, amount) {
            Ok(_) => {},
            Err(e) => {
                return Err(e);
            },
        }
        let ghost m1 = working@;
        match working.move_tokens(self.contract, caller, opposite_token, output_token_amount) {
            Ok(_) => {},
            Err(e) => {
                return Err(e);
            },
        }
        proof {
            let fp = from_pool as int;
            let tp = to_pool as int;
            let out = output_token_amount as int;
            let m2 = working@;
            math::lemma_swap_output_lt_to_pool(fp, tp, amount as int, self.swap_fees as int);
            let ra_old = amount_in(m, self.contract, Token::TokenA) as int;
            let rb_old = amount_in(m, self.contract, Token::TokenB) as int;
            if caller == self.contract {
                lemma_self_move_preserves_lookup(m, caller, provided_token, amount);
                lemma_self_move_preserves_lookup(m1, caller, opposite_token, output_token_amount);
                assert(lookup(m2, self.contract) == lookup(m, self.contract));
                assert(amount_in(m2, self.contract, Token::TokenA) == ra_old);
                assert(amount_in(m2, self.contract, Token::TokenB) == rb_old);
            } else {
                lemma_move_distinct_effect(m, caller, self.contract, provided_token, amount);
                lemma_move_distinct_effect(
                    m1,
                    self.contract,
                    caller,
                    opposite_token,
                    output_token_amount,
                );
                assert(amount_in(m1, self.contract, provided_token) == from_pool + amount);
                assert(amount_in(m1, self.contract, opposite_token) == to_pool);
                assert(amount_in(m2, self.contract, provided_token) == from_pool + amount);
                assert(amount_in(m2, self.contract, opposite_token) == to_pool - out);
                math::lemma_swap_constant_product(fp, tp, amount as int, self.swap_fees as int);
                let ra_new = amount_in(m2, self.contract, Token::TokenA) as int;
                let rb_new = amount_in(m2, self.contract, Token::TokenB) as int;
                if provided_token == Token::TokenA {
                    assert(ra_new == fp + amount && rb_new == tp - out);
                    assert(ra_old == fp && rb_old == tp);
                    assert(ra_new * rb_new >= ra_old * rb_old);
                    if amount > 0 {
                        assert(ra_new * rb_new > ra_old * rb_old);
                    }
                } else {
                    assert(rb_new == fp + amount && ra_new == tp - out);
                    assert(rb_old == fp && ra_old == tp);
                    assert(ra_new * rb_new >= ra_old * rb_old) by (nonlinear_arith)
                        requires
                            ra_new == tp - out,
                            rb_new == fp + amount,
                            ra_old == tp,
                            rb_old == fp,
                            (fp + amount) * (tp - out) >= fp * tp,
                    ;
                    if amount > 0 {
                        assert(ra_new * rb_new > ra_old * rb_old) by (nonlinear_arith)
                            requires
                                ra_new == tp - out,
                                rb_new == fp + amount,
                                ra_old == tp,
                                rb_old == fp,
                                (fp + amount) * (tp - out) > fp * tp,
                        ;
                    }
                }
            }
            assert(amount_in(m2, self.contract, Token::TokenA) > 0);
            assert(amount_in(m2, self.contract, Token::TokenB) > 0);
        }
        self.token_balance = working;
        Ok(())
    }

    /// What the shared tail of every liquidity provision does to the
    /// ledger, or why it fails, step for step: resolve the entry side,
    /// move the provided amount and the opposite-side amount from the
    /// provider into the reserves, then mint the liquidity shares to the
    /// provider and to the pool itself alike. The pool's own share credit
    /// is what the formulas later read as the total outstanding shares.
    pub open spec fn spec_provide_internal_result(
        &self,
        user: Address,
        provided_token_address: Address,
        provided_amount: u128,
        exchanged_amount: u128,
        minted_liquidity_tokens: u128,
    ) -> Result<Map<Address, TokenBalance>, PoolError> {
        let m = self.token_balance@;
        match self.spec_side_of(provided_token_address) {
            None => Err(PoolError::InvalidTokenAddress),
            Some(pair) => match step_move(m, user, self.contract, pair.0, provided_amount) {
                Err(e) => Err(e),
                Ok(m1) => match step_move(m1, user, self.contract, pair.1, exchanged_amount) {
                    Err(e) => Err(e),
                    Ok(m2) => match step_credit(
                        m2,
                        user,
                        Token::LiquidityToken,
                        minted_liquidity_tokens,
                    ) {
                        Err(e) => Err(e),
                        Ok(m3) => step_credit(
                            m3,
                            self.contract,
                            Token::LiquidityToken,
                            minted_liquidity_tokens,
                        ),
                    },
                },
            },
        }
    }

    /// What a liquidity provision does, or why it fails: reject an
    /// unbootstrapped pool, resolve the side, price the opposite-side
    /// amount and the minted shares, reject a provision that would mint
    /// nothing, then run the shared tail.
    pub open spec fn spec_provide_result(
        &self,
        caller: Address,
        token_address: Address,
        amount: u128,
    ) -> Result<Map<Address, TokenBalance>, PoolError> {
        let m = self.token_balance@;
        if !self.spec_has_liquidity() {
            Err(PoolError::NoLiquidity)
        } else {
            match self.spec_side_of(token_address) {
                None => Err(PoolError::InvalidTokenAddress),
                Some(pair) => {
                    let from_pool = amount_in(m, self.contract, pair.0);
                    let to_pool = amount_in(m, self.contract, pair.1);
                    let total = amount_in(m, self.contract, Token::LiquidityToken);
                    if amount > 0 && !math::mint_fits(
                        amount as int,
                        from_pool as int,
                        to_pool as int,
                        total as int,
                    ) {
                        Err(PoolError::ArithmeticOverflow)
                    } else {
                        let opposite = math::spec_opposite_equivalent(
                            amount as int,
                            from_pool as int,
                            to_pool as int,
                        ) as u128;
                        let minted = if amount == 0 {
                            0u128
                        } else {
                            math::spec_minted_liquidity(
                                amount as int,
                                from_pool as int,
                                total as int,
                            ) as u128
                        };
                        if minted == 0 {
                            Err(PoolError::InsufficientLiquidity)
                        } else {
                            self.spec_provide_internal_result(
                                caller,
                                token_address,
                                amount,
                                opposite,
                                minted,
                            )
                        }
                    }
                },
            }
        }
    }

    /// What the one-time bootstrap provision does, or why it fails:
    /// reject a pool with any nonzero reserve, take the square root of
    /// the product of the two amounts as the first shares, reject a
    /// bootstrap that would mint nothing, then run the shared tail on the
    /// token A side.
    pub open spec fn spec_provide_initial_result(
        &self,
        caller: Address,
        input_amount: u128,
        output_amount: u128,
    ) -> Result<Map<Address, TokenBalance>, PoolError> {
        if !self.spec_is_uninitialized() {
            Err(PoolError::InvalidConfiguration)
        } else {
            let minted = math::spec_isqrt(input_amount * output_amount) as u128;
            if minted == 0 {
                Err(PoolError::InsufficientLiquidity)
            } else {
                self.spec_provide_internal_result(
                    caller,
                    self.token_a_address,
                    input_amount,
                    output_amount,
                    minted,
                )
            }
        }
    }

    /// What a liquidity reclaim does, or why it fails: reject a burn of
    /// at least the caller's whole share balance, burn the caller's
    /// shares, price both payouts against the reserves, move them out of
    /// the pool, and burn the same shares off the pool's own total.
    pub open spec fn spec_reclaim_result(&self, caller: Address, shares: u128) -> Result<
        Map<Address, TokenBalance>,
        PoolError,
    > {
        let m = self.token_balance@;
        if !(shares < amount_in(m, caller, Token::LiquidityToken)) {
            Err(PoolError::InsufficientLiquidity)
        } else {
            let m1 = spec_debit(m, caller, Token::LiquidityToken, shares);
            let pool_a = amount_in(m1, self.contract, Token::TokenA);
            let pool_b = amount_in(m1, self.contract, Token::TokenB);
            let total = amount_in(m1, self.contract, Token::LiquidityToken);
            if total == 0 {
                Err(PoolError::DivisionByZero)
            } else if !math::reclaim_fits(
                pool_a as int,
                pool_b as int,
                shares as int,
                total as int,
            ) {
                Err(PoolError::ArithmeticOverflow)
            } else {
                let a_output = math::spec_reclaim_output(
                    pool_a as int,
                    shares as int,
                    total as int,
                ) as u128;
                let b_output = math::spec_reclaim_output(
                    pool_b as int,
                    shares as int,
                    total as int,
                ) as u128;
                match step_move(m1, self.contract, caller, Token::TokenB, b_output) {
                    Err(e) => Err(e),
                    Ok(m2) => match step_move(m2, self.contract, caller, Token::TokenA, a_output) {
                        Err(e) => Err(e),
                        Ok(m3) => {
                            if !debit_ok(m3, self.contract, Token::LiquidityToken, shares) {
                                Err(PoolError::InsufficientFunds)
                            } else {
                                Ok(spec_debit(m3, self.contract, Token::LiquidityToken, shares))
                            }
                        },
                    },
                }
            }
        }
    }

    /// The shared tail of every liquidity provision: moves the provided
    /// and opposite-side amounts from the provider into the reserves and
    /// mints the shares to the provider and to the pool itself. Fails,
    /// changing nothing, with `InvalidTokenAddress` on an unknown token,
    /// `InsufficientFunds` when the provider's escrow does not cover a
    /// moved amount, and `ArithmeticOverflow` when a credit would leave
    /// the 128-bit range.
    pub fn provide_liquidity_internal(
        state: &mut PoolContractState,
        user: &Address,
        provided_token_address: Address,
        provided_amount: u128,
        exchanged_amount: u128,
        minted_liquidity_tokens: u128,
    ) -> (r: Result<(), PoolError>)
        requires
            old(state).wf(),
        ensures
            final(state).wf(),
            old(state).same_config(*final(state)),
            match old(state).spec_provide_internal_result(
                *user,
                provided_token_address,
                provided_amount,
                exchanged_amount,
                minted_liquidity_tokens,
            ) {
                Ok(m) => r is Ok && final(state).token_balance@ == m,
                Err(e) => (r matches Err(actual) && actual == e) && *final(state) == *old(state),
            },
    {
        let (provided_token, exchanged_token) = match state.deduce_tokens(provided_token_address) {
            Ok(pair) => pair,
            Err(e) => {
                return Err(e);
            },
        };
        let mut working = state.token_balance.snapshot();
        match working.move_tokens(*user, state.contract, provided_token, provided_amount) {
            Ok(_) => {},
            Err(e) => {
                return Err(e);
            },
        }
        match working.move_tokens(*user, state.contract, exchanged_token, exchanged_amount) {
            Ok(_) => {},
            Err(e) => {
                return Err(e);
            },
        }
        match working.credit(*user, Token::LiquidityToken, minted_liquidity_tokens) {
            Ok(_) => {},
            Err(e) => {
                return Err(e);
            },
        }
        match working.credit(state.contract, Token::LiquidityToken, minted_liquidity_tokens) {
            Ok(_) => {},
            Err(e) => {
                return Err(e);
            },
        }
        state.token_balance = working;
        Ok(())
    }

    /// Provides liquidity on the side `token_address` denotes: the
    /// provider supplies `amount` plus the priced opposite-side amount,
    /// and is minted shares in proportion to the entry-side reserve.
    /// Only legal once the pool is bootstrapped; fails with
    /// `NoLiquidity` before that. A provision that would mint no shares
    /// fails with `InsufficientLiquidity`; an out-of-range priced result,
    /// an uncovered escrow move or an overflowing credit fail as in the
    /// shared tail. Every failure leaves the state unchanged.
    pub fn provide_liquidity(&mut self, caller: Address, token_address: Address, amount: u128) -> (
        r: Result<(), PoolError>)
        requires
            old(self).wf(),
        ensures
            final(self).wf(),
            old(self).same_config(*final(self)),
            match old(self).spec_provide_result(caller, token_address, amount) {
                Ok(m) => r is Ok && final(self).token_balance@ == m,
                Err(e) => (r matches Err(actual) && actual == e) && *final(self) == *old(self),
            },
    {
        if !self.contract_pools_have_liquidity() {
            return Err(PoolError::NoLiquidity);
        }
        let (input_token, output_token) = match self.deduce_tokens(token_address) {
            Ok(pair) => pair,
            Err(e) => {
                return Err(e);
            },
        };
        let contract_balance = self.token_balance.get(&self.contract);
        let (output_supply_equivalent, minted_lp_tokens) =
            match math::calculate_equivalent_and_minted_tokens(
            amount,
            contract_balance.get_amount_of(&input_token),
            contract_balance.get_amount_of(&output_token),
            contract_balance.liquidity_tokens,
        ) {
            Ok(pair) => pair,
            Err(e) => {
                return Err(e);
            },
        };
        if minted_lp_tokens == 0 {
            return Err(PoolError::InsufficientLiquidity);
        }
        Self::provide_liquidity_internal(
            self,
            &caller,
            token_address,
            amount,
            output_supply_equivalent,
            minted_lp_tokens,
        )
    }

    /// Bootstraps the pool with its first liquidity: only legal while
    /// both reserves are zero, it mints the integer square root of the
    /// product of the two amounts as the first shares, credited to the
    /// provider and locked on the pool's own entry alike. A pool with
    /// any nonzero reserve fails with `InvalidConfiguration`; a
    /// bootstrap whose share count would be zero fails with
    /// `InsufficientLiquidity`. Every failure leaves the state
    /// unchanged; success leaves both reserves strictly positive.
    pub fn provide_initial_liquidity(
        &mut self,
        caller: Address,
        input_token_amt: u128,
        output_token_amt: u128,
    ) -> (r: Result<(), PoolError>)
        requires
            old(self).wf(),
        ensures
            final(self).wf(),
            old(self).same_config(*final(self)),
            match old(self).spec_provide_initial_result(caller, input_token_amt, output_token_amt) {
                Ok(m) => r is Ok && final(self).token_balance@ == m,
                Err(e) => (r matches Err(actual) && actual == e) && *final(self) == *old(self),
            },
            r is Ok ==> final(self).spec_has_liquidity() && final(self).reserves_paired(),
    {
        let reserves = self.token_balance.get(&self.contract);
        if reserves.a_tokens != 0 || reserves.b_tokens != 0 {
            return Err(PoolError::InvalidConfiguration);
        }
        let liquidity_tokens_init = math::initial_liquidity_tokens(
            input_token_amt,
            output_token_amt,
        );
        if liquidity_tokens_init == 0 {
            return Err(PoolError::InsufficientLiquidity);
        }
        proof {
            // A positive share count forces both provided amounts to be
            // positive: the square root of their product is positive only
            // when the product is.
            math::lemma_isqrt_bounds(input_token_amt * output_token_amt);
            assert(input_token_amt >= 1 && output_token_amt >= 1) by (nonlinear_arith)
                requires
                    input_token_amt * output_token_amt >= 1,
                    input_token_amt >= 0,
                    output_token_amt >= 0,
            ;
        }
        let provided_address = self.token_a_address;
        let r = Self::provide_liquidity_internal(
            self,
            &caller,
            provided_address,
            input_token_amt,
            output_token_amt,
            liquidity_tokens_init,
        );
        proof {
            if r is Ok {
                let m = old(self).token_balance@;
                let contract = old(self).contract;
                let m1 = spec_move(m, caller, contract, Token::TokenA, input_token_amt);
                let m2 = spec_move(m1, caller, contract, Token::TokenB, output_token_amt);
                let m3 = spec_credit(m2, caller, Token::LiquidityToken, liquidity_tokens_init);
                // The pool cannot be its own provider: its reserves are
                // zero, so the entry-side debit of a positive amount
                // would already have failed.
                assert(caller != contract);
                lemma_move_distinct_effect(m, caller, contract, Token::TokenA, input_token_amt);
                lemma_move_distinct_effect(
                    m1,
                    caller,
                    contract,
                    Token::TokenB,
                    output_token_amt,
                );
                assert(amount_in(m2, contract, Token::TokenA) >= input_token_amt);
                assert(amount_in(m2, contract, Token::TokenB) >= output_token_amt);
                assert(amount_in(m3, contract, Token::TokenA) == amount_in(
                    m2,
                    contract,
                    Token::TokenA,
                ));
                assert(amount_in(self.token_balance@, contract, Token::TokenA) == amount_in(
                    m3,
                    contract,
                    Token::TokenA,
                ));
                assert(amount_in(self.token_balance@, contract, Token::TokenB) == amount_in(
                    m3,
                    contract,
                    Token::TokenB,
                ));
            }
        }
        r
    }

    /// Burns `liquidity_token_amount` of the caller's shares and pays
    /// out both reserves in proportion to the burned share of the total.
    /// The burn must be strictly smaller than the caller's share balance;
    /// a burn of the whole balance or more fails with
    /// `InsufficientLiquidity`. A pool with no outstanding shares fails
    /// with `DivisionByZero`; payout overflow fails with
    /// `ArithmeticOverflow`. Every failure leaves the state unchanged.
    pub fn reclaim_liquidity(&mut self, caller: Address, liquidity_token_amount: u128) -> (r:
        Result<(), PoolError>)
        requires
            old(self).wf(),
        ensures
            final(self).wf(),
            old(self).same_config(*final(self)),
            match old(self).spec_reclaim_result(caller, liquidity_token_amount) {
                Ok(m) => r is Ok && final(self).token_balance@ == m,
                Err(e) => (r matches Err(actual) && actual == e) && *final(self) == *old(self),
            },
    {
        let caller_balance = self.token_balance.get(&caller);
        if !(liquidity_token_amount < caller_balance.liquidity_tokens) {
            return Err(PoolError::InsufficientLiquidity);
        }
        let mut working = self.token_balance.snapshot();
        match working.debit(caller, Token::LiquidityToken, liquidity_token_amount) {
            Ok(_) => {},
            Err(_) => {
                return unreached();
            },
        }
        let contract_token_balance = working.get(&self.contract);
        let (reclaim_a, reclaim_b) = match math::calculate_reclaim_output(
            liquidity_token_amount,
            contract_token_balance.a_tokens,
            contract_token_balance.b_tokens,
            contract_token_balance.liquidity_tokens,
        ) {
            Ok(pair) => pair,
            Err(e) => {
                return Err(e);
            },
        };
        match working.move_tokens(self.contract, caller, Token::TokenB, reclaim_b) {
            Ok(_) => {},
            Err(e) => {
                return Err(e);
            },
        }
        match working.move_tokens(self.contract, caller, Token::TokenA, reclaim_a) {
            Ok(_) => {},
            Err(e) => {
                return Err(e);
            },
        }
        match working.debit(self.contract, Token::LiquidityToken, liquidity_token_amount) {
            Ok(_) => {},
            Err(e) => {
                return Err(e);
            },
        }
        self.token_balance = working;
        Ok(())
    }

    /// The action tag with which the pool asks a token contract to pull
    /// funds from a user into the pool.
    pub fn token_contract_transfer_from() -> (r: u32)
        ensures
            r == 3,
    {
        3
    }

    /// The action tag with which the pool asks a token contract to pay
    /// funds out of the pool.
    pub fn token_contract_transfer() -> (r: u32)
        ensures
            r == 1,
    {
        1
    }

    /// Begins a deposit: emits the pulled-funds request addressed to the
    /// deposited token's contract together with the callback payload to
    /// register with the runtime. No balance changes here; crediting
    /// happens only in [`Self::deposit_callback`], once the transfer is
    /// confirmed, so a failed external transfer never leaves the ledger
    /// claiming funds the pool does not hold. Fails with
    /// `InvalidTokenAddress` exactly when `token_address` matches neither
    /// side.
    pub fn deposit(&self, caller: Address, token_address: Address, token_amount: u128) -> (r:
        Result<(TransferRequest, DepositCallback), PoolError>)
        ensures
            self.spec_side_of(token_address) is None ==> r == Err::<
                (TransferRequest, DepositCallback),
                PoolError,
            >(PoolError::InvalidTokenAddress),
            self.spec_side_of(token_address) matches Some(pair) ==> (r matches Ok(ev)
                && ev.0 == (TransferRequest {
                token: token_address,
                action: 3,
                from: caller,
                to: self.contract,
                amount: token_amount,
            }) && ev.1 == (DepositCallback { token: pair.0, amount: token_amount })),
    {
        let (input_token, _) = match self.deduce_tokens(token_address) {
            Ok(pair) => pair,
            Err(e) => {
                return Err(e);
            },
        };
        let pull = TransferRequest {
            token: token_address,
            action: Self::token_contract_transfer_from(),
            from: caller,
            to: self.contract,
            amount: token_amount,
        };
        Ok((pull, DepositCallback { token: input_token, amount: token_amount }))
    }

    /// Finishes a deposit when the runtime reports the pulled-funds
    /// transfer's outcome. On success the caller's escrow balance is
    /// credited and the call returns `Ok(true)`; on a failed transfer
    /// nothing is recorded and the call returns `Ok(false)`. Fails with
    /// `ArithmeticOverflow`, changing nothing, exactly when a successful
    /// transfer's credit would leave the 128-bit range.
    pub fn deposit_callback(&mut self, caller: Address, success: bool, token: Token, amount: u128)
        -> (r: Result<bool, PoolError>)
        requires
            old(self).wf(),
        ensures
            final(self).wf(),
            old(self).same_config(*final(self)),
            !success ==> r == Ok::<bool, PoolError>(false) && *final(self) == *old(self),
            success ==> match step_credit(old(self).token_balance@, caller, token, amount) {
                Ok(m) => r == Ok::<bool, PoolError>(true) && final(self).token_balance@ == m,
                Err(e) => r == Err::<bool, PoolError>(e) && *final(self) == *old(self),
            },
    {
        if !success {
            return Ok(false);
        }
        match self.token_balance.credit(caller, token, amount) {
            Ok(_) => Ok(true),
            Err(e) => Err(e),
        }
    }

    /// Withdraws `amount` from the caller's own escrow balance on the
    /// side `token_address` denotes, and emits the transfer request that
    /// returns the external tokens to the caller. Fails with
    /// `InvalidTokenAddress` when the address matches neither side, and
    /// with `InsufficientFunds`, changing nothing, when the caller's
    /// balance on that side is below `amount`.
    pub fn withdraw(&mut self, caller: Address, token_address: Address, amount: u128) -> (r: Result<
        TransferRequest,
        PoolError,
    >)
        requires
            old(self).wf(),
        ensures
            final(self).wf(),
            old(self).same_config(*final(self)),
            match old(self).spec_side_of(token_address) {
                None => r == Err::<TransferRequest, PoolError>(PoolError::InvalidTokenAddress)
                    && *final(self) == *old(self),
                Some(pair) => {
                    if debit_ok(old(self).token_balance@, caller, pair.0, amount) {
                        &&& r matches Ok(ev)
                        &&& ev == (TransferRequest {
                            token: token_address,
                            action: 1,
                            from: old(self).contract,
                            to: caller,
                            amount,
                        })
                        &&& final(self).token_balance@ == spec_debit(
                            old(self).token_balance@,
                            caller,
                            pair.0,
                            amount,
                        )
                    } else {
                        r == Err::<TransferRequest, PoolError>(PoolError::InsufficientFunds)
                            && *final(self) == *old(self)
                    }
                },
            },
    {
        let (input_token, _) = match self.deduce_tokens(token_address) {
            Ok(pair) => pair,
            Err(e) => {
                return Err(e);
            },
        };
        match self.token_balance.debit(caller, input_token, amount) {
            Ok(_) => {},
            Err(e) => {
                return Err(e);
            },
        }
        Ok(
            TransferRequest {
                token: token_address,
                action: Self::token_contract_transfer(),
                from: self.contract,
                to: caller,
                amount,
            },
        )
    }
}

} // verus!
