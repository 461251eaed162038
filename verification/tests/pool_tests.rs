use amm_core::address::{Address, AddressKind};
use amm_core::errors::PoolError;
use amm_core::events::{DepositCallback, TransferRequest};
use amm_core::pool::PoolContractState;
use amm_core::token::Token;

fn mock_address(id: u8) -> Address {
    Address { kind: AddressKind::Account, id: id as u128 }
}

fn contract_address(id: u8) -> Address {
    Address { kind: AddressKind::Contract, id: id as u128 }
}

/// A freshly deployed pool at address 1, owned by the deployer, serving
/// token contracts 2 and 3 with a fee of three parts per thousand.
fn fresh_pool() -> PoolContractState {
    PoolContractState::initialize(
        contract_address(0x01),
        mock_address(0x00),
        contract_address(0x02),
        contract_address(0x03),
        3,
    )
    .unwrap()
}

/// Credits escrow to `user` as a confirmed deposit callback would.
fn fund(pool: &mut PoolContractState, user: Address, token: Token, amount: u128) {
    assert_eq!(pool.deposit_callback(user, true, token, amount), Ok(true));
}

#[test]
fn deposit_works() {
    let deployer = mock_address(0x00);
    let pool = fresh_pool();

    let (pull, callback) = pool.deposit(deployer, contract_address(0x02), 250).unwrap();
    assert_eq!(
        pull,
        TransferRequest {
            token: contract_address(0x02),
            action: 3,
            from: deployer,
            to: contract_address(0x01),
            amount: 250,
        }
    );
    assert_eq!(callback, DepositCallback { token: Token::TokenA, amount: 250 });

    // Nothing is credited until the callback confirms the transfer.
    let mut pool = pool;
    assert_eq!(pool.get_balance_for(&deployer).a_tokens, 0);
    assert_eq!(pool.deposit_callback(deployer, true, callback.token, callback.amount), Ok(true));
    assert_eq!(pool.get_balance_for(&deployer).a_tokens, 250);
}

#[test]
fn deposit_unknown_token_is_rejected() {
    let pool = fresh_pool();
    assert_eq!(
        pool.deposit(mock_address(0x07), contract_address(0x09), 5),
        Err(PoolError::InvalidTokenAddress)
    );
}

#[test]
fn failed_deposit_callback_records_nothing() {
    let mut pool = fresh_pool();
    let user = mock_address(0x05);
    assert_eq!(pool.deposit_callback(user, false, Token::TokenA, 100), Ok(false));
    assert!(pool.get_balance_for(&user).user_has_no_tokens());
}

#[test]
fn initialize_rejects_bad_configurations() {
    // Zero fee.
    assert!(matches!(
        PoolContractState::initialize(
            contract_address(1),
            mock_address(0),
            contract_address(2),
            contract_address(3),
            0,
        ),
        Err(PoolError::InvalidConfiguration)
    ));
    // Fee of a full thousand.
    assert!(matches!(
        PoolContractState::initialize(
            contract_address(1),
            mock_address(0),
            contract_address(2),
            contract_address(3),
            1000,
        ),
        Err(PoolError::InvalidConfiguration)
    ));
    // Duplicate tokens.
    assert!(matches!(
        PoolContractState::initialize(
            contract_address(1),
            mock_address(0),
            contract_address(2),
            contract_address(2),
            3,
        ),
        Err(PoolError::InvalidConfiguration)
    ));
    // An account address as a token.
    assert!(matches!(
        PoolContractState::initialize(
            contract_address(1),
            mock_address(0),
            mock_address(2),
            contract_address(3),
            3,
        ),
        Err(PoolError::InvalidConfiguration)
    ));
}

#[test]
fn bootstrap_mints_sqrt_shares_on_both_entries() {
    let mut pool = fresh_pool();
    let provider = mock_address(0x04);
    fund(&mut pool, provider, Token::TokenA, 1000);
    fund(&mut pool, provider, Token::TokenB, 4000);

    assert!(pool.provide_initial_liquidity(provider, 1000, 4000).is_ok());

    // Shares are the integer square root of the product: 2000; the
    // provider and the pool's own entry each record them, and the
    // reserves are exactly what was provided.
    let reserves = pool.get_balance_for(&contract_address(0x01));
    assert_eq!(reserves.a_tokens, 1000);
    assert_eq!(reserves.b_tokens, 4000);
    assert_eq!(reserves.liquidity_tokens, 2000);
    let provider_balance = pool.get_balance_for(&provider);
    assert_eq!(provider_balance.liquidity_tokens, 2000);
    assert_eq!(provider_balance.a_tokens, 0);
    assert_eq!(provider_balance.b_tokens, 0);
}

#[test]
fn bootstrap_twice_is_rejected() {
    let mut pool = fresh_pool();
    let provider = mock_address(0x04);
    fund(&mut pool, provider, Token::TokenA, 2000);
    fund(&mut pool, provider, Token::TokenB, 8000);
    assert!(pool.provide_initial_liquidity(provider, 1000, 4000).is_ok());
    assert_eq!(
        pool.provide_initial_liquidity(provider, 1000, 4000),
        Err(PoolError::InvalidConfiguration)
    );
}

#[test]
fn bootstrap_with_any_nonzero_reserve_is_rejected() {
    let mut pool = fresh_pool();
    // Credit one side of the pool's own entry directly: the reserves
    // are now five against zero, not both zero, so the bootstrap is no
    // longer legal.
    fund(&mut pool, contract_address(0x01), Token::TokenA, 5);
    let provider = mock_address(0x04);
    fund(&mut pool, provider, Token::TokenA, 1000);
    fund(&mut pool, provider, Token::TokenB, 4000);
    assert_eq!(
        pool.provide_initial_liquidity(provider, 1000, 4000),
        Err(PoolError::InvalidConfiguration)
    );
    let reserves = pool.get_balance_for(&contract_address(0x01));
    assert_eq!(reserves.a_tokens, 5);
    assert_eq!(reserves.b_tokens, 0);
}

#[test]
fn bootstrap_handles_double_width_products() {
    let mut pool = fresh_pool();
    let provider = mock_address(0x04);
    // Two to the seventieth per side: the share product needs 140 bits.
    let big: u128 = 1180591620717411303424;
    fund(&mut pool, provider, Token::TokenA, big);
    fund(&mut pool, provider, Token::TokenB, big);
    assert!(pool.provide_initial_liquidity(provider, big, big).is_ok());
    let reserves = pool.get_balance_for(&contract_address(0x01));
    assert_eq!(reserves.a_tokens, big);
    assert_eq!(reserves.b_tokens, big);
    assert_eq!(reserves.liquidity_tokens, big);
    assert_eq!(pool.get_balance_for(&provider).liquidity_tokens, big);
}

#[test]
fn provide_before_bootstrap_is_rejected() {
    let mut pool = fresh_pool();
    let provider = mock_address(0x04);
    fund(&mut pool, provider, Token::TokenA, 1000);
    assert_eq!(
        pool.provide_liquidity(provider, contract_address(0x02), 100),
        Err(PoolError::NoLiquidity)
    );
    assert_eq!(pool.get_balance_for(&provider).a_tokens, 1000);
}

#[test]
fn bootstrap_of_nothing_is_rejected() {
    let mut pool = fresh_pool();
    let provider = mock_address(0x04);
    assert_eq!(
        pool.provide_initial_liquidity(provider, 0, 4000),
        Err(PoolError::InsufficientLiquidity)
    );
}

#[test]
fn swap_before_bootstrap_is_rejected() {
    let mut pool = fresh_pool();
    assert_eq!(
        pool.swap(mock_address(0x05), contract_address(0x02), 10),
        Err(PoolError::NoLiquidity)
    );
}

#[test]
fn swap_moves_priced_output_and_grows_the_product() {
    let mut pool = fresh_pool();
    let provider = mock_address(0x04);
    fund(&mut pool, provider, Token::TokenA, 1000);
    fund(&mut pool, provider, Token::TokenB, 4000);
    assert!(pool.provide_initial_liquidity(provider, 1000, 4000).is_ok());

    let trader = mock_address(0x05);
    fund(&mut pool, trader, Token::TokenA, 100);
    assert!(pool.swap(trader, contract_address(0x02), 100).is_ok());

    // (997 * 100 * 4000) / (1000 * 1000 + 997 * 100) = 362 after floor.
    let trader_balance = pool.get_balance_for(&trader);
    assert_eq!(trader_balance.a_tokens, 0);
    assert_eq!(trader_balance.b_tokens, 362);
    let reserves = pool.get_balance_for(&contract_address(0x01));
    assert_eq!(reserves.a_tokens, 1100);
    assert_eq!(reserves.b_tokens, 3638);
    // The constant product strictly grew: the fee stayed in the pool.
    assert!(1100u128 * 3638 > 1000u128 * 4000);
}

#[test]
fn swap_sequence_never_shrinks_the_product() {
    let mut pool = fresh_pool();
    let provider = mock_address(0x04);
    fund(&mut pool, provider, Token::TokenA, 1000);
    fund(&mut pool, provider, Token::TokenB, 4000);
    assert!(pool.provide_initial_liquidity(provider, 1000, 4000).is_ok());

    let trader = mock_address(0x05);
    fund(&mut pool, trader, Token::TokenA, 100);
    let mut last_product: u128 = 1000 * 4000;
    assert!(pool.swap(trader, contract_address(0x02), 100).is_ok());
    let reserves = pool.get_balance_for(&contract_address(0x01));
    let product = reserves.a_tokens * reserves.b_tokens;
    assert!(product > last_product);
    last_product = product;

    // Swap the received quote tokens straight back: the pool keeps the
    // fee of both legs, so the product grows again.
    assert!(pool.swap(trader, contract_address(0x03), 362).is_ok());
    let reserves = pool.get_balance_for(&contract_address(0x01));
    let product = reserves.a_tokens * reserves.b_tokens;
    assert!(product > last_product);
    // The round trip cost the trader more than it returned.
    let trader_balance = pool.get_balance_for(&trader);
    assert!(trader_balance.a_tokens < 100);
    assert_eq!(trader_balance.b_tokens, 0);
}

#[test]
fn swap_works_in_the_quote_to_base_direction() {
    let mut pool = fresh_pool();
    let provider = mock_address(0x04);
    fund(&mut pool, provider, Token::TokenA, 1000);
    fund(&mut pool, provider, Token::TokenB, 4000);
    assert!(pool.provide_initial_liquidity(provider, 1000, 4000).is_ok());

    let trader = mock_address(0x05);
    fund(&mut pool, trader, Token::TokenB, 400);
    assert!(pool.swap(trader, contract_address(0x03), 400).is_ok());

    // (997 * 400 * 1000) / (1000 * 4000 + 997 * 400) = 90 after floor.
    let trader_balance = pool.get_balance_for(&trader);
    assert_eq!(trader_balance.b_tokens, 0);
    assert_eq!(trader_balance.a_tokens, 90);
    let reserves = pool.get_balance_for(&contract_address(0x01));
    assert_eq!(reserves.a_tokens, 910);
    assert_eq!(reserves.b_tokens, 4400);
}

#[test]
fn swap_unknown_token_is_rejected() {
    let mut pool = fresh_pool();
    let provider = mock_address(0x04);
    fund(&mut pool, provider, Token::TokenA, 1000);
    fund(&mut pool, provider, Token::TokenB, 4000);
    assert!(pool.provide_initial_liquidity(provider, 1000, 4000).is_ok());
    assert_eq!(
        pool.swap(provider, contract_address(0x09), 10),
        Err(PoolError::InvalidTokenAddress)
    );
}

#[test]
fn swap_without_escrow_is_rejected() {
    let mut pool = fresh_pool();
    let provider = mock_address(0x04);
    fund(&mut pool, provider, Token::TokenA, 1000);
    fund(&mut pool, provider, Token::TokenB, 4000);
    assert!(pool.provide_initial_liquidity(provider, 1000, 4000).is_ok());
    let trader = mock_address(0x05);
    assert_eq!(
        pool.swap(trader, contract_address(0x02), 10),
        Err(PoolError::InsufficientFunds)
    );
    // The rejected swap left every balance unchanged.
    let reserves = pool.get_balance_for(&contract_address(0x01));
    assert_eq!(reserves.a_tokens, 1000);
    assert_eq!(reserves.b_tokens, 4000);
}

#[test]
fn provide_liquidity_collects_both_sides_and_mints() {
    let mut pool = fresh_pool();
    let provider = mock_address(0x04);
    fund(&mut pool, provider, Token::TokenA, 1000);
    fund(&mut pool, provider, Token::TokenB, 4000);
    assert!(pool.provide_initial_liquidity(provider, 1000, 4000).is_ok());

    let joiner = mock_address(0x06);
    fund(&mut pool, joiner, Token::TokenA, 500);
    fund(&mut pool, joiner, Token::TokenB, 2001);
    assert!(pool.provide_liquidity(joiner, contract_address(0x02), 500).is_ok());

    // Opposite side owed: 500 * 4000 / 1000 + 1 = 2001; shares minted:
    // 500 * 2000 / 1000 = 1000.
    let joiner_balance = pool.get_balance_for(&joiner);
    assert_eq!(joiner_balance.a_tokens, 0);
    assert_eq!(joiner_balance.b_tokens, 0);
    assert_eq!(joiner_balance.liquidity_tokens, 1000);
    let reserves = pool.get_balance_for(&contract_address(0x01));
    assert_eq!(reserves.a_tokens, 1500);
    assert_eq!(reserves.b_tokens, 6001);
    assert_eq!(reserves.liquidity_tokens, 3000);
}

#[test]
fn provide_liquidity_minting_nothing_is_rejected() {
    let mut pool = fresh_pool();
    let provider = mock_address(0x04);
    fund(&mut pool, provider, Token::TokenA, 5000);
    fund(&mut pool, provider, Token::TokenB, 4000);
    assert!(pool.provide_initial_liquidity(provider, 5000, 4000).is_ok());
    // 1 * total / 5000 floors to zero: nothing would be minted.
    assert_eq!(
        pool.provide_liquidity(provider, contract_address(0x02), 1),
        Err(PoolError::InsufficientLiquidity)
    );
    assert_eq!(
        pool.provide_liquidity(provider, contract_address(0x02), 0),
        Err(PoolError::InsufficientLiquidity)
    );
}

#[test]
fn reclaim_of_whole_position_is_rejected() {
    let mut pool = fresh_pool();
    let provider = mock_address(0x04);
    fund(&mut pool, provider, Token::TokenA, 1000);
    fund(&mut pool, provider, Token::TokenB, 4000);
    assert!(pool.provide_initial_liquidity(provider, 1000, 4000).is_ok());

    // The provider holds 2000 shares, which is also the whole total:
    // reclaiming the boundary amount is rejected, not silently drained.
    assert_eq!(pool.reclaim_liquidity(provider, 2000), Err(PoolError::InsufficientLiquidity));
    assert_eq!(pool.reclaim_liquidity(provider, 2001), Err(PoolError::InsufficientLiquidity));
    let reserves = pool.get_balance_for(&contract_address(0x01));
    assert_eq!(reserves.a_tokens, 1000);
    assert_eq!(reserves.b_tokens, 4000);
    assert_eq!(reserves.liquidity_tokens, 2000);
}

#[test]
fn reclaim_pays_out_proportionally() {
    let mut pool = fresh_pool();
    let provider = mock_address(0x04);
    fund(&mut pool, provider, Token::TokenA, 1000);
    fund(&mut pool, provider, Token::TokenB, 4000);
    assert!(pool.provide_initial_liquidity(provider, 1000, 4000).is_ok());

    assert!(pool.reclaim_liquidity(provider, 1000).is_ok());
    // Half the shares claim half of each reserve.
    let provider_balance = pool.get_balance_for(&provider);
    assert_eq!(provider_balance.a_tokens, 500);
    assert_eq!(provider_balance.b_tokens, 2000);
    assert_eq!(provider_balance.liquidity_tokens, 1000);
    let reserves = pool.get_balance_for(&contract_address(0x01));
    assert_eq!(reserves.a_tokens, 500);
    assert_eq!(reserves.b_tokens, 2000);
    assert_eq!(reserves.liquidity_tokens, 1000);
}

#[test]
fn withdraw_returns_escrow_and_emits_transfer() {
    let mut pool = fresh_pool();
    let user = mock_address(0x05);
    fund(&mut pool, user, Token::TokenB, 700);

    let event = pool.withdraw(user, contract_address(0x03), 300).unwrap();
    assert_eq!(
        event,
        TransferRequest {
            token: contract_address(0x03),
            action: 1,
            from: contract_address(0x01),
            to: user,
            amount: 300,
        }
    );
    assert_eq!(pool.get_balance_for(&user).b_tokens, 400);
}

#[test]
fn withdraw_beyond_escrow_is_rejected() {
    let mut pool = fresh_pool();
    let user = mock_address(0x05);
    fund(&mut pool, user, Token::TokenB, 100);
    assert_eq!(
        pool.withdraw(user, contract_address(0x03), 101),
        Err(PoolError::InsufficientFunds)
    );
    assert_eq!(pool.get_balance_for(&user).b_tokens, 100);
    assert_eq!(
        pool.withdraw(user, contract_address(0x07), 1),
        Err(PoolError::InvalidTokenAddress)
    );
}

#[test]
fn deposit_callback_overflow_is_rejected() {
    let mut pool = fresh_pool();
    let user = mock_address(0x05);
    fund(&mut pool, user, Token::TokenA, u128::MAX);
    assert_eq!(
        pool.deposit_callback(user, true, Token::TokenA, 1),
        Err(PoolError::ArithmeticOverflow)
    );
    assert_eq!(pool.get_balance_for(&user).a_tokens, u128::MAX);
}

#[test]
fn deduce_tokens_maps_each_side() {
    let pool = fresh_pool();
    assert_eq!(
        pool.deduce_tokens(contract_address(0x02)),
        Ok((Token::TokenA, Token::TokenB))
    );
    assert_eq!(
        pool.deduce_tokens(contract_address(0x03)),
        Ok((Token::TokenB, Token::TokenA))
    );
    assert_eq!(
        pool.deduce_tokens(contract_address(0x04)),
        Err(PoolError::InvalidTokenAddress)
    );
    assert!(!pool.contract_pools_have_liquidity());
}
