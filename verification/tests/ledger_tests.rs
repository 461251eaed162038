use amm_core::address::{Address, AddressKind};
use amm_core::balance::TokenBalance;
use amm_core::errors::PoolError;
use amm_core::ledger::Ledger;
use amm_core::token::Token;

fn account(id: u8) -> Address {
    Address { kind: AddressKind::Account, id: id as u128 }
}

#[test]
fn get_absent_is_zero_sentinel() {
    let ledger = Ledger::new();
    let balance = ledger.get(&account(1));
    assert_eq!(balance, TokenBalance { a_tokens: 0, b_tokens: 0, liquidity_tokens: 0 });
    assert!(balance.user_has_no_tokens());
    assert_eq!(ledger.len(), 0);
}

#[test]
fn credit_creates_entry_lazily() {
    let mut ledger = Ledger::new();
    assert!(ledger.credit(account(1), Token::TokenA, 5).is_ok());
    assert_eq!(ledger.len(), 1);
    assert!(ledger.contains_account(&account(1)));
    assert_eq!(ledger.get(&account(1)).a_tokens, 5);
    assert_eq!(ledger.get(&account(1)).b_tokens, 0);
}

#[test]
fn credit_zero_creates_no_entry() {
    let mut ledger = Ledger::new();
    assert!(ledger.credit(account(1), Token::TokenB, 0).is_ok());
    assert_eq!(ledger.len(), 0);
    assert!(!ledger.contains_account(&account(1)));
}

#[test]
fn credit_overflow_fails_and_changes_nothing() {
    let mut ledger = Ledger::new();
    assert!(ledger.credit(account(1), Token::TokenA, u128::MAX).is_ok());
    let before = ledger.get(&account(1));
    assert_eq!(ledger.credit(account(1), Token::TokenA, 1), Err(PoolError::ArithmeticOverflow));
    assert_eq!(ledger.get(&account(1)), before);
    assert_eq!(before.a_tokens, u128::MAX);
}

#[test]
fn debit_more_than_balance_fails_and_changes_nothing() {
    let mut ledger = Ledger::new();
    assert!(ledger.credit(account(1), Token::TokenA, 3).is_ok());
    assert_eq!(ledger.debit(account(1), Token::TokenA, 4), Err(PoolError::InsufficientFunds));
    assert_eq!(ledger.get(&account(1)).a_tokens, 3);
    assert_eq!(ledger.debit(account(2), Token::TokenA, 1), Err(PoolError::InsufficientFunds));
}

#[test]
fn debit_to_zero_collects_the_entry() {
    let mut ledger = Ledger::new();
    assert!(ledger.credit(account(1), Token::TokenA, 5).is_ok());
    assert!(ledger.credit(account(2), Token::TokenB, 7).is_ok());
    assert_eq!(ledger.len(), 2);
    assert!(ledger.debit(account(1), Token::TokenA, 5).is_ok());
    // The all-zero record is removed: a later get sees the zero sentinel
    // and the enumeration shrinks by one.
    assert_eq!(ledger.len(), 1);
    assert!(!ledger.contains_account(&account(1)));
    assert!(ledger.get(&account(1)).user_has_no_tokens());
    assert!(ledger.contains_account(&account(2)));
}

#[test]
fn debit_keeps_entry_while_another_class_is_nonzero() {
    let mut ledger = Ledger::new();
    assert!(ledger.credit(account(1), Token::TokenA, 5).is_ok());
    assert!(ledger.credit(account(1), Token::LiquidityToken, 2).is_ok());
    assert!(ledger.debit(account(1), Token::TokenA, 5).is_ok());
    assert_eq!(ledger.len(), 1);
    assert_eq!(ledger.get(&account(1)).liquidity_tokens, 2);
}

#[test]
fn move_transfers_between_accounts() {
    let mut ledger = Ledger::new();
    assert!(ledger.credit(account(1), Token::TokenB, 10).is_ok());
    assert!(ledger.move_tokens(account(1), account(2), Token::TokenB, 4).is_ok());
    assert_eq!(ledger.get(&account(1)).b_tokens, 6);
    assert_eq!(ledger.get(&account(2)).b_tokens, 4);
}

#[test]
fn failed_move_leaves_receiver_untouched() {
    let mut ledger = Ledger::new();
    assert!(ledger.credit(account(1), Token::TokenA, 3).is_ok());
    assert!(ledger.credit(account(2), Token::TokenA, 11).is_ok());
    assert_eq!(
        ledger.move_tokens(account(1), account(2), Token::TokenA, 5),
        Err(PoolError::InsufficientFunds)
    );
    assert_eq!(ledger.get(&account(1)).a_tokens, 3);
    assert_eq!(ledger.get(&account(2)).a_tokens, 11);
}

#[test]
fn failed_move_credit_leaves_sender_untouched() {
    let mut ledger = Ledger::new();
    assert!(ledger.credit(account(1), Token::TokenA, 9).is_ok());
    assert!(ledger.credit(account(2), Token::TokenA, u128::MAX).is_ok());
    assert_eq!(
        ledger.move_tokens(account(1), account(2), Token::TokenA, 9),
        Err(PoolError::ArithmeticOverflow)
    );
    assert_eq!(ledger.get(&account(1)).a_tokens, 9);
    assert_eq!(ledger.get(&account(2)).a_tokens, u128::MAX);
}

#[test]
fn move_to_self_changes_nothing() {
    let mut ledger = Ledger::new();
    assert!(ledger.credit(account(1), Token::TokenA, 8).is_ok());
    assert!(ledger.move_tokens(account(1), account(1), Token::TokenA, 8).is_ok());
    assert_eq!(ledger.get(&account(1)).a_tokens, 8);
    assert_eq!(ledger.len(), 1);
}

#[test]
fn balance_accessors_match_fields() {
    let mut balance = TokenBalance { a_tokens: 1, b_tokens: 2, liquidity_tokens: 3 };
    assert_eq!(balance.get_amount_of(&Token::TokenA), 1);
    assert_eq!(balance.get_amount_of(&Token::TokenB), 2);
    assert_eq!(balance.get_amount_of(&Token::LiquidityToken), 3);
    *balance.get_mut_amount_of(&Token::TokenB) = 20;
    assert_eq!(balance.b_tokens, 20);
    assert_eq!(balance.a_tokens, 1);
    assert!(!balance.user_has_no_tokens());
}
