use amm_core::address::{Address, AddressKind};
use amm_core::errors::PoolError;
use amm_core::registry::{
    createOffer, createPool, findPool, initFactory, setFeesTo, set_poolInfo, State, TokenPair,
};

fn mock_address(id: u8) -> Address {
    Address { kind: AddressKind::Account, id: id as u128 }
}

fn contract_address(id: u8) -> Address {
    Address { kind: AddressKind::Contract, id: id as u128 }
}

fn pair() -> TokenPair {
    TokenPair {
        token_a_address: contract_address(0x02),
        token_b_address: contract_address(0x03),
        owner: mock_address(0x00),
    }
}

#[test]
fn factory_deploys_and_records_its_first_pool() {
    let (factory, pool) =
        initFactory(pair(), 3, 500, mock_address(0x00), contract_address(0x01)).unwrap();
    assert_eq!(factory.swap_fees, 3);
    assert_eq!(factory.minimum_liquidity, 500);
    assert_eq!(factory.owner, mock_address(0x00));
    assert_eq!(pool.contract, contract_address(0x01));
    assert_eq!(pool.owner, mock_address(0x00));
    assert_eq!(pool.swap_fees, 3);
    assert_eq!(pool.token_a_address, contract_address(0x02));
    assert_eq!(pool.token_b_address, contract_address(0x03));
    // The registry answers lookups for the recorded pair, in either
    // orientation.
    assert_eq!(
        findPool(&factory, contract_address(0x02), contract_address(0x03), 10),
        Ok(Some(contract_address(0x01)))
    );
    assert_eq!(
        findPool(&factory, contract_address(0x03), contract_address(0x02), 10),
        Ok(Some(contract_address(0x01)))
    );
    assert_eq!(
        findPool(&factory, contract_address(0x02), contract_address(0x09), 10),
        Ok(None)
    );
}

#[test]
fn factory_rejects_identical_tokens() {
    let bad = TokenPair {
        token_a_address: contract_address(0x02),
        token_b_address: contract_address(0x02),
        owner: mock_address(0x00),
    };
    assert!(matches!(
        initFactory(bad, 3, 500, mock_address(0x00), contract_address(0x01)),
        Err(PoolError::InvalidConfiguration)
    ));
}

#[test]
fn find_pool_validates_its_arguments() {
    let (factory, _) =
        initFactory(pair(), 3, 500, mock_address(0x00), contract_address(0x01)).unwrap();
    assert_eq!(
        findPool(&factory, contract_address(0x02), contract_address(0x02), 10),
        Err(PoolError::InvalidConfiguration)
    );
    assert_eq!(
        findPool(&factory, contract_address(0x02), contract_address(0x03), 0),
        Err(PoolError::InvalidConfiguration)
    );
}

#[test]
fn only_the_owner_changes_fees() {
    let (mut factory, _) =
        initFactory(pair(), 3, 500, mock_address(0x00), contract_address(0x01)).unwrap();
    assert_eq!(
        setFeesTo(mock_address(0x09), 7, &mut factory),
        Err(PoolError::Unauthorized)
    );
    assert_eq!(factory.swap_fees, 3);
    assert!(setFeesTo(mock_address(0x00), 7, &mut factory).is_ok());
    assert_eq!(factory.swap_fees, 7);
}

#[test]
fn create_pool_registers_and_moves_the_fee() {
    let (mut factory, _) =
        initFactory(pair(), 3, 500, mock_address(0x00), contract_address(0x01)).unwrap();
    let second = TokenPair {
        token_a_address: contract_address(0x04),
        token_b_address: contract_address(0x05),
        owner: mock_address(0x08),
    };
    let pool = createPool(mock_address(0x08), second, 9, contract_address(0x06), &mut factory)
        .unwrap();
    // The new pool carries the factory's fee at deployment time; the
    // factory then moves to the new fee.
    assert_eq!(pool.swap_fees, 3);
    assert_eq!(pool.owner, mock_address(0x08));
    assert_eq!(factory.swap_fees, 9);
    assert_eq!(
        findPool(&factory, contract_address(0x04), contract_address(0x05), 10),
        Ok(Some(contract_address(0x06)))
    );
}

#[test]
fn create_offer_files_a_pending_order() {
    let (mut factory, _) =
        initFactory(pair(), 3, 500, mock_address(0x00), contract_address(0x01)).unwrap();
    let wallet = mock_address(0x07);
    let order = createOffer(
        wallet,
        contract_address(0x02),
        125,
        contract_address(0x03),
        Some(100),
        &mut factory,
    );
    assert_eq!(order.walletAddress, wallet);
    assert_eq!(order.srcAddress, contract_address(0x02));
    assert_eq!(order.destAddress, contract_address(0x03));
    assert_eq!(order.srcAmount, 125);
    assert_eq!(order.destAmountMin, Some(100));
    assert_eq!(order._state, State::OrderPending);
    assert_eq!(factory.current_orders.order_for(&wallet), Some(order));
    assert_eq!(factory.current_orders.order_for(&mock_address(0x09)), None);
}

#[test]
fn pair_registration_is_indexed_and_removable() {
    let (mut factory, _) =
        initFactory(pair(), 3, 500, mock_address(0x00), contract_address(0x01)).unwrap();
    let second = TokenPair {
        token_a_address: contract_address(0x04),
        token_b_address: contract_address(0x05),
        owner: mock_address(0x00),
    };
    let index = factory.add_registered_pair(second);
    assert_eq!(index, 1);
    assert!(factory.remove_registered_pair(0));
    assert_eq!(factory.registeredpairs.len(), 1);
    assert_eq!(factory.registeredpairs[0], second);
}

#[test]
fn pool_info_seed_holds_one_record() {
    let info = set_poolInfo(mock_address(0x00), &pair(), contract_address(0x01));
    assert_eq!(
        info.lookup(&contract_address(0x02), &contract_address(0x03)),
        Some(contract_address(0x01))
    );
    assert_eq!(info.lookup(&contract_address(0x02), &contract_address(0x04)), None);
}
