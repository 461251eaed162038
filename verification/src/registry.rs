//! The factory/registry layer.
//!
//! The factory records which deployed pool serves which pair of external
//! tokens, together with the pool's owner and fee metadata, and initiates
//! pool deployment. It never computes prices and never routes across
//! pools: it only keeps records and answers lookups.

use vstd::prelude::*;

use crate::address::Address;
use crate::errors::PoolError;
use crate::pool::{valid_config, PoolContractState};

verus! {

/// A pair of external token addresses and the liquidity provider who
/// owns the pool deployed for them.
#[derive(Clone, Copy, Debug, PartialEq, Eq, Structural)]
pub struct TokenPair {
    /// The external address of the first token.
    pub token_a_address: Address,
    /// The external address of the second token.
    pub token_b_address: Address,
    /// The liquidity provider who owns the deployed pool.
    pub owner: Address,
}

/// The lifecycle of a recorded swap offer.
#[derive(Clone, Copy, Debug, PartialEq, Eq, Structural)]
pub enum State {
    /// The order exists but has not been submitted.
    Started,
    /// The order awaits execution.
    OrderPending,
    /// The order was cancelled before execution.
    OrderCancelled,
    /// The order's funds were withdrawn.
    OrderWithdrawn,
    /// The order was executed.
    OrderCompleted,
}

/// A recorded swap offer: who asks, what they give, what they want.
#[derive(Clone, Copy, Debug, PartialEq, Eq, Structural)]
#[allow(non_snake_case)]
pub struct Order {
    /// The wallet that created the offer.
    pub walletAddress: Address,
    /// The token the wallet gives.
    pub srcAddress: Address,
    /// The token the wallet wants.
    pub destAddress: Address,
    /// How much of the source token the wallet gives.
    pub srcAmount: u128,
    /// The least acceptable amount of the destination token, if any.
    pub destAmountMin: Option<u128>,
    /// Where the order stands in its lifecycle.
    pub _state: State,
}

/// One registry record: a token pair, the pool deployed for it, and the
/// pool's owner.
#[derive(Clone, Copy, Debug, PartialEq, Eq, Structural)]
pub struct PoolRecord {
    /// The owner of the deployed pool.
    pub owner: Address,
    /// The external address of the first token.
    pub token_a_address: Address,
    /// The external address of the second token.
    pub token_b_address: Address,
    /// The address of the pool deployed for the pair.
    pub pool_address: Address,
}

/// Whether a record serves the unordered pair of `a` and `b`.
pub open spec fn pair_matches(record: PoolRecord, a: Address, b: Address) -> bool {
    ||| (record.token_a_address == a && record.token_b_address == b)
    ||| (record.token_a_address == b && record.token_b_address == a)
}

/// The pool address of the first record serving the pair, if any.
pub open spec fn spec_lookup(s: Seq<PoolRecord>, a: Address, b: Address) -> Option<Address>
    decreases s.len(),
{
    if s.len() == 0 {
        None
    } else if pair_matches(s[0], a, b) {
        Some(s[0].pool_address)
    } else {
        spec_lookup(s.drop_first(), a, b)
    }
}

/// The registry's record table, in registration order.
pub struct PoolInfo {
    records: Vec<PoolRecord>,
}

impl View for PoolInfo {
    type V = Seq<PoolRecord>;

    closed spec fn view(&self) -> Seq<PoolRecord> {
        self.records@
    }
}

impl PoolInfo {
    /// An empty registry.
    pub fn new() -> (r: PoolInfo)
        ensures
            r@ == Seq::<PoolRecord>::empty(),
    {
        PoolInfo { records: Vec::new() }
    }

    /// Appends a record for a newly deployed pool.
    pub fn register(&mut self, record: PoolRecord)
        ensures
            final(self)@ == old(self)@.push(record),
    {
        self.records.push(record);
    }

    /// The pool recorded for the unordered pair of `token_a` and
    /// `token_b`: the earliest registered record wins.
    pub fn lookup(&self, token_a: &Address, token_b: &Address) -> (r: Option<Address>)
        ensures
            r == spec_lookup(self@, *token_a, *token_b),
    {
        let n = self.records.len();
        let mut k: usize = 0;
        proof {
            assert(self.records@.skip(0) =~= self.records@);
        }
        while k < n
            invariant
                n == self.records@.len(),
                k <= n,
                spec_lookup(self.records@, *token_a, *token_b) == spec_lookup(
                    self.records@.skip(k as int),
                    *token_a,
                    *token_b,
                ),
            decreases n - k,
        {
            let record = self.records[k];
            proof {
                assert(self.records@.skip(k as int)[0] == self.records@[k as int]);
                assert(self.records@.skip(k as int).drop_first() =~= self.records@.skip(
                    k as int + 1,
                ));
            }
            let matches_ab = record.token_a_address == *token_a && record.token_b_address
                == *token_b;
            let matches_ba = record.token_a_address == *token_b && record.token_b_address
                == *token_a;
            if matches_ab || matches_ba {
                return Some(record.pool_address);
            }
            k += 1;
        }
        None
    }
}

/// One stored offer: the wallet key it was filed under and the order.
#[derive(Clone, Copy, Debug, PartialEq, Eq, Structural)]
pub struct OrderEntry {
    /// The wallet the offer was filed under.
    pub wallet: Address,
    /// The recorded order.
    pub order: Order,
}

/// The most recently filed order for `wallet`, if any.
pub open spec fn spec_order_for(s: Seq<OrderEntry>, wallet: Address) -> Option<Order>
    decreases s.len(),
{
    if s.len() == 0 {
        None
    } else if s.last().wallet == wallet {
        Some(s.last().order)
    } else {
        spec_order_for(s.drop_last(), wallet)
    }
}

/// The factory's book of open offers, in filing order; the latest filing
/// for a wallet is the one in force.
pub struct OrderBook {
    entries: Vec<OrderEntry>,
}

impl View for OrderBook {
    type V = Seq<OrderEntry>;

    closed spec fn view(&self) -> Seq<OrderEntry> {
        self.entries@
    }
}

impl OrderBook {
    /// An empty order book.
    pub fn new() -> (r: OrderBook)
        ensures
            r@ == Seq::<OrderEntry>::empty(),
    {
        OrderBook { entries: Vec::new() }
    }

    /// Files `order` under `wallet`, superseding any earlier filing.
    pub fn file(&mut self, wallet: Address, order: Order)
        ensures
            final(self)@ == old(self)@.push(OrderEntry { wallet, order }),
    {
        self.entries.push(OrderEntry { wallet, order });
    }

    /// The order in force for `wallet`, if any.
    pub fn order_for(&self, wallet: &Address) -> (r: Option<Order>)
        ensures
            r == spec_order_for(self@, *wallet),
    {
        let mut k: usize = self.entries.len();
        proof {
            assert(self.entries@.take(self.entries@.len() as int) =~= self.entries@);
        }
        while k > 0
            invariant
                k <= self.entries@.len(),
                spec_order_for(self.entries@, *wallet) == spec_order_for(
                    self.entries@.take(k as int),
                    *wallet,
                ),
            decreases k,
        {
            proof {
                assert(self.entries@.take(k as int).last() == self.entries@[k as int - 1]);
                assert(self.entries@.take(k as int).drop_last() =~= self.entries@.take(
                    k as int - 1,
                ));
            }
            let entry = self.entries[k - 1];
            if entry.wallet == *wallet {
                return Some(entry.order);
            }
            k -= 1;
        }
        None
    }
}

/// The persisted state of the pool factory.
pub struct PoolFactoryContractState {
    /// The records of deployed pools, one per registered pair.
    pub poolinfo: PoolInfo,
    /// The token pairs registered with the factory.
    pub registeredpairs: Vec<TokenPair>,
    /// The least amount of each token a deployment must supply.
    pub minimum_liquidity: u128,
    /// The fee, in parts per thousand, the factory hands to newly
    /// deployed pools.
    pub swap_fees: u128,
    /// The manager of the factory: only it may change fees.
    pub owner: Address,
    /// The open offers filed with the factory.
    pub current_orders: OrderBook,
}

impl PoolFactoryContractState {
    /// Whether `other` differs from this state only in its fee.
    pub open spec fn same_but_fees(&self, other: PoolFactoryContractState) -> bool {
        &&& other.poolinfo@ == self.poolinfo@
        &&& other.registeredpairs@ == self.registeredpairs@
        &&& other.minimum_liquidity == self.minimum_liquidity
        &&& other.owner == self.owner
        &&& other.current_orders@ == self.current_orders@
    }

    /// Records a new factory fee for subsequent deployments.
    pub fn set_fees(&mut self, fees: u128) -> (r: bool)
        ensures
            final(self).swap_fees == fees,
            old(self).same_but_fees(*final(self)),
            r,
    {
        self.swap_fees = fees;
        true
    }

    /// Registers a token pair and reports its index in the registration
    /// order.
    pub fn add_registered_pair(&mut self, pair: TokenPair) -> (r: usize)
        ensures
            final(self).registeredpairs@ == old(self).registeredpairs@.push(pair),
            r == old(self).registeredpairs@.len(),
            final(self).poolinfo@ == old(self).poolinfo@,
            final(self).minimum_liquidity == old(self).minimum_liquidity,
            final(self).swap_fees == old(self).swap_fees,
            final(self).owner == old(self).owner,
            final(self).current_orders@ == old(self).current_orders@,
    {
        self.registeredpairs.push(pair);
        self.registeredpairs.len() - 1
    }

    /// Strikes the registered pair at `index` from the registration
    /// order.
    pub fn remove_registered_pair(&mut self, index: usize) -> (r: bool)
        requires
            index < old(self).registeredpairs@.len(),
        ensures
            final(self).registeredpairs@ == old(self).registeredpairs@.remove(index as int),
            final(self).poolinfo@ == old(self).poolinfo@,
            final(self).minimum_liquidity == old(self).minimum_liquidity,
            final(self).swap_fees == old(self).swap_fees,
            final(self).owner == old(self).owner,
            final(self).current_orders@ == old(self).current_orders@,
            r,
    {
        self.registeredpairs.remove(index);
        true
    }

    /// Files an offer under `walletAddress`.
    #[allow(non_snake_case)]
    pub fn add_offer(&mut self, walletAddress: Address, order: Order) -> (r: bool)
        ensures
            final(self).current_orders@ == old(self).current_orders@.push(
                OrderEntry { wallet: walletAddress, order },
            ),
            final(self).poolinfo@ == old(self).poolinfo@,
            final(self).registeredpairs@ == old(self).registeredpairs@,
            final(self).minimum_liquidity == old(self).minimum_liquidity,
            final(self).swap_fees == old(self).swap_fees,
            final(self).owner == old(self).owner,
            r,
    {
        self.current_orders.file(walletAddress, order);
        true
    }
}

/// The registry seeded with the record of one deployed pool: the pair,
/// its owner, and the pool's address.
#[allow(non_snake_case)]
pub fn set_poolInfo(ownerAddress: Address, pairRegistered: &TokenPair, poolAddress: Address) -> (r:
    PoolInfo)
    ensures
        r@ == Seq::<PoolRecord>::empty().push(
            PoolRecord {
                owner: ownerAddress,
                token_a_address: pairRegistered.token_a_address,
                token_b_address: pairRegistered.token_b_address,
                pool_address: poolAddress,
            },
        ),
{
    let mut info = PoolInfo::new();
    info.register(
        PoolRecord {
            owner: ownerAddress,
            token_a_address: pairRegistered.token_a_address,
            token_b_address: pairRegistered.token_b_address,
            pool_address: poolAddress,
        },
    );
    info
}

/// Deploys the factory together with its first pool: validates the pair,
/// initializes a pool for it at `poolAddress`, and returns the factory
/// state seeded with that pool's record. Fails with
/// `InvalidConfiguration` exactly when the pool's deployment parameters
/// are rejected.
#[allow(non_snake_case)]
pub fn initFactory(
    pair: TokenPair,
    swap_fees: u128,
    initial_liquidity: u128,
    ownerAddress: Address,
    poolAddress: Address,
) -> (r: Result<(PoolFactoryContractState, PoolContractState), PoolError>)
    ensures
        !valid_config(pair.token_a_address, pair.token_b_address, swap_fees) ==> r == Err::<
            (PoolFactoryContractState, PoolContractState),
            PoolError,
        >(PoolError::InvalidConfiguration),
        valid_config(pair.token_a_address, pair.token_b_address, swap_fees) ==> (r matches Ok(out)
            && {
            let (factory, pool) = out;
            &&& pool.contract == poolAddress
            &&& pool.owner == ownerAddress
            &&& pool.token_a_address == pair.token_a_address
            &&& pool.token_b_address == pair.token_b_address
            &&& pool.swap_fees == swap_fees
            &&& pool.token_balance@ == Map::<
                crate::address::Address,
                crate::balance::TokenBalance,
            >::empty()
            &&& pool.wf()
            &&& factory.poolinfo@ == Seq::<PoolRecord>::empty().push(
                PoolRecord {
                    owner: ownerAddress,
                    token_a_address: pair.token_a_address,
                    token_b_address: pair.token_b_address,
                    pool_address: poolAddress,
                },
            )
            &&& factory.registeredpairs@ == Seq::<TokenPair>::empty().push(pair)
            &&& factory.swap_fees == swap_fees
            &&& factory.minimum_liquidity == initial_liquidity
            &&& factory.owner == ownerAddress
            &&& factory.current_orders@ == Seq::<OrderEntry>::empty()
        }),
{
    if pair.token_a_address == pair.token_b_address {
        return Err(PoolError::InvalidConfiguration);
    }
    let pool = match PoolContractState::initialize(
        poolAddress,
        ownerAddress,
        pair.token_a_address,
        pair.token_b_address,
        swap_fees,
    ) {
        Ok(p) => p,
        Err(e) => {
            return Err(e);
        },
    };
    let mut registeredpairs: Vec<TokenPair> = Vec::new();
    registeredpairs.push(pair);
    let factory = PoolFactoryContractState {
        poolinfo: set_poolInfo(ownerAddress, &pair, poolAddress),
        registeredpairs,
        swap_fees,
        minimum_liquidity: initial_liquidity,
        owner: ownerAddress,
        current_orders: OrderBook::new(),
    };
    Ok((factory, pool))
}

/// Changes the factory fee; only the factory owner may. Fails with
/// `Unauthorized`, changing nothing, exactly when the caller is not the
/// owner.
#[allow(non_snake_case)]
pub fn setFeesTo(caller: Address, fees: u128, state: &mut PoolFactoryContractState) -> (r: Result<
    (),
    PoolError,
>)
    ensures
        caller != old(state).owner ==> (r matches Err(e) && e == PoolError::Unauthorized)
            && *final(state) == *old(state),
        caller == old(state).owner ==> r is Ok && final(state).swap_fees == fees
            && old(state).same_but_fees(*final(state)),
{
    if !(caller == state.owner) {
        return Err(PoolError::Unauthorized);
    }
    state.set_fees(fees);
    Ok(())
}

/// Deploys a new pool for `pair` at `poolAddress`, owned by the caller
/// and carrying the factory's current fee; registers the pair, records
/// the deployment, and moves the factory to the new fee. Fails with
/// `InvalidConfiguration`, changing nothing, exactly when the pool's
/// deployment parameters are rejected.
#[allow(non_snake_case)]
pub fn createPool(
    caller: Address,
    pair: TokenPair,
    swap_fees: u128,
    poolAddress: Address,
    state: &mut PoolFactoryContractState,
) -> (r: Result<PoolContractState, PoolError>)
    ensures
        !valid_config(pair.token_a_address, pair.token_b_address, old(state).swap_fees) ==> (
        r matches Err(e) && e == PoolError::InvalidConfiguration) && *final(state) == *old(state),
        valid_config(pair.token_a_address, pair.token_b_address, old(state).swap_fees) ==> (
        r matches Ok(pool) && {
            &&& pool.contract == poolAddress
            &&& pool.owner == caller
            &&& pool.token_a_address == pair.token_a_address
            &&& pool.token_b_address == pair.token_b_address
            &&& pool.swap_fees == old(state).swap_fees
            &&& pool.token_balance@ == Map::<
                crate::address::Address,
                crate::balance::TokenBalance,
            >::empty()
            &&& pool.wf()
            &&& final(state).poolinfo@ == old(state).poolinfo@.push(
                PoolRecord {
                    owner: caller,
                    token_a_address: pair.token_a_address,
                    token_b_address: pair.token_b_address,
                    pool_address: poolAddress,
                },
            )
            &&& final(state).registeredpairs@ == old(state).registeredpairs@.push(pair)
            &&& final(state).swap_fees == swap_fees
            &&& final(state).minimum_liquidity == old(state).minimum_liquidity
            &&& final(state).owner == old(state).owner
            &&& final(state).current_orders@ == old(state).current_orders@
        }),
{
    if pair.token_a_address == pair.token_b_address {
        return Err(PoolError::InvalidConfiguration);
    }
    let pool = match PoolContractState::initialize(
        poolAddress,
        caller,
        pair.token_a_address,
        pair.token_b_address,
        state.swap_fees,
    ) {
        Ok(p) => p,
        Err(e) => {
            return Err(e);
        },
    };
    state.add_registered_pair(pair);
    state.set_fees(swap_fees);
    state.poolinfo.register(
        PoolRecord {
            owner: caller,
            token_a_address: pair.token_a_address,
            token_b_address: pair.token_b_address,
            pool_address: poolAddress,
        },
    );
    Ok(pool)
}

/// Files a swap offer for the caller: what they give, what they want,
/// and the least acceptable return, recorded as pending.
#[allow(non_snake_case)]
pub fn createOffer(
    caller: Address,
    srcToken: Address,
    amount: u128,
    destToken: Address,
    destTokenMin: Option<u128>,
    state: &mut PoolFactoryContractState,
) -> (r: Order)
    ensures
        r == (Order {
            walletAddress: caller,
            srcAddress: srcToken,
            destAddress: destToken,
            srcAmount: amount,
            destAmountMin: destTokenMin,
            _state: State::OrderPending,
        }),
        final(state).current_orders@ == old(state).current_orders@.push(
            OrderEntry { wallet: caller, order: r },
        ),
        final(state).poolinfo@ == old(state).poolinfo@,
        final(state).registeredpairs@ == old(state).registeredpairs@,
        final(state).minimum_liquidity == old(state).minimum_liquidity,
        final(state).swap_fees == old(state).swap_fees,
        final(state).owner == old(state).owner,
{
    let offer = Order {
        walletAddress: caller,
        srcAddress: srcToken,
        destAddress: destToken,
        srcAmount: amount,
        destAmountMin: destTokenMin,
        _state: State::OrderPending,
    };
    state.add_offer(caller, offer);
    offer
}

/// Looks up which pool serves the pair of `srcToken` and `destToken`, in
/// either orientation. Fails with `InvalidConfiguration` exactly when
/// the two tokens coincide or the amount is zero; otherwise answers with
/// the earliest matching record, or nothing when no pool serves the
/// pair.
#[allow(non_snake_case)]
pub fn findPool(
    state: &PoolFactoryContractState,
    srcToken: Address,
    destToken: Address,
    amount: u128,
) -> (r: Result<Option<Address>, PoolError>)
    ensures
        srcToken == destToken || amount == 0 ==> r == Err::<Option<Address>, PoolError>(
            PoolError::InvalidConfiguration,
        ),
        srcToken != destToken && amount != 0 ==> r == Ok::<Option<Address>, PoolError>(
            spec_lookup(state.poolinfo@, srcToken, destToken),
        ),
{
    if srcToken == destToken {
        return Err(PoolError::InvalidConfiguration);
    }
    if amount == 0 {
        return Err(PoolError::InvalidConfiguration);
    }
    Ok(state.poolinfo.lookup(&srcToken, &destToken))
}

} // verus!
