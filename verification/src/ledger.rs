//! The balance ledger: a table of per-account, per-asset-class amounts.
//!
//! The ledger's mathematical model is a finite map from account addresses
//! to balance records. An entry is created lazily on the first credit and
//! removed as soon as a debit leaves all three of its amounts zero, so an
//! all-zero record is never stored and is indistinguishable from a missing
//! one. Entries are held in insertion order, which keeps enumeration
//! deterministic.

use vstd::prelude::*;
use vstd::pervasive::unreached;

use crate::address::Address;
use crate::balance::TokenBalance;
use crate::errors::PoolError;
use crate::token::Token;

verus! {

/// One stored row of the ledger.
#[derive(Clone, Copy, Debug, PartialEq, Eq, Structural)]
pub struct LedgerEntry {
    /// The account this row belongs to.
    pub account: Address,
    /// The account's three per-asset-class amounts, never all zero.
    pub balance: TokenBalance,
}

/// The balance a ledger model records for `account`: the stored record, or
/// the empty sentinel when the account is absent.
pub open spec fn lookup(m: Map<Address, TokenBalance>, account: Address) -> TokenBalance {
    if m.contains_key(account) {
        m[account]
    } else {
        TokenBalance::spec_zero()
    }
}

/// The amount a ledger model records for `account` in the asset class
/// `token`.
pub open spec fn amount_in(m: Map<Address, TokenBalance>, account: Address, token: Token) -> u128 {
    lookup(m, account).spec_amount_of(token)
}

/// Whether crediting `amount` stays within the 128-bit range.
pub open spec fn credit_ok(
    m: Map<Address, TokenBalance>,
    account: Address,
    token: Token,
    amount: u128,
) -> bool {
    amount_in(m, account, token) + amount <= u128::MAX
}

/// The ledger model after crediting `amount` of `token` to `account`.
/// Meaningful when `credit_ok` holds.
pub open spec fn spec_credit(
    m: Map<Address, TokenBalance>,
    account: Address,
    token: Token,
    amount: u128,
) -> Map<Address, TokenBalance> {
    if amount == 0 {
        m
    } else {
        m.insert(
            account,
            lookup(m, account).spec_with_amount(
                token,
                (amount_in(m, account, token) + amount) as u128,
            ),
        )
    }
}

/// Whether `account` holds at least `amount` of `token`, so a debit may
/// proceed.
pub open spec fn debit_ok(
    m: Map<Address, TokenBalance>,
    account: Address,
    token: Token,
    amount: u128,
) -> bool {
    amount <= amount_in(m, account, token)
}

/// The ledger model after debiting `amount` of `token` from `account`,
/// removing the entry when all three of its amounts reach zero.
/// Meaningful when `debit_ok` holds.
pub open spec fn spec_debit(
    m: Map<Address, TokenBalance>,
    account: Address,
    token: Token,
    amount: u128,
) -> Map<Address, TokenBalance> {
    if amount == 0 {
        m
    } else {
        let updated = lookup(m, account).spec_with_amount(
            token,
            (amount_in(m, account, token) - amount) as u128,
        );
        if updated.spec_is_zero() {
            m.remove(account)
        } else {
            m.insert(account, updated)
        }
    }
}

/// Whether moving `amount` of `token` from `from` to `to` can fully
/// proceed: the debit is covered and the credit on the debited ledger
/// stays in range.
pub open spec fn move_ok(
    m: Map<Address, TokenBalance>,
    from: Address,
    to: Address,
    token: Token,
    amount: u128,
) -> bool {
    &&& debit_ok(m, from, token, amount)
    &&& credit_ok(spec_debit(m, from, token, amount), to, token, amount)
}

/// The ledger model after an atomic move: a debit from `from` followed by
/// a credit to `to`. Meaningful when `move_ok` holds.
pub open spec fn spec_move(
    m: Map<Address, TokenBalance>,
    from: Address,
    to: Address,
    token: Token,
    amount: u128,
) -> Map<Address, TokenBalance> {
    spec_credit(spec_debit(m, from, token, amount), to, token, amount)
}

/// Garbage collection of emptied entries: a debit that clears an
/// account's last holdings removes the account from the ledger, so a
/// later lookup sees the zero sentinel and the ledger enumerates one
/// account fewer.
pub proof fn lemma_debit_collects_empty_entry(
    m: Map<Address, TokenBalance>,
    account: Address,
    token: Token,
    amount: u128,
)
    requires
        m.dom().finite(),
        amount > 0,
        debit_ok(m, account, token, amount),
        lookup(m, account).spec_with_amount(
            token,
            (amount_in(m, account, token) - amount) as u128,
        ).spec_is_zero(),
    ensures
        !spec_debit(m, account, token, amount).contains_key(account),
        lookup(spec_debit(m, account, token, amount), account) == TokenBalance::spec_zero(),
        spec_debit(m, account, token, amount).dom().len() == m.dom().len() - 1,
{
    assert(amount_in(m, account, token) > 0);
    assert(m.contains_key(account));
    assert(spec_debit(m, account, token, amount) == m.remove(account));
    assert(m.remove(account).dom() =~= m.dom().remove(account));
}

/// The per-account, per-asset-class balance table of one pool.
pub struct Ledger {
    entries: Vec<LedgerEntry>,
}

impl View for Ledger {
    type V = Map<Address, TokenBalance>;

    closed spec fn view(&self) -> Map<Address, TokenBalance> {
        Ledger::seq_to_map(self.entries@)
    }
}

impl Ledger {
    /// The map a row sequence denotes: later rows win, though
    /// well-formedness makes every account appear at most once.
    closed spec fn seq_to_map(s: Seq<LedgerEntry>) -> Map<Address, TokenBalance>
        decreases s.len(),
    {
        if s.len() == 0 {
            Map::empty()
        } else {
            Self::seq_to_map(s.drop_last()).insert(s.last().account, s.last().balance)
        }
    }

    /// No account appears in two rows.
    closed spec fn uniq(s: Seq<LedgerEntry>) -> bool {
        forall|i: int, j: int|
            0 <= i < j < s.len() ==> (#[trigger] s[i]).account != (#[trigger] s[j]).account
    }

    /// No stored row is the all-zero sentinel.
    closed spec fn all_nonzero(s: Seq<LedgerEntry>) -> bool {
        forall|i: int| 0 <= i < s.len() ==> !(#[trigger] s[i]).balance.spec_is_zero()
    }

    /// The ledger's invariant: accounts unique, no all-zero row stored.
    pub closed spec fn wf(&self) -> bool {
        Self::uniq(self.entries@) && Self::all_nonzero(self.entries@)
    }

    /// How the row sequence relates to its map: finite domain of the same
    /// size, an account is in the domain exactly when some row holds it,
    /// and each row's balance is its account's map value.
    proof fn lemma_map_props(s: Seq<LedgerEntry>)
        requires
            Self::uniq(s),
        ensures
            Self::seq_to_map(s).dom().finite(),
            Self::seq_to_map(s).dom().len() == s.len(),
            forall|a: Address|
                #[trigger] Self::seq_to_map(s).contains_key(a) <==> exists|i: int|
                    0 <= i < s.len() && (#[trigger] s[i]).account == a,
            forall|i: int|
                0 <= i < s.len() ==> Self::seq_to_map(s).contains_key((#[trigger] s[i]).account)
                    && Self::seq_to_map(s)[s[i].account] == s[i].balance,
        decreases s.len(),
    {
        if s.len() == 0 {
        } else {
            let s0 = s.drop_last();
            let last = s.last();
            Self::lemma_map_props(s0);
            let m0 = Self::seq_to_map(s0);
            assert(forall|i: int| 0 <= i < s0.len() ==> s[i] == s0[i]);
            assert(!m0.contains_key(last.account)) by {
                if m0.contains_key(last.account) {
                    let i = choose|i: int|
                        0 <= i < s0.len() && (#[trigger] s0[i]).account == last.account;
                    assert(s[i].account == s[s.len() - 1].account);
                }
            }
        }
    }

    /// Overwriting row `i` with a row for the same account turns the map's
    /// value for that account into the new balance.
    proof fn lemma_map_update(s: Seq<LedgerEntry>, i: int, e: LedgerEntry)
        requires
            Self::uniq(s),
            0 <= i < s.len(),
            e.account == s[i].account,
        ensures
            Self::seq_to_map(s.update(i, e)) == Self::seq_to_map(s).insert(e.account, e.balance),
            Self::uniq(s.update(i, e)),
        decreases s.len(),
    {
        let su = s.update(i, e);
        assert(forall|j: int| 0 <= j < s.len() && j != i ==> su[j] == s[j]);
        if i == s.len() - 1 {
            assert(su.drop_last() =~= s.drop_last());
            assert(Self::seq_to_map(su) =~= Self::seq_to_map(s).insert(e.account, e.balance));
        } else {
            let s0 = s.drop_last();
            Self::lemma_map_update(s0, i, e);
            assert(su.drop_last() =~= s0.update(i, e));
            assert(su.last() == s.last());
            Self::lemma_map_props(s);
            assert(s.last().account != e.account);
            assert(Self::seq_to_map(su) =~= Self::seq_to_map(s).insert(e.account, e.balance));
        }
    }

    /// Appending a row for an account no row holds extends the map by that
    /// account.
    proof fn lemma_map_push(s: Seq<LedgerEntry>, e: LedgerEntry)
        requires
            Self::uniq(s),
            forall|i: int| 0 <= i < s.len() ==> (#[trigger] s[i]).account != e.account,
        ensures
            Self::seq_to_map(s.push(e)) == Self::seq_to_map(s).insert(e.account, e.balance),
            Self::uniq(s.push(e)),
    {
        let sp = s.push(e);
        assert(sp.drop_last() =~= s);
        assert(sp.last() == e);
        assert(Self::seq_to_map(sp) == Self::seq_to_map(sp.drop_last()).insert(
            sp.last().account,
            sp.last().balance,
        ));
        assert(forall|j: int| 0 <= j < s.len() ==> sp[j] == s[j]);
    }

    /// Removing row `i` removes its account from the map.
    proof fn lemma_map_remove(s: Seq<LedgerEntry>, i: int)
        requires
            Self::uniq(s),
            0 <= i < s.len(),
        ensures
            Self::seq_to_map(s.remove(i)) == Self::seq_to_map(s).remove(s[i].account),
            Self::uniq(s.remove(i)),
        decreases s.len(),
    {
        let sr = s.remove(i);
        assert(forall|j: int| 0 <= j < i ==> sr[j] == s[j]);
        assert(forall|j: int| i <= j < sr.len() ==> sr[j] == s[j + 1]);
        let s0 = s.drop_last();
        let m0 = Self::seq_to_map(s0);
        Self::lemma_map_props(s0);
        Self::lemma_map_props(s);
        if i == s.len() - 1 {
            assert(sr =~= s0);
            assert(!m0.contains_key(s[i].account));
            assert(Self::seq_to_map(sr) =~= Self::seq_to_map(s).remove(s[i].account));
        } else {
            Self::lemma_map_remove(s0, i);
            assert(sr.drop_last() =~= s0.remove(i));
            assert(sr.last() == s.last());
            assert(s.last().account != s[i].account);
            assert(Self::seq_to_map(sr) =~= Self::seq_to_map(s).remove(s[i].account));
        }
    }

    /// An empty ledger: no accounts, nothing recorded.
    pub fn new() -> (r: Ledger)
        ensures
            r@ == Map::<Address, TokenBalance>::empty(),
            r.wf(),
    {
        Ledger { entries: Vec::new() }
    }

    /// The index of the row holding `account`, when one does.
    fn find_index(&self, account: &Address) -> (r: Option<usize>)
        ensures
            match r {
                Some(i) => i < self.entries@.len() && self.entries@[i as int].account == *account,
                None => forall|j: int|
                    0 <= j < self.entries@.len() ==> (#[trigger] self.entries@[j]).account
                        != *account,
            },
    {
        let n = self.entries.len();
        let mut k: usize = 0;
        while k < n
            invariant
                n == self.entries@.len(),
                k <= n,
                forall|j: int| 0 <= j < k ==> (#[trigger] self.entries@[j]).account != *account,
            decreases n - k,
        {
            if self.entries[k].account == *account {
                return Some(k);
            }
            k += 1;
        }
        None
    }

    /// The balance recorded for `account`, or the zero sentinel when the
    /// account is absent. Never fails.
    pub fn get(&self, account: &Address) -> (r: TokenBalance)
        requires
            self.wf(),
        ensures
            r == lookup(self@, *account),
    {
        proof {
            Self::lemma_map_props(self.entries@);
        }
        match self.find_index(account) {
            Some(i) => self.entries[i].balance,
            None => TokenBalance::zero(),
        }
    }

    /// Whether the ledger holds an entry for `account`.
    pub fn contains_account(&self, account: &Address) -> (r: bool)
        requires
            self.wf(),
        ensures
            r == self@.contains_key(*account),
    {
        proof {
            Self::lemma_map_props(self.entries@);
        }
        match self.find_index(account) {
            Some(_) => true,
            None => false,
        }
    }

    /// How many accounts the ledger holds an entry for.
    pub fn len(&self) -> (r: usize)
        requires
            self.wf(),
        ensures
            r == self@.dom().len(),
            self@.dom().finite(),
    {
        proof {
            Self::lemma_map_props(self.entries@);
        }
        self.entries.len()
    }

    /// A copy of this ledger, entry for entry.
    pub fn snapshot(&self) -> (r: Ledger)
        requires
            self.wf(),
        ensures
            r@ == self@,
            r.wf(),
    {
        let n = self.entries.len();
        let mut copied: Vec<LedgerEntry> = Vec::new();
        let mut k: usize = 0;
        while k < n
            invariant
                n == self.entries@.len(),
                k <= n,
                copied@ == self.entries@.subrange(0, k as int),
            decreases n - k,
        {
            copied.push(self.entries[k]);
            proof {
                assert(copied@ =~= self.entries@.subrange(0, k + 1));
            }
            k += 1;
        }
        proof {
            assert(copied@ =~= self.entries@);
        }
        Ledger { entries: copied }
    }

    /// Adds `amount` of `token` to `account`, creating the entry when
    /// absent. Fails with `ArithmeticOverflow`, changing nothing, exactly
    /// when the addition would leave the 128-bit range.
    pub fn credit(&mut self, account: Address, token: Token, amount: u128) -> (r: Result<
        (),
        PoolError,
    >)
        requires
            old(self).wf(),
        ensures
            final(self).wf(),
            r is Ok <==> credit_ok(old(self)@, account, token, amount),
            r is Ok ==> final(self)@ == spec_credit(old(self)@, account, token, amount),
            r is Err ==> *final(self) == *old(self) && r == Err::<(), PoolError>(
                PoolError::ArithmeticOverflow,
            ),
    {
        if amount == 0 {
            return Ok(());
        }
        proof {
            Self::lemma_map_props(self.entries@);
        }
        match self.find_index(&account) {
            Some(i) => {
                let e = self.entries[i];
                let current = e.balance.get_amount_of(&token);
                match current.checked_add(amount) {
                    Some(raised) => {
                        let updated = LedgerEntry {
                            account: e.account,
                            balance: e.balance.with_amount(&token, raised),
                        };
                        proof {
                            Self::lemma_map_update(self.entries@, i as int, updated);
                        }
                        let slot = &mut self.entries[i];
                        *slot = updated;
                        Ok(())
                    },
                    None => Err(PoolError::ArithmeticOverflow),
                }
            },
            None => {
                let fresh = LedgerEntry {
                    account,
                    balance: TokenBalance::zero().with_amount(&token, amount),
                };
                proof {
                    Self::lemma_map_push(self.entries@, fresh);
                }
                self.entries.push(fresh);
                Ok(())
            },
        }
    }

    /// Subtracts `amount` of `token` from `account`, removing the entry
    /// when all three of its amounts reach zero. Fails with
    /// `InsufficientFunds`, changing nothing, exactly when `amount`
    /// exceeds the recorded value.
    pub fn debit(&mut self, account: Address, token: Token, amount: u128) -> (r: Result<
        (),
        PoolError,
    >)
        requires
            old(self).wf(),
        ensures
            final(self).wf(),
            r is Ok <==> debit_ok(old(self)@, account, token, amount),
            r is Ok ==> final(self)@ == spec_debit(old(self)@, account, token, amount),
            r is Err ==> *final(self) == *old(self) && r == Err::<(), PoolError>(
                PoolError::InsufficientFunds,
            ),
    {
        if amount == 0 {
            return Ok(());
        }
        proof {
            Self::lemma_map_props(self.entries@);
        }
        match self.find_index(&account) {
            Some(i) => {
                let e = self.entries[i];
                let current = e.balance.get_amount_of(&token);
                if amount > current {
                    return Err(PoolError::InsufficientFunds);
                }
                let lowered = e.balance.with_amount(&token, current - amount);
                if lowered.user_has_no_tokens() {
                    proof {
                        Self::lemma_map_remove(self.entries@, i as int);
                    }
                    self.entries.remove(i);
                } else {
                    let updated = LedgerEntry { account: e.account, balance: lowered };
                    proof {
                        Self::lemma_map_update(self.entries@, i as int, updated);
                    }
                    let slot = &mut self.entries[i];
                    *slot = updated;
                }
                Ok(())
            },
            None => Err(PoolError::InsufficientFunds),
        }
    }

    /// Moves `amount` of `token` from `from` to `to`: a debit followed by
    /// a credit, atomically. When the debit is not covered the call fails
    /// with `InsufficientFunds` and neither balance changes; when the
    /// credit would overflow it fails with `ArithmeticOverflow` and
    /// neither balance changes.
    pub fn move_tokens(&mut self, from: Address, to: Address, token: Token, amount: u128) -> (r:
        Result<(), PoolError>)
        requires
            old(self).wf(),
        ensures
            final(self).wf(),
            r is Ok <==> move_ok(old(self)@, from, to, token, amount),
            r is Ok ==> final(self)@ == spec_move(old(self)@, from, to, token, amount),
            !debit_ok(old(self)@, from, token, amount) ==> r == Err::<(), PoolError>(
                PoolError::InsufficientFunds,
            ),
            debit_ok(old(self)@, from, token, amount) && !move_ok(old(self)@, from, to, token, amount)
                ==> r == Err::<(), PoolError>(PoolError::ArithmeticOverflow),
            r is Err ==> *final(self) == *old(self),
    {
        let from_balance = self.get(&from);
        let available = from_balance.get_amount_of(&token);
        if amount > available {
            return Err(PoolError::InsufficientFunds);
        }
        if !(from == to) {
            let to_balance = self.get(&to);
            let headroom = to_balance.get_amount_of(&token);
            if headroom > u128::MAX - amount {
                return Err(PoolError::ArithmeticOverflow);
            }
        }
        let ghost debited = spec_debit(old(self)@, from, token, amount);
        proof {
            if from == to {
                assert(credit_ok(debited, to, token, amount));
            } else {
                assert(lookup(debited, to) == lookup(old(self)@, to));
            }
        }
        match self.debit(from, token, amount) {
            Ok(_) => {},
            Err(_) => {
                return unreached();
            },
        }
        match self.credit(to, token, amount) {
            Ok(_) => {},
            Err(_) => {
                return unreached();
            },
        }
        Ok(())
    }
}

} // verus!
