//! Per-account balances of each asset.

use vstd::prelude::*;
use crate::table::{amount_at, distinct_keys, map_of, Table};
use crate::types::{AccountId, AmmError, Balance, TokenId};

verus! {

/// What each account holds of each asset. An account that was never credited
/// holds zero.
pub struct Ledger {
    entries: Table<(AccountId, TokenId)>,
}

impl View for Ledger {
    type V = Map<(AccountId, TokenId), Balance>;

    /// The balances that were ever written, by account and asset.
    closed spec fn view(&self) -> Map<(AccountId, TokenId), Balance> {
        self.entries@
    }
}

impl Ledger {
    /// The ledger's internal consistency.
    pub closed spec fn wf(&self) -> bool {
        self.entries.wf()
    }

    /// What `account` holds of `asset`; never negative, zero where nothing
    /// was recorded.
    pub open spec fn balance(&self, account: AccountId, asset: TokenId) -> Balance {
        amount_at(self@, (account, asset))
    }

    /// A ledger in which every balance is zero.
    pub fn new() -> (ledger: Self)
        ensures
            ledger.wf(),
            ledger@ == Map::<(AccountId, TokenId), Balance>::empty(),
    {
        Ledger { entries: Table::new() }
    }

    /// The ledger that holds what `entries` lists, or `None` where an account
    /// and asset are listed twice.
    pub fn from_entries(entries: Vec<((AccountId, TokenId), Balance)>) -> (res: Option<Self>)
        ensures
            res is Some <==> distinct_keys(entries@),
            res matches Some(ledger) ==> ledger.wf() && ledger@ == map_of(entries@),
    {
        match Table::from_entries(entries) {
            Some(table) => Some(Ledger { entries: table }),
            None => None,
        }
    }

    /// Takes the ledger apart into the list of what it holds.
    pub fn into_entries(self) -> (entries: Vec<((AccountId, TokenId), Balance)>)
        requires
            self.wf(),
        ensures
            distinct_keys(entries@),
            map_of(entries@) == self@,
    {
        self.entries.into_entries()
    }

    /// Reads what `account` holds of `asset`.
    pub fn balance_of(&self, account: AccountId, asset: TokenId) -> (amount: Balance)
        requires
            self.wf(),
        ensures
            amount == self.balance(account, asset),
    {
        self.entries.get(&(account, asset))
    }

    /// Adds `amount` to what `account` holds of `asset`.
    ///
    /// Fails with `Overflow`, changing nothing, exactly when the new balance
    /// would not fit.
    pub fn credit(&mut self, account: AccountId, asset: TokenId, amount: Balance) -> (res: Result<
        (),
        AmmError,
    >)
        requires
            old(self).wf(),
        ensures
            final(self).wf(),
            old(self).balance(account, asset) + amount > Balance::MAX ==> res == Err::<
                (),
                AmmError,
            >(AmmError::Overflow) && *final(self) == *old(self),
            old(self).balance(account, asset) + amount <= Balance::MAX ==> res == Ok::<
                (),
                AmmError,
            >(()) && final(self)@ == old(self)@.insert(
                (account, asset),
                (old(self).balance(account, asset) + amount) as Balance,
            ),
    {
        let held: Balance = self.entries.get(&(account, asset));
        match held.checked_add(amount) {
            Some(sum) => {
                self.entries.set((account, asset), sum);
                Ok(())
            },
            None => Err(AmmError::Overflow),
        }
    }

    /// Takes `amount` from what `account` holds of `asset`.
    ///
    /// Fails with `InsufficientBalance`, changing nothing, exactly when the
    /// account holds less than `amount`.
    pub fn debit(&mut self, account: AccountId, asset: TokenId, amount: Balance) -> (res: Result<
        (),
        AmmError,
    >)
        requires
            old(self).wf(),
        ensures
            final(self).wf(),
            old(self).balance(account, asset) < amount ==> res == Err::<(), AmmError>(
                AmmError::InsufficientBalance,
            ) && *final(self) == *old(self),
            old(self).balance(account, asset) >= amount ==> res == Ok::<(), AmmError>(())
                && final(self)@ == old(self)@.insert(
                (account, asset),
                (old(self).balance(account, asset) - amount) as Balance,
            ),
    {
        let held: Balance = self.entries.get(&(account, asset));
        if held < amount {
            return Err(AmmError::InsufficientBalance);
        }
        self.entries.set((account, asset), held - amount);
        Ok(())
    }
}

} // verus!
