//! The pool itself: construction, liquidity, swaps and reads.

use vstd::prelude::*;
use crate::ledger::Ledger;
use crate::math::mul_div;
use crate::model::{PoolSnapshot, PoolView};
use crate::pricing::{lemma_output_within_reserve, quote, SwapTerms};
use crate::reserve_book::ReserveBook;
use crate::table::Table;
use crate::types::{
    AccountId,
    AmmError,
    AmmPool,
    Balance,
    LiquidityAdded,
    LiquidityRemoved,
    SettlementStrategy,
    Swapped,
    TokenId,
};

verus! {

/// A two-asset pool with its reserves, fees, balances and liquidity shares.
///
/// Every operation either succeeds and applies all of its changes, or fails
/// and leaves the pool exactly as it was.
pub struct SimpleContract {
    pool: AmmPool,
    settlement: SettlementStrategy,
    reserves: ReserveBook,
    balances: Ledger,
    shares: Table<AccountId>,
}

impl View for SimpleContract {
    type V = PoolView;

    closed spec fn view(&self) -> PoolView {
        PoolView {
            pool: self.pool,
            settlement: self.settlement,
            reserves: self.reserves@.reserves,
            fees: self.reserves@.fees,
            balances: self.balances@,
            shares: self.shares@,
        }
    }
}

/// Whether the sum of two balances is a balance.
fn fits(a: Balance, b: Balance) -> (ok: bool)
    ensures
        ok == (a + b <= Balance::MAX),
{
    a.checked_add(b).is_some()
}

impl SimpleContract {
    /// The parts are consistent, and the liquidity shares of all accounts
    /// add up to the supply that the pool records.
    pub closed spec fn inv(&self) -> bool {
        &&& self.reserves.wf()
        &&& self.balances.wf()
        &&& self.shares.wf()
        &&& self.shares.total() == self.pool.total_liquidity_supply
    }

    /// What holds of every pool between operations.
    pub open spec fn wf(&self) -> bool {
        self.inv() && self@.valid()
    }

    proof fn lemma_shares_within_supply(&self)
        requires
            self.inv(),
        ensures
            forall|account: AccountId| #[trigger]
                self@.liquidity(account) <= self.pool.total_liquidity_supply,
    {
        assert forall|account: AccountId| #[trigger]
            self@.liquidity(account) <= self.pool.total_liquidity_supply by {
            self.shares.lemma_amount_within_total(account);
        }
    }

    /// A pool of `token_0` and `token_1` that settles in its own ledger.
    /// It holds nothing yet.
    pub fn new(token_0: TokenId, token_1: TokenId) -> (contract: Self)
        requires
            token_0 != token_1,
        ensures
            contract.wf(),
            contract@ == PoolView::fresh(token_0, token_1, SettlementStrategy::InternalLedger),
    {
        Self::with_settlement(token_0, token_1, SettlementStrategy::InternalLedger)
    }

    /// A pool of `token_0` and `token_1` that settles as `settlement` says.
    /// It holds nothing yet.
    pub fn with_settlement(
        token_0: TokenId,
        token_1: TokenId,
        settlement: SettlementStrategy,
    ) -> (contract: Self)
        requires
            token_0 != token_1,
        ensures
            contract.wf(),
            contract@ == PoolView::fresh(token_0, token_1, settlement),
    {
        let contract = SimpleContract {
            pool: AmmPool { token_0, token_1, total_liquidity_supply: 0 },
            settlement,
            reserves: ReserveBook::new(),
            balances: Ledger::new(),
            shares: Table::new(),
        };
        proof {
            contract.lemma_shares_within_supply();
        }
        contract
    }

    /// The pool of assets 0 and 1.
    pub fn default() -> (contract: Self)
        ensures
            contract.wf(),
            contract@ == PoolView::fresh(0, 1, SettlementStrategy::InternalLedger),
    {
        Self::new(0, 1)
    }

    /// The pool that `snapshot` describes, or `None` where it describes
    /// none.
    pub fn restore(snapshot: PoolSnapshot) -> (res: Option<Self>)
        ensures
            res is Some <==> snapshot.well_formed(),
            res matches Some(contract) ==> contract.wf() && contract@ == snapshot@,
    {
        let PoolSnapshot { pool, settlement, reserves, fees, balances, shares } = snapshot;
        if pool.token_0 == pool.token_1 {
            return None;
        }
        let reserves = match ReserveBook::from_entries(reserves, fees) {
            Some(book) => book,
            None => {
                return None;
            },
        };
        let balances = match Ledger::from_entries(balances) {
            Some(ledger) => ledger,
            None => {
                return None;
            },
        };
        let shares = match Table::from_entries(shares) {
            Some(table) => table,
            None => {
                return None;
            },
        };
        match shares.checked_total() {
            Some(sum) => {
                if sum != pool.total_liquidity_supply {
                    return None;
                }
            },
            None => {
                return None;
            },
        }
        let contract = SimpleContract { pool, settlement, reserves, balances, shares };
        proof {
            contract.lemma_shares_within_supply();
        }
        Some(contract)
    }

    /// Takes the pool apart into a snapshot from which `restore` rebuilds
    /// it.
    pub fn into_snapshot(self) -> (snapshot: PoolSnapshot)
        requires
            self.wf(),
        ensures
            snapshot.well_formed(),
            snapshot@ == self@,
    {
        let SimpleContract { pool, settlement, reserves, balances, shares } = self;
        let (reserves, fees): (Vec<(TokenId, Balance)>, Vec<(TokenId, Balance)>) =
            reserves.into_entries();
        PoolSnapshot {
            pool,
            settlement,
            reserves,
            fees,
            balances: balances.into_entries(),
            shares: shares.into_entries(),
        }
    }

    fn pays_into_ledger(&self) -> (internal: bool)
        ensures
            internal == self@.pays_into_ledger(),
    {
        match self.settlement {
            SettlementStrategy::InternalLedger => true,
            SettlementStrategy::ExternalTransfer => false,
        }
    }

    fn credit_fits(&self, account: AccountId, token: TokenId, amount: Balance) -> (ok: bool)
        requires
            self.inv(),
        ensures
            ok == !self@.credit_overflows(account, token, amount as int),
    {
        !self.pays_into_ledger() || fits(self.balances.balance_of(account, token), amount)
    }

    /// Records a payout in the ledger, where the pool settles there.
    fn pay_out(&mut self, account: AccountId, token: TokenId, amount: Balance) -> (res: Result<
        (),
        AmmError,
    >)
        requires
            old(self).inv(),
        ensures
            final(self).inv(),
            old(self)@.credit_overflows(account, token, amount as int) ==> res == Err::<
                (),
                AmmError,
            >(AmmError::Overflow) && *final(self) == *old(self),
            !old(self)@.credit_overflows(account, token, amount as int) ==> res == Ok::<
                (),
                AmmError,
            >(()) && final(self)@ == (PoolView {
                balances: old(self)@.balances_after_payout(account, token, amount),
                ..old(self)@
            }),
    {
        if self.pays_into_ledger() {
            self.balances.credit(account, token, amount)
        } else {
            Ok(())
        }
    }

    /// What a swap of `amount` of `token_in` by `caller` would do, without
    /// doing it.
    ///
    /// Either the record that `swap` would return for the same arguments, or
    /// the error with which it would fail: `UnknownAsset` for an asset that
    /// is not the pool's, else `InvalidAmount` for a zero amount, else
    /// `Overflow` where the input reserve, the accrued fees or the caller's
    /// ledger balance could not hold the result.
    pub fn quote_swap(&self, caller: AccountId, token_in: TokenId, amount: Balance) -> (res: Result<
        Swapped,
        AmmError,
    >)
        requires
            self.wf(),
        ensures
            res == self@.swap_result(caller, token_in, amount),
    {
        if token_in != self.pool.token_0 && token_in != self.pool.token_1 {
            return Err(AmmError::UnknownAsset);
        }
        let token_out: TokenId = if token_in == self.pool.token_0 {
            self.pool.token_1
        } else {
            self.pool.token_0
        };
        let reserve_in: Balance = self.reserves.reserve_of(token_in);
        let reserve_out: Balance = self.reserves.reserve_of(token_out);
        let terms: SwapTerms = quote(reserve_in, reserve_out, amount)?;
        if !fits(self.reserves.fees_of(token_in), terms.fee) || !self.credit_fits(
            caller,
            token_out,
            terms.amount_out,
        ) {
            return Err(AmmError::Overflow);
        }
        Ok(
            Swapped {
                token_in,
                token_out,
                token_in_amount: terms.amount_in_after_fee,
                token_out_amount: terms.amount_out,
                account: caller,
            },
        )
    }

    /// Swaps `amount` of `token_in`, paid in by `caller`, for the pool's
    /// other asset.
    ///
    /// The input less the fee joins the input reserve, the fee is accrued
    /// apart from it, and the output leaves the output reserve; where the
    /// pool settles in its ledger, the output is credited to `caller`.
    pub fn swap(&mut self, caller: AccountId, token_in: TokenId, amount: Balance) -> (res: Result<
        Swapped,
        AmmError,
    >)
        requires
            old(self).wf(),
        ensures
            final(self).wf(),
            res == old(self)@.swap_result(caller, token_in, amount),
            res is Err ==> *final(self) == *old(self),
            res matches Ok(swapped) ==> {
                &&& final(self)@ == old(self)@.after_swap(
                    swapped,
                    (amount - swapped.token_in_amount) as Balance,
                )
                &&& swapped.token_out_amount <= old(self)@.reserve(swapped.token_out)
                &&& final(self)@.reserve(swapped.token_in) == old(self)@.reserve(swapped.token_in)
                    + swapped.token_in_amount
                &&& final(self)@.reserve(swapped.token_out) == old(self)@.reserve(
                    swapped.token_out,
                ) - swapped.token_out_amount
            },
    {
        let swapped: Swapped = self.quote_swap(caller, token_in, amount)?;
        let fee: Balance = amount - swapped.token_in_amount;
        proof {
            lemma_output_within_reserve(
                self@.reserve(swapped.token_in) as nat,
                self@.reserve(swapped.token_out) as nat,
                swapped.token_in_amount as nat,
            );
        }
        self.reserves.record_swap(
            swapped.token_in,
            swapped.token_out,
            swapped.token_in_amount,
            fee,
            swapped.token_out_amount,
        )?;
        self.pay_out(caller, swapped.token_out, swapped.token_out_amount)?;
        proof {
            self.lemma_shares_within_supply();
        }
        Ok(swapped)
    }

    /// Deposits `amount` of each of the two assets for `caller`.
    ///
    /// Both reserves grow by `amount`, `caller` receives `amount` liquidity
    /// shares, and where the pool settles in its ledger `caller` is credited
    /// `amount` of each asset. Fails with `InvalidAmount` for a zero amount,
    /// else with `Overflow` where a reserve, the share supply or one of the
    /// caller's ledger balances could not hold the result.
    pub fn add_liquidity(&mut self, caller: AccountId, amount: Balance) -> (res: Result<
        LiquidityAdded,
        AmmError,
    >)
        requires
            old(self).wf(),
        ensures
            final(self).wf(),
            res == old(self)@.add_liquidity_result(caller, amount),
            res is Err ==> *final(self) == *old(self),
            res matches Ok(added) ==> final(self)@ == old(self)@.after_add_liquidity(added),
    {
        if amount == 0 {
            return Err(AmmError::InvalidAmount);
        }
        let token_0: TokenId = self.pool.token_0;
        let token_1: TokenId = self.pool.token_1;
        if !fits(self.reserves.reserve_of(token_0), amount) || !fits(
            self.reserves.reserve_of(token_1),
            amount,
        ) || !fits(self.pool.total_liquidity_supply, amount) || !self.credit_fits(
            caller,
            token_0,
            amount,
        ) || !self.credit_fits(caller, token_1, amount) {
            return Err(AmmError::Overflow);
        }
        let added = LiquidityAdded {
            tokens: (token_0, token_1),
            amounts: (amount, amount),
            account: caller,
        };
        self.reserves.add_reserve(token_0, amount)?;
        self.reserves.add_reserve(token_1, amount)?;
        self.pay_out(caller, token_0, amount)?;
        self.pay_out(caller, token_1, amount)?;
        let held: Balance = self.shares.get(&caller);
        proof {
            self.shares.lemma_amount_within_total(caller);
        }
        self.shares.set(caller, held + amount);
        self.pool.total_liquidity_supply = self.pool.total_liquidity_supply + amount;
        proof {
            self.lemma_shares_within_supply();
        }
        Ok(added)
    }

    /// Withdraws the liquidity behind `share_amount` of the shares of
    /// `caller`.
    ///
    /// Of each reserve the fraction `share_amount` of all outstanding shares
    /// leaves the pool, rounded down; the shares are burned, and where the
    /// pool settles in its ledger `caller` is credited what was withdrawn.
    /// Fails with `InvalidAmount` for a zero amount, else with `PoolEmpty`
    /// where no share is outstanding, else with `InsufficientShare` where
    /// `caller` holds fewer shares, else with `Overflow` where one of the
    /// caller's ledger balances could not hold the result.
    pub fn remove_liquidity(&mut self, caller: AccountId, share_amount: Balance) -> (res: Result<
        LiquidityRemoved,
        AmmError,
    >)
        requires
            old(self).wf(),
        ensures
            final(self).wf(),
            res == old(self)@.remove_liquidity_result(caller, share_amount),
            res is Err ==> *final(self) == *old(self),
            res matches Ok(removed) ==> {
                &&& final(self)@ == old(self)@.after_remove_liquidity(removed)
                &&& removed.amounts.0 <= old(self)@.reserve(removed.tokens.0)
                &&& removed.amounts.1 <= old(self)@.reserve(removed.tokens.1)
            },
    {
        if share_amount == 0 {
            return Err(AmmError::InvalidAmount);
        }
        let supply: Balance = self.pool.total_liquidity_supply;
        if supply == 0 {
            return Err(AmmError::PoolEmpty);
        }
        let held: Balance = self.shares.get(&caller);
        if held < share_amount {
            return Err(AmmError::InsufficientShare);
        }
        proof {
            self.shares.lemma_amount_within_total(caller);
        }
        let token_0: TokenId = self.pool.token_0;
        let token_1: TokenId = self.pool.token_1;
        let amount_0: Balance = mul_div(self.reserves.reserve_of(token_0), share_amount, supply);
        let amount_1: Balance = mul_div(self.reserves.reserve_of(token_1), share_amount, supply);
        if !self.credit_fits(caller, token_0, amount_0) || !self.credit_fits(
            caller,
            token_1,
            amount_1,
        ) {
            return Err(AmmError::Overflow);
        }
        let removed = LiquidityRemoved {
            tokens: (token_0, token_1),
            amounts: (amount_0, amount_1),
            shares: share_amount,
            account: caller,
        };
        self.reserves.remove_reserve(token_0, amount_0)?;
        self.reserves.remove_reserve(token_1, amount_1)?;
        self.pay_out(caller, token_0, amount_0)?;
        self.pay_out(caller, token_1, amount_1)?;
        self.shares.set(caller, held - share_amount);
        self.pool.total_liquidity_supply = supply - share_amount;
        proof {
            self.lemma_shares_within_supply();
        }
        Ok(removed)
    }

    /// The pool's reserve of `token`; zero for an asset it does not hold.
    pub fn get_reserve(&self, token: TokenId) -> (amount: Balance)
        requires
            self.wf(),
        ensures
            amount == self@.reserve(token),
    {
        self.reserves.reserve_of(token)
    }

    /// What `account` holds of `token` in the ledger; zero where nothing was
    /// recorded.
    pub fn get_balance(&self, account: AccountId, token: TokenId) -> (amount: Balance)
        requires
            self.wf(),
        ensures
            amount == self@.balance(account, token),
    {
        self.balances.balance_of(account, token)
    }

    /// The fees accrued on `token`.
    pub fn get_fees(&self, token: TokenId) -> (amount: Balance)
        requires
            self.wf(),
        ensures
            amount == self@.fee(token),
    {
        self.reserves.fees_of(token)
    }

    /// The liquidity shares of `account`.
    pub fn get_liquidity(&self, account: AccountId) -> (amount: Balance)
        requires
            self.wf(),
        ensures
            amount == self@.liquidity(account),
    {
        self.shares.get(&account)
    }

    /// The pool's two assets and the liquidity shares outstanding.
    pub fn get_pool_state(&self) -> (pool: AmmPool)
        ensures
            pool == self@.pool,
    {
        self.pool
    }

    /// How the pool settles payouts.
    pub fn get_settlement(&self) -> (settlement: SettlementStrategy)
        ensures
            settlement == self@.settlement,
    {
        self.settlement
    }
}

} // verus!
