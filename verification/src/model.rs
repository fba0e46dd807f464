//! The pool as a mathematical value, and what each operation makes of it.

use vstd::prelude::*;
use crate::pricing::quote_result;
use crate::table::{amount_at, distinct_keys, map_of, sum_of};
use crate::types::{
    AccountId,
    AmmError,
    AmmPool,
    Balance,
    LiquidityAdded,
    LiquidityRemoved,
    SettlementStrategy,
    Swapped,
    TokenId,
};

verus! {

/// Everything a pool holds. In each map an absent key stands for zero.
pub ghost struct PoolView {
    pub pool: AmmPool,
    pub settlement: SettlementStrategy,
    pub reserves: Map<TokenId, Balance>,
    pub fees: Map<TokenId, Balance>,
    pub balances: Map<(AccountId, TokenId), Balance>,
    pub shares: Map<AccountId, Balance>,
}

/// A pool written out as plain lists, as a host stores it between
/// operations.
#[derive(Debug, PartialEq, Eq)]
pub struct PoolSnapshot {
    pub pool: AmmPool,
    pub settlement: SettlementStrategy,
    pub reserves: Vec<(TokenId, Balance)>,
    pub fees: Vec<(TokenId, Balance)>,
    pub balances: Vec<((AccountId, TokenId), Balance)>,
    pub shares: Vec<(AccountId, Balance)>,
}

impl View for PoolSnapshot {
    type V = PoolView;

    open spec fn view(&self) -> PoolView {
        PoolView {
            pool: self.pool,
            settlement: self.settlement,
            reserves: map_of(self.reserves@),
            fees: map_of(self.fees@),
            balances: map_of(self.balances@),
            shares: map_of(self.shares@),
        }
    }
}

impl PoolSnapshot {
    /// The lists describe a pool: the two assets differ, no list names a key
    /// twice, and the listed liquidity shares add up to the recorded supply.
    pub open spec fn well_formed(&self) -> bool {
        &&& self.pool.token_0 != self.pool.token_1
        &&& distinct_keys(self.reserves@)
        &&& distinct_keys(self.fees@)
        &&& distinct_keys(self.balances@)
        &&& distinct_keys(self.shares@)
        &&& sum_of(self.shares@) == self.pool.total_liquidity_supply
    }
}

impl PoolView {
    /// The pool of `token_0` and `token_1` that holds nothing yet.
    pub open spec fn fresh(token_0: TokenId, token_1: TokenId, settlement: SettlementStrategy) -> PoolView {
        PoolView {
            pool: AmmPool { token_0, token_1, total_liquidity_supply: 0 },
            settlement,
            reserves: Map::empty(),
            fees: Map::empty(),
            balances: Map::empty(),
            shares: Map::empty(),
        }
    }

    /// The two assets differ, and no account holds more liquidity shares than
    /// are outstanding.
    pub open spec fn valid(self) -> bool {
        &&& self.pool.token_0 != self.pool.token_1
        &&& forall|account: AccountId| #[trigger]
            self.liquidity(account) <= self.pool.total_liquidity_supply
    }

    /// The pool's reserve of `token`.
    pub open spec fn reserve(self, token: TokenId) -> Balance {
        amount_at(self.reserves, token)
    }

    /// The fees accrued on `token`.
    pub open spec fn fee(self, token: TokenId) -> Balance {
        amount_at(self.fees, token)
    }

    /// What `account` holds of `token`.
    pub open spec fn balance(self, account: AccountId, token: TokenId) -> Balance {
        amount_at(self.balances, (account, token))
    }

    /// The liquidity shares of `account`.
    pub open spec fn liquidity(self, account: AccountId) -> Balance {
        amount_at(self.shares, account)
    }

    /// Whether `token` is one of the pool's two assets.
    pub open spec fn trades(self, token: TokenId) -> bool {
        token == self.pool.token_0 || token == self.pool.token_1
    }

    /// The asset that a swap of `token_in` pays out.
    pub open spec fn counterpart(self, token_in: TokenId) -> TokenId {
        if token_in == self.pool.token_0 {
            self.pool.token_1
        } else {
            self.pool.token_0
        }
    }

    /// Whether payouts are recorded in the ledger.
    pub open spec fn pays_into_ledger(self) -> bool {
        self.settlement is InternalLedger
    }

    /// Whether crediting `amount` of `token` to `account` would exceed a
    /// balance's width. Under external settlement nothing is credited.
    pub open spec fn credit_overflows(self, account: AccountId, token: TokenId, amount: int) -> bool {
        self.pays_into_ledger() && self.balance(account, token) + amount > Balance::MAX
    }

    /// The ledger after a payout of `amount` of `token` to `account`.
    pub open spec fn balances_after_payout(
        self,
        account: AccountId,
        token: TokenId,
        amount: Balance,
    ) -> Map<(AccountId, TokenId), Balance> {
        if self.pays_into_ledger() {
            self.balances.insert(
                (account, token),
                (self.balance(account, token) + amount) as Balance,
            )
        } else {
            self.balances
        }
    }

    /// The outcome of a swap of `amount` of `token_in` by `caller`: the
    /// record of the swap, or why it is refused.
    pub open spec fn swap_result(self, caller: AccountId, token_in: TokenId, amount: Balance) -> Result<
        Swapped,
        AmmError,
    > {
        let token_out = self.counterpart(token_in);
        if !self.trades(token_in) {
            Err(AmmError::UnknownAsset)
        } else {
            match quote_result(self.reserve(token_in), self.reserve(token_out), amount) {
                Err(e) => Err(e),
                Ok(terms) => if self.fee(token_in) + terms.fee > Balance::MAX
                    || self.credit_overflows(caller, token_out, terms.amount_out as int) {
                    Err(AmmError::Overflow)
                } else {
                    Ok(
                        Swapped {
                            token_in,
                            token_out,
                            token_in_amount: terms.amount_in_after_fee,
                            token_out_amount: terms.amount_out,
                            account: caller,
                        },
                    )
                },
            }
        }
    }

    /// The pool after the swap that `swapped` records, of which `fee` was
    /// retained.
    pub open spec fn after_swap(self, swapped: Swapped, fee: Balance) -> PoolView {
        PoolView {
            reserves: self.reserves.insert(
                swapped.token_in,
                (self.reserve(swapped.token_in) + swapped.token_in_amount) as Balance,
            ).insert(
                swapped.token_out,
                (self.reserve(swapped.token_out) - swapped.token_out_amount) as Balance,
            ),
            fees: self.fees.insert(
                swapped.token_in,
                (self.fee(swapped.token_in) + fee) as Balance,
            ),
            balances: self.balances_after_payout(
                swapped.account,
                swapped.token_out,
                swapped.token_out_amount,
            ),
            ..self
        }
    }

    /// The outcome of a deposit of `amount` of each asset by `caller`.
    pub open spec fn add_liquidity_result(self, caller: AccountId, amount: Balance) -> Result<
        LiquidityAdded,
        AmmError,
    > {
        let token_0 = self.pool.token_0;
        let token_1 = self.pool.token_1;
        if amount == 0 {
            Err(AmmError::InvalidAmount)
        } else if self.reserve(token_0) + amount > Balance::MAX || self.reserve(token_1) + amount
            > Balance::MAX || self.pool.total_liquidity_supply + amount > Balance::MAX
            || self.credit_overflows(caller, token_0, amount as int) || self.credit_overflows(
            caller,
            token_1,
            amount as int,
        ) {
            Err(AmmError::Overflow)
        } else {
            Ok(
                LiquidityAdded {
                    tokens: (token_0, token_1),
                    amounts: (amount, amount),
                    account: caller,
                },
            )
        }
    }

    /// The pool after the deposit that `added` records.
    pub open spec fn after_add_liquidity(self, added: LiquidityAdded) -> PoolView {
        let minted = added.amounts.0;
        let credited_0 = PoolView {
            balances: self.balances_after_payout(added.account, added.tokens.0, added.amounts.0),
            ..self
        };
        PoolView {
            pool: AmmPool {
                total_liquidity_supply: (self.pool.total_liquidity_supply + minted) as Balance,
                ..self.pool
            },
            reserves: self.reserves.insert(
                added.tokens.0,
                (self.reserve(added.tokens.0) + added.amounts.0) as Balance,
            ).insert(
                added.tokens.1,
                (self.reserve(added.tokens.1) + added.amounts.1) as Balance,
            ),
            balances: credited_0.balances_after_payout(
                added.account,
                added.tokens.1,
                added.amounts.1,
            ),
            shares: self.shares.insert(
                added.account,
                (self.liquidity(added.account) + minted) as Balance,
            ),
            ..self
        }
    }

    /// What `share_amount` shares withdraw of `token`: that fraction of all
    /// outstanding shares, taken of the reserve and rounded down.
    pub open spec fn withdrawal(self, token: TokenId, share_amount: Balance) -> nat
        recommends
            self.pool.total_liquidity_supply > 0,
    {
        (self.reserve(token) * share_amount / (self.pool.total_liquidity_supply as int)) as nat
    }

    /// The outcome of a withdrawal of `share_amount` liquidity shares by
    /// `caller`.
    pub open spec fn remove_liquidity_result(self, caller: AccountId, share_amount: Balance) -> Result<
        LiquidityRemoved,
        AmmError,
    > {
        let token_0 = self.pool.token_0;
        let token_1 = self.pool.token_1;
        let amount_0 = self.withdrawal(token_0, share_amount);
        let amount_1 = self.withdrawal(token_1, share_amount);
        if share_amount == 0 {
            Err(AmmError::InvalidAmount)
        } else if self.pool.total_liquidity_supply == 0 {
            Err(AmmError::PoolEmpty)
        } else if self.liquidity(caller) < share_amount {
            Err(AmmError::InsufficientShare)
        } else if self.credit_overflows(caller, token_0, amount_0 as int) || self.credit_overflows(
            caller,
            token_1,
            amount_1 as int,
        ) {
            Err(AmmError::Overflow)
        } else {
            Ok(
                LiquidityRemoved {
                    tokens: (token_0, token_1),
                    amounts: (amount_0 as Balance, amount_1 as Balance),
                    shares: share_amount,
                    account: caller,
                },
            )
        }
    }

    /// The pool after the withdrawal that `removed` records.
    pub open spec fn after_remove_liquidity(self, removed: LiquidityRemoved) -> PoolView {
        let credited_0 = PoolView {
            balances: self.balances_after_payout(
                removed.account,
                removed.tokens.0,
                removed.amounts.0,
            ),
            ..self
        };
        PoolView {
            pool: AmmPool {
                total_liquidity_supply: (self.pool.total_liquidity_supply
                    - removed.shares) as Balance,
                ..self.pool
            },
            reserves: self.reserves.insert(
                removed.tokens.0,
                (self.reserve(removed.tokens.0) - removed.amounts.0) as Balance,
            ).insert(
                removed.tokens.1,
                (self.reserve(removed.tokens.1) - removed.amounts.1) as Balance,
            ),
            balances: credited_0.balances_after_payout(
                removed.account,
                removed.tokens.1,
                removed.amounts.1,
            ),
            shares: self.shares.insert(
                removed.account,
                (self.liquidity(removed.account) - removed.shares) as Balance,
            ),
            ..self
        }
    }
}

} // verus!
