//! The pool's reserve of each asset and the fees accrued on it.

use vstd::prelude::*;
use crate::table::{amount_at, distinct_keys, map_of, Table};
use crate::types::{AmmError, Balance, TokenId};

verus! {

/// What the pool holds of each asset, and the fees it has retained, kept
/// apart so that fees never enter the price.
pub struct ReserveBook {
    reserves: Table<TokenId>,
    fees: Table<TokenId>,
}

/// The reserve book as two maps.
pub ghost struct ReserveBookView {
    pub reserves: Map<TokenId, Balance>,
    pub fees: Map<TokenId, Balance>,
}

impl View for ReserveBook {
    type V = ReserveBookView;

    closed spec fn view(&self) -> ReserveBookView {
        ReserveBookView { reserves: self.reserves@, fees: self.fees@ }
    }
}

impl ReserveBook {
    /// The book's internal consistency.
    pub closed spec fn wf(&self) -> bool {
        self.reserves.wf() && self.fees.wf()
    }

    /// The reserve of `asset`, zero where none was recorded.
    pub open spec fn reserve(&self, asset: TokenId) -> Balance {
        amount_at(self@.reserves, asset)
    }

    /// The fees accrued on `asset`, zero where none were recorded.
    pub open spec fn accrued_fee(&self, asset: TokenId) -> Balance {
        amount_at(self@.fees, asset)
    }

    /// Why the book cannot record a swap that takes in `amount_in` of
    /// `token_in` and `fee` on top of it and pays out `amount_out` of
    /// `token_out`, or nothing where it can.
    pub open spec fn swap_refusal(
        &self,
        token_in: TokenId,
        token_out: TokenId,
        amount_in: Balance,
        fee: Balance,
        amount_out: Balance,
    ) -> Option<AmmError> {
        if amount_out > self.reserve(token_out) {
            Some(AmmError::InsufficientLiquidity)
        } else if self.reserve(token_in) + amount_in > Balance::MAX || self.accrued_fee(token_in)
            + fee > Balance::MAX {
            Some(AmmError::Overflow)
        } else {
            None
        }
    }

    /// The book after that swap: the input joins its reserve first, then the
    /// output leaves its own.
    pub open spec fn after_swap(
        &self,
        token_in: TokenId,
        token_out: TokenId,
        amount_in: Balance,
        fee: Balance,
        amount_out: Balance,
    ) -> ReserveBookView {
        let taken_in = self@.reserves.insert(
            token_in,
            (self.reserve(token_in) + amount_in) as Balance,
        );
        ReserveBookView {
            reserves: taken_in.insert(
                token_out,
                (amount_at(taken_in, token_out) - amount_out) as Balance,
            ),
            fees: self@.fees.insert(token_in, (self.accrued_fee(token_in) + fee) as Balance),
        }
    }

    /// A book without reserves or fees.
    pub fn new() -> (book: Self)
        ensures
            book.wf(),
            book@.reserves == Map::<TokenId, Balance>::empty(),
            book@.fees == Map::<TokenId, Balance>::empty(),
    {
        ReserveBook { reserves: Table::new(), fees: Table::new() }
    }

    /// The book that holds the listed reserves and fees, or `None` where one
    /// of the lists names an asset twice.
    pub fn from_entries(reserves: Vec<(TokenId, Balance)>, fees: Vec<(TokenId, Balance)>) -> (res:
        Option<Self>)
        ensures
            res is Some <==> distinct_keys(reserves@) && distinct_keys(fees@),
            res matches Some(book) ==> book.wf() && book@ == (ReserveBookView {
                reserves: map_of(reserves@),
                fees: map_of(fees@),
            }),
    {
        let reserves = match Table::from_entries(reserves) {
            Some(table) => table,
            None => {
                return None;
            },
        };
        let fees = match Table::from_entries(fees) {
            Some(table) => table,
            None => {
                return None;
            },
        };
        Some(ReserveBook { reserves, fees })
    }

    /// Takes the book apart into the list of its reserves and the list of
    /// its fees.
    pub fn into_entries(self) -> (lists: (Vec<(TokenId, Balance)>, Vec<(TokenId, Balance)>))
        requires
            self.wf(),
        ensures
            distinct_keys(lists.0@),
            distinct_keys(lists.1@),
            self@ == (ReserveBookView { reserves: map_of(lists.0@), fees: map_of(lists.1@) }),
    {
        (self.reserves.into_entries(), self.fees.into_entries())
    }

    /// Reads the reserve of `asset`.
    pub fn reserve_of(&self, asset: TokenId) -> (amount: Balance)
        requires
            self.wf(),
        ensures
            amount == self.reserve(asset),
    {
        self.reserves.get(&asset)
    }

    /// Reads the fees accrued on `asset`.
    pub fn fees_of(&self, asset: TokenId) -> (amount: Balance)
        requires
            self.wf(),
        ensures
            amount == self.accrued_fee(asset),
    {
        self.fees.get(&asset)
    }

    /// Adds `amount` to the reserve of `asset`.
    ///
    /// Fails with `Overflow`, changing nothing, exactly when the new reserve
    /// would not fit.
    pub fn add_reserve(&mut self, asset: TokenId, amount: Balance) -> (res: Result<(), AmmError>)
        requires
            old(self).wf(),
        ensures
            final(self).wf(),
            old(self).reserve(asset) + amount > Balance::MAX ==> res == Err::<(), AmmError>(
                AmmError::Overflow,
            ) && *final(self) == *old(self),
            old(self).reserve(asset) + amount <= Balance::MAX ==> res == Ok::<(), AmmError>(())
                && final(self)@ == (ReserveBookView {
                reserves: old(self)@.reserves.insert(
                    asset,
                    (old(self).reserve(asset) + amount) as Balance,
                ),
                ..old(self)@
            }),
    {
        let held: Balance = self.reserves.get(&asset);
        match held.checked_add(amount) {
            Some(sum) => {
                self.reserves.set(asset, sum);
                Ok(())
            },
            None => Err(AmmError::Overflow),
        }
    }

    /// Takes `amount` out of the reserve of `asset`.
    ///
    /// Fails with `InsufficientBalance`, changing nothing, exactly when the
    /// reserve holds less than `amount`.
    pub fn remove_reserve(&mut self, asset: TokenId, amount: Balance) -> (res: Result<
        (),
        AmmError,
    >)
        requires
            old(self).wf(),
        ensures
            final(self).wf(),
            old(self).reserve(asset) < amount ==> res == Err::<(), AmmError>(
                AmmError::InsufficientBalance,
            ) && *final(self) == *old(self),
            old(self).reserve(asset) >= amount ==> res == Ok::<(), AmmError>(()) && final(self)@
                == (ReserveBookView {
                reserves: old(self)@.reserves.insert(
                    asset,
                    (old(self).reserve(asset) - amount) as Balance,
                ),
                ..old(self)@
            }),
    {
        let held: Balance = self.reserves.get(&asset);
        if held < amount {
            return Err(AmmError::InsufficientBalance);
        }
        self.reserves.set(asset, held - amount);
        Ok(())
    }

    /// Records a swap: `amount_in` joins the reserve of `token_in`, `fee` is
    /// accrued on `token_in`, and `amount_out` leaves the reserve of
    /// `token_out`.
    ///
    /// Fails with `InsufficientLiquidity` where the output reserve holds less
    /// than `amount_out`, else with `Overflow` where the input reserve or the
    /// accrued fees would not fit; a failure changes nothing.
    pub fn record_swap(
        &mut self,
        token_in: TokenId,
        token_out: TokenId,
        amount_in: Balance,
        fee: Balance,
        amount_out: Balance,
    ) -> (res: Result<(), AmmError>)
        requires
            old(self).wf(),
        ensures
            final(self).wf(),
            match old(self).swap_refusal(token_in, token_out, amount_in, fee, amount_out) {
                Some(error) => res == Err::<(), AmmError>(error) && *final(self) == *old(self),
                None => res == Ok::<(), AmmError>(()) && final(self)@ == old(self).after_swap(
                    token_in,
                    token_out,
                    amount_in,
                    fee,
                    amount_out,
                ),
            },
    {
        if amount_out > self.reserves.get(&token_out) {
            return Err(AmmError::InsufficientLiquidity);
        }
        let reserve_in: Balance = match self.reserves.get(&token_in).checked_add(amount_in) {
            Some(sum) => sum,
            None => {
                return Err(AmmError::Overflow);
            },
        };
        let fees: Balance = match self.fees.get(&token_in).checked_add(fee) {
            Some(sum) => sum,
            None => {
                return Err(AmmError::Overflow);
            },
        };
        self.reserves.set(token_in, reserve_in);
        let reserve_out: Balance = self.reserves.get(&token_out);
        self.reserves.set(token_out, reserve_out - amount_out);
        self.fees.set(token_in, fees);
        Ok(())
    }

    /// Adds `amount` to the fees accrued on `asset`, leaving the reserve as
    /// it is.
    ///
    /// Fails with `Overflow`, changing nothing, exactly when the new total
    /// would not fit.
    pub fn accrue_fee(&mut self, asset: TokenId, amount: Balance) -> (res: Result<(), AmmError>)
        requires
            old(self).wf(),
        ensures
            final(self).wf(),
            old(self).accrued_fee(asset) + amount > Balance::MAX ==> res == Err::<(), AmmError>(
                AmmError::Overflow,
            ) && *final(self) == *old(self),
            old(self).accrued_fee(asset) + amount <= Balance::MAX ==> res == Ok::<(), AmmError>(
                (),
            ) && final(self)@ == (ReserveBookView {
                fees: old(self)@.fees.insert(
                    asset,
                    (old(self).accrued_fee(asset) + amount) as Balance,
                ),
                ..old(self)@
            }),
    {
        let held: Balance = self.fees.get(&asset);
        match held.checked_add(amount) {
            Some(sum) => {
                self.fees.set(asset, sum);
                Ok(())
            },
            None => Err(AmmError::Overflow),
        }
    }
}

} // verus!
