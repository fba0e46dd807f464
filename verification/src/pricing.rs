//! Constant-product pricing with a proportional fee, as a function of plain
//! amounts.

use vstd::prelude::*;
use crate::math::mul_div;
use crate::types::{AmmError, Balance};

verus! {

/// Of every `FEE_DENOMINATOR` units paid in, `FEE_NUMERATOR` reach the
/// reserve; the rest is the fee.
pub const FEE_NUMERATOR: Balance = 997;

pub const FEE_DENOMINATOR: Balance = 1000;

/// What a swap computes from the two reserves and the amount paid in.
#[derive(Clone, Copy, Debug, PartialEq, Eq)]
pub struct SwapTerms {
    /// The part of the input that joins the input reserve.
    pub amount_in_after_fee: Balance,
    /// The part of the input that is retained as fee.
    pub fee: Balance,
    /// What leaves the output reserve.
    pub amount_out: Balance,
}

/// The input less the fee: `amount_in * 997 / 1000`, rounded down.
pub open spec fn amount_after_fee(amount_in: nat) -> nat {
    amount_in * (FEE_NUMERATOR as nat) / (FEE_DENOMINATOR as nat)
}

/// The output of a swap: `reserve_out * amount_in_after_fee / (reserve_in +
/// amount_in_after_fee)`, rounded down, and zero where that sum is zero.
pub open spec fn swap_output(reserve_in: nat, reserve_out: nat, amount_in_after_fee: nat) -> nat {
    if reserve_in + amount_in_after_fee == 0 {
        0
    } else {
        reserve_out * amount_in_after_fee / (reserve_in + amount_in_after_fee)
    }
}

/// The terms of a swap, or the reason why there are none.
pub open spec fn quote_result(reserve_in: Balance, reserve_out: Balance, amount_in: Balance) -> Result<
    SwapTerms,
    AmmError,
> {
    let net = amount_after_fee(amount_in as nat);
    if amount_in == 0 {
        Err(AmmError::InvalidAmount)
    } else if reserve_in + net > Balance::MAX {
        Err(AmmError::Overflow)
    } else {
        Ok(
            SwapTerms {
                amount_in_after_fee: net as Balance,
                fee: (amount_in - net) as Balance,
                amount_out: swap_output(reserve_in as nat, reserve_out as nat, net) as Balance,
            },
        )
    }
}

/// A swap pays out no more than the output reserve holds.
pub proof fn lemma_output_within_reserve(reserve_in: nat, reserve_out: nat, amount_in_after_fee: nat)
    ensures
        swap_output(reserve_in, reserve_out, amount_in_after_fee) <= reserve_out,
{
    let d = reserve_in + amount_in_after_fee;
    if d != 0 {
        let out = reserve_out * amount_in_after_fee / d;
        assert(out * d <= reserve_out * amount_in_after_fee) by (nonlinear_arith)
            requires
                out == reserve_out * amount_in_after_fee / d,
                d > 0,
        ;
        assert(out <= reserve_out) by (nonlinear_arith)
            requires
                out * d <= reserve_out * amount_in_after_fee,
                amount_in_after_fee <= d,
                d > 0,
        ;
    }
}

/// A swap pays out no more than the constant-product price of what came in,
/// so the product of the two reserves never falls.
pub proof fn lemma_product_never_falls(reserve_in: nat, reserve_out: nat, amount_in_after_fee: nat)
    ensures
        swap_output(reserve_in, reserve_out, amount_in_after_fee) * (reserve_in
            + amount_in_after_fee) <= reserve_out * amount_in_after_fee,
        reserve_in * reserve_out <= (reserve_in + amount_in_after_fee) * (reserve_out
            - swap_output(reserve_in, reserve_out, amount_in_after_fee)),
{
    let d = reserve_in + amount_in_after_fee;
    let out = swap_output(reserve_in, reserve_out, amount_in_after_fee);
    if d == 0 {
        assert(out * d == 0) by (nonlinear_arith)
            requires
                d == 0,
        ;
        assert(reserve_out * amount_in_after_fee == 0) by (nonlinear_arith)
            requires
                amount_in_after_fee == 0,
        ;
        assert(reserve_in * reserve_out == 0) by (nonlinear_arith)
            requires
                reserve_in == 0,
        ;
        assert(d * (reserve_out - out) == 0) by (nonlinear_arith)
            requires
                d == 0,
        ;
    } else {
        assert(out * d <= reserve_out * amount_in_after_fee) by (nonlinear_arith)
            requires
                out == reserve_out * amount_in_after_fee / d,
                d > 0,
        ;
        assert(reserve_in * reserve_out <= d * (reserve_out - out)) by (nonlinear_arith)
            requires
                out * d <= reserve_out * amount_in_after_fee,
                d == reserve_in + amount_in_after_fee,
        ;
    }
}

/// The input less the fee.
pub fn net_of_fee(amount_in: Balance) -> (net: Balance)
    ensures
        net == amount_after_fee(amount_in as nat),
        net <= amount_in,
{
    mul_div(amount_in, FEE_NUMERATOR, FEE_DENOMINATOR)
}

/// Prices a swap of `amount_in` against the two reserves.
///
/// A zero input is refused, and so is one that the input reserve could not
/// hold; every other input has terms.
pub fn quote(reserve_in: Balance, reserve_out: Balance, amount_in: Balance) -> (res: Result<
    SwapTerms,
    AmmError,
>)
    ensures
        res == quote_result(reserve_in, reserve_out, amount_in),
{
    if amount_in == 0 {
        return Err(AmmError::InvalidAmount);
    }
    let net: Balance = net_of_fee(amount_in);
    let fee: Balance = amount_in - net;
    let new_reserve_in: Balance = match reserve_in.checked_add(net) {
        Some(sum) => sum,
        None => {
            return Err(AmmError::Overflow);
        },
    };
    let amount_out: Balance = if new_reserve_in == 0 {
        0
    } else {
        mul_div(reserve_out, net, new_reserve_in)
    };
    Ok(SwapTerms { amount_in_after_fee: net, fee, amount_out })
}

} // verus!
