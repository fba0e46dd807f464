//! What holds of every pool and every operation, proved over the model.

use vstd::prelude::*;
use crate::contract::SimpleContract;
use crate::model::{PoolSnapshot, PoolView};
use crate::pricing::{
    amount_after_fee,
    lemma_output_within_reserve,
    lemma_product_never_falls,
    swap_output,
};
use crate::table::lemma_listed_amount_within_sum;
use crate::types::{AccountId, AmmError, Balance, Swapped, TokenId};

verus! {

/// A successful swap conserves value: it adds to the input reserve exactly
/// the input less the fee, takes from the output reserve exactly what it pays
/// out, never pays out more than that reserve held, accrues exactly the fee,
/// and leaves every other reserve alone.
pub proof fn lemma_swap_conserves_value(
    pool: PoolView,
    caller: AccountId,
    token_in: TokenId,
    amount: Balance,
)
    requires
        pool.valid(),
        pool.swap_result(caller, token_in, amount) is Ok,
    ensures
        ({
            let swapped = pool.swap_result(caller, token_in, amount)->Ok_0;
            let fee = (amount - swapped.token_in_amount) as Balance;
            let after = pool.after_swap(swapped, fee);
            &&& swapped.token_in == token_in
            &&& swapped.token_out == pool.counterpart(token_in)
            &&& swapped.token_in != swapped.token_out
            &&& swapped.token_in_amount == amount_after_fee(amount as nat)
            &&& swapped.token_out_amount == swap_output(
                pool.reserve(token_in) as nat,
                pool.reserve(swapped.token_out) as nat,
                swapped.token_in_amount as nat,
            )
            &&& swapped.token_out_amount <= pool.reserve(swapped.token_out)
            &&& after.reserve(swapped.token_in) == pool.reserve(swapped.token_in)
                + swapped.token_in_amount
            &&& after.reserve(swapped.token_out) == pool.reserve(swapped.token_out)
                - swapped.token_out_amount
            &&& after.fee(token_in) == pool.fee(token_in) + amount - swapped.token_in_amount
            &&& forall|token: TokenId|
                token != swapped.token_in && token != swapped.token_out ==> #[trigger]
                after.reserve(token) == pool.reserve(token)
        }),
{
    let token_out = pool.counterpart(token_in);
    lemma_output_within_reserve(
        pool.reserve(token_in) as nat,
        pool.reserve(token_out) as nat,
        amount_after_fee(amount as nat),
    );
}

/// The fee is part of the input: what remains after it never exceeds the
/// input, and a positive input always pays a fee.
pub proof fn lemma_fee_is_part_of_input(amount_in: nat)
    ensures
        amount_after_fee(amount_in) <= amount_in,
        amount_in > 0 ==> amount_after_fee(amount_in) < amount_in,
{
}

/// A swap is refused for an unknown asset, a zero amount or an amount that
/// does not fit, and for nothing else: the pool never lacks the liquidity
/// for what it has priced.
pub proof fn lemma_swap_refusals(
    pool: PoolView,
    caller: AccountId,
    token_in: TokenId,
    amount: Balance,
)
    requires
        pool.valid(),
    ensures
        ({
            let res = pool.swap_result(caller, token_in, amount);
            &&& res == Err::<Swapped, AmmError>(AmmError::UnknownAsset) <==> !pool.trades(token_in)
            &&& res == Err::<Swapped, AmmError>(AmmError::InvalidAmount) <==> pool.trades(token_in)
                && amount == 0
            &&& res is Err ==> res == Err::<Swapped, AmmError>(AmmError::UnknownAsset) || res
                == Err::<Swapped, AmmError>(AmmError::InvalidAmount) || res == Err::<
                Swapped,
                AmmError,
            >(AmmError::Overflow)
        }),
{
}

/// The product of the two reserves does not fall across a successful swap.
pub proof fn lemma_swap_keeps_constant_product(
    pool: PoolView,
    caller: AccountId,
    token_in: TokenId,
    amount: Balance,
)
    requires
        pool.valid(),
        pool.swap_result(caller, token_in, amount) is Ok,
    ensures
        ({
            let swapped = pool.swap_result(caller, token_in, amount)->Ok_0;
            let after = pool.after_swap(swapped, (amount - swapped.token_in_amount) as Balance);
            pool.reserve(swapped.token_in) * pool.reserve(swapped.token_out) <= after.reserve(
                swapped.token_in,
            ) * after.reserve(swapped.token_out)
        }),
{
    lemma_swap_conserves_value(pool, caller, token_in, amount);
    let swapped = pool.swap_result(caller, token_in, amount)->Ok_0;
    lemma_product_never_falls(
        pool.reserve(token_in) as nat,
        pool.reserve(swapped.token_out) as nat,
        swapped.token_in_amount as nat,
    );
}

/// Where the output covers the whole of the product that the reserves had,
/// the input's worth at the old output reserve covers what the new reserves
/// multiply to.
pub proof fn lemma_input_covers_remaining_product(
    reserve_in: nat,
    reserve_out: nat,
    amount_in_after_fee: nat,
)
    requires
        reserve_in * reserve_out <= swap_output(reserve_in, reserve_out, amount_in_after_fee) * (
        reserve_in + amount_in_after_fee),
    ensures
        reserve_out * amount_in_after_fee >= (reserve_out - swap_output(
            reserve_in,
            reserve_out,
            amount_in_after_fee,
        )) * (reserve_in + amount_in_after_fee),
{
    let out = swap_output(reserve_in, reserve_out, amount_in_after_fee);
    let d = reserve_in + amount_in_after_fee;
    assert(reserve_out * amount_in_after_fee >= (reserve_out - out) * d) by (nonlinear_arith)
        requires
            reserve_in * reserve_out <= out * d,
            d == reserve_in + amount_in_after_fee,
    ;
}

/// No balance is ever negative: after a successful swap every ledger balance
/// is what it was, and the caller's balance of the output asset is that plus
/// the payout where the pool settles in its ledger.
pub proof fn lemma_swap_credits_the_payout_only(
    pool: PoolView,
    caller: AccountId,
    token_in: TokenId,
    amount: Balance,
    account: AccountId,
    token: TokenId,
)
    requires
        pool.valid(),
        pool.swap_result(caller, token_in, amount) is Ok,
    ensures
        ({
            let swapped = pool.swap_result(caller, token_in, amount)->Ok_0;
            let after = pool.after_swap(swapped, (amount - swapped.token_in_amount) as Balance);
            let credited: int = if pool.pays_into_ledger() && account == caller && token
                == swapped.token_out {
                swapped.token_out_amount as int
            } else {
                0
            };
            &&& after.balance(account, token) == pool.balance(account, token) + credited
            &&& after.balance(account, token) >= pool.balance(account, token) >= 0
        }),
{
}

/// No balance is ever negative: after a successful deposit every ledger
/// balance is what it was, and the caller's balances of the two assets are
/// that plus the deposit where the pool settles in its ledger.
pub proof fn lemma_deposit_credits_the_deposit_only(
    pool: PoolView,
    caller: AccountId,
    amount: Balance,
    account: AccountId,
    token: TokenId,
)
    requires
        pool.valid(),
        pool.add_liquidity_result(caller, amount) is Ok,
    ensures
        ({
            let added = pool.add_liquidity_result(caller, amount)->Ok_0;
            let after = pool.after_add_liquidity(added);
            let credited: int = if pool.pays_into_ledger() && account == caller && pool.trades(
                token,
            ) {
                amount as int
            } else {
                0
            };
            &&& after.balance(account, token) == pool.balance(account, token) + credited
            &&& after.balance(account, token) >= pool.balance(account, token) >= 0
        }),
{
}

/// No balance is ever negative: after a successful withdrawal every ledger
/// balance is what it was, and the caller's balances of the two assets are
/// that plus what was withdrawn where the pool settles in its ledger.
pub proof fn lemma_withdrawal_credits_the_withdrawn_only(
    pool: PoolView,
    caller: AccountId,
    share_amount: Balance,
    account: AccountId,
    token: TokenId,
)
    requires
        pool.valid(),
        pool.remove_liquidity_result(caller, share_amount) is Ok,
    ensures
        ({
            let removed = pool.remove_liquidity_result(caller, share_amount)->Ok_0;
            let after = pool.after_remove_liquidity(removed);
            let credited: int = if pool.pays_into_ledger() && account == caller && pool.trades(
                token,
            ) {
                pool.withdrawal(token, share_amount) as int
            } else {
                0
            };
            &&& after.balance(account, token) == pool.balance(account, token) + credited
            &&& after.balance(account, token) >= pool.balance(account, token) >= 0
        }),
{
    lemma_withdrawal_within_reserve(pool, caller, share_amount);
}

/// A withdrawal takes no more of a reserve than it holds, and what it takes
/// times the share supply is at most the reserve times the shares burned.
pub proof fn lemma_withdrawal_within_reserve(
    pool: PoolView,
    caller: AccountId,
    share_amount: Balance,
)
    requires
        pool.valid(),
        pool.remove_liquidity_result(caller, share_amount) is Ok,
    ensures
        forall|token: TokenId| #[trigger]
            pool.withdrawal(token, share_amount) <= pool.reserve(token),
        forall|token: TokenId| #[trigger]
            pool.withdrawal(token, share_amount) * pool.pool.total_liquidity_supply
                <= pool.reserve(token) * share_amount,
{
    let supply = pool.pool.total_liquidity_supply as int;
    assert forall|token: TokenId| #[trigger]
        pool.withdrawal(token, share_amount) <= pool.reserve(token) && pool.withdrawal(
            token,
            share_amount,
        ) * pool.pool.total_liquidity_supply <= pool.reserve(token) * share_amount by {
        let reserve = pool.reserve(token) as int;
        let taken = reserve * share_amount / supply;
        assert(taken * supply <= reserve * share_amount && 0 <= taken) by (nonlinear_arith)
            requires
                taken == reserve * share_amount / supply,
                supply > 0,
                reserve >= 0,
                share_amount >= 0,
        ;
        assert(taken <= reserve) by (nonlinear_arith)
            requires
                taken * supply <= reserve * share_amount,
                share_amount <= supply,
                supply > 0,
                reserve >= 0,
        ;
    }
}

/// A well-formed snapshot describes a valid pool: its listed liquidity
/// shares add up to the supply, so none of them exceeds it.
pub proof fn lemma_snapshot_describes_a_pool(snapshot: PoolSnapshot)
    requires
        snapshot.well_formed(),
    ensures
        snapshot@.valid(),
{
    assert forall|account: AccountId| #[trigger]
        snapshot@.liquidity(account) <= snapshot@.pool.total_liquidity_supply by {
        lemma_listed_amount_within_sum(snapshot.shares@, account);
    }
}

/// Reads depend on the pool's state alone: of two pools in the same state,
/// and so of one pool read twice with nothing in between, every reserve,
/// balance, fee total and share count reads the same.
pub proof fn lemma_reads_repeat(
    first: &SimpleContract,
    second: &SimpleContract,
    account: AccountId,
    token: TokenId,
)
    requires
        first@ == second@,
    ensures
        first@.reserve(token) == second@.reserve(token),
        first@.balance(account, token) == second@.balance(account, token),
        first@.fee(token) == second@.fee(token),
        first@.liquidity(account) == second@.liquidity(account),
{
}

} // verus!
