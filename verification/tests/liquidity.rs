use simple_contract::contract::SimpleContract;
use simple_contract::types::{
    AccountId, AmmError, LiquidityAdded, LiquidityRemoved, SettlementStrategy,
};

fn provider(tag: u8) -> AccountId {
    AccountId { bytes: [tag; 32] }
}

#[test]
fn add_liquidity_of_zero_is_refused() {
    let mut pool = SimpleContract::default();
    assert_eq!(pool.add_liquidity(provider(1), 0), Err(AmmError::InvalidAmount));
    assert_eq!(pool.get_reserve(0), 0);
    assert_eq!(pool.get_reserve(1), 0);
    assert_eq!(pool.get_liquidity(provider(1)), 0);
    assert_eq!(pool.get_pool_state().total_liquidity_supply, 0);
}

#[test]
fn add_liquidity_mints_as_many_shares_as_it_deposits() {
    let mut pool = SimpleContract::new(10, 20);
    pool.add_liquidity(provider(1), 1000).unwrap();
    let added = pool.add_liquidity(provider(2), 3000);
    assert_eq!(
        added,
        Ok(LiquidityAdded { tokens: (10, 20), amounts: (3000, 3000), account: provider(2) })
    );
    pool.add_liquidity(provider(1), 5).unwrap();
    assert_eq!(pool.get_liquidity(provider(1)), 1005);
    assert_eq!(pool.get_liquidity(provider(2)), 3000);
    assert_eq!(pool.get_pool_state().total_liquidity_supply, 4005);
    assert_eq!(pool.get_reserve(10), 4005);
    assert_eq!(pool.get_reserve(20), 4005);
    assert_eq!(pool.get_balance(provider(1), 10), 1005);
    assert_eq!(pool.get_balance(provider(2), 20), 3000);
}

#[test]
fn add_liquidity_that_would_overflow_is_refused() {
    let mut pool = SimpleContract::default();
    pool.add_liquidity(provider(1), u128::MAX).unwrap();
    assert_eq!(pool.add_liquidity(provider(1), 1), Err(AmmError::Overflow));
    assert_eq!(pool.add_liquidity(provider(2), 1), Err(AmmError::Overflow));
    assert_eq!(pool.get_reserve(0), u128::MAX);
    assert_eq!(pool.get_reserve(1), u128::MAX);
    assert_eq!(pool.get_liquidity(provider(1)), u128::MAX);
    assert_eq!(pool.get_liquidity(provider(2)), 0);
    assert_eq!(pool.get_balance(provider(2), 0), 0);
    assert_eq!(pool.get_pool_state().total_liquidity_supply, u128::MAX);
}

#[test]
fn remove_liquidity_from_a_pool_without_shares_is_refused() {
    let mut pool = SimpleContract::default();
    assert_eq!(pool.remove_liquidity(provider(1), 1), Err(AmmError::PoolEmpty));
    assert_eq!(pool.remove_liquidity(provider(1), 0), Err(AmmError::InvalidAmount));
    pool.add_liquidity(provider(1), 10).unwrap();
    pool.remove_liquidity(provider(1), 10).unwrap();
    assert_eq!(pool.remove_liquidity(provider(1), 1), Err(AmmError::PoolEmpty));
    assert_eq!(pool.get_reserve(0), 0);
    assert_eq!(pool.get_balance(provider(1), 0), 20);
}

#[test]
fn remove_liquidity_of_zero_is_refused() {
    let mut pool = SimpleContract::default();
    pool.add_liquidity(provider(1), 10).unwrap();
    assert_eq!(pool.remove_liquidity(provider(1), 0), Err(AmmError::InvalidAmount));
    assert_eq!(pool.get_liquidity(provider(1)), 10);
    assert_eq!(pool.get_reserve(0), 10);
}

#[test]
fn remove_liquidity_beyond_the_callers_shares_is_refused() {
    let mut pool = SimpleContract::default();
    pool.add_liquidity(provider(1), 10).unwrap();
    pool.add_liquidity(provider(2), 30).unwrap();
    assert_eq!(pool.remove_liquidity(provider(1), 11), Err(AmmError::InsufficientShare));
    assert_eq!(pool.remove_liquidity(provider(3), 1), Err(AmmError::InsufficientShare));
    assert_eq!(pool.get_liquidity(provider(1)), 10);
    assert_eq!(pool.get_liquidity(provider(2)), 30);
    assert_eq!(pool.get_reserve(0), 40);
    assert_eq!(pool.get_reserve(1), 40);
    assert_eq!(pool.get_balance(provider(1), 0), 10);
    assert_eq!(pool.get_pool_state().total_liquidity_supply, 40);
}

#[test]
fn remove_liquidity_withdraws_the_callers_fraction() {
    let mut pool = SimpleContract::default();
    pool.add_liquidity(provider(1), 1000).unwrap();
    let removed = pool.remove_liquidity(provider(1), 250);
    assert_eq!(
        removed,
        Ok(LiquidityRemoved {
            tokens: (0, 1),
            amounts: (250, 250),
            shares: 250,
            account: provider(1),
        })
    );
    assert_eq!(pool.get_reserve(0), 750);
    assert_eq!(pool.get_reserve(1), 750);
    assert_eq!(pool.get_liquidity(provider(1)), 750);
    assert_eq!(pool.get_pool_state().total_liquidity_supply, 750);
    assert_eq!(pool.get_balance(provider(1), 0), 1250);
    assert_eq!(pool.get_balance(provider(1), 1), 1250);
}

#[test]
fn remove_liquidity_rounds_each_withdrawal_down() {
    let mut pool = SimpleContract::default();
    pool.add_liquidity(provider(1), 1000).unwrap();
    pool.swap(provider(9), 0, 100).unwrap();
    let removed = pool.remove_liquidity(provider(1), 100).unwrap();
    assert_eq!(removed.amounts, (109, 91));
    assert_eq!(pool.get_reserve(0), 990);
    assert_eq!(pool.get_reserve(1), 819);
    assert_eq!(pool.get_liquidity(provider(1)), 900);
    assert_eq!(pool.get_fees(0), 1);
}

#[test]
fn providers_withdraw_in_proportion_until_the_pool_is_empty() {
    let first = provider(1);
    let second = provider(2);
    let trader = provider(3);
    let mut pool = SimpleContract::default();
    pool.add_liquidity(first, 1000).unwrap();
    pool.add_liquidity(second, 3000).unwrap();
    let swapped = pool.swap(trader, 0, 1000).unwrap();
    assert_eq!(swapped.token_in_amount, 997);
    assert_eq!(swapped.token_out_amount, 798);
    assert_eq!((pool.get_reserve(0), pool.get_reserve(1)), (4997, 3202));

    let removed = pool.remove_liquidity(second, 1500).unwrap();
    assert_eq!(removed.amounts, (1873, 1200));
    assert_eq!((pool.get_reserve(0), pool.get_reserve(1)), (3124, 2002));
    assert_eq!(pool.get_pool_state().total_liquidity_supply, 2500);

    let removed = pool.remove_liquidity(first, 1000).unwrap();
    assert_eq!(removed.amounts, (1249, 800));
    assert_eq!((pool.get_reserve(0), pool.get_reserve(1)), (1875, 1202));
    assert_eq!(pool.get_liquidity(first), 0);

    assert_eq!(pool.remove_liquidity(first, 1), Err(AmmError::InsufficientShare));

    let removed = pool.remove_liquidity(second, 1500).unwrap();
    assert_eq!(removed.amounts, (1875, 1202));
    assert_eq!((pool.get_reserve(0), pool.get_reserve(1)), (0, 0));
    assert_eq!(pool.get_pool_state().total_liquidity_supply, 0);

    assert_eq!(pool.get_balance(first, 0), 2249);
    assert_eq!(pool.get_balance(first, 1), 1800);
    assert_eq!(pool.get_balance(second, 0), 6748);
    assert_eq!(pool.get_balance(second, 1), 5402);
    assert_eq!(pool.get_balance(trader, 1), 798);
    assert_eq!(pool.get_fees(0), 3);
}

#[test]
fn remove_liquidity_that_would_overflow_the_ledger_is_refused() {
    let mut pool = SimpleContract::default();
    pool.add_liquidity(provider(1), u128::MAX).unwrap();
    assert_eq!(pool.remove_liquidity(provider(1), 1), Err(AmmError::Overflow));
    assert_eq!(pool.get_reserve(0), u128::MAX);
    assert_eq!(pool.get_liquidity(provider(1)), u128::MAX);
    assert_eq!(pool.get_balance(provider(1), 0), u128::MAX);
    assert_eq!(pool.get_pool_state().total_liquidity_supply, u128::MAX);
}

#[test]
fn external_settlement_never_writes_the_ledger() {
    let caller = provider(1);
    let mut pool = SimpleContract::with_settlement(0, 1, SettlementStrategy::ExternalTransfer);
    assert_eq!(pool.get_settlement(), SettlementStrategy::ExternalTransfer);
    pool.add_liquidity(caller, 1000).unwrap();
    let swapped = pool.swap(caller, 0, 100).unwrap();
    assert_eq!(swapped.token_in_amount, 99);
    assert_eq!(swapped.token_out_amount, 90);
    let removed = pool.remove_liquidity(caller, 100).unwrap();
    assert_eq!(removed.amounts, (109, 91));
    assert_eq!(pool.get_balance(caller, 0), 0);
    assert_eq!(pool.get_balance(caller, 1), 0);
    assert_eq!(pool.get_reserve(0), 990);
    assert_eq!(pool.get_reserve(1), 819);
    assert_eq!(pool.get_fees(0), 1);
    assert_eq!(pool.get_liquidity(caller), 900);
}

#[test]
fn external_settlement_is_not_bound_by_the_ledgers_width() {
    let caller = provider(1);
    let mut pool = SimpleContract::with_settlement(0, 1, SettlementStrategy::ExternalTransfer);
    pool.add_liquidity(caller, u128::MAX).unwrap();
    let removed = pool.remove_liquidity(caller, 1).unwrap();
    assert_eq!(removed.amounts, (1, 1));
    assert_eq!(pool.get_reserve(0), u128::MAX - 1);
    assert_eq!(pool.get_balance(caller, 0), 0);
}

#[test]
fn new_pool_settles_in_its_ledger() {
    assert_eq!(SimpleContract::new(0, 1).get_settlement(), SettlementStrategy::InternalLedger);
    assert_eq!(SimpleContract::default().get_settlement(), SettlementStrategy::InternalLedger);
}
