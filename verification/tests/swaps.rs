use simple_contract::contract::SimpleContract;
use simple_contract::types::{AccountId, AmmError, AmmPool, LiquidityAdded, Swapped};

fn account(tag: u8) -> AccountId {
    AccountId { bytes: [tag; 32] }
}

fn funded_pool(caller: AccountId) -> SimpleContract {
    let mut pool = SimpleContract::default();
    pool.add_liquidity(caller, 1000).unwrap();
    pool
}

#[test]
fn fresh_pool_holds_nothing() {
    let pool = SimpleContract::new(3, 9);
    assert_eq!(
        pool.get_pool_state(),
        AmmPool { token_0: 3, token_1: 9, total_liquidity_supply: 0 }
    );
    assert_eq!(pool.get_reserve(3), 0);
    assert_eq!(pool.get_reserve(9), 0);
    assert_eq!(pool.get_fees(3), 0);
    assert_eq!(pool.get_balance(account(1), 3), 0);
    assert_eq!(pool.get_liquidity(account(1)), 0);
}

#[test]
fn default_pool_trades_assets_zero_and_one() {
    let pool = SimpleContract::default();
    assert_eq!(
        pool.get_pool_state(),
        AmmPool { token_0: 0, token_1: 1, total_liquidity_supply: 0 }
    );
}

#[test]
fn add_liquidity_fills_both_reserves_and_balances() {
    let caller = account(1);
    let mut pool = SimpleContract::default();
    let added = pool.add_liquidity(caller, 1000);
    assert_eq!(
        added,
        Ok(LiquidityAdded { tokens: (0, 1), amounts: (1000, 1000), account: caller })
    );
    assert_eq!(pool.get_reserve(0), 1000);
    assert_eq!(pool.get_reserve(1), 1000);
    assert_eq!(pool.get_balance(caller, 0), 1000);
    assert_eq!(pool.get_balance(caller, 1), 1000);
    assert_eq!(pool.get_liquidity(caller), 1000);
    assert_eq!(pool.get_pool_state().total_liquidity_supply, 1000);
}

#[test]
fn swap_prices_by_constant_product_after_fee() {
    let caller = account(1);
    let mut pool = funded_pool(caller);
    let swapped = pool.swap(caller, 0, 100);
    assert_eq!(
        swapped,
        Ok(Swapped {
            token_in: 0,
            token_out: 1,
            token_in_amount: 99,
            token_out_amount: 90,
            account: caller,
        })
    );
    assert_eq!(pool.get_reserve(0), 1099);
    assert_eq!(pool.get_reserve(1), 910);
    assert_eq!(pool.get_fees(0), 1);
    assert_eq!(pool.get_fees(1), 0);
    assert_eq!(pool.get_balance(caller, 0), 1000);
    assert_eq!(pool.get_balance(caller, 1), 1090);
}

#[test]
fn swap_of_unknown_asset_is_refused_and_changes_nothing() {
    let caller = account(1);
    let mut pool = funded_pool(caller);
    assert_eq!(pool.swap(caller, 7, 1), Err(AmmError::UnknownAsset));
    assert_eq!(pool.swap(caller, 7, 0), Err(AmmError::UnknownAsset));
    assert_eq!(pool.get_reserve(0), 1000);
    assert_eq!(pool.get_reserve(1), 1000);
    assert_eq!(pool.get_reserve(7), 0);
    assert_eq!(pool.get_fees(7), 0);
    assert_eq!(pool.get_balance(caller, 0), 1000);
    assert_eq!(pool.get_balance(caller, 1), 1000);
    assert_eq!(pool.get_balance(caller, 7), 0);
}

#[test]
fn swap_of_zero_is_refused() {
    let caller = account(1);
    let mut pool = funded_pool(caller);
    assert_eq!(pool.swap(caller, 0, 0), Err(AmmError::InvalidAmount));
    assert_eq!(pool.get_reserve(0), 1000);
    assert_eq!(pool.get_reserve(1), 1000);
    assert_eq!(pool.get_fees(0), 0);
}

#[test]
fn swap_never_pays_out_more_than_the_reserve() {
    let caller = account(1);
    let mut pool = funded_pool(caller);
    let huge: u128 = 1_000_000_000_000_000_000_000_000_000_000;
    let swapped = pool.swap(caller, 0, huge).unwrap();
    assert_eq!(swapped.token_in_amount, 997_000_000_000_000_000_000_000_000_000);
    assert_eq!(swapped.token_out_amount, 999);
    assert_eq!(pool.get_reserve(1), 1);
    assert_eq!(pool.get_reserve(0), 997_000_000_000_000_000_000_000_001_000);
    assert_eq!(pool.get_fees(0), 3_000_000_000_000_000_000_000_000_000);
}

#[test]
fn swap_in_the_other_direction_pays_the_first_asset() {
    let caller = account(1);
    let trader = account(2);
    let mut pool = funded_pool(caller);
    pool.swap(caller, 0, 100).unwrap();
    let swapped = pool.swap(trader, 1, 1000);
    assert_eq!(
        swapped,
        Ok(Swapped {
            token_in: 1,
            token_out: 0,
            token_in_amount: 997,
            token_out_amount: 574,
            account: trader,
        })
    );
    assert_eq!(pool.get_reserve(0), 525);
    assert_eq!(pool.get_reserve(1), 1907);
    assert_eq!(pool.get_fees(1), 3);
    assert_eq!(pool.get_fees(0), 1);
    assert_eq!(pool.get_balance(trader, 0), 574);
    assert_eq!(pool.get_balance(trader, 1), 0);
    assert_eq!(pool.get_balance(caller, 1), 1090);
}

#[test]
fn swap_against_an_empty_pool_pays_nothing() {
    let caller = account(1);
    let mut pool = SimpleContract::default();
    let one = pool.swap(caller, 0, 1).unwrap();
    assert_eq!(one.token_in_amount, 0);
    assert_eq!(one.token_out_amount, 0);
    assert_eq!(pool.get_reserve(0), 0);
    assert_eq!(pool.get_fees(0), 1);
    let more = pool.swap(caller, 0, 100).unwrap();
    assert_eq!(more.token_in_amount, 99);
    assert_eq!(more.token_out_amount, 0);
    assert_eq!(pool.get_reserve(0), 99);
    assert_eq!(pool.get_reserve(1), 0);
    assert_eq!(pool.get_fees(0), 2);
}

#[test]
fn swap_with_wide_products_is_exact() {
    let provider = account(1);
    let trader = account(2);
    let mut pool = SimpleContract::default();
    pool.add_liquidity(provider, 5_000_000_000_000_000_000_000_000_000).unwrap();
    pool.swap(provider, 1, 2_006_018_054_162_487_462_387_161_484).unwrap();
    assert_eq!(pool.get_reserve(1), 6_999_999_999_999_999_999_999_999_999);
    assert_eq!(pool.get_reserve(0), 3_571_428_571_428_571_428_571_428_572);
    let swapped = pool.swap(trader, 1, 1_000_000_000_000_000_000_000_000).unwrap();
    assert_eq!(swapped.token_in_amount, 997_000_000_000_000_000_000_000);
    assert_eq!(swapped.token_out_amount, 508_601_030_069_615_186_849_203);
    assert_eq!(pool.get_reserve(0), 3_570_919_970_398_501_813_384_579_369);
    assert_eq!(pool.get_reserve(1), 7_000_996_999_999_999_999_999_999_999);
}

#[test]
fn swap_keeps_the_product_of_the_reserves() {
    let caller = account(1);
    let mut pool = funded_pool(caller);
    let before = pool.get_reserve(0) * pool.get_reserve(1);
    pool.swap(caller, 0, 100).unwrap();
    let middle = pool.get_reserve(0) * pool.get_reserve(1);
    pool.swap(caller, 1, 333).unwrap();
    let after = pool.get_reserve(0) * pool.get_reserve(1);
    assert_eq!(before, 1_000_000);
    assert_eq!(middle, 1_000_090);
    assert!(before <= middle);
    assert!(middle <= after);
}

#[test]
fn quote_swap_tells_what_swap_will_do_and_changes_nothing() {
    let caller = account(1);
    let mut pool = funded_pool(caller);
    let quoted = pool.quote_swap(caller, 0, 100);
    assert_eq!(pool.get_reserve(0), 1000);
    assert_eq!(pool.get_reserve(1), 1000);
    assert_eq!(pool.get_fees(0), 0);
    assert_eq!(pool.get_balance(caller, 1), 1000);
    let swapped = pool.swap(caller, 0, 100);
    assert_eq!(quoted, swapped);
    assert_eq!(pool.quote_swap(caller, 5, 100), Err(AmmError::UnknownAsset));
    assert_eq!(pool.quote_swap(caller, 1, 0), Err(AmmError::InvalidAmount));
}

#[test]
fn swap_that_would_overflow_the_reserve_is_refused() {
    let caller = account(1);
    let mut pool = SimpleContract::default();
    pool.add_liquidity(caller, u128::MAX - 50).unwrap();
    assert_eq!(pool.swap(caller, 0, 1000), Err(AmmError::Overflow));
    assert_eq!(pool.get_reserve(0), u128::MAX - 50);
    assert_eq!(pool.get_reserve(1), u128::MAX - 50);
    assert_eq!(pool.get_fees(0), 0);
    assert_eq!(pool.get_balance(caller, 1), u128::MAX - 50);
}

#[test]
fn swap_that_would_overflow_the_ledger_is_refused() {
    let caller = account(1);
    let other = account(2);
    let mut pool = SimpleContract::default();
    pool.add_liquidity(caller, u128::MAX - 50).unwrap();
    let first = pool.swap(other, 0, 40).unwrap();
    assert_eq!(first.token_in_amount, 39);
    assert_eq!(first.token_out_amount, 38);
    assert_eq!(pool.get_reserve(0), u128::MAX - 11);
    assert_eq!(pool.get_reserve(1), u128::MAX - 88);
    assert_eq!(pool.swap(caller, 1, 80), Err(AmmError::Overflow));
    assert_eq!(pool.get_reserve(0), u128::MAX - 11);
    assert_eq!(pool.get_reserve(1), u128::MAX - 88);
    assert_eq!(pool.get_fees(1), 0);
    assert_eq!(pool.get_balance(caller, 0), u128::MAX - 50);
    let second = pool.swap(other, 1, 80).unwrap();
    assert_eq!(second.token_in_amount, 79);
    assert_eq!(second.token_out_amount, 78);
    assert_eq!(pool.get_balance(other, 0), 78);
    assert_eq!(pool.get_reserve(1), u128::MAX - 9);
    assert_eq!(pool.get_reserve(0), u128::MAX - 89);
}

#[test]
fn reads_repeat_without_change() {
    let caller = account(1);
    let mut pool = funded_pool(caller);
    pool.swap(caller, 0, 100).unwrap();
    assert_eq!(pool.get_reserve(0), pool.get_reserve(0));
    assert_eq!(pool.get_reserve(1), pool.get_reserve(1));
    assert_eq!(pool.get_balance(caller, 1), pool.get_balance(caller, 1));
    assert_eq!(pool.get_fees(0), pool.get_fees(0));
    assert_eq!(pool.get_pool_state(), pool.get_pool_state());
    assert_eq!(pool.get_reserve(0), 1099);
    assert_eq!(pool.get_balance(caller, 1), 1090);
}

#[test]
fn accounts_are_told_apart_by_every_byte() {
    let mut bytes = [0u8; 32];
    let first = AccountId { bytes };
    bytes[31] = 1;
    let second = AccountId { bytes };
    let mut pool = SimpleContract::default();
    pool.add_liquidity(first, 10).unwrap();
    pool.add_liquidity(second, 20).unwrap();
    assert_eq!(pool.get_balance(first, 0), 10);
    assert_eq!(pool.get_balance(second, 0), 20);
    assert_eq!(pool.get_liquidity(first), 10);
    assert_eq!(pool.get_liquidity(second), 20);
    assert_eq!(pool.get_reserve(0), 30);
}
