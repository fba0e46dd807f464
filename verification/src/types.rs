//! Plain values shared by every part of the engine.

use vstd::prelude::*;

verus! {

/// Identifier of a fungible asset.
pub type TokenId = u32;

/// A non-negative amount of an asset, of fees or of liquidity shares.
pub type Balance = u128;

/// Identity of an account, as the embedding host authenticated it.
#[derive(Clone, Copy, Debug, PartialEq, Eq, Hash)]
pub struct AccountId {
    pub bytes: [u8; 32],
}

/// Why an operation was refused. A refused operation changes nothing.
#[derive(Clone, Copy, Debug, PartialEq, Eq)]
pub enum AmmError {
    /// The asset is not one of the pool's two.
    UnknownAsset,
    /// The amount is zero.
    InvalidAmount,
    /// A debit exceeds the balance or the reserve it is taken from.
    InsufficientBalance,
    /// A swap would pay out more than the output reserve holds.
    InsufficientLiquidity,
    /// The account holds fewer liquidity shares than it wants to burn.
    InsufficientShare,
    /// No liquidity share is outstanding.
    PoolEmpty,
    /// A stored amount would exceed the width of a balance.
    Overflow,
}

/// Where the assets that an operation pays out are recorded.
#[derive(Clone, Copy, Debug, PartialEq, Eq)]
pub enum SettlementStrategy {
    /// Payouts are credited to the pool's own ledger.
    InternalLedger,
    /// Payouts are left to the host, which moves the assets itself; the
    /// ledger is never written.
    ExternalTransfer,
}

/// The pool's identity and the liquidity shares outstanding.
#[derive(Clone, Copy, Debug, PartialEq, Eq)]
pub struct AmmPool {
    pub token_0: TokenId,
    pub token_1: TokenId,
    pub total_liquidity_supply: Balance,
}

/// Record of a completed swap: what the pool took in after the fee and what
/// it paid out.
#[derive(Clone, Copy, Debug, PartialEq, Eq)]
pub struct Swapped {
    pub token_in: TokenId,
    pub token_out: TokenId,
    pub token_in_amount: Balance,
    pub token_out_amount: Balance,
    pub account: AccountId,
}

/// Record of a completed deposit of liquidity.
#[derive(Clone, Copy, Debug, PartialEq, Eq)]
pub struct LiquidityAdded {
    pub tokens: (TokenId, TokenId),
    pub amounts: (Balance, Balance),
    pub account: AccountId,
}

/// Record of a completed withdrawal of liquidity.
#[derive(Clone, Copy, Debug, PartialEq, Eq)]
pub struct LiquidityRemoved {
    pub tokens: (TokenId, TokenId),
    pub amounts: (Balance, Balance),
    pub shares: Balance,
    pub account: AccountId,
}

} // verus!
