//! Accounting engine of a two-asset constant-product pool.
//!
//! A [`SimpleContract`] holds the pool's two reserves, the fees accrued on
//! them, what each account holds of each asset and the liquidity shares of
//! each account. It prices swaps with exact integer arithmetic and applies
//! every operation entirely or not at all. It performs no input or output:
//! the host names the caller of each operation, publishes the record that a
//! successful operation returns, and stores the pool between operations as a
//! [`PoolSnapshot`].
//!
//! The contracts of the operations are stated over [`model::PoolView`], the
//! pool as a mathematical value; [`laws`] proves what holds of every pool.

pub mod contract;
pub mod laws;
pub mod ledger;
pub mod math;
pub mod model;
pub mod pricing;
pub mod reserve_book;
pub mod table;
pub mod types;

pub use crate::contract::SimpleContract;
pub use crate::ledger::Ledger;
pub use crate::model::PoolSnapshot;
pub use crate::reserve_book::ReserveBook;
pub use crate::types::{
    AccountId,
    AmmError,
    AmmPool,
    Balance,
    LiquidityAdded,
    LiquidityRemoved,
    SettlementStrategy,
    Swapped,
    TokenId,
};
