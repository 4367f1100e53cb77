//! Accounting core of a two-asset constant-product liquidity pool.
//!
//! The `pair` module holds the pool ledger and the swap engine: it tracks two
//! token reserves, enforces the fee-adjusted constant-product invariant on
//! every trade, and reconciles externally observed token balances against the
//! reserves it tracks. The `bignum` module supplies the exact wide arithmetic
//! that the invariant check needs, since the fee-adjusted products exceed the
//! width of any built-in integer type. The `factory` module holds the
//! companion registrar entity's data.

pub mod bignum;
pub mod factory;
pub mod pair;
