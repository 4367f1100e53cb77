//! Data of the companion pair-registrar entity.

use crate::pair::AccountId;
use vstd::prelude::*;

verus! {

/// Registrar record for one asset pair: the creating identity, the two asset
/// identifiers, and reserve bookkeeping mirroring the pool ledger.
pub struct OnsenswapFactory {
    pub factory: AccountId,
    pub token0: AccountId,
    pub token1: AccountId,
    pub reserve0: u128,
    pub reserve1: u128,
    pub block_timestamp_last: u32,
    pub price0_cumulative_last: u128,
    pub price1_cumulative_last: u128,
    pub k_last: u128,
}

impl OnsenswapFactory {
    /// Records the calling identity as the factory and the two asset
    /// identifiers; all reserve bookkeeping starts at zero.
    pub fn new(_factory: AccountId, token0: AccountId, token1: AccountId, caller: AccountId) -> (f:
        Self)
        ensures
            f.factory == caller,
            f.token0 == token0,
            f.token1 == token1,
            f.reserve0 == 0,
            f.reserve1 == 0,
            f.block_timestamp_last == 0,
            f.price0_cumulative_last == 0,
            f.price1_cumulative_last == 0,
            f.k_last == 0,
    {
        OnsenswapFactory {
            factory: caller,
            token0,
            token1,
            reserve0: 0,
            reserve1: 0,
            block_timestamp_last: 0,
            price0_cumulative_last: 0,
            price1_cumulative_last: 0,
            k_last: 0,
        }
    }

    /// Reads the tracked reserves and the last update marker; pure read.
    pub fn get_reserves(&self) -> (r: (u128, u128, u32))
        ensures
            r == (self.reserve0, self.reserve1, self.block_timestamp_last),
    {
        (self.reserve0, self.reserve1, self.block_timestamp_last)
    }
}

} // verus!
