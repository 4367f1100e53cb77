//! Pool ledger and swap engine of the two-asset pool.

use crate::bignum::{big_add, big_from_u128, big_ge, big_mul, big_mul_small, limbs_val};
use vstd::prelude::*;

verus! {

/// The inflow a balance observation implies: any excess of the observed
/// balance over the expected post-payout level counts as a deposit made
/// within the same operation.
pub open spec fn spec_inflow(balance: int, expected: int) -> int {
    if balance > expected {
        balance - expected
    } else {
        0
    }
}

/// The fee-adjusted constant-product condition: each observed balance scaled
/// by 1000 pays a 0.3% fee on its inferred inflow, and the product of the
/// adjusted balances must not fall below the product of the prior reserves
/// scaled by 1000 on each side.
pub open spec fn spec_k_holds(
    reserve0: u128,
    reserve1: u128,
    amount0_out: u128,
    amount1_out: u128,
    balance0: u128,
    balance1: u128,
) -> bool {
    let in0 = spec_inflow(balance0 as int, reserve0 - amount0_out);
    let in1 = spec_inflow(balance1 as int, reserve1 - amount1_out);
    (1000 * balance0 - 3 * in0) * (1000 * balance1 - 3 * in1) >= 1000000 * (reserve0 * reserve1)
}

/// Identity of an account, reduced to the value the pool logic compares.
pub type AccountId = u128;

/// A token amount.
pub type Balance = u128;

/// Evaluates the fee-adjusted constant-product condition exactly, in
/// arithmetic wide enough for any 128-bit reserves and balances.
pub fn k_check(
    reserve0: u128,
    reserve1: u128,
    amount0_out: u128,
    amount1_out: u128,
    balance0: u128,
    balance1: u128,
) -> (r: bool)
    requires
        amount0_out <= reserve0,
        amount1_out <= reserve1,
    ensures
        r == spec_k_holds(reserve0, reserve1, amount0_out, amount1_out, balance0, balance1),
{
    let expected0: u128 = reserve0 - amount0_out;
    let expected1: u128 = reserve1 - amount1_out;
    let in0: u128 = if balance0 > expected0 {
        balance0 - expected0
    } else {
        0
    };
    let in1: u128 = if balance1 > expected1 {
        balance1 - expected1
    } else {
        0
    };
    let adjusted0 = big_add(
        &big_mul_small(&big_from_u128(in0), 997),
        &big_mul_small(&big_from_u128(balance0 - in0), 1000),
    );
    let adjusted1 = big_add(
        &big_mul_small(&big_from_u128(in1), 997),
        &big_mul_small(&big_from_u128(balance1 - in1), 1000),
    );
    let lhs = big_mul(&adjusted0, &adjusted1);
    let rhs = big_mul_small(&big_mul(&big_from_u128(reserve0), &big_from_u128(reserve1)), 1000000);
    proof {
        assert(limbs_val(adjusted0@) == 1000 * balance0 - 3 * in0);
        assert(limbs_val(adjusted1@) == 1000 * balance1 - 3 * in1);
        assert(limbs_val(rhs@) == 1000000 * (reserve0 * reserve1));
    }
    big_ge(&lhs, &rhs)
}

/// Whenever the fee-adjusted condition holds over non-zero prior reserves,
/// both committed balances are themselves non-zero: a successful swap can
/// never empty either side of the pool.
pub proof fn lemma_k_holds_reserves_positive(
    reserve0: u128,
    reserve1: u128,
    amount0_out: u128,
    amount1_out: u128,
    balance0: u128,
    balance1: u128,
)
    requires
        0 < reserve0,
        0 < reserve1,
        amount0_out <= reserve0,
        amount1_out <= reserve1,
        spec_k_holds(reserve0, reserve1, amount0_out, amount1_out, balance0, balance1),
    ensures
        balance0 > 0,
        balance1 > 0,
{
    let in0 = spec_inflow(balance0 as int, reserve0 - amount0_out);
    let in1 = spec_inflow(balance1 as int, reserve1 - amount1_out);
    assert(1000000 * ((reserve0 as int) * (reserve1 as int)) >= 1000000) by (nonlinear_arith)
        requires
            reserve0 >= 1,
            reserve1 >= 1,
    ;
    if balance0 == 0 {
        assert(in0 == 0);
        assert((1000 * (balance0 as int) - 3 * in0) * (1000 * balance1 - 3 * in1) == 0)
            by (nonlinear_arith)
            requires
                balance0 == 0,
                in0 == 0,
        ;
        assert(false);
    }
    if balance1 == 0 {
        assert(in1 == 0);
        assert((1000 * balance0 - 3 * in0) * (1000 * (balance1 as int) - 3 * in1) == 0)
            by (nonlinear_arith)
            requires
                balance1 == 0,
                in1 == 0,
        ;
        assert(false);
    }
}

/// Error reported by a token collaborator when a transfer is refused.
#[derive(Clone, Copy, Debug, PartialEq, Eq, Structural)]
pub struct TransferError {
    pub code: u32,
}

/// Why a pool operation failed.
#[derive(Clone, Copy, Debug, PartialEq, Eq, Structural)]
pub enum OnsenswapError {
    /// A swap requested zero output on both sides.
    InsufficientOutputAmount,
    /// A swap requested at least as much output as a reserve holds.
    InsufficientLiquidity,
    /// A swap directed proceeds to one of the token contracts themselves.
    InvalidRecipient,
    /// A token collaborator refused a transfer.
    TransferFailed(TransferError),
    /// The fee-adjusted constant-product check failed.
    InvariantViolated,
    /// An owner-gated operation was called by another identity.
    NotOwner,
    /// An external balance fell below the tracked reserve.
    ReserveAccountingError,
}

/// Capability exposed by each traded token's contract: balance observation
/// and third-party transfer. Implementations are external collaborators;
/// nothing is assumed of the values they return.
pub trait PSP22Token {
    /// Observed balance of `holder` in this token.
    fn balance_of(&self, holder: AccountId) -> Balance;

    /// Move `value` tokens from `from` to `to`, forwarding `data` to any
    /// transfer hook. The collaborator decides whether this succeeds.
    fn transfer_from(
        &mut self,
        from: AccountId,
        to: AccountId,
        value: Balance,
        data: &Vec<u8>,
    ) -> Result<(), TransferError>;
}

/// The pool ledger: tracked reserves of the two assets, the identities
/// involved, and the invariant checkpoint.
pub struct OnsenswapPair {
    pub factory: AccountId,
    pub owner: AccountId,
    pub token0_account_id: AccountId,
    pub token1_account_id: AccountId,
    pub reserve0: Balance,
    pub reserve1: Balance,
    pub blocknumber_last: u32,
    pub k_last: u128,
}

/// What the ledger-commit operation does: the observed balances become the
/// reserves, the marker moves to the given block, and every other field is
/// kept.
pub open spec fn spec_committed(
    pre: OnsenswapPair,
    post: OnsenswapPair,
    balance0: u128,
    balance1: u128,
    block_number: u32,
) -> bool {
    &&& post.reserve0 == balance0
    &&& post.reserve1 == balance1
    &&& post.blocknumber_last == block_number
    &&& post.factory == pre.factory
    &&& post.owner == pre.owner
    &&& post.token0_account_id == pre.token0_account_id
    &&& post.token1_account_id == pre.token1_account_id
    &&& post.k_last == pre.k_last
}

/// The validation a swap request must pass before any external call: some
/// output requested, strictly less than each reserve, and proceeds not
/// directed at either token contract.
pub open spec fn spec_swap_allowed(
    pre: OnsenswapPair,
    amount0_out: u128,
    amount1_out: u128,
    to: AccountId,
) -> bool {
    &&& amount0_out > 0 || amount1_out > 0
    &&& amount0_out < pre.reserve0
    &&& amount1_out < pre.reserve1
    &&& to != pre.token0_account_id
    &&& to != pre.token1_account_id
}

/// The surplus each asset holds beyond its tracked reserve, or
/// `ReserveAccountingError` if either observed balance fell below its
/// reserve; the subtraction never wraps.
pub fn skim_amounts(balance0: u128, reserve0: u128, balance1: u128, reserve1: u128) -> (r: Result<
    (u128, u128),
    OnsenswapError,
>)
    ensures
        r is Ok <==> (balance0 >= reserve0 && balance1 >= reserve1),
        r matches Ok(s) ==> s.0 == balance0 - reserve0 && s.1 == balance1 - reserve1,
        r is Err ==> r == Err::<(u128, u128), OnsenswapError>(
            OnsenswapError::ReserveAccountingError,
        ),
{
    if balance0 < reserve0 || balance1 < reserve1 {
        Err(OnsenswapError::ReserveAccountingError)
    } else {
        Ok((balance0 - reserve0, balance1 - reserve1))
    }
}

impl OnsenswapPair {
    /// Creates the ledger: distinct asset identifiers, the caller recorded as
    /// factory and owner, both reserves zero, the marker at the creation
    /// block.
    pub fn new(
        token0_account_id: AccountId,
        token1_account_id: AccountId,
        caller: AccountId,
        block_number: u32,
    ) -> (p: Self)
        requires
            token0_account_id != token1_account_id,
        ensures
            p.factory == caller,
            p.owner == caller,
            p.token0_account_id == token0_account_id,
            p.token1_account_id == token1_account_id,
            p.reserve0 == 0,
            p.reserve1 == 0,
            p.blocknumber_last == block_number,
            p.k_last == 0,
    {
        OnsenswapPair {
            factory: caller,
            owner: caller,
            token0_account_id,
            token1_account_id,
            reserve0: 0,
            reserve1: 0,
            blocknumber_last: block_number,
            k_last: 0,
        }
    }

    /// Reads the tracked reserves and the last update marker; pure read.
    pub fn get_reserves(&self) -> (r: (Balance, Balance, u32))
        ensures
            r == (self.reserve0, self.reserve1, self.blocknumber_last),
    {
        (self.reserve0, self.reserve1, self.blocknumber_last)
    }

    /// Reads the invariant checkpoint; pure read.
    pub fn getk_last(&self) -> (r: u128)
        ensures
            r == self.k_last,
    {
        self.k_last
    }

    /// The ledger's only mutator: commits observed balances at the given
    /// block. A fuller design would accumulate time-weighted prices here on
    /// the first commit of a new block; no accumulator formula is specified,
    /// so that step is deliberately absent and the commit is unconditional.
    fn update(&mut self, new_balance0: Balance, new_balance1: Balance, block_number: u32)
        ensures
            spec_committed(*old(self), *final(self), new_balance0, new_balance1, block_number),
    {
        self.reserve0 = new_balance0;
        self.reserve1 = new_balance1;
        self.blocknumber_last = block_number;
    }

    /// Validates observed post-transfer balances against the fee-adjusted
    /// constant-product condition and, exactly when it holds, commits them:
    /// the one decision a swap makes after its external calls, stated for
    /// every possible pair of observations.
    pub fn settle(
        &mut self,
        amount0_out: Balance,
        amount1_out: Balance,
        balance0: Balance,
        balance1: Balance,
        block_number: u32,
    ) -> (r: Result<(), OnsenswapError>)
        requires
            amount0_out < old(self).reserve0,
            amount1_out < old(self).reserve1,
        ensures
            r is Ok <==> spec_k_holds(
                old(self).reserve0,
                old(self).reserve1,
                amount0_out,
                amount1_out,
                balance0,
                balance1,
            ),
            r is Ok ==> spec_committed(*old(self), *final(self), balance0, balance1, block_number),
            r is Err ==> r == Err::<(), OnsenswapError>(OnsenswapError::InvariantViolated)
                && *final(self) == *old(self),
            r is Ok && old(self).reserve0 > 0 && old(self).reserve1 > 0 ==> final(self).reserve0
                > 0 && final(self).reserve1 > 0,
    {
        let ok = k_check(
            self.reserve0,
            self.reserve1,
            amount0_out,
            amount1_out,
            balance0,
            balance1,
        );
        if !ok {
            return Err(OnsenswapError::InvariantViolated);
        }
        proof {
            if self.reserve0 > 0 && self.reserve1 > 0 {
                lemma_k_holds_reserves_positive(
                    self.reserve0,
                    self.reserve1,
                    amount0_out,
                    amount1_out,
                    balance0,
                    balance1,
                );
            }
        }
        self.update(balance0, balance1, block_number);
        Ok(())
    }

    /// Swaps: pays the requested amounts out through the token
    /// collaborators, re-observes the pool's balances, infers implicit
    /// deposits, and commits the observation only if the fee-adjusted
    /// constant-product condition holds. Any failure leaves the ledger
    /// untouched; the validation errors are exactly characterised, while
    /// transfer failures are the collaborators' decision.
    pub fn swap<T0: PSP22Token, T1: PSP22Token>(
        &mut self,
        token0: &mut T0,
        token1: &mut T1,
        contract_address: AccountId,
        block_number: u32,
        amount0_out: Balance,
        amount1_out: Balance,
        to: AccountId,
        data: &Vec<u8>,
    ) -> (r: Result<(), OnsenswapError>)
        ensures
            r is Err ==> *final(self) == *old(self),
            (r == Err::<(), OnsenswapError>(OnsenswapError::InsufficientOutputAmount)) <==> (
            amount0_out == 0 && amount1_out == 0),
            (r == Err::<(), OnsenswapError>(OnsenswapError::InsufficientLiquidity)) <==> ((
            amount0_out > 0 || amount1_out > 0) && (amount0_out >= old(self).reserve0
                || amount1_out >= old(self).reserve1)),
            (r == Err::<(), OnsenswapError>(OnsenswapError::InvalidRecipient)) <==> ((amount0_out
                > 0 || amount1_out > 0) && amount0_out < old(self).reserve0 && amount1_out < old(
                self,
            ).reserve1 && (to == old(self).token0_account_id || to == old(
                self,
            ).token1_account_id)),
            !spec_swap_allowed(*old(self), amount0_out, amount1_out, to) ==> r is Err,
            spec_swap_allowed(*old(self), amount0_out, amount1_out, to) ==> (r is Ok || (r matches
                Err(e) && (e is TransferFailed || e == OnsenswapError::InvariantViolated))),
            r is Ok ==> spec_swap_allowed(*old(self), amount0_out, amount1_out, to)
                && spec_k_holds(
                old(self).reserve0,
                old(self).reserve1,
                amount0_out,
                amount1_out,
                final(self).reserve0,
                final(self).reserve1,
            ) && spec_committed(
                *old(self),
                *final(self),
                final(self).reserve0,
                final(self).reserve1,
                block_number,
            ),
            r is Ok && old(self).reserve0 > 0 && old(self).reserve1 > 0 ==> final(self).reserve0
                > 0 && final(self).reserve1 > 0,
    {
        if !(amount0_out > 0 || amount1_out > 0) {
            return Err(OnsenswapError::InsufficientOutputAmount);
        }
        let (current_reserve0, current_reserve1, _last_block) = self.get_reserves();
        if !(amount0_out < current_reserve0 && amount1_out < current_reserve1) {
            return Err(OnsenswapError::InsufficientLiquidity);
        }
        if to == self.token0_account_id || to == self.token1_account_id {
            return Err(OnsenswapError::InvalidRecipient);
        }
        if let Err(e) = token0.transfer_from(contract_address, to, amount0_out, data) {
            return Err(OnsenswapError::TransferFailed(e));
        }
        if let Err(e) = token1.transfer_from(contract_address, to, amount1_out, data) {
            return Err(OnsenswapError::TransferFailed(e));
        }
        let balance0 = token0.balance_of(contract_address);
        let balance1 = token1.balance_of(contract_address);
        self.settle(amount0_out, amount1_out, balance0, balance1, block_number)
    }

    /// Owner-gated reconciliation: sweeps to `to` exactly the surplus each
    /// asset's observed balance holds beyond its tracked reserve. The ledger
    /// itself is never changed; a non-owner caller is refused before any
    /// external call, and a balance below its reserve is reported rather
    /// than wrapped.
    pub fn skim<T0: PSP22Token, T1: PSP22Token>(
        &mut self,
        token0: &mut T0,
        token1: &mut T1,
        caller: AccountId,
        contract_address: AccountId,
        to: AccountId,
    ) -> (r: Result<(), OnsenswapError>)
        ensures
            *final(self) == *old(self),
            (r == Err::<(), OnsenswapError>(OnsenswapError::NotOwner)) <==> caller != old(
                self,
            ).owner,
            r is Ok || (r matches Err(e) && (e == OnsenswapError::NotOwner || e
                == OnsenswapError::ReserveAccountingError || e is TransferFailed)),
    {
        if caller != self.owner {
            return Err(OnsenswapError::NotOwner);
        }
        let balance0 = token0.balance_of(contract_address);
        let balance1 = token1.balance_of(contract_address);
        let amounts = match skim_amounts(balance0, self.reserve0, balance1, self.reserve1) {
            Ok(amounts) => amounts,
            Err(e) => {
                return Err(e);
            },
        };
        let empty: Vec<u8> = Vec::new();
        if let Err(e) = token0.transfer_from(contract_address, to, amounts.0, &empty) {
            return Err(OnsenswapError::TransferFailed(e));
        }
        if let Err(e) = token1.transfer_from(contract_address, to, amounts.1, &empty) {
            return Err(OnsenswapError::TransferFailed(e));
        }
        Ok(())
    }
}

} // verus!

