use onsenswap::pair::{skim_amounts, k_check, OnsenswapError, OnsenswapPair, PSP22Token, TransferError};

const POOL: u128 = 900;
const TOKEN0: u128 = 11;
const TOKEN1: u128 = 22;
const OWNER: u128 = 1;
const TRADER: u128 = 5;

/// In-memory token collaborator: tracks the pool's balance and records every
/// transfer it is instructed to perform.
struct MockToken {
    pool_balance: u128,
    fail_transfers: bool,
    transfers: Vec<(u128, u128, u128)>,
}

impl MockToken {
    fn with_balance(pool_balance: u128) -> MockToken {
        MockToken { pool_balance, fail_transfers: false, transfers: Vec::new() }
    }
}

impl PSP22Token for MockToken {
    fn balance_of(&self, _holder: u128) -> u128 {
        self.pool_balance
    }

    fn transfer_from(
        &mut self,
        from: u128,
        to: u128,
        value: u128,
        _data: &Vec<u8>,
    ) -> Result<(), TransferError> {
        if self.fail_transfers {
            return Err(TransferError { code: 7 });
        }
        if from == POOL {
            self.pool_balance -= value;
        }
        self.transfers.push((from, to, value));
        Ok(())
    }
}

fn pool_with_reserves(reserve0: u128, reserve1: u128) -> OnsenswapPair {
    let mut pair = OnsenswapPair::new(TOKEN0, TOKEN1, OWNER, 1);
    pair.reserve0 = reserve0;
    pair.reserve1 = reserve1;
    pair
}

#[test]
fn new_records_caller_and_assets() {
    let pair = OnsenswapPair::new(TOKEN0, TOKEN1, OWNER, 3);
    assert_eq!(pair.owner, OWNER);
    assert_eq!(pair.factory, OWNER);
    assert_eq!(pair.token0_account_id, TOKEN0);
    assert_eq!(pair.token1_account_id, TOKEN1);
    assert_eq!(pair.get_reserves(), (0, 0, 3));
    assert_eq!(pair.getk_last(), 0);
}

#[test]
fn get_reserves_idempotent() {
    let pair = pool_with_reserves(123, 456);
    let first = pair.get_reserves();
    let second = pair.get_reserves();
    assert_eq!(first, second);
    assert_eq!(first, (123, 456, 1));
}

#[test]
fn swap_zero_output_rejected() {
    let mut pair = pool_with_reserves(1000, 1000);
    let mut token0 = MockToken::with_balance(1000);
    let mut token1 = MockToken::with_balance(1000);
    let r = pair.swap(&mut token0, &mut token1, POOL, 2, 0, 0, TRADER, &Vec::new());
    assert_eq!(r, Err(OnsenswapError::InsufficientOutputAmount));
    assert!(token0.transfers.is_empty());
    assert!(token1.transfers.is_empty());
    assert_eq!(pair.get_reserves(), (1000, 1000, 1));
}

#[test]
fn swap_insufficient_liquidity_at_boundary() {
    let mut pair = pool_with_reserves(1000, 1000);
    let mut token0 = MockToken::with_balance(1000);
    let mut token1 = MockToken::with_balance(1000);
    // Requesting exactly the reserve must fail: the inequality is strict.
    let r = pair.swap(&mut token0, &mut token1, POOL, 2, 1000, 0, TRADER, &Vec::new());
    assert_eq!(r, Err(OnsenswapError::InsufficientLiquidity));
    let r = pair.swap(&mut token0, &mut token1, POOL, 2, 0, 1500, TRADER, &Vec::new());
    assert_eq!(r, Err(OnsenswapError::InsufficientLiquidity));
    assert!(token0.transfers.is_empty());
    assert!(token1.transfers.is_empty());
    assert_eq!(pair.get_reserves(), (1000, 1000, 1));
}

#[test]
fn swap_rejects_token_contracts_as_recipient() {
    let mut pair = pool_with_reserves(1000, 1000);
    let mut token0 = MockToken::with_balance(1000);
    let mut token1 = MockToken::with_balance(1000);
    let r = pair.swap(&mut token0, &mut token1, POOL, 2, 10, 0, TOKEN0, &Vec::new());
    assert_eq!(r, Err(OnsenswapError::InvalidRecipient));
    let r = pair.swap(&mut token0, &mut token1, POOL, 2, 10, 0, TOKEN1, &Vec::new());
    assert_eq!(r, Err(OnsenswapError::InvalidRecipient));
    assert!(token0.transfers.is_empty());
    assert!(token1.transfers.is_empty());
    assert_eq!(pair.get_reserves(), (1000, 1000, 1));
}

#[test]
fn swap_transfer_failure_propagates() {
    let mut pair = pool_with_reserves(1000, 1000);
    let mut token0 = MockToken::with_balance(1000);
    let mut token1 = MockToken::with_balance(1000);
    token0.fail_transfers = true;
    let r = pair.swap(&mut token0, &mut token1, POOL, 2, 10, 0, TRADER, &Vec::new());
    assert_eq!(r, Err(OnsenswapError::TransferFailed(TransferError { code: 7 })));
    assert_eq!(pair.get_reserves(), (1000, 1000, 1));
}

#[test]
fn swap_deposit_then_withdraw_succeeds() {
    // Prior liquidity has put 1000 of each asset into the pool; the trader
    // deposits 1000 more of asset 0 within the same operation and withdraws
    // 300 of asset 1.
    let mut pair = pool_with_reserves(1000, 1000);
    let mut token0 = MockToken::with_balance(2000);
    let mut token1 = MockToken::with_balance(1000);
    let r = pair.swap(&mut token0, &mut token1, POOL, 9, 0, 300, TRADER, &Vec::new());
    assert_eq!(r, Ok(()));
    // Reserves now mirror the observed post-transfer balances.
    assert_eq!(pair.get_reserves(), (2000, 700, 9));
    assert_eq!(token0.transfers, vec![(POOL, TRADER, 0)]);
    assert_eq!(token1.transfers, vec![(POOL, TRADER, 300)]);
}

#[test]
fn swap_excessive_withdrawal_violates_invariant() {
    // Reserves (1000, 1000); 1000 of asset 0 deposited, 997 of asset 1
    // requested. The fee-adjusted products are (2000*1000 - 3*1000) and
    // (3*1000 - 0); their product, 5_991_000_000, falls short of
    // 1000 * 1000 * 1_000_000, so the swap must be rejected.
    let mut pair = pool_with_reserves(1000, 1000);
    let mut token0 = MockToken::with_balance(2000);
    let mut token1 = MockToken::with_balance(1000);
    let r = pair.swap(&mut token0, &mut token1, POOL, 9, 0, 997, TRADER, &Vec::new());
    assert_eq!(r, Err(OnsenswapError::InvariantViolated));
    assert_eq!(pair.get_reserves(), (1000, 1000, 1));
}

#[test]
fn k_check_pins_the_exact_formula() {
    assert!(!k_check(1000, 1000, 0, 997, 2000, 3));
    assert!(k_check(1000, 1000, 0, 300, 2000, 700));
    // Pure one-directional trade with no deposit at all fails.
    assert!(!k_check(1000, 1000, 0, 1, 1000, 999));
    // Balances identical to reserves trivially keep the product.
    assert!(k_check(1000, 1000, 0, 0, 1000, 1000));
}

#[test]
fn skim_requires_owner() {
    let mut pair = pool_with_reserves(1000, 1000);
    let mut token0 = MockToken::with_balance(1000);
    let mut token1 = MockToken::with_balance(1000);
    let r = pair.skim(&mut token0, &mut token1, TRADER, POOL, TRADER);
    assert_eq!(r, Err(OnsenswapError::NotOwner));
    assert!(token0.transfers.is_empty());
    assert!(token1.transfers.is_empty());
}

#[test]
fn skim_sweeps_exactly_the_surplus() {
    let mut pair = pool_with_reserves(1000, 1000);
    let mut token0 = MockToken::with_balance(1025);
    let mut token1 = MockToken::with_balance(1000);
    let r = pair.skim(&mut token0, &mut token1, OWNER, POOL, TRADER);
    assert_eq!(r, Ok(()));
    assert_eq!(token0.transfers, vec![(POOL, TRADER, 25)]);
    assert_eq!(token1.transfers, vec![(POOL, TRADER, 0)]);
    // The ledger itself is untouched by a skim.
    assert_eq!(pair.get_reserves(), (1000, 1000, 1));
}

#[test]
fn skim_with_balances_equal_to_reserves_moves_nothing() {
    let mut pair = pool_with_reserves(1000, 1000);
    let mut token0 = MockToken::with_balance(1000);
    let mut token1 = MockToken::with_balance(1000);
    let r = pair.skim(&mut token0, &mut token1, OWNER, POOL, TRADER);
    assert_eq!(r, Ok(()));
    assert_eq!(token0.transfers, vec![(POOL, TRADER, 0)]);
    assert_eq!(token1.transfers, vec![(POOL, TRADER, 0)]);
}

#[test]
fn skim_reports_balance_below_reserve() {
    let mut pair = pool_with_reserves(1000, 1000);
    let mut token0 = MockToken::with_balance(999);
    let mut token1 = MockToken::with_balance(1000);
    let r = pair.skim(&mut token0, &mut token1, OWNER, POOL, TRADER);
    assert_eq!(r, Err(OnsenswapError::ReserveAccountingError));
    assert!(token0.transfers.is_empty());
    assert!(token1.transfers.is_empty());
}

#[test]
fn skim_amounts_exact() {
    assert_eq!(skim_amounts(1025, 1000, 1000, 1000), Ok((25, 0)));
    assert_eq!(skim_amounts(1000, 1000, 1000, 1000), Ok((0, 0)));
    assert_eq!(
        skim_amounts(999, 1000, 1000, 1000),
        Err(OnsenswapError::ReserveAccountingError)
    );
    assert_eq!(
        skim_amounts(1000, 1000, 5, 6),
        Err(OnsenswapError::ReserveAccountingError)
    );
}

#[test]
fn skim_transfer_failure_propagates() {
    let mut pair = pool_with_reserves(1000, 1000);
    let mut token0 = MockToken::with_balance(1100);
    let mut token1 = MockToken::with_balance(1000);
    token0.fail_transfers = true;
    let r = pair.skim(&mut token0, &mut token1, OWNER, POOL, TRADER);
    assert_eq!(r, Err(OnsenswapError::TransferFailed(TransferError { code: 7 })));
}
