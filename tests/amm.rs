use anchor_amm::curve::{deposit_amounts, swap_output, withdraw_amounts, XYAmounts};
use anchor_amm::deposit::Deposit;
use anchor_amm::error::AmmError;
use anchor_amm::initialize::{Initialize, PoolRegistry};
use anchor_amm::ledger::{Asset, LedgerOp};
use anchor_amm::state::{Address, Config, Pool, Reserves};
use anchor_amm::swap::Swap;
use anchor_amm::withdraw::Withdraw;

fn addr(n: u128) -> Address {
    Address { hi: 0, lo: n }
}

fn config(fee: u16, locked: bool) -> Config {
    Config {
        seed: 7,
        authority: Some(addr(99)),
        mint_x: addr(1),
        mint_y: addr(2),
        fee,
        locked,
    }
}

fn pool(reserve_x: u64, reserve_y: u64, lp_supply: u64, fee: u16) -> Pool {
    Pool {
        config: config(fee, false),
        reserves: Reserves { reserve_x, reserve_y, lp_supply },
    }
}

#[test]
fn swap_output_scenario() {
    assert_eq!(swap_output(1000, 1000, 100, 30), Ok(91));
}

#[test]
fn swap_scenario_with_min_out() {
    let mut op = Swap { pool: pool(1000, 1000, 1000, 30) };
    assert_eq!(op.swap(true, 100, 92), Err(AmmError::SlippageExceeded));
    assert_eq!(op.pool, pool(1000, 1000, 1000, 30));
    let plan = op.swap(true, 100, 91).unwrap();
    assert_eq!(
        plan,
        vec![
            LedgerOp::Debit { asset: Asset::X, amount: 100 },
            LedgerOp::Credit { asset: Asset::Y, amount: 91 },
        ]
    );
    assert_eq!(op.pool.reserves, Reserves { reserve_x: 1100, reserve_y: 909, lp_supply: 1000 });
}

#[test]
fn swap_from_y() {
    let mut op = Swap { pool: pool(1000, 1000, 1000, 30) };
    let plan = op.swap(false, 100, 0).unwrap();
    assert_eq!(
        plan,
        vec![
            LedgerOp::Debit { asset: Asset::Y, amount: 100 },
            LedgerOp::Credit { asset: Asset::X, amount: 91 },
        ]
    );
    assert_eq!(op.pool.reserves, Reserves { reserve_x: 909, reserve_y: 1100, lp_supply: 1000 });
}

#[test]
fn swap_product_does_not_fall_when_fee_covers_rounding() {
    let mut op = Swap { pool: pool(1000, 1000, 1000, 30) };
    op.swap(true, 1000, 0).unwrap();
    let r = op.pool.reserves;
    assert_eq!(r.reserve_y, 500);
    assert!((r.reserve_x as u128) * (r.reserve_y as u128) >= 1000 * 1000);
}

#[test]
fn swap_product_within_one_unit_of_rounding() {
    let mut op = Swap { pool: pool(1000, 1000, 1000, 30) };
    op.swap(true, 100, 0).unwrap();
    let r = op.pool.reserves;
    assert!((r.reserve_x as u128) * (r.reserve_y as u128 + 1) > 1000 * 1000);
}

#[test]
fn swap_without_fee() {
    assert_eq!(swap_output(100, 100, 100, 0), Ok(50));
}

#[test]
fn swap_output_division_by_zero() {
    assert_eq!(swap_output(0, 1000, 1, 9999), Err(AmmError::DivisionByZero));
}

#[test]
fn swap_output_zero_is_invalid() {
    assert_eq!(swap_output(1000, 1, 1, 30), Err(AmmError::InvalidAmount));
}

#[test]
fn swap_overflowing_input_reserve() {
    let mut op = Swap { pool: pool(u64::MAX, 1000, 1000, 0) };
    assert_eq!(op.swap(true, u64::MAX, 0), Err(AmmError::ArithmeticOverflow));
}

#[test]
fn withdraw_amounts_scenario() {
    assert_eq!(withdraw_amounts(1000, 2000, 500, 50), Ok(XYAmounts { x: 100, y: 200 }));
}

#[test]
fn withdraw_scenario() {
    let mut op = Withdraw { pool: pool(1000, 2000, 500, 30) };
    let plan = op.withdraw(50, 100, 200).unwrap();
    assert_eq!(
        plan,
        vec![
            LedgerOp::BurnShares { amount: 50 },
            LedgerOp::Credit { asset: Asset::X, amount: 100 },
            LedgerOp::Credit { asset: Asset::Y, amount: 200 },
        ]
    );
    assert_eq!(op.pool.reserves, Reserves { reserve_x: 900, reserve_y: 1800, lp_supply: 450 });
}

#[test]
fn withdraw_rounds_down() {
    assert_eq!(withdraw_amounts(1001, 2003, 500, 7), Ok(XYAmounts { x: 14, y: 28 }));
}

#[test]
fn withdraw_slippage() {
    let mut op = Withdraw { pool: pool(1000, 2000, 500, 30) };
    assert_eq!(op.withdraw(50, 101, 0), Err(AmmError::SlippageExceeded));
    assert_eq!(op.pool, pool(1000, 2000, 500, 30));
}

#[test]
fn withdraw_zero_minimums() {
    let mut op = Withdraw { pool: pool(1000, 2000, 500, 30) };
    assert_eq!(op.withdraw(50, 0, 0), Err(AmmError::InvalidAmount));
}

#[test]
fn withdraw_more_shares_than_supply() {
    let mut op = Withdraw { pool: pool(1000, 2000, 500, 30) };
    assert_eq!(op.withdraw(600, 1, 1), Err(AmmError::InsufficientShares));
}

#[test]
fn withdraw_all_shares_empties_pool() {
    let mut op = Withdraw { pool: pool(1000, 2000, 500, 30) };
    op.withdraw(500, 1, 1).unwrap();
    assert_eq!(op.pool.reserves, Reserves { reserve_x: 0, reserve_y: 0, lp_supply: 0 });
}

#[test]
fn deposit_amounts_proportional() {
    assert_eq!(deposit_amounts(1000, 2000, 500, 7), Ok(XYAmounts { x: 14, y: 28 }));
}

#[test]
fn deposit_amounts_without_supply() {
    assert_eq!(deposit_amounts(10, 10, 0, 7), Err(AmmError::DivisionByZero));
}

#[test]
fn deposit_amounts_overflow() {
    assert_eq!(deposit_amounts(u64::MAX, 1, 1, 2), Err(AmmError::ArithmeticOverflow));
}

#[test]
fn deposit_into_virgin_pool() {
    let mut op = Deposit { pool: pool(0, 0, 0, 30) };
    let plan = op.deposit(1000, 300, 700).unwrap();
    assert_eq!(
        plan,
        vec![
            LedgerOp::Debit { asset: Asset::X, amount: 300 },
            LedgerOp::Debit { asset: Asset::Y, amount: 700 },
            LedgerOp::MintShares { amount: 1000 },
        ]
    );
    assert_eq!(op.pool.reserves, Reserves { reserve_x: 300, reserve_y: 700, lp_supply: 1000 });
}

#[test]
fn deposit_proportional() {
    let mut op = Deposit { pool: pool(1000, 2000, 500, 30) };
    let plan = op.deposit(50, 100, 200).unwrap();
    assert_eq!(
        plan,
        vec![
            LedgerOp::Debit { asset: Asset::X, amount: 100 },
            LedgerOp::Debit { asset: Asset::Y, amount: 200 },
            LedgerOp::MintShares { amount: 50 },
        ]
    );
    assert_eq!(op.pool.reserves, Reserves { reserve_x: 1100, reserve_y: 2200, lp_supply: 550 });
}

#[test]
fn deposit_slippage() {
    let mut op = Deposit { pool: pool(1000, 2000, 500, 30) };
    assert_eq!(op.deposit(50, 100, 199), Err(AmmError::SlippageExceeded));
    assert_eq!(op.pool, pool(1000, 2000, 500, 30));
}

#[test]
fn deposit_overflowing_supply() {
    let mut op = Deposit { pool: pool(0, 0, 0, 30) };
    op.deposit(u64::MAX, 1, 1).unwrap();
    let mut again = Deposit { pool: pool(1, 1, u64::MAX, 30) };
    assert_eq!(again.deposit(1, 1, 1), Err(AmmError::ArithmeticOverflow));
}

#[test]
fn deposit_then_withdraw_returns_no_more() {
    let mut dep = Deposit { pool: pool(1001, 2003, 500, 30) };
    let plan = dep.deposit(7, u64::MAX, u64::MAX).unwrap();
    assert_eq!(plan[0], LedgerOp::Debit { asset: Asset::X, amount: 14 });
    assert_eq!(plan[1], LedgerOp::Debit { asset: Asset::Y, amount: 28 });
    let mut wd = Withdraw { pool: dep.pool };
    let back = wd.withdraw(7, 1, 1).unwrap();
    match (back[1], back[2]) {
        (LedgerOp::Credit { amount: x, .. }, LedgerOp::Credit { amount: y, .. }) => {
            assert!(x <= 14);
            assert!(y <= 28);
        }
        _ => panic!("unexpected ledger effects"),
    }
}

#[test]
fn deposit_then_withdraw_virgin_pool() {
    let mut dep = Deposit { pool: pool(0, 0, 0, 30) };
    dep.deposit(10, 33, 77).unwrap();
    let mut wd = Withdraw { pool: dep.pool };
    let back = wd.withdraw(10, 1, 1).unwrap();
    assert_eq!(back[1], LedgerOp::Credit { asset: Asset::X, amount: 33 });
    assert_eq!(back[2], LedgerOp::Credit { asset: Asset::Y, amount: 77 });
}

#[test]
fn zero_amounts_are_invalid() {
    let mut dep = Deposit { pool: pool(1000, 2000, 500, 30) };
    assert_eq!(dep.deposit(0, 100, 100), Err(AmmError::InvalidAmount));
    let mut wd = Withdraw { pool: pool(1000, 2000, 500, 30) };
    assert_eq!(wd.withdraw(0, 1, 1), Err(AmmError::InvalidAmount));
    let mut sw = Swap { pool: pool(1000, 2000, 500, 30) };
    assert_eq!(sw.swap(true, 0, 0), Err(AmmError::InvalidAmount));
}

#[test]
fn locked_pool_refuses_everything() {
    let mut locked = pool(1000, 2000, 500, 30);
    locked.config.locked = true;
    let mut dep = Deposit { pool: locked };
    assert_eq!(dep.deposit(0, 0, 0), Err(AmmError::PoolLocked));
    assert_eq!(dep.deposit(50, 100, 200), Err(AmmError::PoolLocked));
    let mut wd = Withdraw { pool: locked };
    assert_eq!(wd.withdraw(0, 0, 0), Err(AmmError::PoolLocked));
    assert_eq!(wd.withdraw(50, 100, 200), Err(AmmError::PoolLocked));
    let mut sw = Swap { pool: locked };
    assert_eq!(sw.swap(true, 0, 0), Err(AmmError::PoolLocked));
    assert_eq!(sw.swap(false, 100, 0), Err(AmmError::PoolLocked));
    assert_eq!(sw.pool, locked);
}

#[test]
fn set_locked_by_authority() {
    let mut c = config(30, false);
    assert_eq!(c.set_locked(true, addr(99)), Ok(()));
    assert!(c.locked);
    assert_eq!(c.set_locked(false, addr(98)), Err(AmmError::Unauthorized));
    assert!(c.locked);
    assert_eq!(c.set_locked(false, addr(99)), Ok(()));
    assert!(!c.locked);
}

#[test]
fn set_locked_without_authority() {
    let mut c = config(30, false);
    c.authority = None;
    assert_eq!(c.set_locked(true, addr(99)), Err(AmmError::Unauthorized));
    assert!(!c.locked);
}

#[test]
fn initialize_pools() {
    let mut registry = PoolRegistry::new();
    let accounts = Initialize { mint_x: addr(1), mint_y: addr(2) };
    assert_eq!(anchor_amm::initialize(&mut registry, &accounts, 7, Some(addr(99)), 30), Ok(0));
    assert_eq!(accounts.init(&mut registry, 8, None, 0), Ok(1));
    assert_eq!(registry.len(), 2);
    let p = registry.get(0);
    assert_eq!(p.config, config(30, false));
    assert_eq!(p.reserves, Reserves { reserve_x: 0, reserve_y: 0, lp_supply: 0 });
}

#[test]
fn initialize_invalid_fee() {
    let mut registry = PoolRegistry::new();
    let accounts = Initialize { mint_x: addr(1), mint_y: addr(2) };
    assert_eq!(accounts.init(&mut registry, 7, None, 10000), Err(AmmError::InvalidFee));
    assert_eq!(accounts.init(&mut registry, 7, None, 9999), Ok(0));
}

#[test]
fn initialize_duplicate_pool() {
    let mut registry = PoolRegistry::new();
    let accounts = Initialize { mint_x: addr(1), mint_y: addr(2) };
    assert_eq!(accounts.init(&mut registry, 7, None, 30), Ok(0));
    assert_eq!(accounts.init(&mut registry, 7, Some(addr(5)), 10), Err(AmmError::DuplicatePool));
    let swapped = Initialize { mint_x: addr(2), mint_y: addr(1) };
    assert_eq!(swapped.init(&mut registry, 7, None, 30), Ok(1));
    assert_eq!(registry.len(), 2);
}

#[test]
fn registry_operations() {
    let mut registry = PoolRegistry::new();
    let accounts = Initialize { mint_x: addr(1), mint_y: addr(2) };
    let id = anchor_amm::initialize(&mut registry, &accounts, 7, Some(addr(99)), 30).unwrap();
    anchor_amm::deposit(&mut registry, id, 1000, 1000, 1000).unwrap();
    assert_eq!(anchor_amm::swap(&mut registry, id, true, 100, 0).unwrap()[1], LedgerOp::Credit { asset: Asset::Y, amount: 91 });
    assert_eq!(registry.get(id).reserves, Reserves { reserve_x: 1100, reserve_y: 909, lp_supply: 1000 });
    assert_eq!(anchor_amm::set_locked(&mut registry, id, true, addr(1)), Err(AmmError::Unauthorized));
    assert_eq!(anchor_amm::set_locked(&mut registry, id, true, addr(99)), Ok(()));
    assert_eq!(anchor_amm::withdraw(&mut registry, id, 100, 1, 1), Err(AmmError::PoolLocked));
    assert_eq!(anchor_amm::set_locked(&mut registry, id, false, addr(99)), Ok(()));
    let plan = anchor_amm::withdraw(&mut registry, id, 100, 1, 1).unwrap();
    assert_eq!(plan[1], LedgerOp::Credit { asset: Asset::X, amount: 110 });
    assert_eq!(plan[2], LedgerOp::Credit { asset: Asset::Y, amount: 90 });
    assert_eq!(registry.get(id).reserves, Reserves { reserve_x: 990, reserve_y: 819, lp_supply: 900 });
}
