//! A two-asset constant-product market maker: the curve arithmetic, the pool
//! lifecycle and the coordination of deposits, withdrawals and swaps.
//!
//! Operations do not move value themselves: each returns the ordered list of
//! ledger effects it needs, and the ledger applies all of them or none.
use vstd::prelude::*;

pub mod error;
pub mod curve;
pub mod state;
pub mod ledger;
pub mod deposit;
pub mod withdraw;
pub mod swap;
pub mod initialize;
pub mod laws;

use crate::deposit::{deposit_outcome, deposit_plan, reserves_after_deposit, Deposit};
use crate::error::AmmError;
use crate::initialize::{key_taken, new_pool, Initialize, PoolRegistry};
use crate::ledger::LedgerOp;
use crate::state::{Address, Config, Pool};
use crate::swap::{reserves_after_swap, swap_outcome, swap_plan, Swap};
use crate::withdraw::{reserves_after_withdraw, withdraw_outcome, withdraw_plan, Withdraw};

verus! {

/// Creates a pool for the mint pair of `accounts` under `seed`; see
/// [`Initialize::init`].
pub fn initialize(
    registry: &mut PoolRegistry,
    accounts: &Initialize,
    seed: u64,
    authority: Option<Address>,
    fee: u16,
) -> (r: Result<usize, AmmError>)
    requires
        old(registry).wf(),
    ensures
        final(registry).wf(),
        fee >= 10000 ==> r == Err::<usize, AmmError>(AmmError::InvalidFee),
        fee < 10000 && key_taken(old(registry)@, (accounts.mint_x, accounts.mint_y, seed))
            ==> r == Err::<usize, AmmError>(AmmError::DuplicatePool),
        fee < 10000 && !key_taken(old(registry)@, (accounts.mint_x, accounts.mint_y, seed))
            ==> r == Ok::<usize, AmmError>(old(registry)@.len() as usize),
        r is Err ==> final(registry)@ == old(registry)@,
        r is Ok ==> final(registry)@ == old(registry)@.push(
            new_pool(accounts.mint_x, accounts.mint_y, seed, authority, fee),
        ),
{
    accounts.init(registry, seed, authority, fee)
}

/// Deposits into the pool `pool_id` for `lp_amount` new shares, paying at most
/// `max_x` and `max_y`; see [`Deposit::deposit`].
pub fn deposit(registry: &mut PoolRegistry, pool_id: usize, lp_amount: u64, max_x: u64, max_y: u64) -> (r: Result<
    Vec<LedgerOp>,
    AmmError,
>)
    requires
        old(registry).wf(),
        pool_id < old(registry)@.len(),
    ensures
        final(registry).wf(),
        r is Ok <==> deposit_outcome(old(registry)@[pool_id as int], lp_amount, max_x, max_y) is Ok,
        r matches Err(e) ==> deposit_outcome(old(registry)@[pool_id as int], lp_amount, max_x, max_y)
            == Err::<crate::curve::XYAmounts, AmmError>(e) && final(registry)@ == old(registry)@,
        r matches Ok(plan) ==> {
            let p = old(registry)@[pool_id as int];
            let a = deposit_outcome(p, lp_amount, max_x, max_y)->Ok_0;
            &&& plan@ == deposit_plan(a, lp_amount)
            &&& final(registry)@ == old(registry)@.update(
                pool_id as int,
                Pool { reserves: reserves_after_deposit(p.reserves, a, lp_amount), ..p },
            )
        },
{
    let mut op = Deposit { pool: registry.get(pool_id) };
    let r = op.deposit(lp_amount, max_x, max_y);
    if r.is_ok() {
        registry.put(pool_id, op.pool);
    }
    r
}

/// Withdraws from the pool `pool_id` by burning `lp_amount` shares for at
/// least `min_x` and `min_y`; see [`Withdraw::withdraw`].
pub fn withdraw(registry: &mut PoolRegistry, pool_id: usize, lp_amount: u64, min_x: u64, min_y: u64) -> (r: Result<
    Vec<LedgerOp>,
    AmmError,
>)
    requires
        old(registry).wf(),
        pool_id < old(registry)@.len(),
    ensures
        final(registry).wf(),
        r is Ok <==> withdraw_outcome(old(registry)@[pool_id as int], lp_amount, min_x, min_y) is Ok,
        r matches Err(e) ==> withdraw_outcome(old(registry)@[pool_id as int], lp_amount, min_x, min_y)
            == Err::<crate::curve::XYAmounts, AmmError>(e) && final(registry)@ == old(registry)@,
        r matches Ok(plan) ==> {
            let p = old(registry)@[pool_id as int];
            let a = withdraw_outcome(p, lp_amount, min_x, min_y)->Ok_0;
            &&& plan@ == withdraw_plan(a, lp_amount)
            &&& final(registry)@ == old(registry)@.update(
                pool_id as int,
                Pool { reserves: reserves_after_withdraw(p.reserves, a, lp_amount), ..p },
            )
        },
{
    let mut op = Withdraw { pool: registry.get(pool_id) };
    let r = op.withdraw(lp_amount, min_x, min_y);
    if r.is_ok() {
        registry.put(pool_id, op.pool);
    }
    r
}

/// Swaps `amount_in` of X (when `is_x`) or of Y in the pool `pool_id` for at
/// least `min_out` of the other asset; see [`Swap::swap`].
pub fn swap(registry: &mut PoolRegistry, pool_id: usize, is_x: bool, amount_in: u64, min_out: u64) -> (r: Result<
    Vec<LedgerOp>,
    AmmError,
>)
    requires
        old(registry).wf(),
        pool_id < old(registry)@.len(),
    ensures
        final(registry).wf(),
        r is Ok <==> swap_outcome(old(registry)@[pool_id as int], is_x, amount_in, min_out) is Ok,
        r matches Err(e) ==> swap_outcome(old(registry)@[pool_id as int], is_x, amount_in, min_out)
            == Err::<u64, AmmError>(e) && final(registry)@ == old(registry)@,
        r matches Ok(plan) ==> {
            let p = old(registry)@[pool_id as int];
            let out = swap_outcome(p, is_x, amount_in, min_out)->Ok_0;
            &&& plan@ == swap_plan(is_x, amount_in, out)
            &&& final(registry)@ == old(registry)@.update(
                pool_id as int,
                Pool { reserves: reserves_after_swap(p.reserves, is_x, amount_in, out), ..p },
            )
        },
{
    let mut op = Swap { pool: registry.get(pool_id) };
    let r = op.swap(is_x, amount_in, min_out);
    if r.is_ok() {
        registry.put(pool_id, op.pool);
    }
    r
}

/// Locks or unlocks the pool `pool_id`, where `caller` is its authority; see
/// [`Config::set_locked`].
pub fn set_locked(registry: &mut PoolRegistry, pool_id: usize, locked: bool, caller: Address) -> (r: Result<(), AmmError>)
    requires
        old(registry).wf(),
        pool_id < old(registry)@.len(),
    ensures
        final(registry).wf(),
        r is Ok <==> old(registry)@[pool_id as int].config.authority == Some(caller),
        r is Err ==> r == Err::<(), AmmError>(AmmError::Unauthorized) && final(registry)@ == old(registry)@,
        r is Ok ==> {
            let p = old(registry)@[pool_id as int];
            final(registry)@ == old(registry)@.update(pool_id as int, Pool { config: Config { locked, ..p.config }, ..p })
        },
{
    let mut pool = registry.get(pool_id);
    let r = pool.config.set_locked(locked, caller);
    if r.is_ok() {
        registry.put(pool_id, pool);
    }
    r
}

} // verus!
