//! Depositing both assets in exchange for new pool shares.
use vstd::prelude::*;
use crate::curve::{deposit_amounts, proportional_result, XYAmounts};
use crate::error::AmmError;
use crate::ledger::{Asset, LedgerOp};
use crate::state::{Pool, Reserves};

verus! {

/// The amounts a deposit of `lp_amount` shares costs: the caller's maximums on
/// a virgin pool, else each reserve's proportional part.
pub open spec fn deposit_cost(reserves: Reserves, lp_amount: u64, max_x: u64, max_y: u64) -> Result<XYAmounts, AmmError> {
    if reserves.is_virgin() {
        Ok(XYAmounts { x: max_x, y: max_y })
    } else {
        proportional_result(reserves.reserve_x, reserves.reserve_y, reserves.lp_supply, lp_amount)
    }
}

/// What a deposit owes: the amounts paid in, or the error, checked in order:
/// the lock, a zero share amount, the curve, the caller's maximums, and the
/// room left in the reserves and the share supply.
pub open spec fn deposit_outcome(pool: Pool, lp_amount: u64, max_x: u64, max_y: u64) -> Result<XYAmounts, AmmError> {
    if pool.config.locked {
        Err(AmmError::PoolLocked)
    } else if lp_amount == 0 {
        Err(AmmError::InvalidAmount)
    } else {
        match deposit_cost(pool.reserves, lp_amount, max_x, max_y) {
            Err(e) => Err(e),
            Ok(a) => if a.x > max_x || a.y > max_y {
                Err(AmmError::SlippageExceeded)
            } else if pool.reserves.reserve_x + a.x > u64::MAX
                || pool.reserves.reserve_y + a.y > u64::MAX
                || pool.reserves.lp_supply + lp_amount > u64::MAX {
                Err(AmmError::ArithmeticOverflow)
            } else {
                Ok(a)
            },
        }
    }
}

/// The reserves once `amounts` are paid in and `lp_amount` shares issued.
pub open spec fn reserves_after_deposit(reserves: Reserves, amounts: XYAmounts, lp_amount: u64) -> Reserves {
    Reserves {
        reserve_x: (reserves.reserve_x + amounts.x) as u64,
        reserve_y: (reserves.reserve_y + amounts.y) as u64,
        lp_supply: (reserves.lp_supply + lp_amount) as u64,
    }
}

/// The ledger effects of a deposit, in order.
pub open spec fn deposit_plan(amounts: XYAmounts, lp_amount: u64) -> Seq<LedgerOp> {
    seq![
        LedgerOp::Debit { asset: Asset::X, amount: amounts.x },
        LedgerOp::Debit { asset: Asset::Y, amount: amounts.y },
        LedgerOp::MintShares { amount: lp_amount },
    ]
}

/// A deposit into one pool.
#[derive(Debug, Clone, Copy, PartialEq, Eq, Structural)]
pub struct Deposit {
    pub pool: Pool,
}

impl Deposit {
    /// Deposits for `lp_amount` new shares, paying at most `max_x` and `max_y`.
    /// On success returns the ledger effects and applies them to the reserves;
    /// on failure leaves the pool as it was.
    pub fn deposit(&mut self, lp_amount: u64, max_x: u64, max_y: u64) -> (r: Result<Vec<LedgerOp>, AmmError>)
        ensures
            r is Ok <==> deposit_outcome(old(self).pool, lp_amount, max_x, max_y) is Ok,
            r matches Err(e) ==> deposit_outcome(old(self).pool, lp_amount, max_x, max_y)
                == Err::<XYAmounts, AmmError>(e) && *final(self) == *old(self),
            r matches Ok(plan) ==> {
                let a = deposit_outcome(old(self).pool, lp_amount, max_x, max_y)->Ok_0;
                &&& plan@ == deposit_plan(a, lp_amount)
                &&& final(self).pool.config == old(self).pool.config
                &&& final(self).pool.reserves == reserves_after_deposit(old(self).pool.reserves, a, lp_amount)
            },
            r is Ok && old(self).pool.reserves.wf()
                && (!old(self).pool.reserves.is_virgin() || (max_x > 0 && max_y > 0))
                ==> final(self).pool.reserves.wf(),
            old(self).pool.config.locked ==> r matches Err(AmmError::PoolLocked),
            !old(self).pool.config.locked && lp_amount == 0 ==> r matches Err(AmmError::InvalidAmount),
            !old(self).pool.config.locked && lp_amount != 0 && old(self).pool.reserves.is_virgin() ==> {
                &&& r matches Ok(plan)
                &&& plan@ == deposit_plan(XYAmounts { x: max_x, y: max_y }, lp_amount)
                &&& final(self).pool.reserves == (Reserves { reserve_x: max_x, reserve_y: max_y, lp_supply: lp_amount })
            },
    {
        if self.pool.config.locked {
            return Err(AmmError::PoolLocked);
        }
        if lp_amount == 0 {
            return Err(AmmError::InvalidAmount);
        }
        let reserves = self.pool.reserves;
        let amounts = if reserves.lp_supply == 0 && reserves.reserve_x == 0 && reserves.reserve_y == 0 {
            XYAmounts { x: max_x, y: max_y }
        } else {
            match deposit_amounts(reserves.reserve_x, reserves.reserve_y, reserves.lp_supply, lp_amount) {
                Ok(a) => a,
                Err(e) => return Err(e),
            }
        };
        if amounts.x > max_x || amounts.y > max_y {
            return Err(AmmError::SlippageExceeded);
        }
        if reserves.reserve_x > u64::MAX - amounts.x || reserves.reserve_y > u64::MAX - amounts.y
            || reserves.lp_supply > u64::MAX - lp_amount {
            return Err(AmmError::ArithmeticOverflow);
        }
        self.pool.reserves = Reserves {
            reserve_x: reserves.reserve_x + amounts.x,
            reserve_y: reserves.reserve_y + amounts.y,
            lp_supply: reserves.lp_supply + lp_amount,
        };
        let mut plan: Vec<LedgerOp> = Vec::new();
        plan.push(LedgerOp::Debit { asset: Asset::X, amount: amounts.x });
        plan.push(LedgerOp::Debit { asset: Asset::Y, amount: amounts.y });
        plan.push(LedgerOp::MintShares { amount: lp_amount });
        Ok(plan)
    }
}

} // verus!
