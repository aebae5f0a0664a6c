//! Burning pool shares in exchange for a proportional part of both reserves.
use vstd::prelude::*;
use vstd::arithmetic::div_mod::{lemma_div_by_multiple, lemma_fundamental_div_mod, lemma_mod_bound};
use crate::curve::{lemma_scaled_down_le, proportional_result, withdraw_amounts, XYAmounts};
use crate::error::AmmError;
use crate::ledger::{Asset, LedgerOp};
use crate::state::{Pool, Reserves};

verus! {

/// What a withdrawal owes: the amounts paid out, or the error, checked in
/// order: the lock, a zero share amount, two zero minimums, the curve, the
/// caller's minimums, and the share supply that the burn draws on.
pub open spec fn withdraw_outcome(pool: Pool, lp_amount: u64, min_x: u64, min_y: u64) -> Result<XYAmounts, AmmError> {
    if pool.config.locked {
        Err(AmmError::PoolLocked)
    } else if lp_amount == 0 {
        Err(AmmError::InvalidAmount)
    } else if min_x == 0 && min_y == 0 {
        Err(AmmError::InvalidAmount)
    } else {
        match proportional_result(pool.reserves.reserve_x, pool.reserves.reserve_y, pool.reserves.lp_supply, lp_amount) {
            Err(e) => Err(e),
            Ok(a) => if min_x > a.x || min_y > a.y {
                Err(AmmError::SlippageExceeded)
            } else if lp_amount > pool.reserves.lp_supply {
                Err(AmmError::InsufficientShares)
            } else {
                Ok(a)
            },
        }
    }
}

/// The reserves once `amounts` are paid out and `lp_amount` shares burnt.
pub open spec fn reserves_after_withdraw(reserves: Reserves, amounts: XYAmounts, lp_amount: u64) -> Reserves {
    Reserves {
        reserve_x: (reserves.reserve_x - amounts.x) as u64,
        reserve_y: (reserves.reserve_y - amounts.y) as u64,
        lp_supply: (reserves.lp_supply - lp_amount) as u64,
    }
}

/// The ledger effects of a withdrawal, in order.
pub open spec fn withdraw_plan(amounts: XYAmounts, lp_amount: u64) -> Seq<LedgerOp> {
    seq![
        LedgerOp::BurnShares { amount: lp_amount },
        LedgerOp::Credit { asset: Asset::X, amount: amounts.x },
        LedgerOp::Credit { asset: Asset::Y, amount: amounts.y },
    ]
}

/// Burning all shares takes the whole reserve; burning fewer leaves some of it.
proof fn lemma_share_of_whole(l: int, r: int, s: int)
    requires
        0 < l <= s,
        0 < r,
    ensures
        l == s ==> l * r / s == r,
        l < s ==> l * r / s < r,
{
    if l == s {
        lemma_div_by_multiple(r, s);
        assert(s * r == r * s) by (nonlinear_arith);
    } else {
        lemma_fundamental_div_mod(l * r, s);
        lemma_mod_bound(l * r, s);
        let q = l * r / s;
        assert(l * r < s * r) by (nonlinear_arith)
            requires
                l < s,
                r > 0,
        ;
        assert(s * q < s * r);
        assert(q < r) by (nonlinear_arith)
            requires
                s * q < s * r,
                s > 0,
        ;
    }
}

/// A withdrawal from one pool.
#[derive(Debug, Clone, Copy, PartialEq, Eq, Structural)]
pub struct Withdraw {
    pub pool: Pool,
}

impl Withdraw {
    /// Burns `lp_amount` shares for at least `min_x` and `min_y`. On success
    /// returns the ledger effects and applies them to the reserves; on failure
    /// leaves the pool as it was.
    pub fn withdraw(&mut self, lp_amount: u64, min_x: u64, min_y: u64) -> (r: Result<Vec<LedgerOp>, AmmError>)
        ensures
            r is Ok <==> withdraw_outcome(old(self).pool, lp_amount, min_x, min_y) is Ok,
            r matches Err(e) ==> withdraw_outcome(old(self).pool, lp_amount, min_x, min_y)
                == Err::<XYAmounts, AmmError>(e) && *final(self) == *old(self),
            r matches Ok(plan) ==> {
                let a = withdraw_outcome(old(self).pool, lp_amount, min_x, min_y)->Ok_0;
                &&& plan@ == withdraw_plan(a, lp_amount)
                &&& a.x <= old(self).pool.reserves.reserve_x
                &&& a.y <= old(self).pool.reserves.reserve_y
                &&& final(self).pool.config == old(self).pool.config
                &&& final(self).pool.reserves == reserves_after_withdraw(old(self).pool.reserves, a, lp_amount)
            },
            r is Ok && old(self).pool.reserves.wf() ==> final(self).pool.reserves.wf(),
            old(self).pool.config.locked ==> r matches Err(AmmError::PoolLocked),
            !old(self).pool.config.locked && lp_amount == 0 ==> r matches Err(AmmError::InvalidAmount),
    {
        if self.pool.config.locked {
            return Err(AmmError::PoolLocked);
        }
        if lp_amount == 0 {
            return Err(AmmError::InvalidAmount);
        }
        if min_x == 0 && min_y == 0 {
            return Err(AmmError::InvalidAmount);
        }
        let reserves = self.pool.reserves;
        let amounts = match withdraw_amounts(reserves.reserve_x, reserves.reserve_y, reserves.lp_supply, lp_amount) {
            Ok(a) => a,
            Err(e) => return Err(e),
        };
        if min_x > amounts.x || min_y > amounts.y {
            return Err(AmmError::SlippageExceeded);
        }
        if lp_amount > reserves.lp_supply {
            return Err(AmmError::InsufficientShares);
        }
        proof {
            lemma_scaled_down_le(lp_amount as int, reserves.reserve_x as int, reserves.lp_supply as int);
            lemma_scaled_down_le(lp_amount as int, reserves.reserve_y as int, reserves.lp_supply as int);
            if reserves.wf() {
                lemma_share_of_whole(lp_amount as int, reserves.reserve_x as int, reserves.lp_supply as int);
                lemma_share_of_whole(lp_amount as int, reserves.reserve_y as int, reserves.lp_supply as int);
            }
        }
        self.pool.reserves = Reserves {
            reserve_x: reserves.reserve_x - amounts.x,
            reserve_y: reserves.reserve_y - amounts.y,
            lp_supply: reserves.lp_supply - lp_amount,
        };
        let mut plan: Vec<LedgerOp> = Vec::new();
        plan.push(LedgerOp::BurnShares { amount: lp_amount });
        plan.push(LedgerOp::Credit { asset: Asset::X, amount: amounts.x });
        plan.push(LedgerOp::Credit { asset: Asset::Y, amount: amounts.y });
        Ok(plan)
    }
}

} // verus!
