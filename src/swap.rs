//! Swapping one asset for the other along the constant-product curve.
use vstd::prelude::*;
use crate::curve::{swap_output, swap_result};
use crate::error::AmmError;
use crate::ledger::{Asset, LedgerOp};
use crate::state::{Pool, Reserves};

verus! {

/// The reserve the input goes into, for a swap from X when `is_x`.
pub open spec fn reserve_in_of(reserves: Reserves, is_x: bool) -> u64 {
    if is_x { reserves.reserve_x } else { reserves.reserve_y }
}

/// The reserve the output comes from, for a swap from X when `is_x`.
pub open spec fn reserve_out_of(reserves: Reserves, is_x: bool) -> u64 {
    if is_x { reserves.reserve_y } else { reserves.reserve_x }
}

/// What a swap owes: the amount paid out, or the error, checked in order: the
/// lock, a zero input, the curve, the caller's minimum, and the room left in
/// the input reserve.
pub open spec fn swap_outcome(pool: Pool, is_x: bool, amount_in: u64, min_out: u64) -> Result<u64, AmmError> {
    if pool.config.locked {
        Err(AmmError::PoolLocked)
    } else if amount_in == 0 {
        Err(AmmError::InvalidAmount)
    } else {
        let reserve_in = reserve_in_of(pool.reserves, is_x);
        let reserve_out = reserve_out_of(pool.reserves, is_x);
        match swap_result(reserve_in, reserve_out, amount_in, pool.config.fee) {
            Err(e) => Err(e),
            Ok(out) => if out < min_out {
                Err(AmmError::SlippageExceeded)
            } else if reserve_in + amount_in > u64::MAX {
                Err(AmmError::ArithmeticOverflow)
            } else {
                Ok(out)
            },
        }
    }
}

/// The reserves once `amount_in` is paid in and `amount_out` paid out.
pub open spec fn reserves_after_swap(reserves: Reserves, is_x: bool, amount_in: u64, amount_out: u64) -> Reserves {
    if is_x {
        Reserves {
            reserve_x: (reserves.reserve_x + amount_in) as u64,
            reserve_y: (reserves.reserve_y - amount_out) as u64,
            lp_supply: reserves.lp_supply,
        }
    } else {
        Reserves {
            reserve_x: (reserves.reserve_x - amount_out) as u64,
            reserve_y: (reserves.reserve_y + amount_in) as u64,
            lp_supply: reserves.lp_supply,
        }
    }
}

/// The asset a swap takes in, for a swap from X when `is_x`.
pub open spec fn asset_in(is_x: bool) -> Asset {
    if is_x { Asset::X } else { Asset::Y }
}

/// The asset a swap pays out, for a swap from X when `is_x`.
pub open spec fn asset_out(is_x: bool) -> Asset {
    if is_x { Asset::Y } else { Asset::X }
}

/// The ledger effects of a swap, in order.
pub open spec fn swap_plan(is_x: bool, amount_in: u64, amount_out: u64) -> Seq<LedgerOp> {
    seq![
        LedgerOp::Debit { asset: asset_in(is_x), amount: amount_in },
        LedgerOp::Credit { asset: asset_out(is_x), amount: amount_out },
    ]
}

/// A swap against one pool.
#[derive(Debug, Clone, Copy, PartialEq, Eq, Structural)]
pub struct Swap {
    pub pool: Pool,
}

impl Swap {
    /// Swaps `amount_in` of X (when `is_x`) or of Y for at least `min_out` of
    /// the other asset. On success returns the ledger effects and applies them
    /// to the reserves; on failure leaves the pool as it was.
    pub fn swap(&mut self, is_x: bool, amount_in: u64, min_out: u64) -> (r: Result<Vec<LedgerOp>, AmmError>)
        requires
            old(self).pool.config.wf(),
        ensures
            r is Ok <==> swap_outcome(old(self).pool, is_x, amount_in, min_out) is Ok,
            r matches Err(e) ==> swap_outcome(old(self).pool, is_x, amount_in, min_out)
                == Err::<u64, AmmError>(e) && *final(self) == *old(self),
            r matches Ok(plan) ==> {
                let out = swap_outcome(old(self).pool, is_x, amount_in, min_out)->Ok_0;
                &&& plan@ == swap_plan(is_x, amount_in, out)
                &&& out <= reserve_out_of(old(self).pool.reserves, is_x)
                &&& final(self).pool.config == old(self).pool.config
                &&& final(self).pool.reserves == reserves_after_swap(old(self).pool.reserves, is_x, amount_in, out)
            },
            old(self).pool.config.locked ==> r matches Err(AmmError::PoolLocked),
            !old(self).pool.config.locked && amount_in == 0 ==> r matches Err(AmmError::InvalidAmount),
    {
        if self.pool.config.locked {
            return Err(AmmError::PoolLocked);
        }
        if amount_in == 0 {
            return Err(AmmError::InvalidAmount);
        }
        let reserves = self.pool.reserves;
        let (reserve_in, reserve_out) = if is_x {
            (reserves.reserve_x, reserves.reserve_y)
        } else {
            (reserves.reserve_y, reserves.reserve_x)
        };
        let amount_out = match swap_output(reserve_in, reserve_out, amount_in, self.pool.config.fee) {
            Ok(out) => out,
            Err(e) => return Err(e),
        };
        if amount_out < min_out {
            return Err(AmmError::SlippageExceeded);
        }
        if reserve_in > u64::MAX - amount_in {
            return Err(AmmError::ArithmeticOverflow);
        }
        self.pool.reserves = if is_x {
            Reserves {
                reserve_x: reserve_in + amount_in,
                reserve_y: reserve_out - amount_out,
                lp_supply: reserves.lp_supply,
            }
        } else {
            Reserves {
                reserve_x: reserve_out - amount_out,
                reserve_y: reserve_in + amount_in,
                lp_supply: reserves.lp_supply,
            }
        };
        let mut plan: Vec<LedgerOp> = Vec::new();
        if is_x {
            plan.push(LedgerOp::Debit { asset: Asset::X, amount: amount_in });
            plan.push(LedgerOp::Credit { asset: Asset::Y, amount: amount_out });
        } else {
            plan.push(LedgerOp::Debit { asset: Asset::Y, amount: amount_in });
            plan.push(LedgerOp::Credit { asset: Asset::X, amount: amount_out });
        }
        Ok(plan)
    }
}

} // verus!
