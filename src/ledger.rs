//! The effects an operation asks of the ledger, in the order they are applied.
//! The ledger applies all of one operation's effects together or none of them.
use vstd::prelude::*;

verus! {

/// One of the pool's two assets.
#[derive(Debug, Clone, Copy, PartialEq, Eq, Structural)]
pub enum Asset {
    X,
    Y,
}

/// One balance change between the caller and the pool.
#[derive(Debug, Clone, Copy, PartialEq, Eq, Structural)]
pub enum LedgerOp {
    /// Move `amount` of `asset` from the caller into the pool's vault.
    Debit { asset: Asset, amount: u64 },
    /// Move `amount` of `asset` from the pool's vault to the caller.
    Credit { asset: Asset, amount: u64 },
    /// Issue `amount` new pool shares to the caller.
    MintShares { amount: u64 },
    /// Destroy `amount` of the caller's pool shares.
    BurnShares { amount: u64 },
}

} // verus!
