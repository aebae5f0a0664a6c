use vstd::prelude::*;

verus! {

/// Every way in which a pool operation can fail.
#[derive(Debug, Clone, Copy, PartialEq, Eq, Structural)]
pub enum AmmError {
    /// A required amount is zero.
    InvalidAmount,
    /// The fee rate is not below 10000 basis points.
    InvalidFee,
    /// A computed amount violates the caller's bound.
    SlippageExceeded,
    /// The pool is locked.
    PoolLocked,
    /// An intermediate or final amount does not fit its integer type.
    ArithmeticOverflow,
    /// A divisor of the curve arithmetic is zero.
    DivisionByZero,
    /// The caller is not the pool's authority.
    Unauthorized,
    /// A pool with the same pair of mints and seed already exists.
    DuplicatePool,
    /// The ledger holds too little of an asset for a transfer.
    InsufficientFunds,
    /// The ledger holds too few pool shares for a burn.
    InsufficientShares,
}

} // verus!
