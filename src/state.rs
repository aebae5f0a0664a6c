//! The per-pool records: the configuration and the reserve snapshot.
use vstd::prelude::*;
use crate::error::AmmError;

verus! {

/// A 32-byte identity, of a mint (an asset) or of a principal, read big-endian
/// as two 128-bit halves.
#[derive(Debug, Clone, Copy, PartialEq, Eq, Structural)]
pub struct Address {
    pub hi: u128,
    pub lo: u128,
}

/// The fixed description of a pool.
#[derive(Debug, Clone, Copy, PartialEq, Eq, Structural)]
pub struct Config {
    /// Caller-chosen discriminator of pools over the same pair of mints.
    pub seed: u64,
    /// The principal who may lock and unlock the pool; with none, nobody may.
    pub authority: Option<Address>,
    pub mint_x: Address,
    pub mint_y: Address,
    /// The swap fee in basis points.
    pub fee: u16,
    /// While set, no deposit, withdrawal or swap is accepted.
    pub locked: bool,
}

impl Config {
    /// The fee is below one whole.
    pub open spec fn wf(&self) -> bool {
        self.fee < 10000
    }

    /// The identity of the pool among all pools.
    pub open spec fn key(&self) -> (Address, Address, u64) {
        (self.mint_x, self.mint_y, self.seed)
    }

    /// Sets the lock flag, where `caller` is the pool's authority; fails with
    /// `Unauthorized` otherwise, and always where the pool has no authority.
    pub fn set_locked(&mut self, locked: bool, caller: Address) -> (r: Result<(), AmmError>)
        ensures
            r is Ok <==> old(self).authority == Some(caller),
            r is Err ==> r == Err::<(), AmmError>(AmmError::Unauthorized) && *final(self) == *old(self),
            r is Ok ==> *final(self) == (Config { locked, ..*old(self) }),
    {
        match self.authority {
            Some(a) => {
                if a == caller {
                    self.locked = locked;
                    Ok(())
                } else {
                    Err(AmmError::Unauthorized)
                }
            },
            None => Err(AmmError::Unauthorized),
        }
    }
}

/// The amounts a pool holds: the two vault balances and the number of
/// outstanding pool shares.
#[derive(Debug, Clone, Copy, PartialEq, Eq, Structural)]
pub struct Reserves {
    pub reserve_x: u64,
    pub reserve_y: u64,
    pub lp_supply: u64,
}

impl Reserves {
    /// Shares are outstanding exactly when both vaults hold something.
    pub open spec fn wf(&self) -> bool {
        if self.lp_supply == 0 {
            self.reserve_x == 0 && self.reserve_y == 0
        } else {
            self.reserve_x > 0 && self.reserve_y > 0
        }
    }

    /// No shares and nothing in either vault: the first deposit sets the price.
    pub open spec fn is_virgin(&self) -> bool {
        self.lp_supply == 0 && self.reserve_x == 0 && self.reserve_y == 0
    }
}

/// A pool: its configuration and its reserves.
#[derive(Debug, Clone, Copy, PartialEq, Eq, Structural)]
pub struct Pool {
    pub config: Config,
    pub reserves: Reserves,
}

} // verus!
