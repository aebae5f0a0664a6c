//! Creating pools, and the registry that keeps them apart by mint pair and seed.
use vstd::prelude::*;
use crate::error::AmmError;
use crate::state::{Address, Config, Pool, Reserves};

verus! {

/// Every pool created so far, found by its index (its pool id).
pub struct PoolRegistry {
    pools: Vec<Pool>,
}

impl View for PoolRegistry {
    type V = Seq<Pool>;

    closed spec fn view(&self) -> Seq<Pool> {
        self.pools@
    }
}

/// No two pools share a mint pair and seed, and every fee is below one whole.
pub open spec fn registry_wf(pools: Seq<Pool>) -> bool {
    &&& forall|i: int| 0 <= i < pools.len() ==> (#[trigger] pools[i]).config.wf()
    &&& forall|i: int, j: int|
        0 <= i < pools.len() && 0 <= j < pools.len() && i != j
            ==> (#[trigger] pools[i]).config.key() != (#[trigger] pools[j]).config.key()
}

/// Whether some pool has the given mint pair and seed.
pub open spec fn key_taken(pools: Seq<Pool>, key: (Address, Address, u64)) -> bool {
    exists|i: int| 0 <= i < pools.len() && (#[trigger] pools[i]).config.key() == key
}

impl PoolRegistry {
    pub open spec fn wf(&self) -> bool {
        registry_wf(self@)
    }

    /// A registry without pools.
    pub fn new() -> (r: PoolRegistry)
        ensures
            r@ == Seq::<Pool>::empty(),
            r.wf(),
    {
        PoolRegistry { pools: Vec::new() }
    }

    /// The number of pools.
    pub fn len(&self) -> (r: usize)
        ensures
            r == self@.len(),
    {
        self.pools.len()
    }

    /// The pool with id `id`.
    pub fn get(&self, id: usize) -> (r: Pool)
        requires
            id < self@.len(),
        ensures
            r == self@[id as int],
    {
        self.pools[id]
    }

    /// Replaces the pool with id `id` by one with the same mint pair and seed.
    pub(crate) fn put(&mut self, id: usize, pool: Pool)
        requires
            old(self).wf(),
            id < old(self)@.len(),
            pool.config.key() == old(self)@[id as int].config.key(),
            pool.config.wf(),
        ensures
            final(self)@ == old(self)@.update(id as int, pool),
            final(self).wf(),
    {
        self.pools.set(id, pool);
        proof {
            let s = self@;
            let o = old(self)@;
            assert forall|i: int, j: int|
                0 <= i < s.len() && 0 <= j < s.len() && i != j
                    implies (#[trigger] s[i]).config.key() != (#[trigger] s[j]).config.key() by {
                assert(s[i].config.key() == o[i].config.key());
                assert(s[j].config.key() == o[j].config.key());
            }
        }
    }
}

/// The pool a creation makes: unlocked, with empty reserves.
pub open spec fn new_pool(mint_x: Address, mint_y: Address, seed: u64, authority: Option<Address>, fee: u16) -> Pool {
    Pool {
        config: Config { seed, authority, mint_x, mint_y, fee, locked: false },
        reserves: Reserves { reserve_x: 0, reserve_y: 0, lp_supply: 0 },
    }
}

/// The creation of a pool for one pair of mints.
#[derive(Debug, Clone, Copy, PartialEq, Eq, Structural)]
pub struct Initialize {
    pub mint_x: Address,
    pub mint_y: Address,
}

impl Initialize {
    /// Creates an unlocked, empty pool for this mint pair under `seed` and
    /// returns its id. Fails with `InvalidFee` where `fee` is not below 10000,
    /// and then with `DuplicatePool` where the mint pair and seed are taken.
    pub fn init(&self, registry: &mut PoolRegistry, seed: u64, authority: Option<Address>, fee: u16) -> (r: Result<usize, AmmError>)
        requires
            old(registry).wf(),
        ensures
            final(registry).wf(),
            fee >= 10000 ==> r == Err::<usize, AmmError>(AmmError::InvalidFee),
            fee < 10000 && key_taken(old(registry)@, (self.mint_x, self.mint_y, seed))
                ==> r == Err::<usize, AmmError>(AmmError::DuplicatePool),
            fee < 10000 && !key_taken(old(registry)@, (self.mint_x, self.mint_y, seed)) ==> r == Ok::<usize, AmmError>(
                old(registry)@.len() as usize),
            r is Err ==> final(registry)@ == old(registry)@,
            r is Ok ==> final(registry)@ == old(registry)@.push(new_pool(self.mint_x, self.mint_y, seed, authority, fee)),
    {
        if fee >= 10000 {
            return Err(AmmError::InvalidFee);
        }
        let n = registry.pools.len();
        let mut i: usize = 0;
        while i < n
            invariant
                n == registry.pools@.len(),
                registry.pools@ == old(registry)@,
                old(registry).wf(),
                fee < 10000,
                0 <= i <= n,
                forall|k: int| 0 <= k < i ==> (#[trigger] registry.pools@[k]).config.key() != (self.mint_x, self.mint_y, seed),
            decreases n - i,
        {
            let c = registry.pools[i].config;
            if c.mint_x == self.mint_x && c.mint_y == self.mint_y && c.seed == seed {
                return Err(AmmError::DuplicatePool);
            }
            i = i + 1;
        }
        let pool = Pool {
            config: Config { seed, authority, mint_x: self.mint_x, mint_y: self.mint_y, fee, locked: false },
            reserves: Reserves { reserve_x: 0, reserve_y: 0, lp_supply: 0 },
        };
        registry.pools.push(pool);
        proof {
            let s = registry@;
            let o = old(registry)@;
            assert(s[n as int] == pool);
            assert forall|a: int, b: int|
                0 <= a < s.len() && 0 <= b < s.len() && a != b
                    implies (#[trigger] s[a]).config.key() != (#[trigger] s[b]).config.key() by {
                if a < n && b < n {
                    assert(s[a] == o[a] && s[b] == o[b]);
                } else if a < n {
                    assert(s[a] == o[a]);
                } else {
                    assert(s[b] == o[b]);
                }
            }
            assert forall|a: int| 0 <= a < s.len() implies (#[trigger] s[a]).config.wf() by {
                if a < n {
                    assert(s[a] == o[a]);
                }
            }
        }
        Ok(n)
    }
}

} // verus!
