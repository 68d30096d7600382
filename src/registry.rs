//! The store of pool records, one per canonical pair.
use vstd::prelude::*;
use std::collections::HashMap;

use crate::pair::AssetPair;
use crate::pool::LiquidityPool;

verus! {

broadcast use vstd::std_specs::hash::group_hash_axioms;

/// The key under which the pool of `pair` is stored.
pub open spec fn pair_key(pair: AssetPair) -> u64 {
    (pair.asset_a as int * 0x1_0000_0000 + pair.asset_b as int) as u64
}

proof fn lemma_pair_key_injective(p: AssetPair, q: AssetPair)
    ensures
        pair_key(p) == pair_key(q) <==> p == q,
{
}

fn pair_key_of(pair: &AssetPair) -> (r: u64)
    ensures
        r == pair_key(*pair),
{
    pair.asset_a as u64 * 0x1_0000_0000u64 + pair.asset_b as u64
}

/// Pool records keyed by pair. Records are never deleted: a pool's LP
/// tokens stay outstanding (at least the locked minimum) for good.
pub struct PoolRegistry {
    pools: HashMap<u64, LiquidityPool>,
}

impl View for PoolRegistry {
    type V = Map<AssetPair, LiquidityPool>;

    closed spec fn view(&self) -> Map<AssetPair, LiquidityPool> {
        Map::new(
            |p: AssetPair| self.pools@.contains_key(pair_key(p)),
            |p: AssetPair| self.pools@[pair_key(p)],
        )
    }
}

impl PoolRegistry {
    /// A registry with no pools.
    pub fn new() -> (r: PoolRegistry)
        ensures
            r@ == Map::<AssetPair, LiquidityPool>::empty(),
    {
        let r = PoolRegistry { pools: HashMap::new() };
        assert(r@ =~= Map::<AssetPair, LiquidityPool>::empty());
        r
    }

    /// The record of `pair`, if there is one.
    pub fn get(&self, pair: &AssetPair) -> (r: Option<LiquidityPool>)
        ensures
            r == (if self@.contains_key(*pair) {
                Some(self@[*pair])
            } else {
                None
            }),
    {
        match self.pools.get(&pair_key_of(pair)) {
            Some(pool) => Some(*pool),
            None => None,
        }
    }

    /// Stores `pool` as the record of `pair`, replacing any earlier one.
    pub fn set(&mut self, pair: AssetPair, pool: LiquidityPool)
        ensures
            final(self)@ == old(self)@.insert(pair, pool),
    {
        let key = pair_key_of(&pair);
        self.pools.insert(key, pool);
        proof {
            assert forall|p: AssetPair| true implies #[trigger] pair_key(p) == key <==> p == pair by {
                lemma_pair_key_injective(p, pair);
            }
            assert(self@ =~= old(self)@.insert(pair, pool));
        }
    }
}

} // verus!
