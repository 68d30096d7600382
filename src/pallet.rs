//! The exchange: its public operations on pools, and the events they emit.
//!
//! Every check an operation makes comes before its first change, so a
//! refused operation changes nothing. Once the checks pass, only the asset
//! ledger can still refuse; the pool records and events are then left as
//! they were, and undoing the ledger steps taken before the refusal is the
//! host's part, as for any failed transaction.
use vstd::prelude::*;

use crate::arith::{floor_sqrt, lemma_floor_sqrt, perbill_from_rational, perbill_parts_spec};
use crate::error::Error;
use crate::ledger::{lemma_minted_effect, lemma_transferred_effect, AssetLedger, LedgerModel};
use crate::pair::{canonical, AssetPair};
use crate::pool::LiquidityPool;
use crate::pricing::{
    calculate_liquidity, minted_liquidity, lemma_deposit_withdraw_round_trip, lemma_first_deposit, swap_output,
    withdrawal, MIN_LIQUIDITY,
};
use crate::registry::PoolRegistry;
use crate::{AccountId, AssetId, Balance};

verus! {

/// The smallest balance an account keeps of a newly created LP asset.
pub const LP_MIN_BALANCE: Balance = 1;

/// What an operation of the exchange did.
#[derive(Clone, Copy, Debug, PartialEq, Eq, Structural)]
pub enum Event {
    /// A pool was created: its LP asset, then the pair's lower and higher asset.
    LiquidityPoolCreated(AssetId, AssetId, AssetId),
    /// Liquidity was added: the pair, then the amounts of its lower and higher asset.
    LiquidityAdded(AssetId, AssetId, Balance, Balance),
    /// Liquidity was removed: the pair, then the LP tokens burnt.
    LiquidityRemoved(AssetId, AssetId, Balance),
    /// A swap went through: the pair, then the amount paid in.
    Swapped(AssetId, AssetId, Balance),
}

/// The amounts of a deposit in the pair's canonical order.
pub open spec fn ordered_amounts(
    asset_a: AssetId,
    asset_b: AssetId,
    amount_a: Balance,
    amount_b: Balance,
) -> (Balance, Balance) {
    if asset_a <= asset_b {
        (amount_a, amount_b)
    } else {
        (amount_b, amount_a)
    }
}

/// The two assets are registered and distinct, and the pair has a pool.
pub open spec fn pair_rejection(
    pools: Map<AssetPair, LiquidityPool>,
    ledger: LedgerModel,
    asset_a: AssetId,
    asset_b: AssetId,
) -> Option<Error> {
    if !ledger.has_asset(asset_a) || !ledger.has_asset(asset_b) {
        Some(Error::UnknownAssetId)
    } else if asset_a == asset_b {
        Some(Error::IdenticalAssets)
    } else if !pools.contains_key(canonical(asset_a, asset_b)) {
        Some(Error::LiquidityPoolDoesNotExist)
    } else {
        None
    }
}

/// The exchange: the pool records, the vault account that holds every
/// pool's assets, and the events emitted so far.
pub struct Pallet {
    pub pools: PoolRegistry,
    pub vault: AccountId,
    pub events: Vec<Event>,
}

impl Pallet {
    /// Every record is stored under its pair in canonical order, of two
    /// distinct assets; its vault is the exchange's vault, and its LP asset is
    /// neither of the pair's assets.
    pub open spec fn wf(self) -> bool {
        forall|pair: AssetPair| #[trigger]
            self.pools@.contains_key(pair) ==> {
                &&& pair.asset_a < pair.asset_b
                &&& self.pools@[pair].manager == self.vault
                &&& self.pools@[pair].id != pair.asset_a
                &&& self.pools@[pair].id != pair.asset_b
            }
    }

    /// The pool a mint creates for a pair that has none.
    pub open spec fn new_pool(self, lp_asset_id: AssetId) -> LiquidityPool {
        LiquidityPool { id: lp_asset_id, manager: self.vault, asset_a_balance: 0, asset_b_balance: 0 }
    }

    /// Why a mint is refused, if it is.
    pub open spec fn mint_rejection(
        self,
        ledger: LedgerModel,
        lp_asset_id: AssetId,
        asset_a: AssetId,
        asset_b: AssetId,
        amount_a: Balance,
        amount_b: Balance,
    ) -> Option<Error> {
        let pair = canonical(asset_a, asset_b);
        let (amount_lo, amount_hi) = ordered_amounts(asset_a, asset_b, amount_a, amount_b);
        if !ledger.has_asset(asset_a) || !ledger.has_asset(asset_b) {
            Some(Error::UnknownAssetId)
        } else if asset_a == asset_b {
            Some(Error::IdenticalAssets)
        } else if amount_a == 0 || amount_b == 0 {
            Some(Error::InsufficientInputAmount)
        } else if self.pools@.contains_key(pair) {
            self.pools@[pair].deposit_rejection(ledger, amount_lo, amount_hi)
        } else if ledger.has_asset(lp_asset_id) {
            Some(Error::AssetIdExists)
        } else {
            self.new_pool(lp_asset_id).deposit_rejection(
                ledger.created(lp_asset_id, self.vault, LP_MIN_BALANCE),
                amount_lo,
                amount_hi,
            )
        }
    }

    /// The pool record a mint deposits into: the pair's own, or a new one.
    pub open spec fn mint_target(self, lp_asset_id: AssetId, asset_a: AssetId, asset_b: AssetId) -> LiquidityPool {
        let pair = canonical(asset_a, asset_b);
        if self.pools@.contains_key(pair) {
            self.pools@[pair]
        } else {
            self.new_pool(lp_asset_id)
        }
    }

    /// The pool record a successful mint leaves.
    pub open spec fn minted_pool(
        self,
        lp_asset_id: AssetId,
        asset_a: AssetId,
        asset_b: AssetId,
        amount_a: Balance,
        amount_b: Balance,
    ) -> LiquidityPool {
        let pool = self.mint_target(lp_asset_id, asset_a, asset_b);
        let (amount_lo, amount_hi) = ordered_amounts(asset_a, asset_b, amount_a, amount_b);
        pool.with_reserves(
            (pool.asset_a_balance + amount_lo) as Balance,
            (pool.asset_b_balance + amount_hi) as Balance,
        )
    }

    /// The ledger a successful mint leaves: the LP asset created if the pool
    /// is new, then the deposit.
    pub open spec fn minted_ledger(
        self,
        ledger: LedgerModel,
        who: AccountId,
        lp_asset_id: AssetId,
        asset_a: AssetId,
        asset_b: AssetId,
        amount_a: Balance,
        amount_b: Balance,
    ) -> LedgerModel {
        let pair = canonical(asset_a, asset_b);
        let pool = self.mint_target(lp_asset_id, asset_a, asset_b);
        let (amount_lo, amount_hi) = ordered_amounts(asset_a, asset_b, amount_a, amount_b);
        let start = if self.pools@.contains_key(pair) {
            ledger
        } else {
            ledger.created(lp_asset_id, self.vault, LP_MIN_BALANCE)
        };
        pool.deposited(start, pair, amount_lo, amount_hi, who)
    }

    /// The events a successful mint emits.
    pub open spec fn mint_events(
        self,
        lp_asset_id: AssetId,
        asset_a: AssetId,
        asset_b: AssetId,
        amount_a: Balance,
        amount_b: Balance,
    ) -> Seq<Event> {
        let pair = canonical(asset_a, asset_b);
        let (amount_lo, amount_hi) = ordered_amounts(asset_a, asset_b, amount_a, amount_b);
        let added = Event::LiquidityAdded(pair.asset_a, pair.asset_b, amount_lo, amount_hi);
        if self.pools@.contains_key(pair) {
            seq![added]
        } else {
            seq![Event::LiquidityPoolCreated(lp_asset_id, pair.asset_a, pair.asset_b), added]
        }
    }

    /// Why a burn is refused, if it is.
    pub open spec fn burn_rejection(
        self,
        ledger: LedgerModel,
        who: AccountId,
        asset_a: AssetId,
        asset_b: AssetId,
        token_amount: Balance,
    ) -> Option<Error> {
        let rejection = pair_rejection(self.pools@, ledger, asset_a, asset_b);
        if rejection is Some {
            rejection
        } else {
            self.pools@[canonical(asset_a, asset_b)].withdraw_rejection(ledger, token_amount, who)
        }
    }

    /// Why a swap is refused, if it is.
    pub open spec fn swap_rejection(
        self,
        ledger: LedgerModel,
        asset_in: AssetId,
        asset_out: AssetId,
        amount_in: Balance,
    ) -> Option<Error> {
        let rejection = pair_rejection(self.pools@, ledger, asset_in, asset_out);
        let pair = canonical(asset_in, asset_out);
        if rejection is Some {
            rejection
        } else {
            self.pools@[pair].swap_rejection(pair, asset_out, amount_in)
        }
    }

    /// The reserves of `token_a` and `token_b` in their pool.
    pub open spec fn reserves_of(self, token_a: AssetId, token_b: AssetId) -> (Balance, Balance) {
        let pair = canonical(token_a, token_b);
        let pool = self.pools@[pair];
        if token_a == pair.asset_a {
            (pool.asset_a_balance, pool.asset_b_balance)
        } else {
            (pool.asset_b_balance, pool.asset_a_balance)
        }
    }

    /// The reserve of `token_a` divided by that of `token_b`, in parts per
    /// billion rounded down (saturating at one whole).
    pub open spec fn ratio_spec(self, ledger: LedgerModel, token_a: AssetId, token_b: AssetId) -> Result<
        u32,
        Error,
    > {
        let rejection = pair_rejection(self.pools@, ledger, token_a, token_b);
        let (reserve_a, reserve_b) = self.reserves_of(token_a, token_b);
        if rejection is Some {
            Err(rejection->Some_0)
        } else if reserve_b == 0 {
            Err(Error::Arithmetic)
        } else {
            Ok(perbill_parts_spec(reserve_a as int, reserve_b as int) as u32)
        }
    }

    /// The amount of `asset_out` a swap of `amount_in` of `asset_in` would pay out now.
    pub open spec fn price_spec(
        self,
        ledger: LedgerModel,
        asset_in: AssetId,
        amount_in: Balance,
        asset_out: AssetId,
    ) -> Result<Balance, Error> {
        let rejection = pair_rejection(self.pools@, ledger, asset_in, asset_out);
        let (reserve_in, reserve_out) = self.reserves_of(asset_in, asset_out);
        if rejection is Some {
            Err(rejection->Some_0)
        } else {
            swap_output(amount_in, reserve_in, reserve_out)
        }
    }

    /// An exchange with no pools, whose pools keep their assets in `vault`.
    pub fn new(vault: AccountId) -> (r: Pallet)
        ensures
            r.wf(),
            r.pools@ == Map::<AssetPair, LiquidityPool>::empty(),
            r.vault == vault,
            r.events@ == Seq::<Event>::empty(),
    {
        Pallet { pools: PoolRegistry::new(), vault, events: Vec::new() }
    }

    /// The pool of the pair of `asset_a` and `asset_b`, in either order.
    pub fn pool(&self, asset_a: AssetId, asset_b: AssetId) -> (r: Option<LiquidityPool>)
        ensures
            r == (if self.pools@.contains_key(canonical(asset_a, asset_b)) {
                Some(self.pools@[canonical(asset_a, asset_b)])
            } else {
                None
            }),
    {
        self.pools.get(&AssetPair::new(asset_a, asset_b))
    }

    /// Both assets are registered on the ledger.
    fn ensure_assets_exist<L: AssetLedger>(ledger: &L, asset_a: AssetId, asset_b: AssetId) -> (r:
        Result<(), Error>)
        ensures
            ledger.model().has_asset(asset_a) && ledger.model().has_asset(asset_b) ==> r is Ok,
            !(ledger.model().has_asset(asset_a) && ledger.model().has_asset(asset_b)) ==> r == Err::<
                (),
                Error,
            >(Error::UnknownAssetId),
    {
        if !ledger.asset_exists(asset_a) || !ledger.asset_exists(asset_b) {
            return Err(Error::UnknownAssetId);
        }
        Ok(())
    }

    /// The pool of a pair of registered, distinct assets.
    fn existing_pool<L: AssetLedger>(&self, ledger: &L, asset_a: AssetId, asset_b: AssetId) -> (r:
        Result<LiquidityPool, Error>)
        ensures
            ({
                let rejection = pair_rejection(self.pools@, ledger.model(), asset_a, asset_b);
                &&& rejection is Some ==> r == Err::<LiquidityPool, Error>(rejection->Some_0)
                &&& rejection is None ==> r == Ok::<LiquidityPool, Error>(
                    self.pools@[canonical(asset_a, asset_b)],
                )
            }),
    {
        Self::ensure_assets_exist(ledger, asset_a, asset_b)?;
        if asset_a == asset_b {
            return Err(Error::IdenticalAssets);
        }
        match self.pools.get(&AssetPair::new(asset_a, asset_b)) {
            Some(pool) => Ok(pool),
            None => Err(Error::LiquidityPoolDoesNotExist),
        }
    }

    /// Adds liquidity from `who` to the pool of `asset_a` and `asset_b`,
    /// creating the pool (with `lp_asset_id` as its LP asset) if the pair has
    /// none; `amount_a` is of `asset_a` and `amount_b` of `asset_b`.
    ///
    /// A refused mint changes nothing. Otherwise only the ledger can still
    /// refuse; on success the pool record, the ledger and the events change as
    /// `minted_pool`, `minted_ledger` and `mint_events` say.
    pub fn mint<L: AssetLedger>(
        &mut self,
        ledger: &mut L,
        who: AccountId,
        lp_asset_id: AssetId,
        asset_a: AssetId,
        asset_b: AssetId,
        amount_a: Balance,
        amount_b: Balance,
    ) -> (r: Result<(), Error>)
        requires
            old(self).wf(),
        ensures
            final(self).wf(),
            ({
                let rejection = old(self).mint_rejection(
                    old(ledger).model(),
                    lp_asset_id,
                    asset_a,
                    asset_b,
                    amount_a,
                    amount_b,
                );
                let pair = canonical(asset_a, asset_b);
                &&& final(self).vault == old(self).vault
                &&& rejection is Some ==> r == Err::<(), Error>(rejection->Some_0)
                    && final(ledger).model() == old(ledger).model()
                &&& r is Err ==> final(self).pools@ == old(self).pools@ && final(self).events@
                    == old(self).events@
                &&& rejection is None && r is Err ==> r->Err_0 is Ledger
                &&& r is Ok ==> rejection is None && final(self).pools@ == old(self).pools@.insert(
                    pair,
                    old(self).minted_pool(lp_asset_id, asset_a, asset_b, amount_a, amount_b),
                ) && final(ledger).model() == old(self).minted_ledger(
                    old(ledger).model(),
                    who,
                    lp_asset_id,
                    asset_a,
                    asset_b,
                    amount_a,
                    amount_b,
                ) && final(self).events@ == old(self).events@ + old(self).mint_events(
                    lp_asset_id,
                    asset_a,
                    asset_b,
                    amount_a,
                    amount_b,
                )
            }),
    {
        Self::ensure_assets_exist(ledger, asset_a, asset_b)?;
        if asset_a == asset_b {
            return Err(Error::IdenticalAssets);
        }
        if amount_a == 0 || amount_b == 0 {
            return Err(Error::InsufficientInputAmount);
        }
        let pair = AssetPair::new(asset_a, asset_b);
        let (amount_lo, amount_hi) = if asset_a <= asset_b {
            (amount_a, amount_b)
        } else {
            (amount_b, amount_a)
        };
        let (mut pool, created) = match self.pools.get(&pair) {
            Some(existing) => (existing, false),
            None => {
                if ledger.asset_exists(lp_asset_id) {
                    return Err(Error::AssetIdExists);
                }
                calculate_liquidity(0, amount_lo, amount_hi, 0, 0)?;
                match ledger.create(lp_asset_id, self.vault, LP_MIN_BALANCE) {
                    Ok(()) => {},
                    Err(e) => {
                        return Err(Error::Ledger(e));
                    },
                }
                (
                    LiquidityPool {
                        id: lp_asset_id,
                        manager: self.vault,
                        asset_a_balance: 0,
                        asset_b_balance: 0,
                    },
                    true,
                )
            },
        };
        pool.add_liquidity(ledger, &pair, amount_lo, amount_hi, who)?;
        self.pools.set(pair, pool);
        if created {
            self.events.push(Event::LiquidityPoolCreated(lp_asset_id, pair.asset_a, pair.asset_b));
        }
        self.events.push(Event::LiquidityAdded(pair.asset_a, pair.asset_b, amount_lo, amount_hi));
        Ok(())
    }

    /// Burns `token_amount` LP tokens of `who` from the pool of `asset_a` and
    /// `asset_b` and pays out the same share of both reserves, rounded down.
    ///
    /// A refused burn changes nothing; in particular burning more LP tokens
    /// than `who` holds fails with `InsufficientBurnBalance`. Otherwise only
    /// the ledger can still refuse. Pool records are kept even when only the
    /// locked minimum remains.
    pub fn burn<L: AssetLedger>(
        &mut self,
        ledger: &mut L,
        who: AccountId,
        asset_a: AssetId,
        asset_b: AssetId,
        token_amount: Balance,
    ) -> (r: Result<(), Error>)
        requires
            old(self).wf(),
        ensures
            final(self).wf(),
            ({
                let rejection = old(self).burn_rejection(
                    old(ledger).model(),
                    who,
                    asset_a,
                    asset_b,
                    token_amount,
                );
                let pair = canonical(asset_a, asset_b);
                let pool = old(self).pools@[pair];
                let (out_a, out_b) = pool.withdrawn_amounts(old(ledger).model(), token_amount);
                &&& final(self).vault == old(self).vault
                &&& rejection is Some ==> r == Err::<(), Error>(rejection->Some_0)
                    && final(ledger).model() == old(ledger).model()
                &&& pair_rejection(old(self).pools@, old(ledger).model(), asset_a, asset_b) is None
                    && old(ledger).model().balance(pool.id, who) < token_amount ==> r == Err::<
                    (),
                    Error,
                >(Error::InsufficientBurnBalance) && final(ledger).model() == old(ledger).model()
                &&& r is Err ==> final(self).pools@ == old(self).pools@ && final(self).events@
                    == old(self).events@
                &&& rejection is None && r is Err ==> r->Err_0 is Ledger
                &&& r is Ok ==> rejection is None && final(self).pools@ == old(self).pools@.insert(
                    pair,
                    pool.with_reserves(
                        (pool.asset_a_balance - out_a) as Balance,
                        (pool.asset_b_balance - out_b) as Balance,
                    ),
                ) && final(ledger).model() == old(ledger).model().burned(
                    pool.id,
                    who,
                    token_amount,
                ).transferred(pair.asset_a, pool.manager, who, out_a).transferred(
                    pair.asset_b,
                    pool.manager,
                    who,
                    out_b,
                ) && final(self).events@ == old(self).events@.push(
                    Event::LiquidityRemoved(pair.asset_a, pair.asset_b, token_amount),
                )
            }),
    {
        let mut pool = self.existing_pool(ledger, asset_a, asset_b)?;
        let pair = AssetPair::new(asset_a, asset_b);
        pool.remove_liquidity(ledger, &pair, token_amount, who)?;
        self.pools.set(pair, pool);
        self.events.push(Event::LiquidityRemoved(pair.asset_a, pair.asset_b, token_amount));
        Ok(())
    }

    /// Swaps `amount_in` of `asset_in` from `who` for `asset_out` in their pool.
    ///
    /// A refused swap changes nothing: a zero `amount_in` fails with
    /// `InsufficientInputAmount`, and one that reaches the in-reserve with
    /// `InsufficientLiquidity`. Otherwise only the ledger can still refuse; on
    /// success the product of the pool's reserves does not decrease.
    pub fn swap<L: AssetLedger>(
        &mut self,
        ledger: &mut L,
        who: AccountId,
        asset_in: AssetId,
        asset_out: AssetId,
        amount_in: Balance,
    ) -> (r: Result<(), Error>)
        requires
            old(self).wf(),
        ensures
            final(self).wf(),
            ({
                let rejection = old(self).swap_rejection(
                    old(ledger).model(),
                    asset_in,
                    asset_out,
                    amount_in,
                );
                let pair = canonical(asset_in, asset_out);
                let pool = old(self).pools@[pair];
                let out = pool.swap_amount_out(pair, asset_out, amount_in);
                let (reserve_in, reserve_out) = old(self).reserves_of(asset_in, asset_out);
                let (reserve_in_after, reserve_out_after) = final(self).reserves_of(
                    asset_in,
                    asset_out,
                );
                let known_pair = pair_rejection(
                    old(self).pools@,
                    old(ledger).model(),
                    asset_in,
                    asset_out,
                ) is None;
                &&& final(self).vault == old(self).vault
                &&& rejection is Some ==> r == Err::<(), Error>(rejection->Some_0)
                    && final(ledger).model() == old(ledger).model()
                &&& known_pair && amount_in == 0 ==> r == Err::<(), Error>(
                    Error::InsufficientInputAmount,
                )
                &&& known_pair && amount_in > 0 && amount_in >= reserve_in ==> r == Err::<
                    (),
                    Error,
                >(Error::InsufficientLiquidity)
                &&& r is Err ==> final(self).pools@ == old(self).pools@ && final(self).events@
                    == old(self).events@
                &&& rejection is None && r is Err ==> r->Err_0 is Ledger
                &&& r is Ok ==> rejection is None && final(self).pools@ == old(self).pools@.insert(
                    pair,
                    pool.swapped(pair, asset_out, amount_in, out),
                ) && final(ledger).model() == old(ledger).model().transferred(
                    asset_in,
                    who,
                    pool.manager,
                    amount_in,
                ).transferred(asset_out, pool.manager, who, out) && final(self).events@ == old(
                    self,
                ).events@.push(Event::Swapped(pair.asset_a, pair.asset_b, amount_in))
                    && reserve_in_after * reserve_out_after >= reserve_in * reserve_out
            }),
    {
        let mut pool = self.existing_pool(ledger, asset_in, asset_out)?;
        let pair = AssetPair::new(asset_in, asset_out);
        pool.swap(ledger, who, pair, asset_in, asset_out, amount_in)?;
        self.pools.set(pair, pool);
        self.events.push(Event::Swapped(pair.asset_a, pair.asset_b, amount_in));
        Ok(())
    }

    /// The reserve of `token_a` over that of `token_b` in their pool, in
    /// parts per billion rounded down; a ratio above one saturates at one
    /// whole, and an empty `token_b` reserve fails with `Arithmetic`.
    pub fn ratio<L: AssetLedger>(&self, ledger: &L, token_a: AssetId, token_b: AssetId) -> (r: Result<
        u32,
        Error,
    >)
        ensures
            r == self.ratio_spec(ledger.model(), token_a, token_b),
    {
        let pool = self.existing_pool(ledger, token_a, token_b)?;
        let pair = AssetPair::new(token_a, token_b);
        let (token_a_reserve, token_b_reserve) = if token_a == pair.asset_a {
            (pool.asset_a_balance, pool.asset_b_balance)
        } else {
            (pool.asset_b_balance, pool.asset_a_balance)
        };
        if token_b_reserve == 0 {
            return Err(Error::Arithmetic);
        }
        Ok(perbill_from_rational(token_a_reserve, token_b_reserve))
    }

    /// The amount of `asset_out` that swapping `amount_in` of `asset_in`
    /// would pay out against the current reserves; nothing changes.
    pub fn get_price_for<L: AssetLedger>(
        &self,
        ledger: &L,
        asset_in: AssetId,
        amount_in: Balance,
        asset_out: AssetId,
    ) -> (r: Result<Balance, Error>)
        ensures
            r == self.price_spec(ledger.model(), asset_in, amount_in, asset_out),
    {
        let pool = self.existing_pool(ledger, asset_in, asset_out)?;
        let pair = AssetPair::new(asset_in, asset_out);
        let (reserve_in, reserve_out) = if asset_in == pair.asset_a {
            (pool.asset_a_balance, pool.asset_b_balance)
        } else {
            (pool.asset_b_balance, pool.asset_a_balance)
        };
        LiquidityPool::calculate_output_for(amount_in, reserve_in, reserve_out)
    }
}

/// What a deposit into `pool` does to the LP balance of `who` and to the LP
/// issuance, when the LP asset is neither of the pair's assets and `who` is
/// not the vault.
proof fn lemma_deposit_lp_effect(
    pool: LiquidityPool,
    ledger: LedgerModel,
    pair: AssetPair,
    amount_a: Balance,
    amount_b: Balance,
    who: AccountId,
)
    requires
        pool.deposit_rejection(ledger, amount_a, amount_b) is None,
        pool.id != pair.asset_a,
        pool.id != pair.asset_b,
        who != pool.manager,
        ({
            let lp = minted_liquidity(
                ledger.issuance(pool.id),
                amount_a,
                amount_b,
                pool.asset_a_balance,
                pool.asset_b_balance,
            )->Ok_0;
            &&& ledger.balance(pool.id, who) + lp <= u128::MAX
            &&& ledger.issuance(pool.id) + lp + MIN_LIQUIDITY <= u128::MAX
        }),
    ensures
        ({
            let issuance = ledger.issuance(pool.id);
            let lp = minted_liquidity(
                issuance,
                amount_a,
                amount_b,
                pool.asset_a_balance,
                pool.asset_b_balance,
            )->Ok_0;
            let after = pool.deposited(ledger, pair, amount_a, amount_b, who);
            &&& after.balance(pool.id, who) == ledger.balance(pool.id, who) + lp
            &&& after.issuance(pool.id) == issuance + lp + (if issuance == 0 {
                MIN_LIQUIDITY as int
            } else {
                0
            })
        }),
{
    let issuance = ledger.issuance(pool.id);
    let lp = minted_liquidity(
        issuance,
        amount_a,
        amount_b,
        pool.asset_a_balance,
        pool.asset_b_balance,
    )->Ok_0;
    let locked = if issuance == 0 {
        ledger.minted(pool.id, pool.manager, MIN_LIQUIDITY)
    } else {
        ledger
    };
    lemma_minted_effect(ledger, pool.id, pool.manager, MIN_LIQUIDITY, pool.id, who);
    let issued = locked.minted(pool.id, who, lp);
    lemma_minted_effect(locked, pool.id, who, lp, pool.id, who);
    let moved = issued.transferred(pair.asset_a, who, pool.manager, amount_a);
    lemma_transferred_effect(issued, pair.asset_a, who, pool.manager, amount_a, pool.id, who);
    lemma_transferred_effect(moved, pair.asset_b, who, pool.manager, amount_b, pool.id, who);
}

/// On a pair with no pool, a mint of two positive amounts of two distinct
/// registered assets, whose product fits a balance and whose LP asset is
/// free, is accepted exactly when the integer square root of the product
/// exceeds `MIN_LIQUIDITY`. Then the provider holds that root less
/// `MIN_LIQUIDITY` LP tokens and the LP asset's issuance is the root.
pub proof fn lemma_first_mint(
    p: Pallet,
    ledger: LedgerModel,
    who: AccountId,
    lp_asset_id: AssetId,
    asset_a: AssetId,
    asset_b: AssetId,
    amount_a: Balance,
    amount_b: Balance,
)
    requires
        ledger.has_asset(asset_a),
        ledger.has_asset(asset_b),
        asset_a != asset_b,
        amount_a > 0,
        amount_b > 0,
        amount_a * amount_b <= u128::MAX,
        !p.pools@.contains_key(canonical(asset_a, asset_b)),
        !ledger.has_asset(lp_asset_id),
        ledger.balance(lp_asset_id, who) == 0,
        who != p.vault,
    ensures
        p.mint_rejection(ledger, lp_asset_id, asset_a, asset_b, amount_a, amount_b) is None
            <==> floor_sqrt((amount_a * amount_b) as nat) > MIN_LIQUIDITY,
        p.mint_rejection(ledger, lp_asset_id, asset_a, asset_b, amount_a, amount_b) is None ==> {
            let after = p.minted_ledger(
                ledger,
                who,
                lp_asset_id,
                asset_a,
                asset_b,
                amount_a,
                amount_b,
            );
            &&& after.balance(lp_asset_id, who) == floor_sqrt((amount_a * amount_b) as nat)
                - MIN_LIQUIDITY
            &&& after.issuance(lp_asset_id) == floor_sqrt((amount_a * amount_b) as nat)
        },
{
    let (lo, hi) = ordered_amounts(asset_a, asset_b, amount_a, amount_b);
    assert(lo * hi == amount_a * amount_b) by (nonlinear_arith)
        requires
            (lo == amount_a && hi == amount_b) || (lo == amount_b && hi == amount_a),
    ;
    lemma_first_deposit(lo, hi);
    lemma_floor_sqrt((amount_a * amount_b) as nat);
    let pair = canonical(asset_a, asset_b);
    let start = ledger.created(lp_asset_id, p.vault, LP_MIN_BALANCE);
    if p.mint_rejection(ledger, lp_asset_id, asset_a, asset_b, amount_a, amount_b) is None {
        assert(start.issuance(lp_asset_id) == 0);
        assert(start.balance(lp_asset_id, who) == ledger.balance(lp_asset_id, who));
        lemma_deposit_lp_effect(p.new_pool(lp_asset_id), start, pair, lo, hi, who);
    }
}

/// Mint does not depend on the order in which the pair is named:
/// `mint(A, B, x, y)` and `mint(B, A, y, x)` are refused alike, and when
/// accepted leave the same pool record, the same ledger and the same events.
pub proof fn lemma_mint_order_independent(
    p: Pallet,
    ledger: LedgerModel,
    who: AccountId,
    lp_asset_id: AssetId,
    asset_a: AssetId,
    asset_b: AssetId,
    amount_a: Balance,
    amount_b: Balance,
)
    requires
        asset_a != asset_b,
    ensures
        p.mint_rejection(ledger, lp_asset_id, asset_a, asset_b, amount_a, amount_b)
            == p.mint_rejection(ledger, lp_asset_id, asset_b, asset_a, amount_b, amount_a),
        p.minted_pool(lp_asset_id, asset_a, asset_b, amount_a, amount_b) == p.minted_pool(
            lp_asset_id,
            asset_b,
            asset_a,
            amount_b,
            amount_a,
        ),
        p.minted_ledger(ledger, who, lp_asset_id, asset_a, asset_b, amount_a, amount_b)
            == p.minted_ledger(ledger, who, lp_asset_id, asset_b, asset_a, amount_b, amount_a),
        p.mint_events(lp_asset_id, asset_a, asset_b, amount_a, amount_b) == p.mint_events(
            lp_asset_id,
            asset_b,
            asset_a,
            amount_b,
            amount_a,
        ),
{
}

/// Depositing through `mint` and then burning every LP token that deposit
/// gave the provider pays out at most the amounts deposited, rounding dust
/// staying in the pool.
///
/// This holds for a pool that had no issuance and empty reserves (a fresh
/// pair) and for one that had issuance, as long as the provider is not the
/// vault and the ledger can hold the LP tokens the deposit issues.
pub proof fn lemma_mint_then_burn(
    p: Pallet,
    ledger: LedgerModel,
    who: AccountId,
    lp_asset_id: AssetId,
    asset_a: AssetId,
    asset_b: AssetId,
    amount_a: Balance,
    amount_b: Balance,
)
    requires
        p.wf(),
        who != p.vault,
        p.mint_rejection(ledger, lp_asset_id, asset_a, asset_b, amount_a, amount_b) is None,
        ({
            let pool = p.mint_target(lp_asset_id, asset_a, asset_b);
            ledger.issuance(pool.id) == 0 ==> pool.asset_a_balance == 0 && pool.asset_b_balance
                == 0
        }),
        ({
            let pool = p.mint_target(lp_asset_id, asset_a, asset_b);
            let (amount_lo, amount_hi) = ordered_amounts(asset_a, asset_b, amount_a, amount_b);
            let lp = minted_liquidity(
                ledger.issuance(pool.id),
                amount_lo,
                amount_hi,
                pool.asset_a_balance,
                pool.asset_b_balance,
            )->Ok_0;
            &&& ledger.balance(pool.id, who) + lp <= u128::MAX
            &&& ledger.issuance(pool.id) + lp + MIN_LIQUIDITY <= u128::MAX
        }),
    ensures
        ({
            let pool = p.mint_target(lp_asset_id, asset_a, asset_b);
            let after_pool = p.minted_pool(lp_asset_id, asset_a, asset_b, amount_a, amount_b);
            let after = p.minted_ledger(
                ledger,
                who,
                lp_asset_id,
                asset_a,
                asset_b,
                amount_a,
                amount_b,
            );
            let lp = (after.balance(pool.id, who) - ledger.balance(pool.id, who)) as Balance;
            let issuance = after.issuance(pool.id);
            let out_a = withdrawal(lp, after_pool.asset_a_balance, issuance);
            let out_b = withdrawal(lp, after_pool.asset_b_balance, issuance);
            let (amount_lo, amount_hi) = ordered_amounts(asset_a, asset_b, amount_a, amount_b);
            &&& after.balance(pool.id, who) >= ledger.balance(pool.id, who)
            &&& out_a is Ok ==> out_a->Ok_0 <= amount_lo
            &&& out_b is Ok ==> out_b->Ok_0 <= amount_hi
        }),
{
    let pair = canonical(asset_a, asset_b);
    let pool = p.mint_target(lp_asset_id, asset_a, asset_b);
    let (lo, hi) = ordered_amounts(asset_a, asset_b, amount_a, amount_b);
    let start = if p.pools@.contains_key(pair) {
        ledger
    } else {
        ledger.created(lp_asset_id, p.vault, LP_MIN_BALANCE)
    };
    assert(start.balance(pool.id, who) == ledger.balance(pool.id, who));
    assert(start.issuance(pool.id) == 0 ==> pool.asset_a_balance == 0 && pool.asset_b_balance == 0);
    lemma_deposit_lp_effect(pool, start, pair, lo, hi, who);
    lemma_deposit_withdraw_round_trip(
        start.issuance(pool.id),
        pool.asset_a_balance,
        pool.asset_b_balance,
        lo,
        hi,
    );
}

/// The pools of two different pairs are separate records, even when the
/// pairs share an asset: writing the record of the pair of `a` and `b` (all
/// that mint, burn and swap change in the registry) leaves the record of the
/// pair of `a` and `c` as it was.
pub proof fn lemma_pools_independent(
    pools: Map<AssetPair, LiquidityPool>,
    a: AssetId,
    b: AssetId,
    c: AssetId,
    written: LiquidityPool,
)
    requires
        b != c,
    ensures
        pools.insert(canonical(a, b), written).contains_key(canonical(a, c)) == pools.contains_key(
            canonical(a, c),
        ),
        pools.insert(canonical(a, b), written)[canonical(a, c)] == pools[canonical(a, c)],
{
}

} // verus!
