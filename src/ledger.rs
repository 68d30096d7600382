//! The asset ledger the exchange runs against: a model of its state, the
//! capability interface whose contracts are stated over that model, and an
//! in-memory ledger that implements it.
use vstd::prelude::*;
use std::collections::HashMap;

use crate::error::LedgerError;
use crate::{AccountId, AssetId, Balance};

verus! {

broadcast use vstd::std_specs::hash::group_hash_axioms;

/// What the ledger records of a registered asset.
#[derive(Clone, Copy, Debug, PartialEq, Eq, Structural)]
pub struct AssetDetails {
    /// The account that created the asset.
    pub owner: AccountId,
    /// The smallest balance an account is meant to keep.
    pub min_balance: Balance,
    /// Total issuance of the asset.
    pub supply: Balance,
}

/// The state of an asset ledger: the registered assets, and the balance of
/// each (asset, account) pair that has one (any other balance is zero).
pub struct LedgerModel {
    pub assets: Map<AssetId, AssetDetails>,
    pub balances: Map<(AssetId, AccountId), Balance>,
}

impl LedgerModel {
    pub open spec fn has_asset(self, asset: AssetId) -> bool {
        self.assets.contains_key(asset)
    }

    /// Total issuance of `asset`; zero for an asset that is not registered.
    pub open spec fn issuance(self, asset: AssetId) -> Balance {
        if self.assets.contains_key(asset) {
            self.assets[asset].supply
        } else {
            0
        }
    }

    pub open spec fn balance(self, asset: AssetId, who: AccountId) -> Balance {
        if self.balances.contains_key((asset, who)) {
            self.balances[(asset, who)]
        } else {
            0
        }
    }

    pub open spec fn with_balance(self, asset: AssetId, who: AccountId, v: Balance) -> LedgerModel {
        LedgerModel { assets: self.assets, balances: self.balances.insert((asset, who), v) }
    }

    pub open spec fn with_issuance(self, asset: AssetId, v: Balance) -> LedgerModel {
        let d = self.assets[asset];
        LedgerModel {
            assets: self.assets.insert(
                asset,
                AssetDetails { owner: d.owner, min_balance: d.min_balance, supply: v },
            ),
            balances: self.balances,
        }
    }

    /// `asset` registered, owned by `owner`, with no issuance.
    pub open spec fn created(self, asset: AssetId, owner: AccountId, min_balance: Balance) -> LedgerModel {
        LedgerModel {
            assets: self.assets.insert(asset, AssetDetails { owner, min_balance, supply: 0 }),
            balances: self.balances,
        }
    }

    pub open spec fn can_mint(self, asset: AssetId, who: AccountId, amount: Balance) -> bool {
        &&& self.has_asset(asset)
        &&& self.issuance(asset) + amount <= u128::MAX
        &&& self.balance(asset, who) + amount <= u128::MAX
    }

    /// `amount` of `asset` newly issued into `who`'s balance.
    pub open spec fn minted(self, asset: AssetId, who: AccountId, amount: Balance) -> LedgerModel {
        self.with_balance(asset, who, (self.balance(asset, who) + amount) as Balance).with_issuance(
            asset,
            (self.issuance(asset) + amount) as Balance,
        )
    }

    pub open spec fn can_burn(self, asset: AssetId, who: AccountId, amount: Balance) -> bool {
        &&& self.has_asset(asset)
        &&& self.balance(asset, who) >= amount
        &&& self.issuance(asset) >= amount
    }

    /// `amount` of `asset` taken from `who`'s balance and from the issuance.
    pub open spec fn burned(self, asset: AssetId, who: AccountId, amount: Balance) -> LedgerModel {
        self.with_balance(asset, who, (self.balance(asset, who) - amount) as Balance).with_issuance(
            asset,
            (self.issuance(asset) - amount) as Balance,
        )
    }

    pub open spec fn can_transfer(
        self,
        asset: AssetId,
        from: AccountId,
        to: AccountId,
        amount: Balance,
    ) -> bool {
        &&& self.has_asset(asset)
        &&& self.balance(asset, from) >= amount
        &&& (from == to || self.balance(asset, to) + amount <= u128::MAX)
    }

    /// `amount` of `asset` moved from `from` to `to`.
    pub open spec fn transferred(
        self,
        asset: AssetId,
        from: AccountId,
        to: AccountId,
        amount: Balance,
    ) -> LedgerModel {
        if from == to {
            self
        } else {
            self.with_balance(
                asset,
                from,
                (self.balance(asset, from) - amount) as Balance,
            ).with_balance(asset, to, (self.balance(asset, to) + amount) as Balance)
        }
    }
}

/// What issuing `amount` of `asset` to `who` does to each balance and issuance.
pub proof fn lemma_minted_effect(
    m: LedgerModel,
    asset: AssetId,
    who: AccountId,
    amount: Balance,
    other: AssetId,
    holder: AccountId,
)
    ensures
        m.minted(asset, who, amount).balance(other, holder) == (if other == asset && holder == who {
            (m.balance(asset, who) + amount) as Balance
        } else {
            m.balance(other, holder)
        }),
        m.minted(asset, who, amount).issuance(other) == (if other == asset {
            (m.issuance(asset) + amount) as Balance
        } else {
            m.issuance(other)
        }),
{
}

/// What moving `amount` of `asset` does to each balance and issuance.
pub proof fn lemma_transferred_effect(
    m: LedgerModel,
    asset: AssetId,
    from: AccountId,
    to: AccountId,
    amount: Balance,
    other: AssetId,
    holder: AccountId,
)
    ensures
        other != asset ==> m.transferred(asset, from, to, amount).balance(other, holder)
            == m.balance(other, holder),
        m.transferred(asset, from, to, amount).issuance(other) == m.issuance(other),
{
}

/// A ledger of fungible assets, as the exchange uses it.
///
/// Each mutating method either succeeds with exactly the effect its contract
/// names, or fails and leaves the ledger as it was. When it may fail is the
/// ledger's own policy: the contracts only say what success requires.
pub trait AssetLedger {
    spec fn model(&self) -> LedgerModel;

    fn asset_exists(&self, asset: AssetId) -> (r: bool)
        ensures
            r == self.model().has_asset(asset),
    ;

    fn balance(&self, asset: AssetId, who: AccountId) -> (r: Balance)
        ensures
            r == self.model().balance(asset, who),
    ;

    fn total_issuance(&self, asset: AssetId) -> (r: Balance)
        ensures
            r == self.model().issuance(asset),
    ;

    /// Registers `asset` with `owner` as its owner and no issuance.
    fn create(&mut self, asset: AssetId, owner: AccountId, min_balance: Balance) -> (r: Result<
        (),
        LedgerError,
    >)
        ensures
            r is Ok ==> !old(self).model().has_asset(asset) && final(self).model() == old(
                self,
            ).model().created(asset, owner, min_balance),
            r is Err ==> final(self).model() == old(self).model(),
    ;

    /// Issues `amount` of `asset` into `who`'s balance; returns the amount issued.
    fn mint_into(&mut self, asset: AssetId, who: AccountId, amount: Balance) -> (r: Result<
        Balance,
        LedgerError,
    >)
        ensures
            r is Ok ==> r->Ok_0 == amount && old(self).model().can_mint(asset, who, amount)
                && final(self).model() == old(self).model().minted(asset, who, amount),
            r is Err ==> final(self).model() == old(self).model(),
    ;

    /// Burns exactly `amount` of `asset` from `who`; returns the amount burnt.
    fn burn_from(&mut self, asset: AssetId, who: AccountId, amount: Balance) -> (r: Result<
        Balance,
        LedgerError,
    >)
        ensures
            r is Ok ==> r->Ok_0 == amount && old(self).model().can_burn(asset, who, amount)
                && final(self).model() == old(self).model().burned(asset, who, amount),
            r is Err ==> final(self).model() == old(self).model(),
    ;

    /// Moves `amount` of `asset` from `from` to `to`, which may drain `from`
    /// to zero; returns the amount moved.
    fn transfer(&mut self, asset: AssetId, from: AccountId, to: AccountId, amount: Balance) -> (r:
        Result<Balance, LedgerError>)
        ensures
            r is Ok ==> r->Ok_0 == amount && old(self).model().can_transfer(asset, from, to, amount)
                && final(self).model() == old(self).model().transferred(asset, from, to, amount),
            r is Err ==> final(self).model() == old(self).model(),
    ;
}

/// The key under which the balance of `who` in `asset` is stored.
pub open spec fn account_key(asset: AssetId, who: AccountId) -> u128 {
    (asset as int * 0x1_0000_0000_0000_0000 + who as int) as u128
}

proof fn lemma_account_key_injective(a1: AssetId, w1: AccountId, a2: AssetId, w2: AccountId)
    ensures
        account_key(a1, w1) == account_key(a2, w2) <==> (a1 == a2 && w1 == w2),
{
}

fn account_key_of(asset: AssetId, who: AccountId) -> (r: u128)
    ensures
        r == account_key(asset, who),
{
    asset as u128 * 0x1_0000_0000_0000_0000u128 + who as u128
}

/// An in-memory ledger that refuses exactly what breaks its model: an unknown
/// or duplicate asset, a balance too small, or a result above the largest
/// `Balance`.
pub struct MemoryLedger {
    assets: HashMap<AssetId, AssetDetails>,
    accounts: HashMap<u128, Balance>,
}

impl MemoryLedger {
    /// A ledger with no assets.
    pub fn new() -> (r: MemoryLedger)
        ensures
            r.model().assets == Map::<AssetId, AssetDetails>::empty(),
            r.model().balances == Map::<(AssetId, AccountId), Balance>::empty(),
    {
        let r = MemoryLedger { assets: HashMap::new(), accounts: HashMap::new() };
        assert(r.model().balances =~= Map::<(AssetId, AccountId), Balance>::empty());
        r
    }

    fn stored_balance(&self, key: u128) -> (r: Balance)
        ensures
            r == (if self.accounts@.contains_key(key) {
                self.accounts@[key]
            } else {
                0
            }),
    {
        match self.accounts.get(&key) {
            Some(v) => *v,
            None => 0,
        }
    }

    fn store_balance(&mut self, asset: AssetId, who: AccountId, v: Balance)
        ensures
            final(self).model() == old(self).model().with_balance(asset, who, v),
    {
        let key = account_key_of(asset, who);
        self.accounts.insert(key, v);
        proof {
            assert forall|k: (AssetId, AccountId)| true implies #[trigger] account_key(k.0, k.1)
                == key <==> k == (asset, who) by {
                lemma_account_key_injective(k.0, k.1, asset, who);
            }
            assert(self.model().balances =~= old(self).model().balances.insert((asset, who), v));
        }
    }

    fn store_issuance(&mut self, asset: AssetId, v: Balance)
        requires
            old(self).model().has_asset(asset),
        ensures
            final(self).model() == old(self).model().with_issuance(asset, v),
    {
        let d = *self.assets.get(&asset).unwrap();
        self.assets.insert(asset, AssetDetails { owner: d.owner, min_balance: d.min_balance, supply: v });
        assert(self.model().balances =~= old(self).model().balances);
    }
}

impl AssetLedger for MemoryLedger {
    closed spec fn model(&self) -> LedgerModel {
        LedgerModel {
            assets: self.assets@,
            balances: Map::new(
                |k: (AssetId, AccountId)| self.accounts@.contains_key(account_key(k.0, k.1)),
                |k: (AssetId, AccountId)| self.accounts@[account_key(k.0, k.1)],
            ),
        }
    }

    fn asset_exists(&self, asset: AssetId) -> (r: bool) {
        self.assets.contains_key(&asset)
    }

    fn balance(&self, asset: AssetId, who: AccountId) -> (r: Balance) {
        self.stored_balance(account_key_of(asset, who))
    }

    fn total_issuance(&self, asset: AssetId) -> (r: Balance) {
        match self.assets.get(&asset) {
            Some(d) => d.supply,
            None => 0,
        }
    }

    fn create(&mut self, asset: AssetId, owner: AccountId, min_balance: Balance) -> (r: Result<
        (),
        LedgerError,
    >) {
        if self.assets.contains_key(&asset) {
            return Err(LedgerError::AssetExists);
        }
        self.assets.insert(asset, AssetDetails { owner, min_balance, supply: 0 });
        assert(self.model().balances =~= old(self).model().balances);
        Ok(())
    }

    fn mint_into(&mut self, asset: AssetId, who: AccountId, amount: Balance) -> (r: Result<
        Balance,
        LedgerError,
    >) {
        if !self.assets.contains_key(&asset) {
            return Err(LedgerError::UnknownAsset);
        }
        let supply = self.total_issuance(asset);
        let held = self.balance(asset, who);
        if supply > u128::MAX - amount || held > u128::MAX - amount {
            return Err(LedgerError::Overflow);
        }
        self.store_balance(asset, who, held + amount);
        self.store_issuance(asset, supply + amount);
        Ok(amount)
    }

    fn burn_from(&mut self, asset: AssetId, who: AccountId, amount: Balance) -> (r: Result<
        Balance,
        LedgerError,
    >) {
        if !self.assets.contains_key(&asset) {
            return Err(LedgerError::UnknownAsset);
        }
        let supply = self.total_issuance(asset);
        let held = self.balance(asset, who);
        if held < amount || supply < amount {
            return Err(LedgerError::FundsUnavailable);
        }
        self.store_balance(asset, who, held - amount);
        self.store_issuance(asset, supply - amount);
        Ok(amount)
    }

    fn transfer(&mut self, asset: AssetId, from: AccountId, to: AccountId, amount: Balance) -> (r:
        Result<Balance, LedgerError>) {
        if !self.assets.contains_key(&asset) {
            return Err(LedgerError::UnknownAsset);
        }
        let held = self.balance(asset, from);
        if held < amount {
            return Err(LedgerError::FundsUnavailable);
        }
        if from == to {
            return Ok(amount);
        }
        let received = self.balance(asset, to);
        if received > u128::MAX - amount {
            return Err(LedgerError::Overflow);
        }
        self.store_balance(asset, from, held - amount);
        self.store_balance(asset, to, received + amount);
        Ok(amount)
    }
}

} // verus!
