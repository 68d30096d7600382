//! A pool's record and the operations that move assets in and out of it.
use vstd::prelude::*;

use crate::arith::{safe_add, safe_div, safe_mul, safe_sub};
use crate::error::{Error, LedgerError};
use crate::ledger::{AssetLedger, LedgerModel};
use crate::pair::{canonical, AssetPair};
use crate::pricing::{
    calculate_liquidity, lemma_swap_keeps_product, minted_liquidity, swap_output, withdrawal,
    FEE_DENOMINATOR, FEE_NUMERATOR, MIN_LIQUIDITY,
};
use crate::{AccountId, AssetId, Balance};

verus! {

/// The record of one pool: its LP asset, the vault holding its assets, and
/// its reserves of the pair's lower and higher asset.
#[derive(Clone, Copy, Debug, PartialEq, Eq, Structural)]
pub struct LiquidityPool {
    pub id: AssetId,
    pub manager: AccountId,
    pub asset_a_balance: Balance,
    pub asset_b_balance: Balance,
}

/// A ledger result as an exchange result: the ledger's refusal becomes `Error::Ledger`.
fn from_ledger(r: Result<Balance, LedgerError>) -> (o: Result<(), Error>)
    ensures
        r is Ok <==> o is Ok,
        r is Err ==> o == Err::<(), Error>(Error::Ledger(r->Err_0)),
{
    match r {
        Ok(_) => Ok(()),
        Err(e) => Err(Error::Ledger(e)),
    }
}

impl LiquidityPool {
    pub open spec fn with_reserves(self, reserve_a: Balance, reserve_b: Balance) -> LiquidityPool {
        LiquidityPool {
            id: self.id,
            manager: self.manager,
            asset_a_balance: reserve_a,
            asset_b_balance: reserve_b,
        }
    }

    /// Why a deposit of `amount_a` and `amount_b` is refused, if it is.
    pub open spec fn deposit_rejection(
        self,
        ledger: LedgerModel,
        amount_a: Balance,
        amount_b: Balance,
    ) -> Option<Error> {
        let minted = minted_liquidity(
            ledger.issuance(self.id),
            amount_a,
            amount_b,
            self.asset_a_balance,
            self.asset_b_balance,
        );
        if minted is Err {
            Some(minted->Err_0)
        } else if self.asset_a_balance + amount_a > u128::MAX || self.asset_b_balance + amount_b
            > u128::MAX {
            Some(Error::Arithmetic)
        } else {
            None
        }
    }

    /// The ledger after a deposit: the locked minimum issued to the vault if
    /// the pool had no issuance, the provider's LP tokens issued, and both
    /// amounts moved from the provider to the vault.
    pub open spec fn deposited(
        self,
        ledger: LedgerModel,
        pair: AssetPair,
        amount_a: Balance,
        amount_b: Balance,
        who: AccountId,
    ) -> LedgerModel {
        let issuance = ledger.issuance(self.id);
        let lp = minted_liquidity(
            issuance,
            amount_a,
            amount_b,
            self.asset_a_balance,
            self.asset_b_balance,
        )->Ok_0;
        let locked = if issuance == 0 {
            ledger.minted(self.id, self.manager, MIN_LIQUIDITY)
        } else {
            ledger
        };
        locked.minted(self.id, who, lp).transferred(
            pair.asset_a,
            who,
            self.manager,
            amount_a,
        ).transferred(pair.asset_b, who, self.manager, amount_b)
    }

    /// Why burning `lp` LP tokens of `who` is refused, if it is.
    pub open spec fn withdraw_rejection(self, ledger: LedgerModel, lp: Balance, who: AccountId) -> Option<Error> {
        let issuance = ledger.issuance(self.id);
        let out_a = withdrawal(lp, self.asset_a_balance, issuance);
        let out_b = withdrawal(lp, self.asset_b_balance, issuance);
        if ledger.balance(self.id, who) < lp {
            Some(Error::InsufficientBurnBalance)
        } else if out_a is Err {
            Some(out_a->Err_0)
        } else if out_b is Err {
            Some(out_b->Err_0)
        } else if out_a->Ok_0 > self.asset_a_balance || out_b->Ok_0 > self.asset_b_balance {
            Some(Error::Arithmetic)
        } else {
            None
        }
    }

    /// The amounts of the lower and higher asset paid out for burning `lp`.
    pub open spec fn withdrawn_amounts(self, ledger: LedgerModel, lp: Balance) -> (Balance, Balance) {
        let issuance = ledger.issuance(self.id);
        (
            withdrawal(lp, self.asset_a_balance, issuance)->Ok_0,
            withdrawal(lp, self.asset_b_balance, issuance)->Ok_0,
        )
    }

    /// The reserves a swap draws on: `(reserve_in, reserve_out)`.
    pub open spec fn swap_reserves(self, pair: AssetPair, asset_out: AssetId) -> (Balance, Balance) {
        if asset_out == pair.asset_a {
            (self.asset_b_balance, self.asset_a_balance)
        } else {
            (self.asset_a_balance, self.asset_b_balance)
        }
    }

    /// Why a swap of `amount_in` towards `asset_out` is refused, if it is.
    pub open spec fn swap_rejection(self, pair: AssetPair, asset_out: AssetId, amount_in: Balance) -> Option<Error> {
        let (reserve_in, reserve_out) = self.swap_reserves(pair, asset_out);
        let out = swap_output(amount_in, reserve_in, reserve_out);
        if amount_in == 0 {
            Some(Error::InsufficientInputAmount)
        } else if !(reserve_in > amount_in && reserve_out > 0) {
            Some(Error::InsufficientLiquidity)
        } else if out is Err {
            Some(out->Err_0)
        } else if reserve_in + amount_in > u128::MAX {
            Some(Error::Arithmetic)
        } else {
            None
        }
    }

    /// The amount a swap of `amount_in` towards `asset_out` pays out.
    pub open spec fn swap_amount_out(self, pair: AssetPair, asset_out: AssetId, amount_in: Balance) -> Balance {
        let (reserve_in, reserve_out) = self.swap_reserves(pair, asset_out);
        swap_output(amount_in, reserve_in, reserve_out)->Ok_0
    }

    /// The pool after a swap of `amount_in` that paid out `amount_out` of `asset_out`.
    pub open spec fn swapped(
        self,
        pair: AssetPair,
        asset_out: AssetId,
        amount_in: Balance,
        amount_out: Balance,
    ) -> LiquidityPool {
        if asset_out == pair.asset_a {
            self.with_reserves(
                (self.asset_a_balance - amount_out) as Balance,
                (self.asset_b_balance + amount_in) as Balance,
            )
        } else {
            self.with_reserves(
                (self.asset_a_balance + amount_in) as Balance,
                (self.asset_b_balance - amount_out) as Balance,
            )
        }
    }

    /// The output of the fee-adjusted constant-product formula; zero when a
    /// reserve is empty.
    pub fn calculate_output_for(amount_in: Balance, reserve_in: Balance, reserve_out: Balance) -> (r:
        Result<Balance, Error>)
        ensures
            r == swap_output(amount_in, reserve_in, reserve_out),
    {
        if reserve_in == 0 || reserve_out == 0 {
            return Ok(0);
        }
        let amount_with_fee = safe_mul(amount_in, FEE_NUMERATOR)?;
        let numerator = safe_mul(amount_with_fee, reserve_out)?;
        let mut denominator = safe_mul(reserve_in, FEE_DENOMINATOR)?;
        denominator = safe_add(denominator, amount_with_fee)?;
        safe_div(numerator, denominator)
    }

    /// Moves `amount` of `asset` from `from` into the vault.
    fn transfer_in<L: AssetLedger>(
        &self,
        ledger: &mut L,
        asset: AssetId,
        from: AccountId,
        amount: Balance,
    ) -> (r: Result<(), Error>)
        ensures
            r is Ok ==> final(ledger).model() == old(ledger).model().transferred(
                asset,
                from,
                self.manager,
                amount,
            ),
            r is Err ==> r->Err_0 is Ledger,
    {
        from_ledger(ledger.transfer(asset, from, self.manager, amount))
    }

    /// Moves `amount` of `asset` from the vault to `to`.
    fn transfer_out<L: AssetLedger>(
        &self,
        ledger: &mut L,
        asset: AssetId,
        to: AccountId,
        amount: Balance,
    ) -> (r: Result<(), Error>)
        ensures
            r is Ok ==> final(ledger).model() == old(ledger).model().transferred(
                asset,
                self.manager,
                to,
                amount,
            ),
            r is Err ==> r->Err_0 is Ledger,
    {
        from_ledger(ledger.transfer(asset, self.manager, to, amount))
    }

    /// Issues `amount` of this pool's LP asset to `to`.
    fn mint_lp<L: AssetLedger>(&self, ledger: &mut L, to: AccountId, amount: Balance) -> (r: Result<
        (),
        Error,
    >)
        ensures
            r is Ok ==> final(ledger).model() == old(ledger).model().minted(self.id, to, amount),
            r is Err ==> r->Err_0 is Ledger,
    {
        from_ledger(ledger.mint_into(self.id, to, amount))
    }

    /// Deposits `amount_a` of the pair's lower and `amount_b` of its higher
    /// asset from `who`, minting LP tokens to `who` in proportion.
    ///
    /// A refused deposit changes nothing. Otherwise only the ledger can still
    /// refuse; on success the reserves grow by the amounts and the ledger
    /// changes as `deposited` says.
    pub fn add_liquidity<L: AssetLedger>(
        &mut self,
        ledger: &mut L,
        asset_pair: &AssetPair,
        amount_a: Balance,
        amount_b: Balance,
        who: AccountId,
    ) -> (r: Result<(), Error>)
        ensures
            ({
                let rejection = old(self).deposit_rejection(old(ledger).model(), amount_a, amount_b);
                &&& rejection is Some ==> r == Err::<(), Error>(rejection->Some_0) && *final(self)
                    == *old(self) && final(ledger).model() == old(ledger).model()
                &&& rejection is None && r is Ok ==> *final(self) == old(self).with_reserves(
                    (old(self).asset_a_balance + amount_a) as Balance,
                    (old(self).asset_b_balance + amount_b) as Balance,
                ) && final(ledger).model() == old(self).deposited(
                    old(ledger).model(),
                    *asset_pair,
                    amount_a,
                    amount_b,
                    who,
                )
                &&& rejection is None && r is Err ==> r->Err_0 is Ledger
            }),
    {
        let total_issuance = ledger.total_issuance(self.id);
        let liquidity = calculate_liquidity(
            total_issuance,
            amount_a,
            amount_b,
            self.asset_a_balance,
            self.asset_b_balance,
        )?;
        let new_a = safe_add(self.asset_a_balance, amount_a)?;
        let new_b = safe_add(self.asset_b_balance, amount_b)?;
        if total_issuance == 0 {
            self.mint_lp(ledger, self.manager, MIN_LIQUIDITY)?;
        }
        self.mint_lp(ledger, who, liquidity)?;
        self.transfer_in(ledger, asset_pair.asset_a, who, amount_a)?;
        self.transfer_in(ledger, asset_pair.asset_b, who, amount_b)?;
        self.asset_a_balance = new_a;
        self.asset_b_balance = new_b;
        Ok(())
    }

    /// Burns `liquidity` LP tokens of `who` and pays out the same share of
    /// each reserve, rounded down.
    ///
    /// A refused withdrawal changes nothing. Otherwise only the ledger can
    /// still refuse; on success the reserves shrink by the amounts paid out
    /// and the ledger changes accordingly.
    pub fn remove_liquidity<L: AssetLedger>(
        &mut self,
        ledger: &mut L,
        asset_pair: &AssetPair,
        liquidity: Balance,
        who: AccountId,
    ) -> (r: Result<(), Error>)
        ensures
            ({
                let rejection = old(self).withdraw_rejection(old(ledger).model(), liquidity, who);
                let (out_a, out_b) = old(self).withdrawn_amounts(old(ledger).model(), liquidity);
                &&& rejection is Some ==> r == Err::<(), Error>(rejection->Some_0) && *final(self)
                    == *old(self) && final(ledger).model() == old(ledger).model()
                &&& rejection is None && r is Ok ==> *final(self) == old(self).with_reserves(
                    (old(self).asset_a_balance - out_a) as Balance,
                    (old(self).asset_b_balance - out_b) as Balance,
                ) && final(ledger).model() == old(ledger).model().burned(
                    old(self).id,
                    who,
                    liquidity,
                ).transferred(asset_pair.asset_a, old(self).manager, who, out_a).transferred(
                    asset_pair.asset_b,
                    old(self).manager,
                    who,
                    out_b,
                )
                &&& rejection is None && r is Err ==> r->Err_0 is Ledger
            }),
    {
        if ledger.balance(self.id, who) < liquidity {
            return Err(Error::InsufficientBurnBalance);
        }
        let total_issuance = ledger.total_issuance(self.id);
        let ratio_a = safe_mul(liquidity, self.asset_a_balance);
        let ratio_b = safe_mul(liquidity, self.asset_b_balance);
        let amount_a = safe_div(ratio_a?, total_issuance)?;
        let amount_b = safe_div(ratio_b?, total_issuance)?;
        let new_a = safe_sub(self.asset_a_balance, amount_a)?;
        let new_b = safe_sub(self.asset_b_balance, amount_b)?;
        from_ledger(ledger.burn_from(self.id, who, liquidity))?;
        self.transfer_out(ledger, asset_pair.asset_a, who, amount_a)?;
        self.transfer_out(ledger, asset_pair.asset_b, who, amount_b)?;
        self.asset_a_balance = new_a;
        self.asset_b_balance = new_b;
        Ok(())
    }

    /// Swaps `amount_in` of `asset_in` from `who` for `asset_out`, priced by
    /// the fee-adjusted constant-product formula on the pre-trade reserves.
    ///
    /// A refused swap changes nothing. Otherwise only the ledger can still
    /// refuse; on success the in-reserve grows by `amount_in`, the out-reserve
    /// shrinks by the amount paid out, and their product does not decrease.
    pub fn swap<L: AssetLedger>(
        &mut self,
        ledger: &mut L,
        who: AccountId,
        asset_pair: AssetPair,
        asset_in: AssetId,
        asset_out: AssetId,
        amount_in: Balance,
    ) -> (r: Result<(), Error>)
        requires
            asset_pair == canonical(asset_in, asset_out),
            asset_in != asset_out,
        ensures
            ({
                let rejection = old(self).swap_rejection(asset_pair, asset_out, amount_in);
                let out = old(self).swap_amount_out(asset_pair, asset_out, amount_in);
                let (reserve_in, reserve_out) = old(self).swap_reserves(asset_pair, asset_out);
                let (reserve_in_after, reserve_out_after) = final(self).swap_reserves(
                    asset_pair,
                    asset_out,
                );
                &&& rejection is Some ==> r == Err::<(), Error>(rejection->Some_0) && *final(self)
                    == *old(self) && final(ledger).model() == old(ledger).model()
                &&& rejection is None && r is Ok ==> *final(self) == old(self).swapped(
                    asset_pair,
                    asset_out,
                    amount_in,
                    out,
                ) && final(ledger).model() == old(ledger).model().transferred(
                    asset_in,
                    who,
                    old(self).manager,
                    amount_in,
                ).transferred(asset_out, old(self).manager, who, out) && reserve_in_after
                    * reserve_out_after >= reserve_in * reserve_out
                &&& rejection is None && r is Err ==> r->Err_0 is Ledger
            }),
    {
        let (reserve_in, reserve_out) = if asset_out == asset_pair.asset_a {
            (self.asset_b_balance, self.asset_a_balance)
        } else {
            (self.asset_a_balance, self.asset_b_balance)
        };
        if amount_in == 0 {
            return Err(Error::InsufficientInputAmount);
        }
        if !(reserve_in > amount_in && reserve_out > 0) {
            return Err(Error::InsufficientLiquidity);
        }
        let amount_out = Self::calculate_output_for(amount_in, reserve_in, reserve_out)?;
        proof {
            lemma_swap_keeps_product(amount_in as int, reserve_in as int, reserve_out as int);
        }
        let new_in = safe_add(reserve_in, amount_in)?;
        let new_out = reserve_out - amount_out;
        self.transfer_in(ledger, asset_in, who, amount_in)?;
        self.transfer_out(ledger, asset_out, who, amount_out)?;
        if asset_out == asset_pair.asset_a {
            self.asset_a_balance = new_out;
            self.asset_b_balance = new_in;
        } else {
            self.asset_a_balance = new_in;
            self.asset_b_balance = new_out;
        }
        Ok(())
    }
}

} // verus!
