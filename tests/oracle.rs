use dex::error::Error;
use dex::ledger::{AssetLedger, MemoryLedger};
use dex::pallet::Pallet;
use sp_arithmetic::Perbill;

const ADMIN: u64 = 1;
const ALICE: u64 = 2;
const VAULT: u64 = 9999;
const MINT_BALANCE: u128 = 1;
const POOL_ID: u32 = 10000;

fn build(endowed: Vec<(u32, u64, u128)>) -> (Pallet, MemoryLedger) {
    let mut ledger = MemoryLedger::new();
    for (asset, who, amount) in endowed {
        assert_eq!(ledger.create(asset, ADMIN, MINT_BALANCE), Ok(()));
        assert_eq!(ledger.mint_into(asset, who, amount), Ok(amount));
    }
    (Pallet::new(VAULT), ledger)
}

fn expand_to_decimals(n: u128) -> u128 {
    n * 10u128.pow(10u32)
}

/// A pool of `amount_a` of 1001 and `amount_b` of 1002, all of it ALICE's.
fn pool_of(amount_a: u128, amount_b: u128) -> (Pallet, MemoryLedger) {
    let (mut dex, mut ledger) = build(vec![(1001, ALICE, amount_a), (1002, ALICE, amount_b)]);
    assert_eq!(dex.mint(&mut ledger, ALICE, POOL_ID, 1001, 1002, amount_a, amount_b), Ok(()));
    (dex, ledger)
}

#[test]
fn fetching_token_ratio_works_on_a_to_b() {
    let asset_a: u32 = 1001;
    let asset_b: u32 = 1002;
    let (dex, ledger) = pool_of(expand_to_decimals(10u128), expand_to_decimals(50u128));
    assert_eq!(
        dex.ratio(&ledger, asset_a, asset_b),
        Ok(Perbill::from_percent(20).deconstruct())
    );
}

#[test]
fn fetching_token_ratio_works_on_b_to_a() {
    let asset_a: u32 = 1001;
    let asset_b: u32 = 1002;
    let (dex, ledger) = pool_of(expand_to_decimals(100u128), expand_to_decimals(50u128));
    assert_eq!(
        dex.ratio(&ledger, asset_b, asset_a),
        Ok(Perbill::from_percent(50).deconstruct())
    );
}

#[test]
fn fetching_token_ratio_fails_on_identical_assets() {
    let asset_a: u32 = 1001;
    let (dex, ledger) = pool_of(expand_to_decimals(10u128), expand_to_decimals(50u128));
    assert_eq!(dex.ratio(&ledger, asset_a, asset_a), Err(Error::IdenticalAssets));
}

#[test]
fn fetching_token_ratio_fails_on_nonexistent_pool() {
    let asset_a: u32 = 1001;
    let asset_b: u32 = 1002;
    let (dex, ledger) = build(vec![
        (asset_a, ALICE, expand_to_decimals(10u128)),
        (asset_b, ALICE, expand_to_decimals(50u128)),
    ]);
    assert_eq!(dex.ratio(&ledger, asset_a, asset_b), Err(Error::LiquidityPoolDoesNotExist));
}

#[test]
fn fetching_token_ratio_fails_on_unknown_asset_a() {
    let asset_a: u32 = 1001;
    let asset_b: u32 = 1002;
    let (dex, ledger) = build(vec![(asset_b, ALICE, expand_to_decimals(50u128))]);
    assert_eq!(dex.ratio(&ledger, asset_a, asset_b), Err(Error::UnknownAssetId));
}

#[test]
fn fetching_token_ratio_fails_on_unknown_asset_b() {
    let asset_a: u32 = 1001;
    let asset_b: u32 = 1002;
    let (dex, ledger) = build(vec![(asset_a, ALICE, expand_to_decimals(10u128))]);
    assert_eq!(dex.ratio(&ledger, asset_a, asset_b), Err(Error::UnknownAssetId));
}

#[test]
fn fetching_price_for_works_from_a_b() {
    let asset_a: u32 = 1001;
    let asset_b: u32 = 1002;
    let (dex, ledger) = pool_of(expand_to_decimals(10u128), expand_to_decimals(50u128));
    assert_eq!(dex.get_price_for(&ledger, asset_a, 1, asset_b), Ok(4));
}

#[test]
fn fetching_price_for_works_from_b_a() {
    let asset_a: u32 = 1001;
    let asset_b: u32 = 1002;
    let (dex, ledger) = pool_of(expand_to_decimals(300u128), expand_to_decimals(40u128));
    assert_eq!(dex.get_price_for(&ledger, asset_b, 1, asset_a), Ok(7));
}

#[test]
fn fetching_price_fails_on_identical_assets() {
    let asset_a: u32 = 1001;
    let (dex, ledger) = pool_of(expand_to_decimals(10u128), expand_to_decimals(50u128));
    assert_eq!(dex.get_price_for(&ledger, asset_a, 1, asset_a), Err(Error::IdenticalAssets));
}

#[test]
fn fetching_price_fails_on_nonexistent_pool() {
    let asset_a: u32 = 1001;
    let asset_b: u32 = 1002;
    let (dex, ledger) = build(vec![
        (asset_a, ALICE, expand_to_decimals(10u128)),
        (asset_b, ALICE, expand_to_decimals(50u128)),
    ]);
    assert_eq!(
        dex.get_price_for(&ledger, asset_a, 1, asset_b),
        Err(Error::LiquidityPoolDoesNotExist)
    );
}

#[test]
fn fetching_price_fails_on_unknown_asset_a() {
    let asset_a: u32 = 1001;
    let asset_b: u32 = 1002;
    let (dex, ledger) = build(vec![(asset_b, ALICE, expand_to_decimals(50u128))]);
    assert_eq!(dex.get_price_for(&ledger, asset_a, 1, asset_b), Err(Error::UnknownAssetId));
}

#[test]
fn fetching_price_fails_on_unknown_asset_b() {
    let asset_a: u32 = 1001;
    let asset_b: u32 = 1002;
    let (dex, ledger) = build(vec![(asset_a, ALICE, expand_to_decimals(10u128))]);
    assert_eq!(dex.get_price_for(&ledger, asset_a, 1, asset_b), Err(Error::UnknownAssetId));
}
