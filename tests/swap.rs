use dex::error::Error;
use sp_arithmetic::FixedU128;
use dex::ledger::{AssetLedger, MemoryLedger};
use dex::pallet::Pallet;

const ADMIN: u64 = 1;
const ALICE: u64 = 2;
const VAULT: u64 = 9999;
const MINT_BALANCE: u128 = 1;

fn build(endowed: Vec<(u32, u64, u128)>) -> (Pallet, MemoryLedger) {
    let mut ledger = MemoryLedger::new();
    for (asset, who, amount) in endowed {
        assert_eq!(ledger.create(asset, ADMIN, MINT_BALANCE), Ok(()));
        assert_eq!(ledger.mint_into(asset, who, amount), Ok(amount));
    }
    (Pallet::new(VAULT), ledger)
}

fn expand_to_decimals(n: u128) -> u128 {
    n * 10u128.pow(10u32)
}

fn decimals_to_numeric(n: u128) -> u128 {
    FixedU128::from_inner(n).div(FixedU128::from(10u128.pow(10u32))).into_inner()
}

#[test]
fn swap_swapping_token_a_works() {
    let asset_a: u32 = 1001;
    let asset_b: u32 = 1002;
    let total_a: u128 = expand_to_decimals(100u128);
    let total_b: u128 = expand_to_decimals(100u128);
    let amount_a: u128 = expand_to_decimals(10u128);
    let amount_b: u128 = expand_to_decimals(10u128);
    let pool_id: u32 = 10000;
    let (mut dex, mut ledger) = build(vec![(asset_a, ALICE, total_a), (asset_b, ALICE, total_b)]);

    let swap_amount = expand_to_decimals(1u128);
    assert_eq!(dex.mint(&mut ledger, ALICE, pool_id, asset_a, asset_b, amount_a, amount_b), Ok(()));
    assert_eq!(dex.swap(&mut ledger, ALICE, asset_a, asset_b, swap_amount), Ok(()));

    let pool = dex.pool(asset_a, asset_b).unwrap();

    assert_eq!(ledger.balance(asset_a, pool.manager), expand_to_decimals(11u128));
    let pool_asset_b = decimals_to_numeric(ledger.balance(asset_b, pool.manager));
    assert_eq!(pool_asset_b, 9u128);

    let alice_asset_a = decimals_to_numeric(ledger.balance(asset_a, ALICE));
    assert_eq!(alice_asset_a, 89u128);
    let alice_asset_b = decimals_to_numeric(ledger.balance(asset_b, ALICE));
    assert_eq!(alice_asset_b, 91u128);
}

#[test]
fn swap_swapping_token_b_works() {
    let asset_a: u32 = 1001;
    let asset_b: u32 = 1002;
    let amount_a: u128 = expand_to_decimals(50u128);
    let amount_b: u128 = expand_to_decimals(10u128);
    let pool_id: u32 = 10000;
    let (mut dex, mut ledger) = build(vec![(asset_a, ALICE, amount_a), (asset_b, ALICE, amount_b)]);

    let mint_amount_b = expand_to_decimals(5u128);
    let swap_amount = expand_to_decimals(1u128);
    assert_eq!(
        dex.mint(&mut ledger, ALICE, pool_id, asset_a, asset_b, amount_b, mint_amount_b),
        Ok(())
    );
    assert_eq!(dex.swap(&mut ledger, ALICE, asset_b, asset_a, swap_amount), Ok(()));

    let pool = dex.pool(asset_a, asset_b).unwrap();

    let pool_asset_a = decimals_to_numeric(ledger.balance(asset_a, pool.manager));
    assert_eq!(pool_asset_a, 8u128);
    let pool_asset_b = decimals_to_numeric(ledger.balance(asset_b, pool.manager));
    assert_eq!(pool_asset_b, 6u128);

    let alice_asset_a = decimals_to_numeric(ledger.balance(asset_a, ALICE));
    assert_eq!(alice_asset_a, 42u128);
    let alice_asset_b = decimals_to_numeric(ledger.balance(asset_b, ALICE));
    assert_eq!(alice_asset_b, 4);
}

#[test]
fn swapping_fails_on_non_existing_pool() {
    let asset_a: u32 = 1001;
    let asset_b: u32 = 1002;
    let amount_a: u128 = expand_to_decimals(50u128);
    let amount_b: u128 = expand_to_decimals(10u128);
    let (mut dex, mut ledger) = build(vec![(asset_a, ALICE, amount_a), (asset_b, ALICE, amount_b)]);

    let swap_amount = expand_to_decimals(1u128);
    assert_eq!(
        dex.swap(&mut ledger, ALICE, asset_a, asset_b, swap_amount),
        Err(Error::LiquidityPoolDoesNotExist)
    );
}

#[test]
fn swapping_fails_on_idential_assets() {
    let asset_a: u32 = 1001;
    let asset_b: u32 = 1002;
    let amount_a: u128 = expand_to_decimals(50u128);
    let amount_b: u128 = expand_to_decimals(10u128);
    let (mut dex, mut ledger) = build(vec![(asset_a, ALICE, amount_a), (asset_b, ALICE, amount_b)]);

    let swap_amount = expand_to_decimals(1u128);
    assert_eq!(
        dex.swap(&mut ledger, ALICE, asset_a, asset_a, swap_amount),
        Err(Error::IdenticalAssets)
    );
}

#[test]
fn swapping_fails_on_zero_amount_in() {
    let asset_a: u32 = 1001;
    let asset_b: u32 = 1002;
    let amount_a: u128 = expand_to_decimals(50u128);
    let amount_b: u128 = expand_to_decimals(10u128);
    let pool_id: u32 = 10000;
    let (mut dex, mut ledger) = build(vec![(asset_a, ALICE, amount_a), (asset_b, ALICE, amount_b)]);

    assert_eq!(dex.mint(&mut ledger, ALICE, pool_id, asset_a, asset_b, amount_a, amount_b), Ok(()));
    let before = dex.pool(asset_a, asset_b);
    assert_eq!(
        dex.swap(&mut ledger, ALICE, asset_a, asset_b, 0),
        Err(Error::InsufficientInputAmount)
    );
    assert_eq!(dex.pool(asset_a, asset_b), before);
}

#[test]
fn swapping_fails_on_greater_than_pool_amount() {
    let asset_a: u32 = 1001;
    let asset_b: u32 = 1002;
    let amount_a: u128 = expand_to_decimals(50u128);
    let amount_b: u128 = expand_to_decimals(10u128);
    let pool_id: u32 = 10000;
    let (mut dex, mut ledger) = build(vec![(asset_a, ALICE, amount_a), (asset_b, ALICE, amount_b)]);

    assert_eq!(dex.mint(&mut ledger, ALICE, pool_id, asset_a, asset_b, amount_a, amount_b), Ok(()));
    let swap_amount = expand_to_decimals(60u128);
    let before = dex.pool(asset_a, asset_b);
    assert_eq!(
        dex.swap(&mut ledger, ALICE, asset_a, asset_b, swap_amount),
        Err(Error::InsufficientLiquidity)
    );
    assert_eq!(dex.pool(asset_a, asset_b), before);
}
