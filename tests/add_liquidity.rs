use dex::error::Error;
use dex::ledger::{AssetLedger, MemoryLedger};
use dex::pair::AssetPair;
use dex::pallet::{Event, Pallet};
use dex::pricing::MIN_LIQUIDITY;

const ADMIN: u64 = 1;
const ALICE: u64 = 2;
const VAULT: u64 = 9999;
const MINT_BALANCE: u128 = 1;

fn build(endowed: Vec<(u32, u64, u128)>) -> (Pallet, MemoryLedger) {
    let mut ledger = MemoryLedger::new();
    for (asset, who, amount) in endowed {
        assert_eq!(ledger.create(asset, ADMIN, MINT_BALANCE), Ok(()));
        assert_eq!(ledger.mint_into(asset, who, amount), Ok(amount));
    }
    (Pallet::new(VAULT), ledger)
}

fn expand_to_decimals(n: u128) -> u128 {
    n * 10u128.pow(10u32)
}

#[test]
fn add_liquidity_mint_works() {
    let asset_a: u32 = 1001;
    let asset_b: u32 = 1002;
    let pool_id: u32 = 10000;
    let amount_a: u128 = expand_to_decimals(1u128);
    let amount_b: u128 = expand_to_decimals(4u128);
    let (mut dex, mut ledger) = build(vec![(asset_a, ALICE, amount_a), (asset_b, ALICE, amount_b)]);

    let expected_liquidity = expand_to_decimals(2u128);
    assert_eq!(dex.mint(&mut ledger, ALICE, pool_id, asset_a, asset_b, amount_a, amount_b), Ok(()));

    let pool = dex.pool(asset_a, asset_b).unwrap();

    // Internal balances should be updated
    assert_eq!(pool.asset_a_balance, amount_a);
    assert_eq!(pool.asset_b_balance, amount_b);

    // Minting of LP Tokens occurred
    assert_eq!(ledger.total_issuance(pool.id), expected_liquidity);
    assert_eq!(ledger.balance(pool.id, ALICE), expected_liquidity - MIN_LIQUIDITY);

    // User balances have been updated
    assert_eq!(ledger.balance(asset_a, ALICE), 0);
    assert_eq!(ledger.balance(asset_b, ALICE), 0);

    // Vault balances have been updated
    assert_eq!(ledger.balance(asset_a, pool.manager), amount_a);
    assert_eq!(ledger.balance(asset_b, pool.manager), amount_b);

    // Ensure correct events are emitted
    assert!(dex.events.contains(&Event::LiquidityPoolCreated(pool_id, asset_a, asset_b)));
    assert!(dex.events.contains(&Event::LiquidityAdded(asset_a, asset_b, amount_a, amount_b)));
}

#[test]
fn mint_works_with_same_asset_in_multiple_pools() {
    let asset_a: u32 = 1001;
    let asset_b: u32 = 1002;
    let asset_c: u32 = 1003;
    let pool_id: u32 = 10000;
    let pool_id_2: u32 = 10001;
    let total: u128 = expand_to_decimals(100u128);
    let amount_a: u128 = expand_to_decimals(1u128);
    let amount_b: u128 = expand_to_decimals(4u128);
    let amount_c: u128 = expand_to_decimals(10u128);
    let burn_amount: u128 = expand_to_decimals(1u128);
    let (mut dex, mut ledger) =
        build(vec![(asset_a, ALICE, total), (asset_b, ALICE, total), (asset_c, ALICE, total)]);

    // Create pool for A - B
    assert_eq!(dex.mint(&mut ledger, ALICE, pool_id, asset_a, asset_b, amount_a, amount_b), Ok(()));
    // Create pool for A - C
    assert_eq!(
        dex.mint(&mut ledger, ALICE, pool_id_2, asset_a, asset_c, amount_a, amount_c),
        Ok(())
    );
    assert_eq!(dex.burn(&mut ledger, ALICE, asset_a, asset_c, burn_amount), Ok(()));

    // Removing from one pool shouldn't affect the reserves in another
    let first_pool = dex.pool(asset_a, asset_b).unwrap();
    let second_pool = dex.pool(asset_a, asset_c).unwrap();

    // Balances in the first pool should not be affected
    assert_eq!(first_pool.asset_a_balance, amount_a);
    assert_eq!(first_pool.asset_b_balance, amount_b);

    // Liquidity should be removed from second pool
    assert_eq!(second_pool.asset_a_balance, 6837722340);
    assert_eq!(second_pool.asset_b_balance, 68377223398);

    // Vault balances have been updated
    assert_eq!(ledger.balance(asset_a, first_pool.manager), 16837722340);
    assert_eq!(ledger.balance(asset_b, first_pool.manager), amount_b);
}

#[test]
fn mint_works_increments_counter_on_multiple_pools() {
    let asset_a: u32 = 1001;
    let asset_b: u32 = 1002;
    let asset_c: u32 = 1003;
    let pool_id: u32 = 10000;
    let pool_id_2: u32 = 10001;
    let total: u128 = expand_to_decimals(10u128);
    let amount_a: u128 = expand_to_decimals(1u128);
    let amount_b: u128 = expand_to_decimals(4u128);
    let (mut dex, mut ledger) =
        build(vec![(asset_a, ALICE, total), (asset_b, ALICE, total), (asset_c, ALICE, total)]);

    let expected_liquidity = expand_to_decimals(2u128);
    // Create the first pool
    assert_eq!(dex.mint(&mut ledger, ALICE, pool_id, asset_a, asset_b, amount_a, amount_b), Ok(()));
    assert_eq!(
        dex.mint(&mut ledger, ALICE, pool_id_2, asset_a, asset_c, amount_a, amount_b),
        Ok(())
    );

    let pool = dex.pool(asset_a, asset_c).unwrap();

    // Minting of LP Tokens occurred
    assert_eq!(ledger.total_issuance(pool.id), expected_liquidity);
    assert_eq!(ledger.balance(pool.id, ALICE), expected_liquidity - MIN_LIQUIDITY);
    assert_eq!(pool.id, pool_id_2);
}

#[test]
fn mint_works_with_existing_pool() {
    let asset_a: u32 = 1001;
    let asset_b: u32 = 1002;
    let pool_id: u32 = 10000;
    let pool_id_2: u32 = 10001;
    let total_a: u128 = expand_to_decimals(100u128);
    let total_b: u128 = expand_to_decimals(100u128);
    let amount_a: u128 = expand_to_decimals(10u128);
    let amount_b: u128 = expand_to_decimals(40u128);
    let second_amount_a: u128 = expand_to_decimals(50u128);
    let second_amount_b: u128 = expand_to_decimals(10u128);
    let (mut dex, mut ledger) = build(vec![(asset_a, ALICE, total_a), (asset_b, ALICE, total_b)]);

    let expected_liquidity = expand_to_decimals(25u128);
    assert_eq!(dex.mint(&mut ledger, ALICE, pool_id, asset_a, asset_b, amount_a, amount_b), Ok(()));
    let pool_key = AssetPair { asset_a, asset_b };
    let pool = dex.pools.get(&pool_key).unwrap();
    assert_eq!(ledger.total_issuance(pool.id), expand_to_decimals(20u128));

    assert_eq!(
        dex.mint(
            &mut ledger,
            ALICE,
            pool_id_2,
            asset_a,
            asset_b,
            second_amount_a,
            second_amount_b
        ),
        Ok(())
    );

    // Minting of LP Tokens occurred
    assert_eq!(ledger.total_issuance(pool.id), expected_liquidity);
    assert_eq!(ledger.balance(pool.id, ALICE), expected_liquidity - MIN_LIQUIDITY);

    // User balances have been updated
    assert_eq!(ledger.balance(asset_a, ALICE), total_a - amount_a - second_amount_a);
    assert_eq!(ledger.balance(asset_b, ALICE), total_b - amount_b - second_amount_b);

    // Vault balances have been updated
    assert_eq!(ledger.balance(asset_a, pool.manager), amount_a + second_amount_a);
    assert_eq!(ledger.balance(asset_b, pool.manager), amount_b + second_amount_b);

    // Ensure correct events are emitted
    assert!(dex.events.contains(&Event::LiquidityPoolCreated(pool_id, asset_a, asset_b)));
    assert!(dex.events.contains(&Event::LiquidityAdded(
        asset_a,
        asset_b,
        second_amount_a,
        second_amount_b
    )));
}

#[test]
fn mint_fails_with_invalid_assets() {
    let asset_a: u32 = 1001;
    let asset_b: u32 = 1002;
    let pool_id: u32 = 10000;
    let amount_a: u128 = expand_to_decimals(1u128);
    let amount_b: u128 = expand_to_decimals(4u128);
    let (mut dex, mut ledger) = build(vec![(asset_a, ALICE, amount_a), (asset_b, ALICE, amount_b)]);

    assert_eq!(
        dex.mint(&mut ledger, ALICE, pool_id, asset_a, asset_a, amount_a, amount_b),
        Err(Error::IdenticalAssets)
    );
    assert!(dex.events.is_empty());
    assert!(!ledger.asset_exists(pool_id));
}

#[test]
fn mint_fails_with_token_a_0_amount() {
    let asset_a: u32 = 1001;
    let asset_b: u32 = 1002;
    let pool_id: u32 = 10000;
    let amount_a: u128 = expand_to_decimals(1u128);
    let amount_b: u128 = expand_to_decimals(4u128);
    let (mut dex, mut ledger) = build(vec![(asset_a, ALICE, amount_a), (asset_b, ALICE, amount_b)]);

    assert_eq!(
        dex.mint(&mut ledger, ALICE, pool_id, asset_a, asset_b, 0, amount_b),
        Err(Error::InsufficientInputAmount)
    );
    assert_eq!(dex.pool(asset_a, asset_b), None);
}

#[test]
fn mint_fails_with_token_b_0_amount() {
    let asset_a: u32 = 1001;
    let asset_b: u32 = 1002;
    let pool_id: u32 = 10000;
    let amount_a: u128 = expand_to_decimals(1u128);
    let amount_b: u128 = expand_to_decimals(4u128);
    let (mut dex, mut ledger) = build(vec![(asset_a, ALICE, amount_a), (asset_b, ALICE, amount_b)]);

    assert_eq!(
        dex.mint(&mut ledger, ALICE, pool_id, asset_a, asset_b, amount_a, 0),
        Err(Error::InsufficientInputAmount)
    );
    assert_eq!(dex.pool(asset_a, asset_b), None);
}

#[test]
fn mint_fails_with_insufficient_liquidity() {
    let asset_a: u32 = 1001;
    let asset_b: u32 = 1002;
    let pool_id: u32 = 10000;
    let amount_a: u128 = 1;
    let amount_b: u128 = 4;
    let (mut dex, mut ledger) = build(vec![(asset_a, ALICE, amount_a), (asset_b, ALICE, amount_b)]);

    assert_eq!(
        dex.mint(&mut ledger, ALICE, pool_id, asset_a, asset_b, amount_a, amount_b),
        Err(Error::InsufficientLiquidity)
    );
    // Nothing was created or moved
    assert!(!ledger.asset_exists(pool_id));
    assert_eq!(ledger.balance(asset_a, ALICE), amount_a);
    assert_eq!(ledger.balance(asset_b, ALICE), amount_b);
}

#[test]
fn mint_fails_with_unknown_asset_id_a() {
    let asset_a: u32 = 1001;
    let asset_b: u32 = 1002;
    let pool_id: u32 = 10000;
    let amount_a: u128 = 1;
    let amount_b: u128 = 4;
    let (mut dex, mut ledger) = build(vec![(asset_a, ALICE, amount_a)]);

    assert_eq!(
        dex.mint(&mut ledger, ALICE, pool_id, asset_a, asset_b, amount_a, amount_b),
        Err(Error::UnknownAssetId)
    );
}

#[test]
fn mint_fails_with_unknown_asset_id_b() {
    let asset_a: u32 = 1001;
    let asset_b: u32 = 1002;
    let pool_id: u32 = 10000;
    let amount_a: u128 = 1;
    let amount_b: u128 = 4;
    let (mut dex, mut ledger) = build(vec![(asset_b, ALICE, amount_b)]);

    assert_eq!(
        dex.mint(&mut ledger, ALICE, pool_id, asset_a, asset_b, amount_a, amount_b),
        Err(Error::UnknownAssetId)
    );
}
