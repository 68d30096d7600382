//! A constant-product automated market maker.
//!
//! Pools of two fungible assets, proportional liquidity shares minted as an
//! LP asset, fee-adjusted swaps and read-only price queries, with every
//! operation stated and proved over a mathematical model of the pools and of
//! the asset ledger they run against.
use vstd::prelude::*;

pub mod arith;
pub mod error;
pub mod ledger;
pub mod pair;
pub mod pallet;
pub mod pool;
pub mod registry;
pub mod pricing;

verus! {

/// Identifier of a fungible asset (the LP assets included).
pub type AssetId = u32;

/// Amount of a fungible asset.
pub type Balance = u128;

/// Identity of an account on the asset ledger.
pub type AccountId = u64;

} // verus!
