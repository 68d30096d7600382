//! The canonical, direction-independent key of a pool.
use vstd::prelude::*;

use crate::AssetId;

verus! {

/// An unordered pair of assets in canonical form: `asset_a <= asset_b`.
#[derive(Clone, Copy, Debug, PartialEq, Eq, Structural)]
pub struct AssetPair {
    pub asset_a: AssetId,
    pub asset_b: AssetId,
}

/// The canonical pair of `x` and `y`: the smaller identifier first.
pub open spec fn canonical(x: AssetId, y: AssetId) -> AssetPair {
    if x <= y {
        AssetPair { asset_a: x, asset_b: y }
    } else {
        AssetPair { asset_a: y, asset_b: x }
    }
}

impl AssetPair {
    /// The pair is in canonical order.
    pub open spec fn is_canonical(self) -> bool {
        self.asset_a <= self.asset_b
    }

    /// Orders the two assets; the same key results whichever comes first.
    pub fn new(asset_one: AssetId, asset_two: AssetId) -> (r: AssetPair)
        ensures
            r == canonical(asset_one, asset_two),
            r.is_canonical(),
            r == canonical(asset_two, asset_one),
    {
        if asset_one <= asset_two {
            AssetPair { asset_a: asset_one, asset_b: asset_two }
        } else {
            AssetPair { asset_a: asset_two, asset_b: asset_one }
        }
    }
}

} // verus!
