use vstd::prelude::*;

verus! {

/// Why the asset ledger refused an operation.
#[derive(Clone, Copy, Debug, PartialEq, Eq, Structural)]
pub enum LedgerError {
    /// The asset is not registered.
    UnknownAsset,
    /// An asset with this identifier is registered already.
    AssetExists,
    /// The account holds less than the amount asked for.
    FundsUnavailable,
    /// A balance or the total issuance would exceed the largest `Balance`.
    Overflow,
}

/// Why an operation of the exchange was rejected.
#[derive(Clone, Copy, Debug, PartialEq, Eq, Structural)]
pub enum Error {
    /// There is no asset with the given identifier.
    UnknownAssetId,
    /// The LP asset identifier asked for is taken already.
    AssetIdExists,
    /// No pool exists for the pair.
    LiquidityPoolDoesNotExist,
    /// No LP asset identifier is left to allocate. The exchange takes LP
    /// asset identifiers from the caller, so its own operations never return
    /// this; it is kept for hosts that allocate identifiers themselves.
    AssetLimitReached,
    /// A multiplication, addition or subtraction overflowed, or a division by zero.
    Arithmetic,
    /// The pool holds too little for the operation.
    InsufficientLiquidity,
    /// An amount that must be positive is zero.
    InsufficientInputAmount,
    /// The caller holds fewer LP tokens than it asked to burn.
    InsufficientBurnBalance,
    /// The two assets are the same.
    IdenticalAssets,
    /// The asset ledger refused a transfer, mint, burn or creation.
    Ledger(LedgerError),
}

} // verus!
