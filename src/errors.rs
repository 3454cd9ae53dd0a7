use vstd::prelude::*;

verus! {

/// Why an operation was refused. A refused operation leaves the registry unchanged.
#[derive(PartialEq, Eq, Structural, Clone, Copy, Debug)]
pub enum DexError {
    /// The registry is not active.
    NotActive,
    /// The pair's state forbids the operation.
    PairNotActive,
    /// No pair holds the given assets.
    NotFound,
    /// The caller has no authority over the pair or the registry.
    NotOwner,
    /// The caller is not on the governance whitelist.
    NotWhitelisted,
    /// Wrong number or kind of payments, or a zero amount.
    InvalidPayment,
    /// The output is below the caller's minimum, or the input above what the caller paid.
    SlippageExceeded,
    /// The pair holds no liquidity where some is needed.
    InsufficientLiquidity,
    /// A pair for the two assets exists already.
    DuplicatePair,
    /// The base asset is still the base of a pair.
    AssetInUse,
    /// The asset is not a base asset, or a pair would hold the same asset twice.
    WrongBaseToken,
    /// The asset is a base asset already.
    BaseTokenExists,
    /// The two fee rates together reach `MAX_PERCENT`.
    InvalidFee,
    /// The platform address is not set yet.
    PlatformNotSet,
    /// The platform address is set already.
    PlatformAlreadySet,
    /// There is no base asset.
    NoBaseTokens,
    /// A zero divisor, a negative difference or an overflow in the pricing formulas.
    ArithmeticFailure,
}

} // verus!
