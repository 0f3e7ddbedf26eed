use vstd::prelude::*;

verus! {

/// Why an operation was refused.
///
/// Identity errors (`IdenticalAssets`, `UnorderedAssets`, `AlreadyExists`)
/// are raised before any state is read beyond the registry lookup; economic
/// errors (`ZeroLiquidity`, `RatioMismatch`, `InsufficientShares`,
/// `InsufficientVaultBalance`, `SlippageExceeded`, `ZeroAmount`) after the
/// would-be result is computed but before any mutation; numeric errors
/// (`ArithmeticOverflow`) whenever a result would not fit its word.
/// A call that returns any of these is a no-op on the pool.
#[derive(Clone, Copy, Debug, PartialEq, Eq, Structural)]
pub enum ErrorCode {
    /// The two assets of a would-be pool are the same.
    IdenticalAssets,
    /// The two assets of a would-be pool are not in canonical order.
    UnorderedAssets,
    /// A pool for this unordered pair already exists.
    AlreadyExists,
    /// A deposit so small that it would mint zero shares, or a swap against
    /// a pool that holds no liquidity.
    ZeroLiquidity,
    /// A follow-up deposit whose amounts do not match the pool's ratio.
    RatioMismatch,
    /// A withdrawal of more shares than the supply backs.
    InsufficientShares,
    /// A vault debit of more than the vault holds.
    InsufficientVaultBalance,
    /// The swap output fell below the caller's minimum.
    SlippageExceeded,
    /// A result would not fit in 64 bits; the call fails closed.
    ArithmeticOverflow,
    /// A swap of a zero input amount.
    ZeroAmount,
}

} // verus!
