use vstd::prelude::*;

verus! {

/// Why an oracle call was rejected. Every rejection aborts the whole call
/// and leaves previously committed state untouched.
#[derive(Clone, Copy, Debug, PartialEq, Eq, Structural)]
pub enum OracleError {
    /// The caller lacks administrator or signer rights.
    Unauthorized,
    /// A pair with this symbol is already registered.
    AlreadyExists,
    /// The pair, provider-qualified entry, or registry does not exist.
    NotFound,
    /// Parallel array arguments have unequal lengths.
    LengthMismatch,
    /// The presented round id is not the pair's current round.
    RoundMismatch,
    /// Fewer submissions than the pair's minimum signer count.
    InsufficientSigners,
    /// A submitting key is not in the pair's signer set.
    UnauthorizedSigner,
    /// A signature did not verify against the canonical message.
    InvalidSignature,
    /// The same signer appears twice in one batch.
    DuplicateSigner,
    /// Submitted prices are not sorted ascending.
    UnsortedPrices,
    /// The freshness filter excluded every candidate entry.
    InsufficientFreshData,
}

/// Why a storage-balance call was rejected.
#[derive(Clone, Copy, Debug, PartialEq, Eq, Structural)]
pub enum StorageError {
    /// The attached deposit is below the required minimum.
    DepositTooLow,
    /// The call requires an attached deposit of exactly one unit.
    OneYoctoRequired,
    /// The account's available balance does not cover the request.
    InsufficientBalance,
}

} // verus!
