//! Why a call into the contract was refused.
use vstd::prelude::*;

verus! {

/// Every refusal aborts the call that caused it and leaves the state as it was.
#[derive(Debug, Clone, Copy, PartialEq, Eq, Structural)]
pub enum FungifierError {
    /// The account has no ledger entry.
    NotRegistered,
    /// The account is registered already.
    AlreadyRegistered,
    /// The sender's balance is not strictly greater than the amount moved.
    InsufficientShares,
    /// Assigning the shares would record more than the total supply.
    ExceedsSupply,
    /// The attached payment is not the exact amount the call requires.
    InvalidDeposit,
    /// The attached payment does not exceed the sale price.
    InsufficientDeposit,
    /// A motion with this identifier already exists.
    DuplicateMotionId,
    /// No motion has this identifier.
    MotionNotFound,
    /// The motion exists but is not a sale motion.
    NotASaleMotion,
    /// The caller may not perform this action.
    NotAuthorized,
    /// A sale is waiting for its hand-off to be resolved.
    SaleInProgress,
    /// The asset has already been sold.
    AlreadySold,
    /// There are no proceeds to cash out: the asset has not been sold.
    NotSold,
    /// A settlement was reported while none was pending.
    NoSaleInProgress,
    /// The payout cannot be computed within 128 bits, or the supply is zero.
    PayoutOverflow,
}

} // verus!
