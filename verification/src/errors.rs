//! Error taxonomy of the marketplace core: authorization failures, request
//! validation failures, missing references, and the admission re-check that
//! guards storage quota at commit time.

use vstd::prelude::*;

verus! {

#[derive(Clone, Copy, Debug, PartialEq, Eq)]
pub enum MarketError {
    /// The relaying caller is not the source collection named in the request.
    CallerMismatch,
    /// The claimed owner is not the transaction signer.
    SignerMismatch,
    /// A listing must run for a positive duration.
    ZeroDuration,
    /// The requested payment token is not recognized by this marketplace.
    UnsupportedToken,
    /// The account has not paid enough storage for one more listing; names
    /// the paid amount and the amount one more listing would require.
    InsufficientStorage { paid: u128, required: u128 },
    /// The post-validation storage re-check failed at commit time.
    AdmissionRace,
    /// No sale exists under the referenced listing identifier.
    SaleNotFound,
    /// The owner of a sale may not bid on it.
    SelfBid,
    /// A bid must offer a positive amount.
    ZeroAmount,
    /// A bid must meet the reserve price when one is set.
    BelowReserve,
}

/// Outcome of a successful listing request.
#[derive(Clone, Copy, Debug, PartialEq, Eq)]
pub enum ListingOutcome {
    /// The sale was created and indexed.
    Created,
    /// No payment token was supplied, so no sale was created; the request
    /// passes validation but commits nothing.
    SkippedNoPaymentToken,
}

} // verus!
