//! The Sale entity: one active listing, its immutable identity, its reserve
//! price, and the current highest bid per payment token.

use vstd::prelude::*;

use crate::assoc_map::AssocMap;

verus! {

/// The current highest bid under one payment token: the offered amount and
/// the account whose tokens back it.
pub struct Bid {
    pub bidder_id: String,
    pub amount: u128,
}

/// One active listing.
pub struct Sale {
    /// The account that listed the item; immutable after creation.
    pub owner_id: String,
    /// Authorization token issued by the non-fungible-item registry.
    pub approval_id: u64,
    /// The source collection the item belongs to.
    pub nft_contract_id: String,
    /// The item identifier within its source collection.
    pub token_id: String,
    /// Reserve price; zero means no reserve.
    pub price: u128,
    /// Highest bid per payment token, keyed by the token collaborator's id.
    pub bids: AssocMap<Bid>,
    /// Creation time, in milliseconds.
    pub created_at: u64,
    /// Fixed end time: creation time plus the requested duration.
    pub end_at: u64,
    /// The payment token this listing accepts bids in.
    pub token_type: String,
}

/// Well-formedness of a sale: it ends after it was created, its owner holds
/// no bid on it, every bid offers a positive amount, and every bid meets the
/// reserve price when one is set.
pub open spec fn sale_wf(s: Sale) -> bool {
    &&& s.bids.wf()
    &&& s.end_at > s.created_at
    &&& forall|t: Seq<char>| #[trigger] s.bids@.contains_key(t) ==> s.bids@[t].bidder_id@
        != s.owner_id@ && s.bids@[t].amount > 0 && (s.price > 0 ==> s.bids@[t].amount >= s.price)
}

} // verus!
