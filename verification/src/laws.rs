//! The library-wide laws, stated over the same spec functions the operation
//! contracts use, and proved from what `market` states.

use vstd::prelude::*;

use crate::errors::MarketError;
use crate::market::{Contract, SaleArgs, bid_error, listing_error};
use crate::sale_index::spec_index_insert;

verus! {

/// Every sale in a well-formed store ends strictly after it was created,
/// and its owner never stands behind any of its bids.
pub proof fn lemma_sale_invariants(c: Contract, l: Seq<char>)
    requires
        c.wf(),
        c.sales@.contains_key(l),
    ensures
        c.sales@[l].end_at > c.sales@[l].created_at,
        forall|t: Seq<char>| #[trigger] c.sales@[l].bids@.contains_key(t)
            ==> c.sales@[l].bids@[t].bidder_id@ != c.sales@[l].owner_id@,
{
}

/// A listing id stands in the owner index and in the collection index
/// exactly when the corresponding sale exists in the registry.
pub proof fn lemma_indexes_match_registry(c: Contract, l: Seq<char>)
    requires
        c.wf(),
    ensures
        c.sales@.contains_key(l) <==> (c.by_owner_id@.contains_key(c.sales@[l].owner_id@)
            && c.by_owner_id@[c.sales@[l].owner_id@].contains(l)),
        c.sales@.contains_key(l) <==> (c.by_nft_contract_id@.contains_key(
            c.sales@[l].nft_contract_id@,
        ) && c.by_nft_contract_id@[c.sales@[l].nft_contract_id@].contains(l)),
        forall|o: Seq<char>|
            c.by_owner_id@.contains_key(o) && #[trigger] c.by_owner_id@[o].contains(l)
                ==> c.sales@.contains_key(l),
{
}

/// No account ever owns more listings than its storage deposit covers.
pub proof fn lemma_storage_quota_respected(c: Contract, owner: Seq<char>)
    requires
        c.wf(),
        c.by_owner_id@.contains_key(owner),
    ensures
        c.storage.spec_paid(owner) >= c.by_owner_id.count_of(owner) * c.storage.cost_per_sale,
{
}

/// A listing request with a zero duration is always rejected, whatever the
/// other fields hold.
pub proof fn lemma_zero_duration_rejected(
    c: Contract,
    args: SaleArgs,
    owner_id: Seq<char>,
    caller_id: Seq<char>,
    signer_id: Seq<char>,
)
    requires
        args.period == 0,
    ensures
        listing_error(c, args, owner_id, caller_id, signer_id) is Some,
{
}

/// A listing request by an account whose deposit does not cover one more
/// listing is always rejected. That the rejected attempt changes no state
/// is part of the intake's own contract.
pub proof fn lemma_insufficient_storage_rejected(
    c: Contract,
    args: SaleArgs,
    owner_id: Seq<char>,
    caller_id: Seq<char>,
    signer_id: Seq<char>,
)
    requires
        c.storage.spec_paid(owner_id) < c.storage.required_for(
            c.by_owner_id.count_of(owner_id) + 1,
        ),
    ensures
        listing_error(c, args, owner_id, caller_id, signer_id) is Some,
{
}

/// A bid offering nothing is always rejected.
pub proof fn lemma_zero_amount_bid_rejected(
    c: Contract,
    key: Seq<char>,
    sender_id: Seq<char>,
)
    ensures
        bid_error(c, key, sender_id, 0) is Some,
{
}

/// A bid below a positive reserve price is always rejected.
pub proof fn lemma_below_reserve_rejected(
    c: Contract,
    key: Seq<char>,
    sender_id: Seq<char>,
    amount: u128,
)
    requires
        c.sales@.contains_key(key),
        c.sales@[key].price > 0,
        amount < c.sales@[key].price,
    ensures
        bid_error(c, key, sender_id, amount) is Some,
{
}

/// A bid that exactly meets the reserve price passes validation.
pub proof fn lemma_reserve_met_accepted(
    c: Contract,
    key: Seq<char>,
    sender_id: Seq<char>,
)
    requires
        c.sales@.contains_key(key),
        c.sales@[key].owner_id@ != sender_id,
        c.sales@[key].price > 0,
    ensures
        bid_error(c, key, sender_id, c.sales@[key].price) is None,
{
}

/// Index insertion is idempotent: inserting the same listing id under the
/// same key twice describes the same index as inserting it once.
pub proof fn lemma_index_insert_idempotent(
    m: Map<Seq<char>, Set<Seq<char>>>,
    key: Seq<char>,
    id: Seq<char>,
)
    ensures
        spec_index_insert(spec_index_insert(m, key, id), key, id) == spec_index_insert(m, key, id),
{
    let once = spec_index_insert(m, key, id);
    let twice = spec_index_insert(once, key, id);
    assert(once[key].insert(id) =~= once[key]);
    assert(twice =~= once);
}

/// In particular, the set under the key then holds the inserted id.
pub proof fn lemma_index_insert_members(
    m: Map<Seq<char>, Set<Seq<char>>>,
    key: Seq<char>,
    id: Seq<char>,
)
    ensures
        spec_index_insert(m, key, id).contains_key(key),
        spec_index_insert(m, key, id)[key].contains(id),
{
}

} // verus!
