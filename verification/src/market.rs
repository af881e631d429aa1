//! The marketplace core: the sale registry, the two secondary indexes, the
//! storage ledger and the set of recognized payment tokens, with the two
//! request intakes (listing approval and payment notification), bid
//! application and atomic sale removal. Every mutation validates fully
//! before any write and preserves the cross-structure invariant.

use vstd::prelude::*;

use crate::assoc_map::AssocMap;
use crate::errors::{ListingOutcome, MarketError};
use crate::ids::{listing_key, make_listing_key, valid_collection_id};
use crate::sale::{Bid, Sale, sale_wf};
use crate::sale_index::{SaleIndex, spec_index_insert, spec_index_remove};
use crate::storage_ledger::StorageLedger;
use crate::string_set::StringSet;

verus! {

/// Payload of a listing-approval request relayed by a source collection.
pub struct SaleArgs {
    /// Reserve price; zero means no reserve.
    pub price: u128,
    /// Requested listing duration, in milliseconds; must be positive.
    pub period: u64,
    /// Payment token the listing accepts; with none, nothing is created.
    pub token_type: Option<String>,
    /// The source collection the listed item belongs to.
    pub nft_contract_id: String,
}

/// Payload of a payment notification: the listing the bid is for.
pub struct PurchaseArgs {
    pub nft_contract_id: String,
    pub token_id: String,
}

/// `x` clamped into the range of `u128`.
pub open spec fn sat128(x: int) -> u128 {
    if x > u128::MAX {
        u128::MAX
    } else if x < 0 {
        0
    } else {
        x as u128
    }
}

pub struct Contract {
    /// Active sales, keyed by composite listing identifier.
    pub sales: AssocMap<Sale>,
    /// Listing identifiers per owning account.
    pub by_owner_id: SaleIndex,
    /// Listing identifiers per source collection.
    pub by_nft_contract_id: SaleIndex,
    /// Prepaid storage per account and the cost of one listing.
    pub storage: StorageLedger,
    /// The payment tokens this marketplace recognizes.
    pub ft_token_ids: StringSet,
}

impl Contract {
    /// The safety invariant: every sale is well formed and keyed by its own
    /// composite identifier; a listing id stands in an index exactly when
    /// the corresponding sale exists; and no account owns more listings
    /// than its storage deposit covers.
    pub open spec fn wf(self) -> bool {
        &&& self.sales.wf()
        &&& self.by_owner_id.wf()
        &&& self.by_nft_contract_id.wf()
        &&& self.storage.wf()
        &&& self.ft_token_ids.wf()
        &&& forall|l: Seq<char>| #[trigger] self.sales@.contains_key(l) ==> sale_wf(self.sales@[l])
            && valid_collection_id(self.sales@[l].nft_contract_id@) && l == listing_key(
            self.sales@[l].nft_contract_id@,
            self.sales@[l].token_id@,
        )
        &&& forall|o: Seq<char>, l: Seq<char>|
            self.by_owner_id@.contains_key(o) && #[trigger] self.by_owner_id@[o].contains(l)
                ==> self.sales@.contains_key(l) && self.sales@[l].owner_id@ == o
        &&& forall|c: Seq<char>, l: Seq<char>|
            self.by_nft_contract_id@.contains_key(c)
                && #[trigger] self.by_nft_contract_id@[c].contains(l) ==> self.sales@.contains_key(
                l,
            ) && self.sales@[l].nft_contract_id@ == c
        &&& forall|l: Seq<char>| #[trigger] self.sales@.contains_key(l)
            ==> self.by_owner_id@.contains_key(self.sales@[l].owner_id@)
                && self.by_owner_id@[self.sales@[l].owner_id@].contains(l)
                && self.by_nft_contract_id@.contains_key(self.sales@[l].nft_contract_id@)
                && self.by_nft_contract_id@[self.sales@[l].nft_contract_id@].contains(l)
        &&& forall|o: Seq<char>| #[trigger] self.by_owner_id@.contains_key(o)
            ==> self.storage.spec_paid(o) >= self.by_owner_id.count_of(o)
                * self.storage.cost_per_sale
    }

    /// An empty marketplace with the given storage cost per listing.
    pub fn new(storage_cost_per_sale: u128) -> (r: Contract)
        requires
            storage_cost_per_sale > 0,
        ensures
            r.wf(),
            r.sales@ == Map::<Seq<char>, Sale>::empty(),
            r.by_owner_id@ == Map::<Seq<char>, Set<Seq<char>>>::empty(),
            r.by_nft_contract_id@ == Map::<Seq<char>, Set<Seq<char>>>::empty(),
            r.storage.cost_per_sale == storage_cost_per_sale,
            forall|a: Seq<char>| r.storage.spec_paid(a) == 0,
            r.ft_token_ids@ == Set::<Seq<char>>::empty(),
    {
        Contract {
            sales: AssocMap::new(),
            by_owner_id: SaleIndex::new(),
            by_nft_contract_id: SaleIndex::new(),
            storage: StorageLedger::new(storage_cost_per_sale),
            ft_token_ids: StringSet::new(),
        }
    }

    /// Recognizes one more payment token.
    pub fn add_ft_token_id(&mut self, token: String)
        requires
            old(self).wf(),
        ensures
            final(self).wf(),
            final(self).ft_token_ids@ == old(self).ft_token_ids@.insert(token@),
            final(self).sales == old(self).sales,
            final(self).by_owner_id == old(self).by_owner_id,
            final(self).by_nft_contract_id == old(self).by_nft_contract_id,
            final(self).storage == old(self).storage,
    {
        self.ft_token_ids.insert(token);
    }

    /// Credits a storage deposit to an account.
    pub fn storage_deposit(&mut self, account: String, amount: u128)
        requires
            old(self).wf(),
            old(self).storage.spec_paid(account@) + amount <= u128::MAX,
        ensures
            final(self).wf(),
            final(self).storage.spec_paid(account@) == old(self).storage.spec_paid(account@)
                + amount,
            forall|a: Seq<char>| a != account@ ==> final(self).storage.spec_paid(a) == old(
                self,
            ).storage.spec_paid(a),
            final(self).storage.cost_per_sale == old(self).storage.cost_per_sale,
            final(self).sales == old(self).sales,
            final(self).by_owner_id == old(self).by_owner_id,
            final(self).by_nft_contract_id == old(self).by_nft_contract_id,
            final(self).ft_token_ids == old(self).ft_token_ids,
    {
        self.storage.deposit(account, amount);
    }

    /// The storage cost of one concurrent listing.
    pub fn storage_amount(&self) -> (r: u128)
        ensures
            r == self.storage.cost_per_sale,
    {
        self.storage.cost_per_sale
    }

    /// How many active sales an account owns.
    pub fn get_supply_by_owner_id(&self, account: &String) -> (r: u64)
        requires
            self.wf(),
        ensures
            r == self.by_owner_id.count_of(account@),
    {
        self.by_owner_id.count(account) as u64
    }

    /// The sale listed for an item, if one exists. Over a delimiter-free
    /// collection id the composite key is injective, so the sale found is
    /// the one listed for exactly this collection and item.
    pub fn get_sale(&self, nft_contract_id: &String, token_id: &String) -> (r: Option<&Sale>)
        requires
            self.wf(),
        ensures
            match r {
                Some(s) => self.sales@.contains_key(listing_key(nft_contract_id@, token_id@)) && *s
                    == self.sales@[listing_key(nft_contract_id@, token_id@)] && (
                valid_collection_id(nft_contract_id@) ==> s.nft_contract_id@ == nft_contract_id@
                    && s.token_id@ == token_id@),
                None => !self.sales@.contains_key(listing_key(nft_contract_id@, token_id@)),
            },
    {
        let key = make_listing_key(nft_contract_id, token_id);
        proof {
            let keyv = listing_key(nft_contract_id@, token_id@);
            if self.sales@.contains_key(keyv) && valid_collection_id(nft_contract_id@) {
                let s = self.sales@[keyv];
                crate::ids::lemma_listing_key_injective(
                    s.nft_contract_id@,
                    s.token_id@,
                    nft_contract_id@,
                    token_id@,
                );
            }
        }
        self.sales.get(&key)
    }
}

/// The first validation failure of a listing request, if any, in the order
/// the intake checks them: relayed caller, signer, duration, payment token,
/// storage admission.
pub open spec fn listing_error(
    c: Contract,
    args: SaleArgs,
    owner_id: Seq<char>,
    caller_id: Seq<char>,
    signer_id: Seq<char>,
) -> Option<MarketError> {
    if caller_id != args.nft_contract_id@ {
        Some(MarketError::CallerMismatch)
    } else if signer_id != owner_id {
        Some(MarketError::SignerMismatch)
    } else if args.period == 0 {
        Some(MarketError::ZeroDuration)
    } else if args.token_type matches Some(t) && !c.ft_token_ids@.contains(t@) {
        Some(MarketError::UnsupportedToken)
    } else if c.storage.spec_paid(owner_id) < c.storage.required_for(
        c.by_owner_id.count_of(owner_id) + 1,
    ) {
        Some(
            MarketError::InsufficientStorage {
                paid: c.storage.spec_paid(owner_id),
                required: sat128(
                    c.storage.required_for(c.by_owner_id.count_of(owner_id) + 1),
                ),
            },
        )
    } else {
        None
    }
}

/// What a committed listing did to the store: one new well-formed sale under
/// its composite key, that key inserted into both indexes, everything else
/// untouched.
pub open spec fn listing_created(
    pre: Contract,
    post: Contract,
    args: SaleArgs,
    token_id: Seq<char>,
    owner_id: Seq<char>,
    approval_id: u64,
    token_type: Seq<char>,
    now_ns: u64,
) -> bool {
    let key = listing_key(args.nft_contract_id@, token_id);
    &&& post.sales@.dom() == pre.sales@.dom().insert(key)
    &&& forall|l: Seq<char>| l != key && #[trigger] pre.sales@.contains_key(l) ==> post.sales@[l]
        == pre.sales@[l]
    &&& post.sales@.contains_key(key)
    &&& {
        let s = post.sales@[key];
        &&& s.owner_id@ == owner_id
        &&& s.approval_id == approval_id
        &&& s.nft_contract_id@ == args.nft_contract_id@
        &&& s.token_id@ == token_id
        &&& s.price == args.price
        &&& s.bids@ == Map::<Seq<char>, Bid>::empty()
        &&& s.created_at == now_ns as int / 1000000
        &&& s.end_at == now_ns as int / 1000000 + args.period
        &&& s.token_type@ == token_type
    }
    &&& post.by_owner_id@ == spec_index_insert(pre.by_owner_id@, owner_id, key)
    &&& post.by_nft_contract_id@ == spec_index_insert(
        pre.by_nft_contract_id@,
        args.nft_contract_id@,
        key,
    )
    &&& post.storage == pre.storage
    &&& post.ft_token_ids == pre.ft_token_ids
}

/// The first validation failure of a bid, if any, in the order the intake
/// checks them: the sale must exist, the bidder must not own it, the amount
/// must be positive and must meet a positive reserve.
pub open spec fn bid_error(
    c: Contract,
    key: Seq<char>,
    sender_id: Seq<char>,
    amount: u128,
) -> Option<MarketError> {
    if !c.sales@.contains_key(key) {
        Some(MarketError::SaleNotFound)
    } else if c.sales@[key].owner_id@ == sender_id {
        Some(MarketError::SelfBid)
    } else if amount == 0 {
        Some(MarketError::ZeroAmount)
    } else if c.sales@[key].price > 0 && amount < c.sales@[key].price {
        Some(MarketError::BelowReserve)
    } else {
        None
    }
}

/// What a committed bid did to the store: the sale under `key` now carries
/// the bid under the paying token, all its other fields and every other part
/// of the store untouched.
pub open spec fn bid_recorded(
    pre: Contract,
    post: Contract,
    key: Seq<char>,
    ft_token_id: Seq<char>,
    bidder_id: Seq<char>,
    amount: u128,
) -> bool {
    &&& pre.sales@.contains_key(key)
    &&& post.sales@.dom() == pre.sales@.dom()
    &&& forall|l: Seq<char>| l != key && #[trigger] pre.sales@.contains_key(l) ==> post.sales@[l]
        == pre.sales@[l]
    &&& {
        let s0 = pre.sales@[key];
        let s = post.sales@[key];
        &&& s.owner_id == s0.owner_id
        &&& s.approval_id == s0.approval_id
        &&& s.nft_contract_id == s0.nft_contract_id
        &&& s.token_id == s0.token_id
        &&& s.price == s0.price
        &&& s.created_at == s0.created_at
        &&& s.end_at == s0.end_at
        &&& s.token_type == s0.token_type
        &&& s.bids@.dom() == s0.bids@.dom().insert(ft_token_id)
        &&& s.bids@[ft_token_id].amount == amount
        &&& s.bids@[ft_token_id].bidder_id@ == bidder_id
        &&& forall|t: Seq<char>| t != ft_token_id && #[trigger] s0.bids@.contains_key(t)
            ==> s.bids@[t] == s0.bids@[t]
    }
    &&& post.by_owner_id == pre.by_owner_id
    &&& post.by_nft_contract_id == pre.by_nft_contract_id
    &&& post.storage == pre.storage
    &&& post.ft_token_ids == pre.ft_token_ids
}

impl Contract {
    /// Validates a listing-approval request and, when a payment token is
    /// supplied, commits the new sale and both index entries as one step.
    /// All checks run strictly before any write.
    pub fn nft_on_approve(
        &mut self,
        token_id: String,
        owner_id: String,
        approval_id: u64,
        args: SaleArgs,
        caller_id: &String,
        signer_id: &String,
        now_ns: u64,
    ) -> (r: Result<ListingOutcome, MarketError>)
        requires
            old(self).wf(),
            valid_collection_id(args.nft_contract_id@),
            !old(self).sales@.contains_key(listing_key(args.nft_contract_id@, token_id@)),
            now_ns as int / 1000000 + args.period <= u64::MAX,
        ensures
            final(self).wf(),
            ({
                let err = listing_error(*old(self), args, owner_id@, caller_id@, signer_id@);
                match r {
                    Err(e) => err == Some(e) && *final(self) == *old(self),
                    Ok(outcome) => err is None && (match args.token_type {
                        None => outcome == ListingOutcome::SkippedNoPaymentToken && *final(self)
                            == *old(self),
                        Some(t) => outcome == ListingOutcome::Created && listing_created(
                            *old(self),
                            *final(self),
                            args,
                            token_id@,
                            owner_id@,
                            approval_id,
                            t@,
                            now_ns,
                        ),
                    }),
                }
            }),
    {
        let SaleArgs { price, period, token_type, nft_contract_id } = args;

        // the request must be relayed by the source collection it names
        if !caller_id.eq(&nft_contract_id) {
            return Err(MarketError::CallerMismatch);
        }
        // the claimed owner must be the transaction signer
        if !signer_id.eq(&owner_id) {
            return Err(MarketError::SignerMismatch);
        }
        // the listing must run for a positive duration
        if period == 0 {
            return Err(MarketError::ZeroDuration);
        }
        // a supplied payment token must be one this marketplace recognizes
        if let Some(t) = &token_type {
            if !self.ft_token_ids.contains(t) {
                return Err(MarketError::UnsupportedToken);
            }
        }
        // storage admission: the deposit must cover one more listing
        let count = self.by_owner_id.count(&owner_id);
        let paid = self.storage.paid_amount(&owner_id);
        if !self.storage.covers(&owner_id, count as u128 + 1) {
            let required = match (count as u128 + 1).checked_mul(self.storage.cost_per_sale) {
                Some(x) => x,
                None => u128::MAX,
            };
            return Err(MarketError::InsufficientStorage { paid, required });
        }
        let token_type_val = match token_type {
            Some(t) => t,
            None => {
                // with no payment token the listing has no payment mechanism:
                // the request validates but nothing is committed
                return Ok(ListingOutcome::SkippedNoPaymentToken);
            },
        };
        // admission re-check before any write: the deposit must strictly
        // exceed the storage already occupied
        let ghost pre = *self;
        let ghost ownerv = owner_id@;
        let ghost contractv = nft_contract_id@;
        let ghost keyv = listing_key(nft_contract_id@, token_id@);
        let ghost countv = self.by_owner_id.count_of(ownerv);
        let ghost costv = self.storage.cost_per_sale as int;
        proof {
            if pre.by_owner_id@.contains_key(ownerv) {
                pre.by_owner_id.lemma_counts_finite(ownerv);
            }
            assert((countv + 1) * costv == countv * costv + costv) by (nonlinear_arith);
        }
        let occupied = (count as u128) * self.storage.cost_per_sale;
        if paid <= occupied {
            // unreachable: the admission check above already covers one more
            // listing, so the deposit strictly exceeds the occupied storage
            proof {
                assert(false);
            }
            return Err(MarketError::AdmissionRace);
        }

        let created_at = now_ns / 1000000;
        let end_at = created_at + period;
        let key = make_listing_key(&nft_contract_id, &token_id);
        let ghost tokenv = token_type_val@;
        let sale = Sale {
            owner_id: owner_id.clone(),
            approval_id,
            nft_contract_id: nft_contract_id.clone(),
            token_id,
            price,
            bids: AssocMap::new(),
            created_at,
            end_at,
            token_type: token_type_val,
        };
        let ghost salev = sale;
        self.sales.insert(key.clone(), sale);
        self.by_owner_id.insert(&owner_id, key.clone());
        self.by_nft_contract_id.insert(&nft_contract_id, key);

        proof {
            let post = *self;
            let ghost preset = if pre.by_owner_id@.contains_key(ownerv) {
                pre.by_owner_id@[ownerv]
            } else {
                Set::<Seq<char>>::empty()
            };
            assert(post.sales@ == pre.sales@.insert(keyv, salev));
            assert(post.sales@.dom() =~= pre.sales@.dom().insert(keyv));
            assert(post.by_owner_id@ == spec_index_insert(pre.by_owner_id@, ownerv, keyv));
            assert(post.by_nft_contract_id@ == spec_index_insert(
                pre.by_nft_contract_id@,
                contractv,
                keyv,
            ));
            assert(sale_wf(salev));
            assert(!preset.contains(keyv));
            assert(preset.finite());
            assert(preset.len() == countv);
            // owner index entries still point at existing sales by the owner
            assert forall|o: Seq<char>, l: Seq<char>|
                post.by_owner_id@.contains_key(o) && #[trigger] post.by_owner_id@[o].contains(
                    l,
                ) implies post.sales@.contains_key(l) && post.sales@[l].owner_id@ == o by {
                if o == ownerv {
                    if l != keyv {
                        assert(preset.contains(l));
                        assert(pre.by_owner_id@[o].contains(l));
                    }
                } else {
                    assert(pre.by_owner_id@[o].contains(l));
                    assert(l != keyv);
                }
            }
            // collection index entries still point at existing sales
            assert forall|c: Seq<char>, l: Seq<char>|
                post.by_nft_contract_id@.contains_key(c)
                    && #[trigger] post.by_nft_contract_id@[c].contains(l) implies post.sales@
                .contains_key(l) && post.sales@[l].nft_contract_id@ == c by {
                if c == contractv {
                    if l != keyv {
                        assert(pre.by_nft_contract_id@[c].contains(l));
                    }
                } else {
                    assert(pre.by_nft_contract_id@[c].contains(l));
                    assert(l != keyv);
                }
            }
            // every sale is still indexed under its owner and collection
            assert forall|l: Seq<char>| #[trigger] post.sales@.contains_key(
                l,
            ) implies post.by_owner_id@.contains_key(post.sales@[l].owner_id@)
                && post.by_owner_id@[post.sales@[l].owner_id@].contains(l)
                && post.by_nft_contract_id@.contains_key(post.sales@[l].nft_contract_id@)
                && post.by_nft_contract_id@[post.sales@[l].nft_contract_id@].contains(l) by {
                if l == keyv {
                    assert(post.by_owner_id@[ownerv].contains(keyv));
                    assert(post.by_nft_contract_id@[contractv].contains(keyv));
                } else {
                    assert(pre.sales@.contains_key(l));
                    let o = pre.sales@[l].owner_id@;
                    let c = pre.sales@[l].nft_contract_id@;
                    assert(pre.by_owner_id@[o].contains(l));
                    assert(pre.by_nft_contract_id@[c].contains(l));
                    assert(post.by_owner_id@.contains_key(o));
                    assert(post.by_owner_id@[o].contains(l));
                    assert(post.by_nft_contract_id@.contains_key(c));
                    assert(post.by_nft_contract_id@[c].contains(l));
                }
            }
            // no account owns more listings than its deposit covers
            assert forall|o: Seq<char>| #[trigger] post.by_owner_id@.contains_key(
                o,
            ) implies post.storage.spec_paid(o) >= post.by_owner_id.count_of(o)
                * post.storage.cost_per_sale by {
                if o == ownerv {
                    assert(post.by_owner_id@[o] == preset.insert(keyv));
                    assert(post.by_owner_id.count_of(o) == countv + 1);
                    assert((countv + 1) * costv == countv * costv + costv) by (nonlinear_arith);
                } else {
                    assert(pre.by_owner_id@.contains_key(o));
                    assert(post.by_owner_id@[o] == pre.by_owner_id@[o]);
                }
            }
            assert(post.wf());
        }

        Ok(ListingOutcome::Created)
    }

    /// The registry's bid-application step: records (or replaces) the bid
    /// under the paying token on an existing sale. Callers must have
    /// validated the bid; the sale's invariant is preserved.
    pub fn add_bid(
        &mut self,
        nft_contract_id: &String,
        token_id: &String,
        amount: u128,
        ft_token_id: String,
        buyer_id: String,
    )
        requires
            old(self).wf(),
            old(self).sales@.contains_key(listing_key(nft_contract_id@, token_id@)),
            buyer_id@ != old(self).sales@[listing_key(nft_contract_id@, token_id@)].owner_id@,
            amount > 0,
            old(self).sales@[listing_key(nft_contract_id@, token_id@)].price > 0 ==> amount >= old(
                self,
            ).sales@[listing_key(nft_contract_id@, token_id@)].price,
        ensures
            final(self).wf(),
            bid_recorded(
                *old(self),
                *final(self),
                listing_key(nft_contract_id@, token_id@),
                ft_token_id@,
                buyer_id@,
                amount,
            ),
    {
        let ghost pre = *self;
        let ghost keyv = listing_key(nft_contract_id@, token_id@);
        let ghost ftv = ft_token_id@;
        let key = make_listing_key(nft_contract_id, token_id);
        let mut sale = match self.sales.take(&key) {
            Some(s) => s,
            None => {
                proof {
                    assert(false);
                }
                return ;
            },
        };
        let ghost sale0 = sale;
        sale.bids.insert(ft_token_id, Bid { bidder_id: buyer_id, amount });
        let ghost salev = sale;
        self.sales.insert(key, sale);
        proof {
            let post = *self;
            assert(post.sales@ == pre.sales@.remove(keyv).insert(keyv, salev));
            assert(post.sales@.dom() =~= pre.sales@.dom());
            assert(salev.bids@.dom() =~= sale0.bids@.dom().insert(ftv));
            assert(sale_wf(salev)) by {
                assert(forall|t: Seq<char>| t != ftv && #[trigger] salev.bids@.contains_key(t)
                    ==> salev.bids@[t] == sale0.bids@[t]);
            }
            assert forall|l: Seq<char>| #[trigger] post.sales@.contains_key(l) implies sale_wf(
                post.sales@[l],
            ) && valid_collection_id(post.sales@[l].nft_contract_id@) && l == listing_key(
                post.sales@[l].nft_contract_id@,
                post.sales@[l].token_id@,
            ) by {
                if l != keyv {
                    assert(pre.sales@.contains_key(l));
                    assert(post.sales@[l] == pre.sales@[l]);
                }
            }
            assert forall|o: Seq<char>, l: Seq<char>|
                post.by_owner_id@.contains_key(o) && #[trigger] post.by_owner_id@[o].contains(
                    l,
                ) implies post.sales@.contains_key(l) && post.sales@[l].owner_id@ == o by {
                assert(pre.by_owner_id@[o].contains(l));
            }
            assert forall|c: Seq<char>, l: Seq<char>|
                post.by_nft_contract_id@.contains_key(c)
                    && #[trigger] post.by_nft_contract_id@[c].contains(l) implies post.sales@
                .contains_key(l) && post.sales@[l].nft_contract_id@ == c by {
                assert(pre.by_nft_contract_id@[c].contains(l));
            }
            assert forall|l: Seq<char>| #[trigger] post.sales@.contains_key(
                l,
            ) implies post.by_owner_id@.contains_key(post.sales@[l].owner_id@)
                && post.by_owner_id@[post.sales@[l].owner_id@].contains(l)
                && post.by_nft_contract_id@.contains_key(post.sales@[l].nft_contract_id@)
                && post.by_nft_contract_id@[post.sales@[l].nft_contract_id@].contains(l) by {
                assert(pre.sales@.contains_key(l));
                if l != keyv {
                    assert(post.sales@[l] == pre.sales@[l]);
                }
            }
            assert(post.wf());
        }
    }

    /// Validates a payment notification and applies the bid to the matching
    /// sale. On success the whole transferred amount is consumed: the
    /// returned refund is zero.
    pub fn ft_on_transfer(
        &mut self,
        sender_id: String,
        amount: u128,
        args: PurchaseArgs,
        ft_token_id: String,
    ) -> (r: Result<u128, MarketError>)
        requires
            old(self).wf(),
        ensures
            final(self).wf(),
            ({
                let key = listing_key(args.nft_contract_id@, args.token_id@);
                let err = bid_error(*old(self), key, sender_id@, amount);
                match r {
                    Err(e) => err == Some(e) && *final(self) == *old(self),
                    Ok(refund) => refund == 0 && err is None && bid_recorded(
                        *old(self),
                        *final(self),
                        key,
                        ft_token_id@,
                        sender_id@,
                        amount,
                    ),
                }
            }),
    {
        let PurchaseArgs { nft_contract_id, token_id } = args;
        let key = make_listing_key(&nft_contract_id, &token_id);
        let (owner_matches, price) = match self.sales.get(&key) {
            Some(sale) => (sale.owner_id.eq(&sender_id), sale.price),
            None => {
                return Err(MarketError::SaleNotFound);
            },
        };
        // the owner of a sale may not bid on it
        if owner_matches {
            return Err(MarketError::SelfBid);
        }
        // a bid must offer something
        if amount == 0 {
            return Err(MarketError::ZeroAmount);
        }
        // a positive reserve price is a floor on every bid
        if price > 0 && amount < price {
            return Err(MarketError::BelowReserve);
        }
        self.add_bid(&nft_contract_id, &token_id, amount, ft_token_id, sender_id);
        Ok(0)
    }

    /// Atomically deletes a sale from the registry and from both indexes;
    /// the removal contract shared by settlement and expiry sweeps.
    pub fn remove_sale(&mut self, nft_contract_id: &String, token_id: &String) -> (r: Result<
        Sale,
        MarketError,
    >)
        requires
            old(self).wf(),
        ensures
            final(self).wf(),
            ({
                let key = listing_key(nft_contract_id@, token_id@);
                match r {
                    Err(e) => e == MarketError::SaleNotFound && !old(self).sales@.contains_key(key)
                        && *final(self) == *old(self),
                    Ok(sale) => old(self).sales@.contains_key(key) && sale == old(self).sales@[key]
                        && final(self).sales@ == old(self).sales@.remove(key)
                        && final(self).by_owner_id@ == spec_index_remove(
                        old(self).by_owner_id@,
                        sale.owner_id@,
                        key,
                    ) && final(self).by_nft_contract_id@ == spec_index_remove(
                        old(self).by_nft_contract_id@,
                        sale.nft_contract_id@,
                        key,
                    ) && final(self).storage == old(self).storage && final(self).ft_token_ids
                        == old(self).ft_token_ids,
                }
            }),
    {
        let ghost pre = *self;
        let ghost keyv = listing_key(nft_contract_id@, token_id@);
        let key = make_listing_key(nft_contract_id, token_id);
        let sale = match self.sales.take(&key) {
            Some(s) => s,
            None => {
                return Err(MarketError::SaleNotFound);
            },
        };
        let ghost ownerv = sale.owner_id@;
        let ghost contractv = sale.nft_contract_id@;
        self.by_owner_id.remove(&sale.owner_id, &key);
        self.by_nft_contract_id.remove(&sale.nft_contract_id, &key);
        proof {
            let post = *self;
            assert(pre.by_owner_id@.contains_key(ownerv));
            assert(pre.by_nft_contract_id@.contains_key(contractv));
            assert(post.by_owner_id@ == pre.by_owner_id@.insert(
                ownerv,
                pre.by_owner_id@[ownerv].remove(keyv),
            ));
            assert(post.by_nft_contract_id@ == pre.by_nft_contract_id@.insert(
                contractv,
                pre.by_nft_contract_id@[contractv].remove(keyv),
            ));
            assert forall|o: Seq<char>, l: Seq<char>|
                post.by_owner_id@.contains_key(o) && #[trigger] post.by_owner_id@[o].contains(
                    l,
                ) implies post.sales@.contains_key(l) && post.sales@[l].owner_id@ == o by {
                assert(pre.by_owner_id@[o].contains(l));
                assert(l != keyv);
            }
            assert forall|c: Seq<char>, l: Seq<char>|
                post.by_nft_contract_id@.contains_key(c)
                    && #[trigger] post.by_nft_contract_id@[c].contains(l) implies post.sales@
                .contains_key(l) && post.sales@[l].nft_contract_id@ == c by {
                assert(pre.by_nft_contract_id@[c].contains(l));
                assert(l != keyv);
            }
            assert forall|l: Seq<char>| #[trigger] post.sales@.contains_key(
                l,
            ) implies post.by_owner_id@.contains_key(post.sales@[l].owner_id@)
                && post.by_owner_id@[post.sales@[l].owner_id@].contains(l)
                && post.by_nft_contract_id@.contains_key(post.sales@[l].nft_contract_id@)
                && post.by_nft_contract_id@[post.sales@[l].nft_contract_id@].contains(l) by {
                assert(pre.sales@.contains_key(l));
                assert(l != keyv);
                assert(pre.by_owner_id@[pre.sales@[l].owner_id@].contains(l));
                assert(pre.by_nft_contract_id@[pre.sales@[l].nft_contract_id@].contains(l));
            }
            assert forall|o: Seq<char>| #[trigger] post.by_owner_id@.contains_key(
                o,
            ) implies post.storage.spec_paid(o) >= post.by_owner_id.count_of(o)
                * post.storage.cost_per_sale by {
                assert(pre.by_owner_id@.contains_key(o));
                let costv = pre.storage.cost_per_sale as int;
                if o == ownerv {
                    pre.by_owner_id.lemma_counts_finite(ownerv);
                    let c0 = pre.by_owner_id.count_of(o);
                    let c1 = post.by_owner_id.count_of(o);
                    assert(c1 <= c0) by {
                        assert(post.by_owner_id@[o].len() <= pre.by_owner_id@[o].len());
                    }
                    assert(c1 * costv <= c0 * costv) by (nonlinear_arith)
                        requires
                            c1 <= c0,
                            costv >= 0,
                    ;
                } else {
                    assert(post.by_owner_id@[o] == pre.by_owner_id@[o]);
                }
            }
            assert(post.wf());
        }
        Ok(sale)
    }
}

} // verus!
