use nft_auction::errors::{ListingOutcome, MarketError};
use nft_auction::ids::make_listing_key;
use nft_auction::market::{Contract, PurchaseArgs, SaleArgs};

const COST: u128 = 10;

fn market_with(paid: u128) -> Contract {
    let mut c = Contract::new(COST);
    c.add_ft_token_id(String::from("usdt.near"));
    c.storage_deposit(String::from("alice.near"), paid);
    c
}

fn sale_args(price: u128, period: u64) -> SaleArgs {
    SaleArgs {
        price,
        period,
        token_type: Some(String::from("usdt.near")),
        nft_contract_id: String::from("nft.near"),
    }
}

fn list_item(c: &mut Contract, token_id: &str, price: u128) -> Result<ListingOutcome, MarketError> {
    c.nft_on_approve(
        String::from(token_id),
        String::from("alice.near"),
        1,
        sale_args(price, 5),
        &String::from("nft.near"),
        &String::from("alice.near"),
        7_500_000,
    )
}

fn bid(c: &mut Contract, token_id: &str, sender: &str, amount: u128) -> Result<u128, MarketError> {
    c.ft_on_transfer(
        String::from(sender),
        amount,
        PurchaseArgs {
            nft_contract_id: String::from("nft.near"),
            token_id: String::from(token_id),
        },
        String::from("usdt.near"),
    )
}

#[test]
fn listing_key_format() {
    let key = make_listing_key(&String::from("nft.near"), &String::from("42"));
    assert_eq!(key, "nft.near:42");
}

#[test]
fn listing_creates_sale_with_exact_fields() {
    let mut c = market_with(2 * COST);
    let r = list_item(&mut c, "42", 100);
    assert_eq!(r, Ok(ListingOutcome::Created));
    let sale = c
        .get_sale(&String::from("nft.near"), &String::from("42"))
        .expect("sale should exist");
    assert_eq!(sale.owner_id, "alice.near");
    assert_eq!(sale.approval_id, 1);
    assert_eq!(sale.nft_contract_id, "nft.near");
    assert_eq!(sale.token_id, "42");
    assert_eq!(sale.price, 100);
    assert_eq!(sale.created_at, 7); // 7_500_000 ns is 7 ms
    assert_eq!(sale.end_at, 12); // creation plus the 5 ms period
    assert!(sale.end_at > sale.created_at);
    assert_eq!(sale.token_type, "usdt.near");
    assert!(sale.bids.get(&String::from("usdt.near")).is_none());
    assert_eq!(c.get_supply_by_owner_id(&String::from("alice.near")), 1);
}

#[test]
fn listing_zero_duration_rejected() {
    let mut c = market_with(2 * COST);
    let r = c.nft_on_approve(
        String::from("42"),
        String::from("alice.near"),
        1,
        sale_args(100, 0),
        &String::from("nft.near"),
        &String::from("alice.near"),
        7_500_000,
    );
    assert_eq!(r, Err(MarketError::ZeroDuration));
    assert!(c.get_sale(&String::from("nft.near"), &String::from("42")).is_none());
}

#[test]
fn listing_caller_mismatch_rejected() {
    let mut c = market_with(2 * COST);
    let r = c.nft_on_approve(
        String::from("42"),
        String::from("alice.near"),
        1,
        sale_args(100, 5),
        &String::from("someone.near"),
        &String::from("alice.near"),
        7_500_000,
    );
    assert_eq!(r, Err(MarketError::CallerMismatch));
}

#[test]
fn listing_signer_mismatch_rejected() {
    let mut c = market_with(2 * COST);
    let r = c.nft_on_approve(
        String::from("42"),
        String::from("alice.near"),
        1,
        sale_args(100, 5),
        &String::from("nft.near"),
        &String::from("mallory.near"),
        7_500_000,
    );
    assert_eq!(r, Err(MarketError::SignerMismatch));
}

#[test]
fn listing_unsupported_token_rejected() {
    let mut c = market_with(2 * COST);
    let r = c.nft_on_approve(
        String::from("42"),
        String::from("alice.near"),
        1,
        SaleArgs {
            price: 100,
            period: 5,
            token_type: Some(String::from("doge.near")),
            nft_contract_id: String::from("nft.near"),
        },
        &String::from("nft.near"),
        &String::from("alice.near"),
        7_500_000,
    );
    assert_eq!(r, Err(MarketError::UnsupportedToken));
}

#[test]
fn listing_without_token_validates_but_commits_nothing() {
    let mut c = market_with(2 * COST);
    let r = c.nft_on_approve(
        String::from("42"),
        String::from("alice.near"),
        1,
        SaleArgs {
            price: 100,
            period: 5,
            token_type: None,
            nft_contract_id: String::from("nft.near"),
        },
        &String::from("nft.near"),
        &String::from("alice.near"),
        7_500_000,
    );
    assert_eq!(r, Ok(ListingOutcome::SkippedNoPaymentToken));
    assert!(c.get_sale(&String::from("nft.near"), &String::from("42")).is_none());
    assert_eq!(c.get_supply_by_owner_id(&String::from("alice.near")), 0);
}

#[test]
fn two_listings_fit_twice_the_cost_and_a_third_does_not() {
    let mut c = market_with(2 * COST);
    assert_eq!(list_item(&mut c, "1", 0), Ok(ListingOutcome::Created));
    assert_eq!(list_item(&mut c, "2", 0), Ok(ListingOutcome::Created));
    let r = list_item(&mut c, "3", 0);
    assert_eq!(
        r,
        Err(MarketError::InsufficientStorage { paid: 2 * COST, required: 3 * COST })
    );
    assert_eq!(c.get_supply_by_owner_id(&String::from("alice.near")), 2);
    assert!(c.get_sale(&String::from("nft.near"), &String::from("3")).is_none());
}

#[test]
fn insufficient_storage_changes_nothing() {
    let mut c = market_with(COST - 1);
    let r = list_item(&mut c, "42", 0);
    assert_eq!(
        r,
        Err(MarketError::InsufficientStorage { paid: COST - 1, required: COST })
    );
    assert_eq!(c.get_supply_by_owner_id(&String::from("alice.near")), 0);
    assert!(c.get_sale(&String::from("nft.near"), &String::from("42")).is_none());
}

#[test]
fn storage_boundary_exactly_one_cost_allows_one_listing() {
    let mut c = market_with(COST);
    assert_eq!(list_item(&mut c, "1", 0), Ok(ListingOutcome::Created));
    assert!(matches!(
        list_item(&mut c, "2", 0),
        Err(MarketError::InsufficientStorage { .. })
    ));
}

#[test]
fn bid_below_reserve_rejected_then_higher_accepted() {
    let mut c = market_with(2 * COST);
    list_item(&mut c, "42", 100).unwrap();
    assert_eq!(bid(&mut c, "42", "bob.near", 50), Err(MarketError::BelowReserve));
    assert_eq!(bid(&mut c, "42", "bob.near", 150), Ok(0));
    let sale = c
        .get_sale(&String::from("nft.near"), &String::from("42"))
        .expect("sale should exist");
    let b = sale.bids.get(&String::from("usdt.near")).expect("bid should be recorded");
    assert_eq!(b.amount, 150);
    assert_eq!(b.bidder_id, "bob.near");
}

#[test]
fn bid_equal_to_reserve_accepted() {
    let mut c = market_with(2 * COST);
    list_item(&mut c, "42", 100).unwrap();
    assert_eq!(bid(&mut c, "42", "bob.near", 100), Ok(0));
    let sale = c.get_sale(&String::from("nft.near"), &String::from("42")).unwrap();
    assert_eq!(sale.bids.get(&String::from("usdt.near")).unwrap().amount, 100);
}

#[test]
fn bid_of_zero_rejected() {
    let mut c = market_with(2 * COST);
    list_item(&mut c, "42", 0).unwrap();
    assert_eq!(bid(&mut c, "42", "bob.near", 0), Err(MarketError::ZeroAmount));
}

#[test]
fn later_bid_under_same_token_overwrites() {
    let mut c = market_with(2 * COST);
    list_item(&mut c, "42", 0).unwrap();
    assert_eq!(bid(&mut c, "42", "bob.near", 5), Ok(0));
    assert_eq!(bid(&mut c, "42", "carol.near", 3), Ok(0));
    let sale = c.get_sale(&String::from("nft.near"), &String::from("42")).unwrap();
    let b = sale.bids.get(&String::from("usdt.near")).unwrap();
    assert_eq!(b.amount, 3);
    assert_eq!(b.bidder_id, "carol.near");
}

#[test]
fn owner_cannot_bid_on_own_sale() {
    let mut c = market_with(2 * COST);
    list_item(&mut c, "42", 100).unwrap();
    assert_eq!(bid(&mut c, "42", "alice.near", 150), Err(MarketError::SelfBid));
    let sale = c.get_sale(&String::from("nft.near"), &String::from("42")).unwrap();
    assert!(sale.bids.get(&String::from("usdt.near")).is_none());
}

#[test]
fn bid_on_unknown_listing_rejected_as_not_found() {
    let mut c = market_with(2 * COST);
    let r = bid(&mut c, "missing", "bob.near", 100);
    assert_eq!(r, Err(MarketError::SaleNotFound));
    assert_eq!(c.get_supply_by_owner_id(&String::from("alice.near")), 0);
}

#[test]
fn remove_sale_deletes_registry_and_indexes() {
    let mut c = market_with(2 * COST);
    list_item(&mut c, "42", 100).unwrap();
    let sale = c
        .remove_sale(&String::from("nft.near"), &String::from("42"))
        .expect("removal should return the sale");
    assert_eq!(sale.token_id, "42");
    assert_eq!(sale.owner_id, "alice.near");
    assert!(c.get_sale(&String::from("nft.near"), &String::from("42")).is_none());
    assert_eq!(c.get_supply_by_owner_id(&String::from("alice.near")), 0);
    assert!(matches!(
        c.remove_sale(&String::from("nft.near"), &String::from("42")),
        Err(MarketError::SaleNotFound)
    ));
}

#[test]
fn removal_frees_storage_for_a_new_listing() {
    let mut c = market_with(COST);
    assert_eq!(list_item(&mut c, "1", 0), Ok(ListingOutcome::Created));
    assert!(matches!(
        list_item(&mut c, "2", 0),
        Err(MarketError::InsufficientStorage { .. })
    ));
    c.remove_sale(&String::from("nft.near"), &String::from("1")).unwrap();
    assert_eq!(list_item(&mut c, "2", 0), Ok(ListingOutcome::Created));
}

#[test]
fn storage_amount_reports_the_configured_cost() {
    let c = Contract::new(COST);
    assert_eq!(c.storage_amount(), COST);
}
