use nft_auction::assoc_map::AssocMap;
use nft_auction::sale_index::SaleIndex;
use nft_auction::string_set::StringSet;

#[test]
fn index_insert_is_idempotent() {
    let mut idx = SaleIndex::new();
    let key = String::from("alice.near");
    idx.insert(&key, String::from("nft.near:1"));
    idx.insert(&key, String::from("nft.near:1"));
    assert_eq!(idx.count(&key), 1);
    let set = idx.list(&key).expect("key should be present");
    assert!(set.contains(&String::from("nft.near:1")));
}

#[test]
fn index_counts_and_removal() {
    let mut idx = SaleIndex::new();
    let key = String::from("alice.near");
    assert_eq!(idx.count(&key), 0);
    idx.insert(&key, String::from("a"));
    idx.insert(&key, String::from("b"));
    assert_eq!(idx.count(&key), 2);
    idx.remove(&key, &String::from("a"));
    assert_eq!(idx.count(&key), 1);
    // removing an absent id is a no-op
    idx.remove(&key, &String::from("a"));
    assert_eq!(idx.count(&key), 1);
    // removing under an absent key is a no-op
    idx.remove(&String::from("bob.near"), &String::from("b"));
    assert_eq!(idx.count(&String::from("bob.near")), 0);
}

#[test]
fn string_set_membership() {
    let mut s = StringSet::new();
    assert!(!s.contains(&String::from("x")));
    s.insert(String::from("x"));
    s.insert(String::from("x"));
    s.insert(String::from("y"));
    assert_eq!(s.len(), 2);
    assert!(s.contains(&String::from("x")));
    s.remove(&String::from("x"));
    assert!(!s.contains(&String::from("x")));
    assert_eq!(s.len(), 1);
}

#[test]
fn assoc_map_insert_get_take() {
    let mut m: AssocMap<u64> = AssocMap::new();
    assert!(!m.contains_key(&String::from("k")));
    m.insert(String::from("k"), 1);
    assert_eq!(m.get(&String::from("k")), Some(&1));
    m.insert(String::from("k"), 2);
    assert_eq!(m.get(&String::from("k")), Some(&2));
    assert_eq!(m.take(&String::from("k")), Some(2));
    assert_eq!(m.take(&String::from("k")), None);
    assert!(m.get(&String::from("k")).is_none());
}
