//! Composite listing identifiers: `source_collection_id`, a one-character
//! delimiter, then `item_id`. The delimiter must not occur inside a valid
//! source collection identifier, which makes the composite key injective.

use vstd::prelude::*;
use vstd::string::StringExecFns;

verus! {

/// Separator between the source collection id and the item id in a listing key.
pub const DELIMITER: char = ':';

/// A source collection identifier is valid when it contains no delimiter.
pub open spec fn valid_collection_id(s: Seq<char>) -> bool {
    forall|i: int| 0 <= i < s.len() ==> s[i] != DELIMITER
}

/// The composite listing key for a collection id and an item id.
pub open spec fn listing_key(collection: Seq<char>, item: Seq<char>) -> Seq<char> {
    collection.push(DELIMITER) + item
}

/// Builds the composite listing key used by the registry and both indexes.
pub fn make_listing_key(collection: &String, item: &String) -> (r: String)
    ensures
        r@ == listing_key(collection@, item@),
{
    proof {
        reveal_strlit(":");
    }
    let mut r = collection.clone();
    r.append(":");
    r.append(item.as_str());
    proof {
        assert(r@ =~= listing_key(collection@, item@));
    }
    r
}

/// Two composite keys over valid collection ids agree only when both parts agree:
/// the delimiter position is fixed by the collection id, so the key is injective.
pub proof fn lemma_listing_key_injective(c1: Seq<char>, t1: Seq<char>, c2: Seq<char>, t2: Seq<char>)
    requires
        valid_collection_id(c1),
        valid_collection_id(c2),
        listing_key(c1, t1) == listing_key(c2, t2),
    ensures
        c1 == c2,
        t1 == t2,
{
    let k = listing_key(c1, t1);
    assert(k[c1.len() as int] == DELIMITER);
    assert(k[c2.len() as int] == DELIMITER);
    if c1.len() < c2.len() {
        assert(k[c1.len() as int] == c2[c1.len() as int]);
        assert(false);
    }
    if c2.len() < c1.len() {
        assert(k[c2.len() as int] == c1[c2.len() as int]);
        assert(false);
    }
    assert(c1 =~= c2) by {
        assert(forall|i: int| 0 <= i < c1.len() ==> k[i] == c1[i] && k[i] == c2[i]);
    }
    assert(k.len() == c1.len() + 1 + t1.len());
    assert(k.len() == c2.len() + 1 + t2.len());
    assert(t1 =~= t2) by {
        assert forall|i: int| 0 <= i < t1.len() implies t1[i] == t2[i] by {
            assert(k[i + c1.len() + 1] == t1[i]);
            assert(k[i + c2.len() + 1] == t2[i]);
        }
    }
}

} // verus!
