use vstd::prelude::*;

use crate::catalog::{Collection, Movie};
use crate::chars::{lemma_lex_lt_irreflexive, lemma_lex_lt_transitive, lex_lt, str_eq, str_lt};
use crate::sort::{lemma_stable_sort_permutes, lemma_stable_sort_sorted, sorted_by, stable_sort, stable_sort_by, strict_order};

verus! {

/// A collection with the movies it holds.
#[derive(Debug, Clone, PartialEq, Eq)]
pub struct CollectionDetail {
    pub collection: Collection,
    pub movies: Vec<Movie>,
}

/// The text in lower case, as `str::to_lowercase` gives it.
pub uninterp spec fn lowercased(text: Seq<char>) -> Seq<char>;

/// Calls `str::to_lowercase`. Claimed: the result is `lowercased(text)`, a function of
/// the text alone.
#[verifier::external_body]
fn lowercase(text: &str) -> (r: String)
    ensures
        r@ == lowercased(text@),
{
    text.to_lowercase()
}

/// The order collections are listed in: by name, case aside, then by id.
pub open spec fn by_name_then_id() -> spec_fn(CollectionDetail, CollectionDetail) -> bool {
    |a: CollectionDetail, b: CollectionDetail| {
        let (x, y) = (lowercased(a.collection.name@), lowercased(b.collection.name@));
        lex_lt(x, y) || (x == y && lex_lt(a.collection.id@, b.collection.id@))
    }
}

fn name_then_id_before(a: &CollectionDetail, b: &CollectionDetail) -> (r: bool)
    ensures
        r == by_name_then_id()(*a, *b),
{
    let x = lowercase(a.collection.name.as_str());
    let y = lowercase(b.collection.name.as_str());
    if str_lt(x.as_str(), y.as_str()) {
        true
    } else if str_eq(x.as_str(), y.as_str()) {
        str_lt(a.collection.id.as_str(), b.collection.id.as_str())
    } else {
        false
    }
}

/// The collections that hold a movie, in listing order: by name, case aside, then by id.
pub fn collections_in_order(found: Vec<CollectionDetail>) -> (r: Vec<CollectionDetail>)
    ensures
        r@ == stable_sort(found@, by_name_then_id()),
{
    let before = |a: &CollectionDetail, b: &CollectionDetail| -> (r: bool)
        ensures
            r == by_name_then_id()(*a, *b),
        { name_then_id_before(a, b) };
    stable_sort_by(found, before, Ghost(by_name_then_id()))
}

/// Listing order is a strict order: no collection comes before itself, and it is
/// transitive.
pub proof fn lemma_name_order_is_strict()
    ensures
        strict_order(by_name_then_id()),
{
    let lt = by_name_then_id();
    assert forall|a: CollectionDetail| !#[trigger] lt(a, a) by {
        lemma_lex_lt_irreflexive(lowercased(a.collection.name@));
        lemma_lex_lt_irreflexive(a.collection.id@);
    }
    assert forall|a: CollectionDetail, b: CollectionDetail, c: CollectionDetail| #[trigger] lt(a, b) && #[trigger] lt(b, c) implies lt(a, c) by {
        let (x, y, z) = (lowercased(a.collection.name@), lowercased(b.collection.name@), lowercased(c.collection.name@));
        if lex_lt(x, y) && lex_lt(y, z) {
            lemma_lex_lt_transitive(x, y, z);
        } else if lex_lt(x, y) {
        } else if lex_lt(y, z) {
        } else {
            lemma_lex_lt_transitive(a.collection.id@, b.collection.id@, c.collection.id@);
        }
    }
}

/// The listing holds exactly the collections found, each as often, and in listing order:
/// no collection comes before one listed ahead of it.
pub proof fn law_collections_are_listed_in_order(found: Seq<CollectionDetail>)
    ensures
        stable_sort(found, by_name_then_id()).to_multiset() == found.to_multiset(),
        sorted_by(stable_sort(found, by_name_then_id()), by_name_then_id()),
{
    lemma_stable_sort_permutes(found, by_name_then_id());
    lemma_name_order_is_strict();
    lemma_stable_sort_sorted(found, by_name_then_id());
}

} // verus!
