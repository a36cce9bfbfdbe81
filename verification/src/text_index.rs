//! The substring index over `(id, text)` pairs, kept by `suffix_rs`.
//!
//! Nothing in this file is proved: it states what the index of `suffix_rs`
//! does, and the rest of the library is verified against these statements.

use vstd::prelude::*;
use suffix_rs::{KDTree, MockEntity, MockKDTree};

verus! {

#[verifier::external_type_specification]
#[verifier::external_body]
pub struct ExMockKDTree(MockKDTree);

/// The texts that an index holds, by id, as it searches them.
pub uninterp spec fn index_texts(tree: MockKDTree) -> Map<u32, Seq<char>>;

/// Whether an index was built to tell upper case from lower case.
pub uninterp spec fn index_case_sensitive(tree: MockKDTree) -> bool;

/// What `str::to_lowercase` makes of a text.
pub uninterp spec fn lowercase(text: Seq<char>) -> Seq<char>;

/// A text as an index keeps and compares it: unchanged if the index is case
/// sensitive, else in lower case.
pub open spec fn searchable(case_sensitive: bool, text: Seq<char>) -> Seq<char> {
    if case_sensitive {
        text
    } else {
        lowercase(text)
    }
}

/// `needle` occurs in `hay` as a run of neighbouring characters.
pub open spec fn is_substring(needle: Seq<char>, hay: Seq<char>) -> bool {
    exists|at: int|
        0 <= at && at + needle.len() <= hay.len() && #[trigger] hay.subrange(at, at + needle.len())
            == needle
}

/// No later element has the id of the element at `i`.
pub open spec fn is_last_of_its_id(elements: Seq<(u32, String)>, i: int) -> bool {
    forall|j: int| i < j < elements.len() ==> (#[trigger] elements[j]).0 != elements[i].0
}

/// Calls `MockKDTree::build` of `suffix_rs` on one `MockEntity` per element.
/// The index holds one text for each id that occurs, that of the last element
/// with the id, in lower case unless `case_sensitive` is set.
#[verifier::external_body]
pub(crate) fn build_index(elements: &Vec<(u32, String)>, case_sensitive: bool) -> (tree: MockKDTree)
    ensures
        index_case_sensitive(tree) == case_sensitive,
        (forall|id: u32| #[trigger]
            index_texts(tree).contains_key(id) <==> (exists|i: int|
                0 <= i < elements.len() && (#[trigger] elements[i]).0 == id)),
        (forall|i: int|
            0 <= i < elements.len() && is_last_of_its_id(elements@, i) && case_sensitive
                ==> index_texts(tree)[(#[trigger] elements[i]).0] == elements[i].1@),
        (forall|i: int|
            0 <= i < elements.len() && is_last_of_its_id(elements@, i) && !case_sensitive
                ==> index_texts(tree)[(#[trigger] elements[i]).0] == lowercase(elements[i].1@)),
{
    let entities: Vec<MockEntity> = elements.iter().map(
        |e| MockEntity { id: e.0, txt: e.1.clone() },
    ).collect();
    MockKDTree::build(&entities, case_sensitive)
}

/// Calls `MockKDTree::search` of `suffix_rs` and keeps the id of each hit.
/// The hits are the ids whose text holds the query as a substring, the query
/// taken in lower case unless the index is case sensitive; they come in
/// ascending order.
#[verifier::external_body]
pub(crate) fn search_index(tree: &MockKDTree, query: &str) -> (ids: Vec<u32>)
    ensures
        (forall|i: int, j: int| 0 <= i < j < ids.len() ==> ids[i] < ids[j]),
        (forall|id: u32| #[trigger]
            ids@.contains(id) <==> (index_texts(*tree).contains_key(id) && is_substring(
                searchable(index_case_sensitive(*tree), query@),
                index_texts(*tree)[id],
            ))),
{
    tree.search(query).iter().map(|hit| hit.id).collect()
}

} // verus!
