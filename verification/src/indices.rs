//! The derived indices of the aggregate, each computed from what it is
//! derived from: the substring indices, the materialized top sets, and the
//! item rankings that every user has.

use vstd::prelude::*;
use std::collections::HashMap;
use std::collections::HashSet;
use suffix_rs::MockKDTree;
use crate::bill::{item_views, user_views};
use crate::catalog::{Item, ItemView, User};
use crate::datastore::{active_item_texts, active_user_texts, index_view, IndexView};
use crate::left_threaded_avl_tree::{has_id, position_of, top, AVLTree, ScoredIdTreeMock};
use crate::text_index::{build_index, is_last_of_its_id};

verus! {

broadcast use vstd::std_specs::hash::group_hash_axioms;

/// The set of the ids of a list.
pub fn hashset(data: &[u32]) -> (set: HashSet<u32>)
    ensures
        set@ == data@.to_set(),
{
    let mut set: HashSet<u32> = HashSet::new();
    let mut i: usize = 0;
    while i < data.len()
        invariant
            i <= data.len(),
            set@ == data@.take(i as int).to_set(),
        decreases data.len() - i,
    {
        set.insert(data[i]);
        proof {
            assert(data@.take(i + 1) =~= data@.take(i as int).push(data@[i as int]));
            data@.take(i as int).lemma_push_to_set_commute(data@[i as int]);
        }
        i += 1;
    }
    assert(data@.take(data.len() as int) =~= data@);
    set
}

/// The set of the best `n` ids of a ranking.
pub open spec fn top_set(entries: Seq<(u32, u32)>, n: nat) -> Set<u32> {
    top(entries, n).to_set()
}

/// The set of the best `n` ids of a ranking.
pub fn extract_top_set(tree: &ScoredIdTreeMock, n: usize) -> (set: HashSet<u32>)
    requires
        tree.wf(),
    ensures
        set@ == top_set(tree.entries(), n as nat),
{
    let best = tree.extract_top(n);
    hashset(best.as_slice())
}

/// The index over the users that are not deleted, by name, not case
/// sensitive.
pub fn index_users(users: &HashMap<u32, User>, counter: u32) -> (tree: MockKDTree)
    requires
        forall|id: u32| #[trigger] users@.contains_key(id) ==> id < counter,
    ensures
        index_view(tree) == (IndexView {
            texts: active_user_texts(user_views(users@), false),
            case_sensitive: false,
        }),
{
    let mut elements: Vec<(u32, String)> = Vec::new();
    let mut id: u32 = 0;
    while id < counter
        invariant
            id <= counter,
            forall|j: int| 0 <= j < elements.len() ==> (#[trigger] elements[j]).0 < id,
            forall|j: int, k: int| 0 <= j < k < elements.len() ==> elements[j].0 < elements[k].0,
            forall|j: int|
                0 <= j < elements.len() ==> users@.contains_key((#[trigger] elements[j]).0)
                    && !users@[elements[j].0].deleted && users@[elements[j].0].username@
                    == elements[j].1@,
            forall|u: u32|
                u < id && users@.contains_key(u) && !users@[u].deleted ==> exists|j: int|
                    0 <= j < elements.len() && (#[trigger] elements[j]).0 == u,
        decreases counter - id,
    {
        match users.get(&id) {
            Some(user) => {
                if !user.deleted {
                    let ghost before = elements@;
                    elements.push((id, user.username.clone()));
                    proof {
                        assert forall|u: u32|
                            u < id + 1 && users@.contains_key(u) && !users@[u].deleted implies exists|
                            j: int,
                        |
                            0 <= j < elements.len() && (#[trigger] elements[j]).0 == u by {
                            if u < id {
                                let j = choose|j: int| 0 <= j < before.len() && (#[trigger] before[j]).0 == u;
                                assert(elements[j] == before[j]);
                            } else {
                                assert(elements[before.len() as int].0 == u);
                            }
                        }
                    }
                }
            },
            None => {},
        }
        id += 1;
    }
    let tree = build_index(&elements, false);
    proof {
        let texts = active_user_texts(user_views(users@), false);
        assert forall|k: u32| #[trigger] index_view(tree).texts.contains_key(k) == texts.contains_key(
            k,
        ) by {
            if index_view(tree).texts.contains_key(k) {
                let i = choose|i: int| 0 <= i < elements.len() && (#[trigger] elements[i]).0 == k;
                assert(users@.contains_key(elements[i].0));
            }
            if texts.contains_key(k) {
                assert(users@.contains_key(k));
            }
        }
        assert forall|k: u32| texts.contains_key(k) implies #[trigger] index_view(tree).texts[k]
            == texts[k] by {
            assert(users@.contains_key(k));
            let i = choose|i: int| 0 <= i < elements.len() && (#[trigger] elements[i]).0 == k;
            assert(is_last_of_its_id(elements@, i)) by {
                assert forall|j: int| i < j < elements.len() implies (#[trigger] elements[j]).0
                    != elements[i].0 by {
                    assert(elements[i].0 < elements[j].0);
                }
            }
            assert(users@.contains_key(elements[i].0));
        }
        assert(index_view(tree).texts =~= texts);
    }
    tree
}

/// The index over the items that are not deleted, by name, not case
/// sensitive.
pub fn index_items(items: &HashMap<u32, Item>, counter: u32) -> (tree: MockKDTree)
    requires
        forall|id: u32| #[trigger] items@.contains_key(id) ==> id < counter,
    ensures
        index_view(tree) == (IndexView {
            texts: active_item_texts(item_views(items@), false),
            case_sensitive: false,
        }),
{
    let mut elements: Vec<(u32, String)> = Vec::new();
    let mut id: u32 = 0;
    while id < counter
        invariant
            id <= counter,
            forall|j: int| 0 <= j < elements.len() ==> (#[trigger] elements[j]).0 < id,
            forall|j: int, k: int| 0 <= j < k < elements.len() ==> elements[j].0 < elements[k].0,
            forall|j: int|
                0 <= j < elements.len() ==> items@.contains_key((#[trigger] elements[j]).0)
                    && !items@[elements[j].0].deleted && items@[elements[j].0].name@
                    == elements[j].1@,
            forall|u: u32|
                u < id && items@.contains_key(u) && !items@[u].deleted ==> exists|j: int|
                    0 <= j < elements.len() && (#[trigger] elements[j]).0 == u,
        decreases counter - id,
    {
        match items.get(&id) {
            Some(item) => {
                if !item.deleted {
                    let ghost before = elements@;
                    elements.push((id, item.name.clone()));
                    proof {
                        assert forall|u: u32|
                            u < id + 1 && items@.contains_key(u) && !items@[u].deleted implies exists|
                            j: int,
                        |
                            0 <= j < elements.len() && (#[trigger] elements[j]).0 == u by {
                            if u < id {
                                let j = choose|j: int| 0 <= j < before.len() && (#[trigger] before[j]).0 == u;
                                assert(elements[j] == before[j]);
                            } else {
                                assert(elements[before.len() as int].0 == u);
                            }
                        }
                    }
                }
            },
            None => {},
        }
        id += 1;
    }
    let tree = build_index(&elements, false);
    proof {
        let texts = active_item_texts(item_views(items@), false);
        assert forall|k: u32| #[trigger] index_view(tree).texts.contains_key(k) == texts.contains_key(
            k,
        ) by {
            if index_view(tree).texts.contains_key(k) {
                let i = choose|i: int| 0 <= i < elements.len() && (#[trigger] elements[i]).0 == k;
                assert(items@.contains_key(elements[i].0));
            }
            if texts.contains_key(k) {
                assert(items@.contains_key(k));
            }
        }
        assert forall|k: u32| texts.contains_key(k) implies #[trigger] index_view(tree).texts[k]
            == texts[k] by {
            assert(items@.contains_key(k));
            let i = choose|i: int| 0 <= i < elements.len() && (#[trigger] elements[i]).0 == k;
            assert(is_last_of_its_id(elements@, i)) by {
                assert forall|j: int| i < j < elements.len() implies (#[trigger] elements[j]).0
                    != elements[i].0 by {
                    assert(elements[i].0 < elements[j].0);
                }
            }
            assert(items@.contains_key(elements[i].0));
        }
        assert(index_view(tree).texts =~= texts);
    }
    tree
}

/// A ranking that holds each id below `upto` that `ids` holds, in ascending
/// order, at score 0.
pub open spec fn seeded_scores(ids: Set<u32>, upto: nat) -> Seq<(u32, u32)>
    decreases upto,
{
    if upto == 0 {
        Seq::empty()
    } else if ids.contains((upto - 1) as u32) {
        seeded_scores(ids, (upto - 1) as nat).push(((upto - 1) as u32, 0u32))
    } else {
        seeded_scores(ids, (upto - 1) as nat)
    }
}

/// The ids of the items that are not deleted.
pub open spec fn active_items(items: Map<u32, ItemView>) -> Set<u32> {
    Set::new(|id: u32| items.contains_key(id) && !items[id].deleted)
}

/// The item ranking of a new user: every item that is not deleted, at score
/// 0.
pub fn seed_item_scores(items: &HashMap<u32, Item>, counter: u32) -> (tree: ScoredIdTreeMock)
    ensures
        tree.wf(),
        tree.entries() == seeded_scores(active_items(item_views(items@)), counter as nat),
{
    let mut tree = ScoredIdTreeMock::default();
    let mut id: u32 = 0;
    while id < counter
        invariant
            id <= counter,
            tree.wf(),
            tree.entries() == seeded_scores(active_items(item_views(items@)), id as nat),
            forall|j: int| 0 <= j < tree.entries().len() ==> (#[trigger] tree.entries()[j]).0 < id,
        decreases counter - id,
    {
        let active = match items.get(&id) {
            Some(item) => !item.deleted,
            None => false,
        };
        assert(active == active_items(item_views(items@)).contains(id)) by {
            assert(item_views(items@).contains_key(id) == items@.contains_key(id));
        }
        if active {
            let ghost before = tree.entries();
            assert(!has_id(before, id)) by {
                if has_id(before, id) {
                    let j = position_of(before, id);
                    assert(before[j].0 < id);
                }
            }
            tree.insert(id);
            assert forall|j: int| 0 <= j < tree.entries().len() implies (#[trigger] tree.entries()[j]).0
                < id + 1 by {
                if j < before.len() {
                    assert(tree.entries()[j] == before[j]);
                }
            }
        }
        id += 1;
    }
    tree
}

/// A ranking with `item` added at score 0, or with `item` taken out.
pub open spec fn reranked(entries: Seq<(u32, u32)>, item: u32, add: bool) -> Seq<(u32, u32)> {
    if add {
        if has_id(entries, item) {
            entries
        } else {
            entries.push((item, 0u32))
        }
    } else {
        if has_id(entries, item) {
            entries.remove(position_of(entries, item))
        } else {
            entries
        }
    }
}

/// The entries of each ranking.
pub open spec fn score_views(scores: Map<u32, ScoredIdTreeMock>) -> Map<u32, Seq<(u32, u32)>> {
    scores.map_values(|t: ScoredIdTreeMock| t.entries())
}

/// The ids of each set.
pub open spec fn set_views(sets: Map<u32, HashSet<u32>>) -> Map<u32, Set<u32>> {
    sets.map_values(|s: HashSet<u32>| s@)
}

/// Every ranking is sound.
pub open spec fn scores_wf(scores: Map<u32, ScoredIdTreeMock>) -> bool {
    forall|id: u32| #[trigger] scores.contains_key(id) ==> scores[id].wf()
}

/// The set of the best `n` ids of each ranking.
pub open spec fn top_sets(scores: Map<u32, Seq<(u32, u32)>>, n: nat) -> Map<u32, Set<u32>> {
    scores.map_values(|entries: Seq<(u32, u32)>| top_set(entries, n))
}

/// Adds `item` to the ranking of every user, or takes it out of each, and
/// reads the top sets off the rankings anew.
pub fn rerank_item(
    scores: &mut HashMap<u32, ScoredIdTreeMock>,
    tops: &mut HashMap<u32, HashSet<u32>>,
    counter: u32,
    item: u32,
    add: bool,
    n: usize,
)
    requires
        scores_wf(old(scores)@),
        old(tops)@.dom() == old(scores)@.dom(),
        forall|id: u32| #[trigger] old(scores)@.contains_key(id) ==> id < counter,
    ensures
        scores_wf(final(scores)@),
        score_views(final(scores)@) == score_views(old(scores)@).map_values(
            |entries: Seq<(u32, u32)>| reranked(entries, item, add),
        ),
        set_views(final(tops)@) == top_sets(score_views(final(scores)@), n as nat),
{
    let ghost rerank = |entries: Seq<(u32, u32)>| reranked(entries, item, add);
    let mut user: u32 = 0;
    while user < counter
        invariant
            user <= counter,
            scores_wf(scores@),
            rerank == (|entries: Seq<(u32, u32)>| reranked(entries, item, add)),
            scores@.dom() == old(scores)@.dom(),
            tops@.dom() == scores@.dom(),
            forall|id: u32| #[trigger] scores@.contains_key(id) ==> id < counter,
            forall|id: u32|
                scores@.contains_key(id) && id < user ==> (#[trigger] scores@[id]).entries() == rerank(
                    old(scores)@[id].entries(),
                ) && tops@[id]@ == top_set(scores@[id].entries(), n as nat),
            forall|id: u32|
                scores@.contains_key(id) && id >= user ==> #[trigger] scores@[id] == old(scores)@[id],
        decreases counter - user,
    {
        let ghost before = scores@;
        match scores.remove(&user) {
            Some(tree) => {
                let mut tree = tree;
                if add {
                    tree.insert(item);
                } else {
                    tree.remove(item);
                }
                let best = extract_top_set(&tree, n);
                scores.insert(user, tree);
                tops.insert(user, best);
                assert(scores@.dom() =~= old(scores)@.dom());
                assert(tops@.dom() =~= scores@.dom());
            },
            None => {
                assert(scores@ =~= before);
            },
        }
        user += 1;
    }
    proof {
        assert(score_views(scores@) =~= score_views(old(scores)@).map_values(rerank));
        assert(set_views(tops@) =~= top_sets(score_views(scores@), n as nat));
    }
}

} // verus!
