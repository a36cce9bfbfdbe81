//! A ranking of ids by score, with extraction of the best `n`.
//!
//! The model of a ranking is the sequence of its `(id, score)` entries in the
//! order in which the ids were inserted. An entry outranks another when its
//! score is higher, or when the scores are equal and it was inserted earlier.

use vstd::prelude::*;

verus! {

/// The model has no id twice.
pub open spec fn distinct_ids(entries: Seq<(u32, u32)>) -> bool {
    forall|i: int, j: int|
        0 <= i < j < entries.len() ==> (#[trigger] entries[i]).0 != (#[trigger] entries[j]).0
}

/// Whether `id` has an entry.
pub open spec fn has_id(entries: Seq<(u32, u32)>, id: u32) -> bool {
    exists|i: int| 0 <= i < entries.len() && (#[trigger] entries[i]).0 == id
}

/// The position of the entry of `id`; meaningful where `has_id` holds.
pub open spec fn position_of(entries: Seq<(u32, u32)>, id: u32) -> int {
    choose|i: int| 0 <= i < entries.len() && (#[trigger] entries[i]).0 == id
}

/// The score of `id`, if it has an entry.
pub open spec fn score_of(entries: Seq<(u32, u32)>, id: u32) -> Option<u32> {
    if has_id(entries, id) {
        Some(entries[position_of(entries, id)].1)
    } else {
        None
    }
}

/// The entry at position `a` comes before the one at position `b` in the
/// ranking: higher score first, earlier insertion first among equal scores.
pub open spec fn outranks(entries: Seq<(u32, u32)>, a: int, b: int) -> bool {
    entries[a].1 > entries[b].1 || (entries[a].1 == entries[b].1 && a < b)
}

/// `order` lists each of the first `upto` positions once, best first.
pub open spec fn is_ranking_of(entries: Seq<(u32, u32)>, order: Seq<int>, upto: int) -> bool {
    &&& order.len() == upto
    &&& forall|k: int| 0 <= k < order.len() ==> 0 <= #[trigger] order[k] < upto
    &&& forall|k: int, l: int|
        0 <= k < l < order.len() ==> outranks(entries, #[trigger] order[k], #[trigger] order[l])
}

/// `order` lists every position once, best first.
pub open spec fn is_ranking(entries: Seq<(u32, u32)>, order: Seq<int>) -> bool {
    is_ranking_of(entries, order, entries.len() as int)
}

/// The positions of all entries, best first.
pub open spec fn ranking_order(entries: Seq<(u32, u32)>) -> Seq<int> {
    choose|order: Seq<int>| is_ranking(entries, order)
}

/// The ids of all entries, best first.
pub open spec fn ranking(entries: Seq<(u32, u32)>) -> Seq<u32> {
    Seq::new(entries.len(), |k: int| entries[ranking_order(entries)[k]].0)
}

/// The ids of the best `n` entries, best first; all of them if there are
/// fewer than `n`.
pub open spec fn top(entries: Seq<(u32, u32)>, n: nat) -> Seq<u32> {
    ranking(entries).take(if n <= entries.len() { n as int } else { entries.len() as int })
}

/// In a ranking of a prefix no position occurs twice.
pub proof fn lemma_ranking_has_no_duplicates(entries: Seq<(u32, u32)>, order: Seq<int>, upto: int)
    requires
        is_ranking_of(entries, order, upto),
    ensures
        order.no_duplicates(),
{
    assert forall|k: int, l: int| 0 <= k < order.len() && 0 <= l < order.len() && k != l implies order[k]
        != order[l] by {
        if k < l {
            assert(outranks(entries, order[k], order[l]));
        } else {
            assert(outranks(entries, order[l], order[k]));
        }
    }
}

/// A ranking of the first `upto` positions holds each of them.
pub proof fn lemma_ranking_is_complete(entries: Seq<(u32, u32)>, order: Seq<int>, upto: int)
    requires
        0 <= upto,
        is_ranking_of(entries, order, upto),
    ensures
        forall|p: int| 0 <= p < upto ==> order.contains(p),
{
    lemma_ranking_has_no_duplicates(entries, order, upto);
    let positions = Set::new(|p: int| 0 <= p < upto);
    let listed = order.to_set();
    vstd::set_lib::lemma_int_range(0, upto);
    assert(positions =~= vstd::set_lib::set_int_range(0, upto));
    order.unique_seq_to_set();
    assert(listed.subset_of(positions)) by {
        assert forall|p: int| listed.contains(p) implies positions.contains(p) by {
            let k = choose|k: int| 0 <= k < order.len() && order[k] == p;
            assert(0 <= order[k] < upto);
        }
    }
    vstd::set_lib::lemma_subset_equality(listed, positions);
    assert forall|p: int| 0 <= p < upto implies order.contains(p) by {
        assert(positions.contains(p));
        assert(listed.contains(p));
    }
}

/// There is one ranking only.
pub proof fn lemma_ranking_is_unique(entries: Seq<(u32, u32)>, first: Seq<int>, second: Seq<int>)
    requires
        is_ranking(entries, first),
        is_ranking(entries, second),
    ensures
        first == second,
{
    let len = entries.len() as int;
    lemma_ranking_is_complete(entries, first, len);
    lemma_ranking_is_complete(entries, second, len);
    lemma_ranking_has_no_duplicates(entries, first, len);
    lemma_ranking_has_no_duplicates(entries, second, len);
    assert forall|k: int| 0 <= k < len implies first[k] == second[k] by {
        lemma_rankings_agree_upto(entries, first, second, k);
    }
    assert(first =~= second);
}

proof fn lemma_rankings_agree_upto(
    entries: Seq<(u32, u32)>,
    first: Seq<int>,
    second: Seq<int>,
    k: int,
)
    requires
        is_ranking(entries, first),
        is_ranking(entries, second),
        0 <= k < entries.len(),
        forall|p: int| 0 <= p < entries.len() ==> first.contains(p),
        forall|p: int| 0 <= p < entries.len() ==> second.contains(p),
        first.no_duplicates(),
        second.no_duplicates(),
    ensures
        forall|i: int| 0 <= i <= k ==> first[i] == second[i],
    decreases k,
{
    if k > 0 {
        lemma_rankings_agree_upto(entries, first, second, k - 1);
    }
    let a = first[k];
    let b = second[k];
    if a != b {
        assert(0 <= a < entries.len());
        assert(0 <= b < entries.len());
        assert(second.contains(a));
        let ja = choose|j: int| 0 <= j < second.len() && second[j] == a;
        assert(first.contains(b));
        let jb = choose|j: int| 0 <= j < first.len() && first[j] == b;
        // Before k the two sequences agree, so each of a and b stands after k in the other.
        if ja < k {
            assert(first[ja] == second[ja]);
            assert(first[ja] == first[k]);
        }
        if jb < k {
            assert(first[jb] == second[jb]);
            assert(second[jb] == second[k]);
        }
        assert(ja > k);
        assert(jb > k);
        assert(outranks(entries, second[k], second[ja]));
        assert(outranks(entries, first[k], first[jb]));
    }
}

/// A ranked collection of ids: each id has a score, and the best ids can be
/// read off.
pub trait AVLTree: Sized {
    /// The `(id, score)` entries in insertion order.
    spec fn entries(&self) -> Seq<(u32, u32)>;

    /// The representation is sound: one score per id, no id twice.
    spec fn wf(&self) -> bool;

    /// A ranking without entries.
    fn empty() -> (tree: Self)
        ensures
            tree.wf(),
            tree.entries() == Seq::<(u32, u32)>::empty(),
    ;

    /// Adds `id` with score 0 unless it is present; says whether it was added.
    fn insert(&mut self, id: u32) -> (inserted: bool)
        requires
            old(self).wf(),
        ensures
            final(self).wf(),
            inserted == !has_id(old(self).entries(), id),
            final(self).entries() == if inserted {
                old(self).entries().push((id, 0u32))
            } else {
                old(self).entries()
            },
    ;

    /// Raises the score of `id` by one and returns the new score; `None`, and
    /// no change, if `id` is absent.
    fn increment_by_one(&mut self, id: u32) -> (score: Option<u32>)
        requires
            old(self).wf(),
            score_of(old(self).entries(), id) != Some(u32::MAX),
        ensures
            final(self).wf(),
            has_id(old(self).entries(), id) ==> {
                let at = position_of(old(self).entries(), id);
                let raised = (old(self).entries()[at].1 + 1) as u32;
                &&& score == Some(raised)
                &&& final(self).entries() == old(self).entries().update(at, (id, raised))
            },
            !has_id(old(self).entries(), id) ==> score.is_none() && final(self).entries() == old(
                self,
            ).entries(),
    ;

    /// Takes `id` out and returns the score it had; `None`, and no change, if
    /// `id` is absent.
    fn remove(&mut self, id: u32) -> (score: Option<u32>)
        requires
            old(self).wf(),
        ensures
            final(self).wf(),
            score == score_of(old(self).entries(), id),
            final(self).entries() == if has_id(old(self).entries(), id) {
                old(self).entries().remove(position_of(old(self).entries(), id))
            } else {
                old(self).entries()
            },
    ;

    /// The best `n` ids, best first; all ids if there are fewer than `n`.
    fn extract_top(&self, n: usize) -> (best: Vec<u32>)
        requires
            self.wf(),
        ensures
            best@ == top(self.entries(), n as nat),
    ;
}

/// A ranking kept as two parallel lists.
#[derive(Debug)]
pub struct ScoredIdTreeMock {
    pub ids: Vec<u32>,
    pub scores: Vec<u32>,
}

impl Default for ScoredIdTreeMock {
    fn default() -> (tree: Self)
        ensures
            tree.wf(),
            tree.entries() == Seq::<(u32, u32)>::empty(),
    {
        let tree = ScoredIdTreeMock { ids: Vec::new(), scores: Vec::new() };
        assert(tree.entries() =~= Seq::<(u32, u32)>::empty());
        tree
    }
}

impl ScoredIdTreeMock {
    /// The position of `id` in the lists, if it is present.
    pub fn index_of(&self, id: u32) -> (found: Option<usize>)
        requires
            self.wf(),
        ensures
            found.is_some() == has_id(self.entries(), id),
            found matches Some(i) ==> i as int == position_of(self.entries(), id) && i
                < self.ids.len() && self.ids[i as int] == id,
    {
        let mut i: usize = 0;
        while i < self.ids.len()
            invariant
                i <= self.ids.len(),
                self.wf(),
                forall|j: int| 0 <= j < i ==> self.ids[j] != id,
            decreases self.ids.len() - i,
        {
            if self.ids[i] == id {
                proof {
                    let entries = self.entries();
                    assert(entries[i as int].0 == id);
                    let at = position_of(entries, id);
                    assert(entries[at].0 == id);
                    if at != i as int {
                        if at < i as int {
                            assert(entries[at].0 != entries[i as int].0);
                        } else {
                            assert(entries[i as int].0 != entries[at].0);
                        }
                    }
                }
                return Some(i);
            }
            i += 1;
        }
        proof {
            let entries = self.entries();
            if has_id(entries, id) {
                let at = position_of(entries, id);
                assert(self.ids[at] == entries[at].0);
            }
        }
        None
    }

    /// Whether the lists are a ranking: of one length, and with no id twice.
    pub fn is_wf(&self) -> (sound: bool)
        ensures
            sound == self.wf(),
    {
        if self.ids.len() != self.scores.len() {
            return false;
        }
        let mut i: usize = 0;
        while i < self.ids.len()
            invariant
                i <= self.ids.len(),
                forall|a: int, b: int| 0 <= a < b < i ==> self.ids@[a] != self.ids@[b],
            decreases self.ids.len() - i,
        {
            let mut j: usize = 0;
            while j < i
                invariant
                    j <= i < self.ids.len(),
                    forall|a: int| 0 <= a < j ==> self.ids@[a] != self.ids@[i as int],
                decreases i - j,
            {
                if self.ids[j] == self.ids[i] {
                    return false;
                }
                j += 1;
            }
            i += 1;
        }
        true
    }

    /// The score of `id`, if it is present.
    pub fn score(&self, id: u32) -> (score: Option<u32>)
        requires
            self.wf(),
        ensures
            score == score_of(self.entries(), id),
    {
        match self.index_of(id) {
            Some(i) => Some(self.scores[i]),
            None => None,
        }
    }

    /// All ids, best first.
    pub fn score_sorted_copy(&self) -> (sorted: Vec<u32>)
        requires
            self.wf(),
        ensures
            sorted@ == ranking(self.entries()),
    {
        let ghost entries = self.entries();
        let mut order: Vec<usize> = Vec::new();
        let mut p: usize = 0;
        while p < self.ids.len()
            invariant
                p <= self.ids.len(),
                self.wf(),
                entries == self.entries(),
                is_ranking_of(entries, order@.map_values(|x: usize| x as int), p as int),
                forall|j: int| 0 <= j < order.len() ==> (#[trigger] order[j]) < p,
            decreases self.ids.len() - p,
        {
            let ghost before = order@.map_values(|x: usize| x as int);
            let mut k: usize = 0;
            while k < order.len() && self.scores[order[k]] >= self.scores[p]
                invariant
                    k <= order.len(),
                    p < self.ids.len(),
                    self.wf(),
                    entries == self.entries(),
                    before == order@.map_values(|x: usize| x as int),
                    is_ranking_of(entries, before, p as int),
                    forall|j: int| 0 <= j < order.len() ==> (#[trigger] order[j]) < p,
                    forall|j: int| 0 <= j < k ==> entries[#[trigger] before[j]].1 >= entries[p as int].1,
                decreases order.len() - k,
            {
                assert(before[k as int] == order[k as int] as int);
                k += 1;
            }
            proof {
                if (k as int) < before.len() {
                    assert(before[k as int] == order[k as int] as int);
                    assert(entries[before[k as int]].1 < entries[p as int].1);
                }
            }
            order.insert(k, p);
            proof {
                let after = order@.map_values(|x: usize| x as int);
                assert(after =~= before.insert(k as int, p as int));
                assert forall|a: int, b: int| 0 <= a < b < after.len() implies outranks(
                    entries,
                    #[trigger] after[a],
                    #[trigger] after[b],
                ) by {
                    if b < k as int {
                        assert(after[a] == before[a] && after[b] == before[b]);
                    } else if b == k as int {
                        assert(after[a] == before[a]);
                        assert(before[a] < p);
                    } else if a < k as int {
                        assert(after[a] == before[a] && after[b] == before[b - 1]);
                        if a < b - 1 {
                        } else {
                        }
                    } else if a == k as int {
                        assert(after[b] == before[b - 1]);
                        assert(entries[before[k as int]].1 < entries[p as int].1);
                        if b - 1 > k as int {
                            assert(outranks(entries, before[k as int], before[b - 1]));
                        }
                    } else {
                        assert(after[a] == before[a - 1] && after[b] == before[b - 1]);
                    }
                }
                assert forall|a: int| 0 <= a < order.len() implies (#[trigger] order[a]) < p + 1 by {
                    assert(after[a] == order[a] as int);
                    if a < k as int {
                        assert(after[a] == before[a]);
                    } else if a > k as int {
                        assert(after[a] == before[a - 1]);
                    }
                }
                assert forall|a: int| 0 <= a < after.len() implies 0 <= #[trigger] after[a] < p
                    + 1 by {
                    if a < k as int {
                        assert(after[a] == before[a]);
                    } else if a > k as int {
                        assert(after[a] == before[a - 1]);
                    }
                }
            }
            p += 1;
        }
        let ghost positions = order@.map_values(|x: usize| x as int);
        proof {
            assert(is_ranking(entries, positions));
            lemma_ranking_is_unique(entries, positions, ranking_order(entries));
        }
        let mut sorted: Vec<u32> = Vec::new();
        let mut k: usize = 0;
        while k < order.len()
            invariant
                k <= order.len(),
                self.wf(),
                entries == self.entries(),
                positions == order@.map_values(|x: usize| x as int),
                is_ranking(entries, positions),
                sorted.len() == k,
                forall|j: int| 0 <= j < k ==> sorted[j] == entries[positions[j]].0,
            decreases order.len() - k,
        {
            assert(positions[k as int] == order[k as int] as int);
            assert(0 <= positions[k as int] < entries.len());
            sorted.push(self.ids[order[k]]);
            k += 1;
        }
        assert(sorted@ =~= ranking(entries));
        sorted
    }
}

impl AVLTree for ScoredIdTreeMock {
    open spec fn entries(&self) -> Seq<(u32, u32)> {
        Seq::new(self.ids@.len(), |i: int| (self.ids@[i], self.scores@[i]))
    }

    open spec fn wf(&self) -> bool {
        &&& self.ids@.len() == self.scores@.len()
        &&& self.ids@.no_duplicates()
    }

    fn empty() -> (tree: Self) {
        ScoredIdTreeMock::default()
    }

    fn insert(&mut self, id: u32) -> (inserted: bool) {
        if self.index_of(id).is_none() {
            self.ids.push(id);
            self.scores.push(0);
            proof {
                assert(self.entries() =~= old(self).entries().push((id, 0u32)));
                assert forall|i: int, j: int|
                    0 <= i < self.ids@.len() && 0 <= j < self.ids@.len() && i != j implies self.ids@[i]
                    != self.ids@[j] by {
                    let entries = old(self).entries();
                    if i < entries.len() && j < entries.len() {
                    } else if i < entries.len() {
                        assert(entries[i].0 == self.ids@[i]);
                    } else {
                        assert(entries[j].0 == self.ids@[j]);
                    }
                }
            }
            true
        } else {
            false
        }
    }

    fn increment_by_one(&mut self, id: u32) -> (score: Option<u32>) {
        match self.index_of(id) {
            Some(i) => {
                let raised: u32 = self.scores[i] + 1;
                self.scores[i] = raised;
                proof {
                    assert(self.entries() =~= old(self).entries().update(i as int, (id, raised)));
                }
                Some(raised)
            },
            None => None,
        }
    }

    fn remove(&mut self, id: u32) -> (score: Option<u32>) {
        match self.index_of(id) {
            Some(i) => {
                self.ids.remove(i);
                let score = self.scores.remove(i);
                proof {
                    assert(self.entries() =~= old(self).entries().remove(i as int));
                    assert forall|a: int, b: int|
                        0 <= a < self.ids@.len() && 0 <= b < self.ids@.len() && a != b implies self.ids@[a]
                        != self.ids@[b] by {
                        let a0 = if a < i { a } else { a + 1 };
                        let b0 = if b < i { b } else { b + 1 };
                        assert(self.ids@[a] == old(self).ids@[a0]);
                        assert(self.ids@[b] == old(self).ids@[b0]);
                    }
                }
                Some(score)
            },
            None => None,
        }
    }

    fn extract_top(&self, n: usize) -> (best: Vec<u32>) {
        let mut best = self.score_sorted_copy();
        if n < best.len() {
            best.truncate(n);
        }
        assert(best@ =~= top(self.entries(), n as nat));
        best
    }
}

} // verus!
