//! The first position of a list at which something holds, and all of them.

use vstd::prelude::*;

verus! {

/// `flags[at]` holds, and no flag before it does.
pub open spec fn is_first_true(flags: Seq<bool>, at: int) -> bool {
    &&& 0 <= at < flags.len()
    &&& flags[at]
    &&& forall|j: int| 0 <= j < at ==> !flags[j]
}

/// The position of the first flag that holds; the length of the list if none
/// does.
pub open spec fn first_true(flags: Seq<bool>) -> int {
    if exists|at: int| is_first_true(flags, at) {
        choose|at: int| is_first_true(flags, at)
    } else {
        flags.len() as int
    }
}

/// A position at which a flag holds, after none that does, is the first.
pub proof fn lemma_first_true_at(flags: Seq<bool>, at: int)
    requires
        is_first_true(flags, at),
    ensures
        first_true(flags) == at,
{
    let chosen = choose|c: int| is_first_true(flags, c);
    if chosen < at {
        assert(!flags[chosen]);
    } else if at < chosen {
        assert(!flags[at]);
    }
}

/// Where no flag holds, the first position is the length.
pub proof fn lemma_first_true_none(flags: Seq<bool>)
    requires
        forall|j: int| 0 <= j < flags.len() ==> !flags[j],
    ensures
        first_true(flags) == flags.len(),
{
    if exists|at: int| is_first_true(flags, at) {
        let at = choose|at: int| is_first_true(flags, at);
        assert(!flags[at]);
    }
}

/// The first position lies in the list exactly if some flag holds; then its
/// flag holds and none before it does.
pub proof fn lemma_first_true(flags: Seq<bool>)
    ensures
        0 <= first_true(flags) <= flags.len(),
        first_true(flags) < flags.len() ==> is_first_true(flags, first_true(flags)),
        first_true(flags) == flags.len() ==> forall|j: int| 0 <= j < flags.len() ==> !flags[j],
{
    if exists|at: int| is_first_true(flags, at) {
    } else {
        assert forall|j: int| 0 <= j < flags.len() implies !flags[j] by {
            if flags[j] {
                lemma_some_first_true(flags, j);
            }
        }
    }
}

proof fn lemma_some_first_true(flags: Seq<bool>, upto: int)
    requires
        0 <= upto < flags.len(),
        flags[upto],
    ensures
        exists|at: int| is_first_true(flags, at),
    decreases upto,
{
    if forall|j: int| 0 <= j < upto ==> !flags[j] {
        assert(is_first_true(flags, upto));
    } else {
        let j = choose|j: int| 0 <= j < upto && flags[j];
        lemma_some_first_true(flags, j);
    }
}


/// The positions at which a flag holds, in ascending order.
pub open spec fn kept_positions(flags: Seq<bool>) -> Seq<int>
    decreases flags.len(),
{
    if flags.len() == 0 {
        Seq::empty()
    } else if flags.last() {
        kept_positions(flags.drop_last()).push(flags.len() - 1)
    } else {
        kept_positions(flags.drop_last())
    }
}

/// One more flag adds its position to the kept ones if it holds.
pub proof fn lemma_kept_next(flags: Seq<bool>, upto: int)
    requires
        0 <= upto < flags.len(),
    ensures
        kept_positions(flags.take(upto + 1)) == if flags[upto] {
            kept_positions(flags.take(upto)).push(upto)
        } else {
            kept_positions(flags.take(upto))
        },
{
    let next = flags.take(upto + 1);
    assert(next.drop_last() =~= flags.take(upto));
    assert(next.last() == flags[upto]);
}

/// The kept positions are the positions at which a flag holds, each once and
/// in ascending order.
pub proof fn lemma_kept_positions(flags: Seq<bool>)
    ensures
        forall|k: int|
            0 <= k < kept_positions(flags).len() ==> 0 <= #[trigger] kept_positions(flags)[k]
                < flags.len() && flags[kept_positions(flags)[k]],
        forall|k: int, l: int|
            0 <= k < l < kept_positions(flags).len() ==> kept_positions(flags)[k] < kept_positions(
                flags,
            )[l],
        forall|i: int| 0 <= i < flags.len() && flags[i] ==> kept_positions(flags).contains(i),
        kept_positions(flags).len() <= flags.len(),
    decreases flags.len(),
{
    if flags.len() > 0 {
        let rest = flags.drop_last();
        lemma_kept_positions(rest);
        let before = kept_positions(rest);
        let all = kept_positions(flags);
        assert forall|k: int| 0 <= k < all.len() implies 0 <= #[trigger] all[k] < flags.len()
            && flags[all[k]] by {
            if k < before.len() {
                assert(all[k] == before[k]);
                assert(rest[before[k]] == flags[before[k]]);
            }
        }
        assert forall|k: int, l: int| 0 <= k < l < all.len() implies all[k] < all[l] by {
            assert(all[k] == before[k]);
            if l < before.len() {
                assert(all[l] == before[l]);
            }
        }
        assert forall|i: int| 0 <= i < flags.len() && flags[i] implies all.contains(i) by {
            if i < rest.len() {
                assert(rest[i]);
                let k = choose|k: int| 0 <= k < before.len() && before[k] == i;
                assert(all[k] == i);
            } else {
                assert(all[all.len() - 1] == i);
            }
        }
    }
}

} // verus!
