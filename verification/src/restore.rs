//! Taking over an aggregate that was kept elsewhere, such as in a snapshot:
//! it is checked, and its substring indices are built anew.

use vstd::prelude::*;
use std::collections::HashMap;
use crate::bill::{BillDataView, BillState};
use crate::datastore::{Datastore, DatastoreView};
use crate::freeby::{freeby_views, Freeby, FreebyAble};
use crate::indices::{index_items, index_users};
use crate::keyed::balances_are_wf;
use crate::left_threaded_avl_tree::AVLTree;
use crate::purchase::PurchaseFunctions;

verus! {

broadcast use vstd::std_specs::hash::group_hash_axioms;

/// Every key of the map lies below `bound`.
pub open spec fn all_keys_below<V>(map: Map<u32, V>, bound: u32) -> bool {
    forall|key: u32| #[trigger] map.contains_key(key) ==> key < bound
}

/// Whether every key of the map lies below `bound`.
pub fn keys_below<V>(map: &HashMap<u32, V>, bound: u32) -> (all: bool)
    ensures
        all == all_keys_below(map@, bound),
{
    let mut found: usize = 0;
    let ghost mut seen: Set<u32> = Set::empty();
    let mut key: u32 = 0;
    while key < bound
        invariant
            key <= bound,
            seen =~= Set::new(|k: u32| k < key && map@.contains_key(k)),
            seen.finite(),
            seen.len() == found,
            found <= key,
        decreases bound - key,
    {
        if map.contains_key(&key) {
            found += 1;
            proof {
                assert(!seen.contains(key));
                seen = seen.insert(key);
            }
        }
        key += 1;
    }
    let total = map.len();
    proof {
        let keys = map@.dom();
        assert(keys.finite());
        assert(total == keys.len());
        assert(seen.subset_of(keys));
        if found == total {
            vstd::set_lib::lemma_subset_equality(seen, keys);
            assert forall|k: u32| #[trigger] map@.contains_key(k) implies k < bound by {
                assert(keys.contains(k));
                assert(seen.contains(k));
            }
        } else if all_keys_below(map@, bound) {
            assert(keys =~= seen);
        }
    }
    found == total
}

impl DatastoreView {
    /// The personal freebies are kept under ids below the counter of the
    /// users.
    pub open spec fn recipients_known(self) -> bool {
        all_keys_below(self.open_freebies, self.user_id_counter)
    }
}

impl Datastore {
    /// What is kept can be taken over: but for the substring indices, which
    /// can be built anew, the aggregate is well formed; and personal freebies
    /// are kept under the ids of users.
    pub open spec fn restorable(&self) -> bool {
        &&& self.repr_wf()
        &&& self@.ids_from_counters()
        &&& self@.purchases_sound()
        &&& self@.freebies_sound()
        &&& self@.recipients_known()
        &&& self@.bills_sound()
        &&& self@.rankings_sound()
    }

    fn ids_are_sound(&self) -> (sound: bool)
        ensures
            sound == self@.ids_from_counters(),
    {
        if !keys_below(&self.users, self.user_id_counter) || !keys_below(&self.items, self.item_id_counter) {
            proof {
                if self@.ids_from_counters() {
                    assert forall|k: u32| #[trigger] self.users@.contains_key(k) implies k
                        < self.user_id_counter by {
                        assert(self@.users.contains_key(k));
                    }
                    assert forall|k: u32| #[trigger] self.items@.contains_key(k) implies k
                        < self.item_id_counter by {
                        assert(self@.items.contains_key(k));
                    }
                }
            }
            return false;
        }
        let mut id: u32 = 0;
        while id < self.user_id_counter
            invariant
                id <= self.user_id_counter,
                forall|k: u32| k < id && #[trigger] self.users@.contains_key(k) ==> self.users@[k].user_id == k,
            decreases self.user_id_counter - id,
        {
            match self.users.get(&id) {
                Some(user) => {
                    if user.user_id != id {
                        assert(self@.users.contains_key(id) && self@.users[id].user_id != id);
                        return false;
                    }
                },
                None => {},
            }
            id += 1;
        }
        let mut id: u32 = 0;
        while id < self.item_id_counter
            invariant
                id <= self.item_id_counter,
                forall|k: u32| k < id && #[trigger] self.items@.contains_key(k) ==> self.items@[k].item_id == k,
            decreases self.item_id_counter - id,
        {
            match self.items.get(&id) {
                Some(item) => {
                    if item.item_id != id {
                        assert(self@.items.contains_key(id) && self@.items[id].item_id != id);
                        return false;
                    }
                },
                None => {},
            }
            id += 1;
        }
        proof {
            assert forall|k: u32| #[trigger] self@.users.contains_key(k) implies k < self.user_id_counter
                && self@.users[k].user_id == k by {
                assert(self.users@.contains_key(k));
            }
            assert forall|k: u32| #[trigger] self@.items.contains_key(k) implies k < self.item_id_counter
                && self@.items[k].item_id == k by {
                assert(self.items@.contains_key(k));
            }
        }
        true
    }

    fn purchases_are_sound(&self) -> (sound: bool)
        ensures
            sound == self@.purchases_sound(),
    {
        let ghost views = self@.purchases;
        let mut i: usize = 0;
        while i < self.purchases.len()
            invariant
                i <= self.purchases.len(),
                views == self@.purchases,
                forall|a: int, b: int|
                    0 <= a <= b < i ==> (#[trigger] views[a]).timestamp() <= (#[trigger] views[b]).timestamp(),
                forall|a: int| 0 <= a < i ==> self@.users.contains_key((#[trigger] views[a]).user_id()),
                forall|a: int|
                    0 <= a < i ==> ((#[trigger] views[a]).item_id() matches Some(item)
                        ==> self@.items.contains_key(item)),
            decreases self.purchases.len() - i,
        {
            let purchase = &self.purchases[i];
            assert(views[i as int] == purchase@);
            if i > 0 {
                assert(views[i - 1] == self.purchases[i - 1]@);
                if *self.purchases[i - 1].get_timestamp() > *purchase.get_timestamp() {
                    return false;
                }
                assert forall|a: int| 0 <= a <= i implies (#[trigger] views[a]).timestamp() <= views[i as int].timestamp() by {
                    if a < i {
                        assert(views[a].timestamp() <= views[i - 1].timestamp());
                    }
                }
            }
            let user_id: u32 = *purchase.get_user_id();
            assert(self@.users.contains_key(user_id) == self.users@.contains_key(user_id));
            if !self.users.contains_key(&user_id) {
                return false;
            }
            if purchase.has_item_id() {
                let item_id: u32 = *purchase.get_item_id();
                assert(self@.items.contains_key(item_id) == self.items@.contains_key(item_id));
                if !self.items.contains_key(&item_id) {
                    return false;
                }
            }
            i += 1;
        }
        true
    }

    /// Whether the freebies of a list of personal freebies are sound.
    fn personal_list_is_sound(&self, list: &Vec<Freeby>) -> (sound: bool)
        ensures
            sound == (forall|i: int|
                0 <= i < list.len() ==> {
                    let freeby = #[trigger] freeby_views(list@)[i];
                    &&& !(freeby is FFA)
                    &&& freeby.wf()
                    &&& self@.users.contains_key(freeby.donor())
                }),
    {
        let ghost views = freeby_views(list@);
        let mut i: usize = 0;
        while i < list.len()
            invariant
                i <= list.len(),
                views == freeby_views(list@),
                forall|a: int|
                    0 <= a < i ==> {
                        let freeby = #[trigger] views[a];
                        &&& !(freeby is FFA)
                        &&& freeby.wf()
                        &&& self@.users.contains_key(freeby.donor())
                    },
            decreases list.len() - i,
        {
            let freeby = &list[i];
            assert(views[i as int] == freeby@);
            let donor = freeby.get_donor();
            assert(self@.users.contains_key(donor) == self.users@.contains_key(donor));
            if freeby.is_ffa() || !freeby.is_wf() || !self.users.contains_key(&donor) {
                return false;
            }
            i += 1;
        }
        true
    }

    fn freebies_are_sound(&self) -> (sound: bool)
        ensures
            sound == (self@.freebies_sound() && self@.recipients_known()),
    {
        let ghost open = self@.open_ffa;
        let mut i: usize = 0;
        while i < self.open_ffa.len()
            invariant
                i <= self.open_ffa.len(),
                open == self@.open_ffa,
                forall|a: int| 0 <= a < i ==> (#[trigger] open[a]) is FFA && open[a].wf(),
            decreases self.open_ffa.len() - i,
        {
            assert(open[i as int] == self.open_ffa[i as int]@);
            if !self.open_ffa[i].is_ffa() || !self.open_ffa[i].is_wf() {
                return false;
            }
            i += 1;
        }
        let ghost used = self@.used_up_freebies;
        let mut i: usize = 0;
        while i < self.used_up_freebies.len()
            invariant
                i <= self.used_up_freebies.len(),
                used == self@.used_up_freebies,
                forall|a: int| 0 <= a < i ==> (#[trigger] used[a]).wf(),
                forall|a: int, b: int| 0 <= a <= b < i ==> (#[trigger] used[a]).id() <= (#[trigger] used[b]).id(),
            decreases self.used_up_freebies.len() - i,
        {
            assert(used[i as int] == self.used_up_freebies[i as int]@);
            if !self.used_up_freebies[i].is_wf() {
                return false;
            }
            if i > 0 {
                assert(used[i - 1] == self.used_up_freebies[i - 1]@);
                if self.used_up_freebies[i - 1].get_id() > self.used_up_freebies[i].get_id() {
                    return false;
                }
                assert forall|a: int| 0 <= a <= i implies (#[trigger] used[a]).id() <= used[i as int].id() by {
                    if a < i {
                        assert(used[a].id() <= used[i - 1].id());
                    }
                }
            }
            i += 1;
        }
        if !keys_below(&self.open_freebies, self.user_id_counter) {
            proof {
                if self@.recipients_known() {
                    assert forall|k: u32| #[trigger] self.open_freebies@.contains_key(k) implies k
                        < self.user_id_counter by {
                        assert(self@.open_freebies.contains_key(k));
                    }
                }
            }
            return false;
        }
        let mut recipient: u32 = 0;
        while recipient < self.user_id_counter
            invariant
                recipient <= self.user_id_counter,
                forall|r: u32, a: int|
                    r < recipient && self@.open_freebies.contains_key(r) && 0 <= a
                        < self@.open_freebies[r].len() ==> {
                        let freeby = #[trigger] self@.open_freebies[r][a];
                        &&& !(freeby is FFA)
                        &&& freeby.wf()
                        &&& self@.users.contains_key(freeby.donor())
                    },
            decreases self.user_id_counter - recipient,
        {
            assert(self@.open_freebies.contains_key(recipient) == self.open_freebies@.contains_key(
                recipient,
            ));
            match self.open_freebies.get(&recipient) {
                Some(list) => {
                    assert(self@.open_freebies[recipient] == freeby_views(list@));
                    if !self.personal_list_is_sound(list) {
                        return false;
                    }
                },
                None => {},
            }
            recipient += 1;
        }
        proof {
            assert forall|k: u32| #[trigger] self@.open_freebies.contains_key(k) implies k
                < self.user_id_counter by {
                assert(self.open_freebies@.contains_key(k));
            }
        }
        true
    }

    fn bills_are_sound(&self) -> (sound: bool)
        ensures
            sound == self@.bills_sound(),
    {
        let ghost views = self@.bills;
        let mut i: usize = 0;
        while i < self.bills.len()
            invariant
                i <= self.bills.len(),
                views == self@.bills,
                forall|a: int|
                    0 <= a < i && (#[trigger] views[a]).bill_state == BillState::Created
                        ==> views[a].finalized_data == BillDataView::empty(),
            decreases self.bills.len() - i,
        {
            let bill = &self.bills[i];
            assert(views[i as int] == bill@);
            if bill.bill_state.is_created() {
                let empty = bill.finalized_data.all_users.is_empty() && bill.finalized_data.all_items.is_empty()
                    && bill.finalized_data.user_consumption.is_empty();
                proof {
                    let data = bill.finalized_data;
                    if empty {
                        assert(data@ =~= BillDataView::empty());
                    } else {
                        if !data.all_users@.is_empty() {
                            let k = choose|k: u32| data.all_users@.contains_key(k);
                            assert(data@.all_users.contains_key(k));
                        } else if !data.all_items@.is_empty() {
                            let k = choose|k: u32| data.all_items@.contains_key(k);
                            assert(data@.all_items.contains_key(k));
                        } else {
                            let k = choose|k: u32| data.user_consumption@.contains_key(k);
                            assert(data@.user_consumption.contains_key(k));
                        }
                        assert(data@ != BillDataView::empty());
                    }
                }
                if !empty {
                    return false;
                }
            }
            i += 1;
        }
        true
    }

    fn rankings_are_sound(&self) -> (sound: bool)
        ensures
            sound == (self@.rankings_sound() && self.top_user_scores.wf() && forall|id: u32| #[trigger]
                self.drink_scores_per_user@.contains_key(id) ==> self.drink_scores_per_user@[id].wf()),
    {
        if !self.top_user_scores.is_wf() {
            return false;
        }
        let scores_below = keys_below(&self.drink_scores_per_user, self.user_id_counter);
        let tops_below = keys_below(&self.top_drinks_per_user, self.user_id_counter);
        if !scores_below || !tops_below {
            proof {
                if self@.rankings_sound() {
                    assert forall|k: u32| #[trigger] self.drink_scores_per_user@.contains_key(k) implies k
                        < self.user_id_counter by {
                        assert(self@.drink_scores_per_user.contains_key(k));
                    }
                    assert forall|k: u32| #[trigger] self.top_drinks_per_user@.contains_key(k) implies k
                        < self.user_id_counter by {
                        assert(self@.top_drinks_per_user.contains_key(k));
                        assert(self@.top_drinks_per_user.dom().contains(k));
                        assert(self@.drink_scores_per_user.dom().contains(k));
                        assert(self@.drink_scores_per_user.contains_key(k));
                    }
                }
            }
            return false;
        }
        let mut id: u32 = 0;
        while id < self.user_id_counter
            invariant
                id <= self.user_id_counter,
                forall|k: u32|
                    k < id ==> self.drink_scores_per_user@.contains_key(k)
                        == #[trigger] self.top_drinks_per_user@.contains_key(k),
                forall|k: u32|
                    k < id && #[trigger] self.drink_scores_per_user@.contains_key(k)
                        ==> self.drink_scores_per_user@[k].wf(),
            decreases self.user_id_counter - id,
        {
            let ranked = self.top_drinks_per_user.contains_key(&id);
            match self.drink_scores_per_user.get(&id) {
                Some(tree) => {
                    if !ranked {
                        proof {
                            if self@.rankings_sound() {
                                assert(self@.drink_scores_per_user.contains_key(id));
                                assert(self@.drink_scores_per_user.dom().contains(id));
                                assert(self@.top_drinks_per_user.dom().contains(id));
                                assert(self@.top_drinks_per_user.contains_key(id));
                            }
                        }
                        return false;
                    }
                    if !tree.is_wf() {
                        return false;
                    }
                },
                None => {
                    if ranked {
                        proof {
                            if self@.rankings_sound() {
                                assert(self@.top_drinks_per_user.contains_key(id));
                                assert(self@.top_drinks_per_user.dom().contains(id));
                                assert(self@.drink_scores_per_user.dom().contains(id));
                                assert(self@.drink_scores_per_user.contains_key(id));
                            }
                        }
                        return false;
                    }
                },
            }
            id += 1;
        }
        proof {
            assert(self@.top_drinks_per_user.dom() =~= self@.drink_scores_per_user.dom()) by {
                assert forall|k: u32| self@.top_drinks_per_user.dom().contains(k)
                    == self@.drink_scores_per_user.dom().contains(k) by {
                    assert(self@.top_drinks_per_user.contains_key(k) == self.top_drinks_per_user@.contains_key(k));
                    assert(self@.drink_scores_per_user.contains_key(k)
                        == self.drink_scores_per_user@.contains_key(k));
                }
            }
            assert forall|k: u32| #[trigger] self@.drink_scores_per_user.contains_key(k) implies k
                < self.user_id_counter by {
                assert(self.drink_scores_per_user@.contains_key(k));
            }
        }
        true
    }

    /// Takes over an aggregate that was kept elsewhere. If it is restorable,
    /// its substring indices are built anew, and it is well formed; if it is
    /// not, it is left as it is. Says which of the two.
    pub fn restore(&mut self) -> (restored: bool)
        ensures
            restored == old(self).restorable(),
            restored ==> final(self).wf() && final(self)@ == (DatastoreView {
                users_index: old(self)@.fresh_users_index(),
                items_index: old(self)@.fresh_items_index(),
                ..old(self)@
            }),
            !restored ==> *final(self) == *old(self),
    {
        if !(self.rankings_are_sound() && balances_are_wf(&self.balance_cost_per_user) && balances_are_wf(
            &self.balance_count_per_user,
        ) && self.categories.is_wf() && self.ids_are_sound() && self.purchases_are_sound()
            && self.freebies_are_sound() && self.bills_are_sound()) {
            return false;
        }
        proof {
            self.lemma_keys();
        }
        self.users_suffix_tree = index_users(&self.users, self.user_id_counter);
        self.items_suffix_tree = index_items(&self.items, self.item_id_counter);
        proof {
            assert(self@ =~= (DatastoreView {
                users_index: old(self)@.fresh_users_index(),
                items_index: old(self)@.fresh_items_index(),
                ..old(self)@
            }));
        }
        true
    }
}

} // verus!
