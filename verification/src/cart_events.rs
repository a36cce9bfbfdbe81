//! What a shopping cart does to the aggregate: a purchase for each of its
//! items, then one for each of its specials, all at one time.

use vstd::prelude::*;
use crate::config::StaticConfig;
use crate::datastore::{Datastore, DatastoreView};
use crate::keyed::read_balance;
use crate::ledger_events::incremented;
use crate::left_threaded_avl_tree::{distinct_ids, has_id, position_of, score_of, AVLTree};
use crate::views::texts_view;

verus! {

broadcast use vstd::std_specs::hash::group_hash_axioms;

/// Raising the score of one id leaves the scores of the others, in a ranking
/// that has no id twice.
pub proof fn lemma_incremented_scores(entries: Seq<(u32, u32)>, id: u32, other: u32)
    requires
        distinct_ids(entries),
    ensures
        distinct_ids(incremented(entries, id)),
        has_id(incremented(entries, id), other) == has_id(entries, other),
        other != id ==> score_of(incremented(entries, id), other) == score_of(entries, other),
        has_id(entries, id) ==> score_of(incremented(entries, id), id) == Some(
            (entries[position_of(entries, id)].1 + 1) as u32,
        ),
{
    let after = incremented(entries, id);
    if has_id(entries, id) {
        let at = position_of(entries, id);
        assert forall|i: int| 0 <= i < entries.len() implies (#[trigger] after[i]).0 == entries[i].0 by {}
        assert forall|i: int, j: int| 0 <= i < j < after.len() implies (#[trigger] after[i]).0 != (
        #[trigger] after[j]).0 by {
            assert(entries[i].0 != entries[j].0);
        }
        if has_id(entries, other) {
            let p = position_of(entries, other);
            assert(after[p].0 == other);
        }
        assert(after[at].0 == id);
        assert(has_id(after, id));
        let new_at = position_of(after, id);
        if new_at < at {
            assert(after[new_at].0 != after[at].0);
        } else if at < new_at {
            assert(after[at].0 != after[new_at].0);
        }
        assert(new_at == at);
        assert(after[at].1 == (entries[at].1 + 1) as u32);
        if has_id(after, other) {
            let p = position_of(after, other);
            assert(entries[p].0 == other);
            let q = position_of(entries, other);
            if p < q {
                assert(entries[p].0 != entries[q].0);
            } else if q < p {
                assert(entries[q].0 != entries[p].0);
            }
        }
    }
}

impl DatastoreView {
    /// The rankings that a purchase of the user raises have no id twice.
    pub open spec fn rankings_distinct(self, user_id: u32) -> bool {
        &&& distinct_ids(self.top_user_scores)
        &&& self.drink_scores_per_user.contains_key(user_id) ==> distinct_ids(
            self.drink_scores_per_user[user_id],
        )
    }

    /// `more` further purchases of the item fit, whatever else of the cart is
    /// bought in between.
    pub open spec fn cart_item_fits(self, user_id: u32, item_id: u32, more: int) -> bool {
        &&& self.drink_scores_per_user.contains_key(user_id) ==> (score_of(
            self.drink_scores_per_user[user_id],
            item_id,
        ) matches Some(score) ==> score + more <= u32::MAX)
        &&& self.booked_cost(user_id, item_id) + more * self.items[item_id].cost_cents <= u32::MAX
        &&& self.booked_count(user_id, item_id) + more <= u32::MAX
    }

    /// `more` further purchases of items of the cart and `specials` purchases
    /// of specials fit.
    pub open spec fn cart_fits(self, user_id: u32, item_ids: Seq<u32>, more: int, specials: int) -> bool {
        &&& self.purchase_count + more + specials <= u64::MAX
        &&& score_of(self.top_user_scores, user_id) matches Some(score) ==> score + more <= u32::MAX
        &&& forall|i: int|
            0 <= i < item_ids.len() ==> self.cart_item_fits(user_id, #[trigger] item_ids[i], more)
    }

    /// Each item exists; and, unless the cart is empty, the user exists and
    /// no live purchase is younger.
    pub open spec fn cart_valid(self, user_id: u32, item_ids: Seq<u32>, specials: int, millis: i64) -> bool {
        &&& forall|i: int| 0 <= i < item_ids.len() ==> self.items.contains_key(#[trigger] item_ids[i])
        &&& item_ids.len() + specials > 0 ==> self.users.contains_key(user_id)
            && self.accepts_purchase_at(millis)
    }

    /// A purchase for each of the items, in their order.
    pub open spec fn cart_items(
        self,
        user_id: u32,
        item_ids: Seq<u32>,
        millis: i64,
        top_users: nat,
        top_items: nat,
    ) -> DatastoreView
        decreases item_ids.len(),
    {
        if item_ids.len() == 0 {
            self
        } else {
            self.cart_items(user_id, item_ids.drop_last(), millis, top_users, top_items).simple_purchase(
                user_id,
                item_ids.last(),
                millis,
                top_users,
                top_items,
            )
        }
    }

    /// Whether each of the purchases of the items brings the user into the
    /// top users.
    pub open spec fn cart_items_outcome(
        self,
        user_id: u32,
        item_ids: Seq<u32>,
        millis: i64,
        top_users: nat,
        top_items: nat,
    ) -> bool
        decreases item_ids.len(),
    {
        if item_ids.len() == 0 {
            true
        } else {
            self.cart_items_outcome(user_id, item_ids.drop_last(), millis, top_users, top_items)
                && self.cart_items(
                user_id,
                item_ids.drop_last(),
                millis,
                top_users,
                top_items,
            ).simple_purchase_outcome(user_id, top_users)
        }
    }

    /// A purchase for each of the specials, in their order.
    pub open spec fn cart_specials(self, user_id: u32, specials: Seq<Seq<char>>, millis: i64) -> DatastoreView
        decreases specials.len(),
    {
        if specials.len() == 0 {
            self
        } else {
            self.cart_specials(user_id, specials.drop_last(), millis).special_purchase(
                user_id,
                specials.last(),
                millis,
            )
        }
    }

    /// The purchases of the items, then those of the specials.
    pub open spec fn cart_purchase(
        self,
        user_id: u32,
        specials: Seq<Seq<char>>,
        item_ids: Seq<u32>,
        millis: i64,
        top_users: nat,
        top_items: nat,
    ) -> DatastoreView {
        self.cart_items(user_id, item_ids, millis, top_users, top_items).cart_specials(
            user_id,
            specials,
            millis,
        )
    }
}

proof fn lemma_times(more: int, cost: int)
    ensures
        (more - 1) * cost + cost == more * cost,
        more >= 1 && cost >= 0 ==> cost <= more * cost,
{
    assert((more - 1) * cost + cost == more * cost) by (nonlinear_arith);
    assert(more >= 1 && cost >= 0 ==> cost <= more * cost) by (nonlinear_arith);
}

/// Where `more` purchases of the cart fit, the next one fits, and after it
/// `more - 1` fit.
proof fn lemma_cart_step(
    s: DatastoreView,
    user_id: u32,
    item_ids: Seq<u32>,
    next: int,
    more: int,
    specials: int,
    millis: i64,
    top_users: nat,
    top_items: nat,
)
    requires
        s.rankings_distinct(user_id),
        s.users.contains_key(user_id),
        forall|i: int| 0 <= i < item_ids.len() ==> s.items.contains_key(#[trigger] item_ids[i]),
        0 <= next < item_ids.len(),
        more >= 1,
        specials >= 0,
        s.cart_fits(user_id, item_ids, more, specials),
    ensures
        s.simple_purchase_fits(user_id, item_ids[next]),
        s.simple_purchase(user_id, item_ids[next], millis, top_users, top_items).cart_fits(
            user_id,
            item_ids,
            more - 1,
            specials,
        ),
{
    let item = item_ids[next];
    let after = s.simple_purchase(user_id, item, millis, top_users, top_items);
    assert(s.cart_item_fits(user_id, item, more));
    lemma_times(more, s.items[item].cost_cents as int);
    lemma_incremented_scores(s.top_user_scores, user_id, user_id);
    assert forall|i: int| 0 <= i < item_ids.len() implies after.cart_item_fits(
        user_id,
        #[trigger] item_ids[i],
        more - 1,
    ) by {
        let other = item_ids[i];
        assert(s.cart_item_fits(user_id, other, more));
        lemma_times(more, s.items[other].cost_cents as int);
        if s.drink_scores_per_user.contains_key(user_id) {
            lemma_incremented_scores(s.drink_scores_per_user[user_id], item, other);
        }
        assert(after.items == s.items);
        assert(after.users == s.users);
        if other == item {
            assert(after.booked_cost(user_id, other) == s.booked_cost(user_id, other) + s.items[other].cost_cents);
            assert(after.booked_count(user_id, other) == s.booked_count(user_id, other) + 1);
        } else {
            assert(after.item_key(other) != after.item_key(item));
            assert(after.booked_cost(user_id, other) == s.booked_cost(user_id, other));
            assert(after.booked_count(user_id, other) == s.booked_count(user_id, other));
        }
    }
}

impl Datastore {
    /// The rankings have no id twice.
    proof fn lemma_rankings_distinct(&self, user_id: u32)
        requires
            self.repr_wf(),
        ensures
            self@.rankings_distinct(user_id),
    {
        let entries = self.top_user_scores.entries();
        assert forall|i: int, j: int| 0 <= i < j < entries.len() implies (#[trigger] entries[i]).0 != (
        #[trigger] entries[j]).0 by {
            assert(self.top_user_scores.ids@[i] != self.top_user_scores.ids@[j]);
        }
        if self@.drink_scores_per_user.contains_key(user_id) {
            assert(self.drink_scores_per_user@.contains_key(user_id));
            let tree = self.drink_scores_per_user@[user_id];
            let entries = tree.entries();
            assert forall|i: int, j: int| 0 <= i < j < entries.len() implies (#[trigger] entries[i]).0 != (
            #[trigger] entries[j]).0 by {
                assert(tree.ids@[i] != tree.ids@[j]);
            }
        }
    }

    /// Whether `more` further purchases of the item fit.
    fn cart_item_fits(&self, user_id: u32, item_id: u32, more: usize) -> (fits: bool)
        requires
            self.wf(),
            self@.users.contains_key(user_id),
            self@.items.contains_key(item_id),
        ensures
            fits == self@.cart_item_fits(user_id, item_id, more as int),
    {
        let limit: u128 = u32::MAX as u128;
        let more: u128 = more as u128;
        assert(self@.drink_scores_per_user.contains_key(user_id)
            == self.drink_scores_per_user@.contains_key(user_id));
        if let Some(tree) = self.drink_scores_per_user.get(&user_id) {
            if let Some(score) = tree.score(item_id) {
                if score as u128 + more > limit {
                    return false;
                }
            }
        }
        assert(self.users@.contains_key(user_id));
        assert(self.items@.contains_key(item_id));
        let user = match self.users.get(&user_id) {
            Some(user) => user,
            None => unreached(),
        };
        let item = match self.items.get(&item_id) {
            Some(item) => item,
            None => unreached(),
        };
        let user_key = (user_id, user.username.clone());
        let item_key = (item_id, item.name.clone());
        let booked_cost = read_balance(&self.balance_cost_per_user, &user_key, &item_key);
        let booked_count = read_balance(&self.balance_count_per_user, &user_key, &item_key);
        assert(more * (item.cost_cents as u128) <= 0xffff_ffff_ffff_ffff * 0xffff_ffff) by (nonlinear_arith)
            requires
                more <= 0xffff_ffff_ffff_ffff,
                item.cost_cents <= 0xffff_ffff,
        ;
        booked_cost as u128 + more * (item.cost_cents as u128) <= limit && booked_count as u128 + more
            <= limit
    }

    /// Whether a cart is valid and fits.
    pub fn can_cart_purchase(
        &self,
        user_id: u32,
        specials: &Vec<String>,
        item_ids: &Vec<u32>,
        millis: i64,
    ) -> (can: bool)
        requires
            self.wf(),
        ensures
            can == (self@.cart_valid(user_id, item_ids@, specials.len() as int, millis)
                && self@.cart_fits(user_id, item_ids@, item_ids.len() as int, specials.len() as int)),
    {
        let n = item_ids.len();
        if n == 0 && specials.len() == 0 {
            return true;
        }
        assert(self@.users.contains_key(user_id) == self.users@.contains_key(user_id));
        if !(self.users.contains_key(&user_id) && self.accepts_purchase_at(millis)) {
            return false;
        }
        if self.purchase_count as u128 + n as u128 + specials.len() as u128 > u64::MAX as u128 {
            return false;
        }
        if let Some(score) = self.top_user_scores.score(user_id) {
            if score as u128 + n as u128 > u32::MAX as u128 {
                return false;
            }
        }
        let mut i: usize = 0;
        while i < n
            invariant
                i <= n,
                n == item_ids.len(),
                self.wf(),
                self@.users.contains_key(user_id),
                forall|j: int| 0 <= j < i ==> self@.items.contains_key(#[trigger] item_ids[j]),
                forall|j: int| 0 <= j < i ==> self@.cart_item_fits(user_id, #[trigger] item_ids[j], n as int),
            decreases n - i,
        {
            let item_id = item_ids[i];
            assert(self@.items.contains_key(item_id) == self.items@.contains_key(item_id));
            if !self.items.contains_key(&item_id) {
                return false;
            }
            if !self.cart_item_fits(user_id, item_id, n) {
                return false;
            }
            i += 1;
        }
        true
    }

    /// Makes the purchases of a cart; says whether each purchase of an item
    /// brought the user into the top users.
    pub fn apply_cart_purchase(
        &mut self,
        user_id: u32,
        specials: &Vec<String>,
        item_ids: &Vec<u32>,
        millis: i64,
        config: &StaticConfig,
    ) -> (all: bool)
        requires
            old(self).wf(),
            old(self)@.cart_valid(user_id, item_ids@, specials.len() as int, millis),
            old(self)@.cart_fits(user_id, item_ids@, item_ids.len() as int, specials.len() as int),
        ensures
            final(self).wf(),
            final(self)@ == old(self)@.cart_purchase(
                user_id,
                texts_view(specials@),
                item_ids@,
                millis,
                config.users_in_top_users as nat,
                config.top_drinks_per_user as nat,
            ),
            all == old(self)@.cart_items_outcome(
                user_id,
                item_ids@,
                millis,
                config.users_in_top_users as nat,
                config.top_drinks_per_user as nat,
            ),
    {
        let ghost start = self@;
        let ghost top_users = config.users_in_top_users as nat;
        let ghost top_items = config.top_drinks_per_user as nat;
        let ghost extra = specials.len() as int;
        let n = item_ids.len();
        let mut all = true;
        let mut i: usize = 0;
        assert(item_ids@.take(0) =~= Seq::empty());
        while i < n
            invariant
                i <= n,
                n == item_ids.len(),
                extra == specials.len(),
                top_users == config.users_in_top_users as nat,
                top_items == config.top_drinks_per_user as nat,
                self.wf(),
                self@ == start.cart_items(user_id, item_ids@.take(i as int), millis, top_users, top_items),
                all == start.cart_items_outcome(user_id, item_ids@.take(i as int), millis, top_users, top_items),
                self@.cart_valid(user_id, item_ids@, extra, millis),
                self@.cart_fits(user_id, item_ids@, n - i, extra),
            decreases n - i,
        {
            let item_id = item_ids[i];
            proof {
                self.lemma_rankings_distinct(user_id);
                lemma_cart_step(self@, user_id, item_ids@, i as int, n - i, extra, millis, top_users, top_items);
                let next = item_ids@.take(i + 1);
                assert(next.drop_last() =~= item_ids@.take(i as int));
                assert(next.last() == item_id);
            }
            let newly_top = self.apply_simple_purchase(user_id, item_id, millis, config);
            all = all && newly_top;
            i += 1;
        }
        assert(item_ids@.take(n as int) =~= item_ids@);
        let ghost bought = self@;
        let mut k: usize = 0;
        assert(texts_view(specials@).take(0) =~= Seq::empty());
        while k < specials.len()
            invariant
                k <= specials.len(),
                self.wf(),
                self@ == bought.cart_specials(user_id, texts_view(specials@).take(k as int), millis),
                specials.len() > 0 ==> self@.users.contains_key(user_id) && self@.accepts_purchase_at(millis),
                self@.purchase_count + (specials.len() - k) <= u64::MAX,
            decreases specials.len() - k,
        {
            proof {
                let next = texts_view(specials@).take(k + 1);
                assert(next.drop_last() =~= texts_view(specials@).take(k as int));
                assert(next.last() == specials[k as int]@);
            }
            self.apply_special_purchase(user_id, &specials[k], millis);
            k += 1;
        }
        assert(texts_view(specials@).take(specials.len() as int) =~= texts_view(specials@));
        all
    }
}

} // verus!
