//! What purchases and their undoing do to the aggregate.
//!
//! A purchase that is older than the youngest live purchase is rejected, so
//! that the list of live purchases stays ordered by time.

use vstd::prelude::*;
use crate::config::StaticConfig;
use crate::datastore::{Datastore, DatastoreView};
use crate::freeby::{
    filed,
    find_freeby,
    find_slot,
    freeby_at,
    freeby_views,
    lemma_filed_is_ordered,
    FreebyAble,
};
use crate::indices::{extract_top_set, top_set};
use crate::keyed::{
    balance_of,
    key_view,
    read_balance,
    with_balance,
    write_balance,
    NameKey,
};
use crate::left_threaded_avl_tree::{has_id, position_of, score_of, AVLTree};
use crate::purchase::{
    find_purchase,
    purchase_at,
    purchase_views,
    Purchase,
    PurchaseFunctions,
    PurchaseView,
};

verus! {

broadcast use vstd::std_specs::hash::group_hash_axioms;

/// A ranking with the score of `id` raised by one, if it has one.
pub open spec fn incremented(entries: Seq<(u32, u32)>, id: u32) -> Seq<(u32, u32)> {
    if has_id(entries, id) {
        let at = position_of(entries, id);
        entries.update(at, (id, (entries[at].1 + 1) as u32))
    } else {
        entries
    }
}

impl DatastoreView {
    /// No live purchase is younger than `millis`: a purchase at `millis`
    /// keeps the list ordered by time.
    pub open spec fn accepts_purchase_at(self, millis: i64) -> bool {
        self.purchases.len() == 0 || self.purchases.last().timestamp() <= millis
    }

    /// The key of a user in the balances: the id and the present name.
    pub open spec fn user_key(self, user_id: u32) -> NameKey {
        (user_id, self.users[user_id].username)
    }

    /// The key of an item in the balances: the id and the present name.
    pub open spec fn item_key(self, item_id: u32) -> NameKey {
        (item_id, self.items[item_id].name)
    }

    /// The cents booked for a user and an item under their present names.
    pub open spec fn booked_cost(self, user_id: u32, item_id: u32) -> u32 {
        balance_of(self.balance_cost_per_user, self.user_key(user_id), self.item_key(item_id))
    }

    /// The number booked for a user and an item under their present names.
    pub open spec fn booked_count(self, user_id: u32, item_id: u32) -> u32 {
        balance_of(self.balance_count_per_user, self.user_key(user_id), self.item_key(item_id))
    }

    /// One more of the item can be booked without leaving `u32`.
    pub open spec fn booking_fits(self, user_id: u32, item_id: u32) -> bool {
        &&& self.booked_cost(user_id, item_id) + self.items[item_id].cost_cents <= u32::MAX
        &&& self.booked_count(user_id, item_id) < u32::MAX
    }

    /// The balances with one more of the item booked for the user, at the
    /// present price and under the present names.
    pub open spec fn booked(self, user_id: u32, item_id: u32) -> DatastoreView {
        DatastoreView {
            balance_cost_per_user: with_balance(
                self.balance_cost_per_user,
                self.user_key(user_id),
                self.item_key(item_id),
                (self.booked_cost(user_id, item_id) + self.items[item_id].cost_cents) as u32,
            ),
            balance_count_per_user: with_balance(
                self.balance_count_per_user,
                self.user_key(user_id),
                self.item_key(item_id),
                (self.booked_count(user_id, item_id) + 1) as u32,
            ),
            ..self
        }
    }

    /// At least one of the item, at the present price, is booked for the user
    /// under the present names.
    pub open spec fn unbooking_fits(self, user_id: u32, item_id: u32) -> bool {
        &&& self.booked_cost(user_id, item_id) >= self.items[item_id].cost_cents
        &&& self.booked_count(user_id, item_id) >= 1
    }

    /// The balances with one of the item less booked for the user, at the
    /// present price and under the present names.
    pub open spec fn unbooked(self, user_id: u32, item_id: u32) -> DatastoreView {
        DatastoreView {
            balance_cost_per_user: with_balance(
                self.balance_cost_per_user,
                self.user_key(user_id),
                self.item_key(item_id),
                (self.booked_cost(user_id, item_id) - self.items[item_id].cost_cents) as u32,
            ),
            balance_count_per_user: with_balance(
                self.balance_count_per_user,
                self.user_key(user_id),
                self.item_key(item_id),
                (self.booked_count(user_id, item_id) - 1) as u32,
            ),
            ..self
        }
    }

    /// The user and the item exist, and no live purchase is younger.
    pub open spec fn simple_purchase_valid(self, user_id: u32, item_id: u32, millis: i64) -> bool {
        &&& self.items.contains_key(item_id)
        &&& self.users.contains_key(user_id)
        &&& self.accepts_purchase_at(millis)
    }

    /// No counter that the purchase raises is at its largest value.
    pub open spec fn simple_purchase_fits(self, user_id: u32, item_id: u32) -> bool {
        &&& self.purchase_count < u64::MAX
        &&& score_of(self.top_user_scores, user_id) != Some(u32::MAX)
        &&& self.drink_scores_per_user.contains_key(user_id) ==> score_of(
            self.drink_scores_per_user[user_id],
            item_id,
        ) != Some(u32::MAX)
        &&& self.booking_fits(user_id, item_id)
    }

    /// A purchase of one item: it gets the next purchase id and joins the
    /// list, the score of the item with the user and the score of the user go
    /// up by one, the top sets are read off anew, and the price is booked.
    pub open spec fn simple_purchase(
        self,
        user_id: u32,
        item_id: u32,
        millis: i64,
        top_users: nat,
        top_items: nat,
    ) -> DatastoreView {
        let unique_id = (self.purchase_count + 1) as u64;
        let user_scores = incremented(self.top_user_scores, user_id);
        let ranked = self.drink_scores_per_user.contains_key(user_id);
        let item_scores = incremented(self.drink_scores_per_user[user_id], item_id);
        DatastoreView {
            purchase_count: unique_id,
            purchases: self.purchases.push(
                PurchaseView::SimplePurchase {
                    unique_id,
                    timestamp_epoch_millis: millis,
                    item_id,
                    consumer_id: user_id,
                },
            ),
            drink_scores_per_user: if ranked {
                self.drink_scores_per_user.insert(user_id, item_scores)
            } else {
                self.drink_scores_per_user
            },
            top_drinks_per_user: if ranked {
                self.top_drinks_per_user.insert(user_id, top_set(item_scores, top_items))
            } else {
                self.top_drinks_per_user
            },
            top_user_scores: user_scores,
            top_users: top_set(user_scores, top_users),
            ..self
        }.booked(user_id, item_id)
    }

    /// Whether the purchase brings the user into the top users.
    pub open spec fn simple_purchase_outcome(self, user_id: u32, top_users: nat) -> bool {
        !self.top_users.contains(user_id) && top_set(
            incremented(self.top_user_scores, user_id),
            top_users,
        ).contains(user_id)
    }

    /// The user exists, and no live purchase is younger.
    pub open spec fn special_purchase_valid(self, user_id: u32, millis: i64) -> bool {
        &&& self.users.contains_key(user_id)
        &&& self.accepts_purchase_at(millis)
    }

    /// A purchase of a special: it gets the next purchase id and joins the
    /// list without a price.
    pub open spec fn special_purchase(self, user_id: u32, name: Seq<char>, millis: i64) -> DatastoreView {
        let unique_id = (self.purchase_count + 1) as u64;
        DatastoreView {
            purchase_count: unique_id,
            purchases: self.purchases.push(
                PurchaseView::SpecialPurchase {
                    unique_id,
                    timestamp_epoch_millis: millis,
                    special_name: name,
                    specialcost: None,
                    consumer_id: user_id,
                },
            ),
            ..self
        }
    }

    /// A live purchase has the id.
    pub open spec fn has_purchase(self, unique_id: u64) -> bool {
        purchase_at(self.purchases, unique_id) < self.purchases.len()
    }

    /// The first purchase with the id gets the price, if it is a special.
    pub open spec fn set_price(self, unique_id: u64, price: u32) -> DatastoreView {
        let at = purchase_at(self.purchases, unique_id);
        DatastoreView { purchases: self.purchases.update(at, self.purchases[at].with_price(price)), ..self }
    }

    /// What is booked covers the purchase that is undone; a special has
    /// nothing booked.
    pub open spec fn undo_fits(self, unique_id: u64) -> bool {
        let purchase = self.purchases[purchase_at(self.purchases, unique_id)];
        purchase.item_id() matches Some(item_id) ==> self.unbooking_fits(purchase.user_id(), item_id)
    }

    /// The first purchase with the id leaves the list, and what it booked is
    /// taken back at the present price.
    pub open spec fn undo_purchase(self, unique_id: u64) -> DatastoreView {
        let at = purchase_at(self.purchases, unique_id);
        let purchase = self.purchases[at];
        let removed = DatastoreView { purchases: self.purchases.remove(at), ..self };
        match purchase.item_id() {
            Some(item_id) => removed.unbooked(purchase.user_id(), item_id),
            None => removed,
        }
    }

    /// Whether the purchase that is undone is the last of the list.
    pub open spec fn undo_outcome(self, unique_id: u64) -> bool {
        purchase_at(self.purchases, unique_id) + 1 == self.purchases.len()
    }

    /// An open free-for-all has the id, has something left and pays for the
    /// item, the item and the donor exist, and no live purchase is younger.
    pub open spec fn ffa_purchase_valid(self, ffa_id: u64, item_id: u32, millis: i64) -> bool {
        let at = freeby_at(self.open_ffa, ffa_id);
        &&& at < self.open_ffa.len()
        &&& self.items.contains_key(item_id)
        &&& self.open_ffa[at].allows(self.items[item_id])
        &&& self.open_ffa[at].left() > 0
        &&& self.users.contains_key(self.open_ffa[at].donor())
        &&& self.accepts_purchase_at(millis)
    }

    /// No counter that the purchase raises is at its largest value.
    pub open spec fn ffa_purchase_fits(self, ffa_id: u64, item_id: u32) -> bool {
        &&& self.purchase_count < u64::MAX
        &&& self.booking_fits(self.open_ffa[freeby_at(self.open_ffa, ffa_id)].donor(), item_id)
    }

    /// A purchase from a free-for-all: it gets the next purchase id and joins
    /// the list in the name of the donor, the free-for-all has one item less
    /// and, when nothing is left of it, is filed with the used-up freebies;
    /// the price is booked for the donor.
    pub open spec fn ffa_purchase(self, ffa_id: u64, item_id: u32, millis: i64) -> DatastoreView {
        let at = freeby_at(self.open_ffa, ffa_id);
        let freeby = self.open_ffa[at];
        let used = freeby.decremented();
        let unique_id = (self.purchase_count + 1) as u64;
        DatastoreView {
            purchase_count: unique_id,
            purchases: self.purchases.push(
                PurchaseView::FFAPurchase {
                    unique_id,
                    timestamp_epoch_millis: millis,
                    item_id,
                    freeby_id: freeby.id(),
                    donor: freeby.donor(),
                },
            ),
            open_ffa: if used.left() == 0 {
                self.open_ffa.remove(at)
            } else {
                self.open_ffa.update(at, used)
            },
            used_up_freebies: if used.left() == 0 {
                filed(self.used_up_freebies, used)
            } else {
                self.used_up_freebies
            },
            ..self
        }.booked(freeby.donor(), item_id)
    }
}

impl Datastore {
    /// The keys of a user and an item in the balances.
    fn balance_keys(&self, user_id: u32, item_id: u32) -> (keys: ((u32, String), (u32, String), u32))
        requires
            self@.users.contains_key(user_id),
            self@.items.contains_key(item_id),
        ensures
            key_view(keys.0) == self@.user_key(user_id),
            key_view(keys.1) == self@.item_key(item_id),
            keys.2 == self@.items[item_id].cost_cents,
    {
        assert(self.users@.contains_key(user_id));
        assert(self.items@.contains_key(item_id));
        let user = match self.users.get(&user_id) {
            Some(user) => user,
            None => unreached(),
        };
        let item = match self.items.get(&item_id) {
            Some(item) => item,
            None => unreached(),
        };
        ((user_id, user.username.clone()), (item_id, item.name.clone()), item.cost_cents)
    }

    /// Whether one more of the item can be booked for the user.
    fn can_book(&self, user_id: u32, item_id: u32) -> (fits: bool)
        requires
            self.repr_wf(),
            self@.users.contains_key(user_id),
            self@.items.contains_key(item_id),
        ensures
            fits == self@.booking_fits(user_id, item_id),
    {
        let (user_key, item_key, cost) = self.balance_keys(user_id, item_id);
        let booked_cost = read_balance(&self.balance_cost_per_user, &user_key, &item_key);
        let booked_count = read_balance(&self.balance_count_per_user, &user_key, &item_key);
        booked_cost <= u32::MAX - cost && booked_count < u32::MAX
    }

    /// Whether one of the item can be taken back from what is booked for the
    /// user.
    fn can_unbook(&self, user_id: u32, item_id: u32) -> (fits: bool)
        requires
            self.repr_wf(),
            self@.users.contains_key(user_id),
            self@.items.contains_key(item_id),
        ensures
            fits == self@.unbooking_fits(user_id, item_id),
    {
        let (user_key, item_key, cost) = self.balance_keys(user_id, item_id);
        let booked_cost = read_balance(&self.balance_cost_per_user, &user_key, &item_key);
        let booked_count = read_balance(&self.balance_count_per_user, &user_key, &item_key);
        booked_cost >= cost && booked_count >= 1
    }

    /// Books one more of the item for the user, or one less.
    fn book(&mut self, user_id: u32, item_id: u32, more: bool)
        requires
            old(self).repr_wf(),
            old(self)@.users.contains_key(user_id),
            old(self)@.items.contains_key(item_id),
            more ==> old(self)@.booking_fits(user_id, item_id),
            !more ==> old(self)@.unbooking_fits(user_id, item_id),
        ensures
            final(self).repr_wf(),
            final(self)@ == if more {
                old(self)@.booked(user_id, item_id)
            } else {
                old(self)@.unbooked(user_id, item_id)
            },
    {
        let (user_key, item_key, cost) = self.balance_keys(user_id, item_id);
        let (user_key2, item_key2, _) = self.balance_keys(user_id, item_id);
        let booked_cost = read_balance(&self.balance_cost_per_user, &user_key, &item_key);
        let booked_count = read_balance(&self.balance_count_per_user, &user_key, &item_key);
        if more {
            write_balance(&mut self.balance_cost_per_user, user_key, item_key, booked_cost + cost);
            write_balance(&mut self.balance_count_per_user, user_key2, item_key2, booked_count + 1);
        } else {
            write_balance(&mut self.balance_cost_per_user, user_key, item_key, booked_cost - cost);
            write_balance(&mut self.balance_count_per_user, user_key2, item_key2, booked_count - 1);
        }
        proof {
            if more {
                assert(self@ =~= old(self)@.booked(user_id, item_id));
            } else {
                assert(self@ =~= old(self)@.unbooked(user_id, item_id));
            }
        }
    }

    /// Whether a purchase at `millis` keeps the list ordered by time.
    pub fn accepts_purchase_at(&self, millis: i64) -> (accepted: bool)
        ensures
            accepted == self@.accepts_purchase_at(millis),
    {
        let n = self.purchases.len();
        if n == 0 {
            true
        } else {
            assert(self@.purchases.last() == self.purchases[n - 1]@);
            *self.purchases[n - 1].get_timestamp() <= millis
        }
    }

    /// Whether a purchase of one item is valid and fits.
    pub fn can_simple_purchase(&self, user_id: u32, item_id: u32, millis: i64) -> (can: bool)
        requires
            self.wf(),
        ensures
            can == (self@.simple_purchase_valid(user_id, item_id, millis)
                && self@.simple_purchase_fits(user_id, item_id)),
    {
        if !(self.items.contains_key(&item_id) && self.users.contains_key(&user_id)
            && self.accepts_purchase_at(millis)) {
            assert(self@.items.contains_key(item_id) == self.items@.contains_key(item_id));
            assert(self@.users.contains_key(user_id) == self.users@.contains_key(user_id));
            return false;
        }
        assert(self@.items.contains_key(item_id));
        assert(self@.users.contains_key(user_id));
        if self.purchase_count == u64::MAX {
            return false;
        }
        if let Some(score) = self.top_user_scores.score(user_id) {
            if score == u32::MAX {
                return false;
            }
        }
        assert(self@.drink_scores_per_user.contains_key(user_id)
            == self.drink_scores_per_user@.contains_key(user_id));
        if let Some(tree) = self.drink_scores_per_user.get(&user_id) {
            if let Some(score) = tree.score(item_id) {
                if score == u32::MAX {
                    return false;
                }
            }
        }
        self.can_book(user_id, item_id)
    }

    /// Makes a purchase of one item; says whether it brought the user into
    /// the top users.
    pub fn apply_simple_purchase(
        &mut self,
        user_id: u32,
        item_id: u32,
        millis: i64,
        config: &StaticConfig,
    ) -> (newly_top: bool)
        requires
            old(self).wf(),
            old(self)@.simple_purchase_valid(user_id, item_id, millis),
            old(self)@.simple_purchase_fits(user_id, item_id),
        ensures
            final(self).wf(),
            final(self)@ == old(self)@.simple_purchase(
                user_id,
                item_id,
                millis,
                config.users_in_top_users as nat,
                config.top_drinks_per_user as nat,
            ),
            newly_top == old(self)@.simple_purchase_outcome(user_id, config.users_in_top_users as nat),
    {
        proof {
            self.lemma_keys();
        }
        let unique_id: u64 = self.purchase_count + 1;
        self.purchase_count = unique_id;
        let purchase = Purchase::SimplePurchase {
            unique_id,
            timestamp_epoch_millis: millis,
            item_id,
            consumer_id: user_id,
        };
        let ghost purchase_view = purchase@;
        self.purchases.push(purchase);
        proof {
            assert(purchase_views(self.purchases@) =~= old(self)@.purchases.push(purchase_view));
        }
        let was_in_before = self.top_users.contains(&user_id);
        assert(old(self)@.drink_scores_per_user.contains_key(user_id)
            == self.drink_scores_per_user@.contains_key(user_id));
        match self.drink_scores_per_user.remove(&user_id) {
            Some(tree) => {
                let mut tree = tree;
                tree.increment_by_one(item_id);
                let best = extract_top_set(&tree, config.top_drinks_per_user);
                self.drink_scores_per_user.insert(user_id, tree);
                self.top_drinks_per_user.insert(user_id, best);
            },
            None => {},
        }
        self.top_user_scores.increment_by_one(user_id);
        self.top_users = extract_top_set(&self.top_user_scores, config.users_in_top_users);
        let is_in_now = self.top_users.contains(&user_id);
        let ghost ranked = DatastoreView {
            balance_cost_per_user: old(self)@.balance_cost_per_user,
            balance_count_per_user: old(self)@.balance_count_per_user,
            ..old(self)@.simple_purchase(
                user_id,
                item_id,
                millis,
                config.users_in_top_users as nat,
                config.top_drinks_per_user as nat,
            )
        };
        proof {
            assert(self@.drink_scores_per_user =~= ranked.drink_scores_per_user);
            assert(self@.top_drinks_per_user =~= ranked.top_drinks_per_user);
            assert(self@ =~= ranked);
        }
        self.book(user_id, item_id, true);
        proof {
            let expected = old(self)@.simple_purchase(
                user_id,
                item_id,
                millis,
                config.users_in_top_users as nat,
                config.top_drinks_per_user as nat,
            );
            assert(self@ =~= expected);
            assert(self@.top_drinks_per_user.dom() =~= self@.drink_scores_per_user.dom());
        }
        !was_in_before && is_in_now
    }

    /// Whether a purchase of a special is valid and fits.
    pub fn can_special_purchase(&self, user_id: u32, millis: i64) -> (can: bool)
        ensures
            can == (self@.special_purchase_valid(user_id, millis) && self.purchase_count < u64::MAX),
    {
        assert(self@.users.contains_key(user_id) == self.users@.contains_key(user_id));
        self.users.contains_key(&user_id) && self.accepts_purchase_at(millis) && self.purchase_count
            < u64::MAX
    }

    /// Makes a purchase of a special.
    pub fn apply_special_purchase(&mut self, user_id: u32, special_name: &String, millis: i64)
        requires
            old(self).wf(),
            old(self)@.special_purchase_valid(user_id, millis),
            old(self).purchase_count < u64::MAX,
        ensures
            final(self).wf(),
            final(self)@ == old(self)@.special_purchase(user_id, special_name@, millis),
    {
        let unique_id: u64 = self.purchase_count + 1;
        self.purchase_count = unique_id;
        let purchase = Purchase::SpecialPurchase {
            unique_id,
            timestamp_epoch_millis: millis,
            special_name: special_name.clone(),
            specialcost: None,
            consumer_id: user_id,
        };
        let ghost purchase_view = purchase@;
        self.purchases.push(purchase);
        proof {
            assert(purchase_views(self.purchases@) =~= old(self)@.purchases.push(purchase_view));
            assert(self@ =~= old(self)@.special_purchase(user_id, special_name@, millis));
        }
    }

    /// Whether a live purchase has the id.
    pub fn has_purchase(&self, unique_id: u64) -> (has: bool)
        ensures
            has == self@.has_purchase(unique_id),
    {
        find_purchase(&self.purchases, unique_id).is_some()
    }

    /// Gives the first purchase with the id a price; says whether it is a
    /// special, which alone takes one.
    pub fn apply_set_price(&mut self, unique_id: u64, price: u32) -> (priced: bool)
        requires
            old(self).wf(),
            old(self)@.has_purchase(unique_id),
        ensures
            final(self).wf(),
            final(self)@ == old(self)@.set_price(unique_id, price),
            priced == old(self)@.purchases[purchase_at(old(self)@.purchases, unique_id)].is_special(),
    {
        let at = match find_purchase(&self.purchases, unique_id) {
            Some(at) => at,
            None => unreached(),
        };
        let purchase = self.purchases.remove(at);
        let ghost before = purchase@;
        let (changed, priced) = match purchase {
            Purchase::SpecialPurchase {
                unique_id,
                timestamp_epoch_millis,
                special_name,
                specialcost,
                consumer_id,
            } => (
                Purchase::SpecialPurchase {
                    unique_id,
                    timestamp_epoch_millis,
                    special_name,
                    specialcost: Some(price),
                    consumer_id,
                },
                true,
            ),
            other => (other, false),
        };
        assert(changed@ == before.with_price(price));
        self.purchases.insert(at, changed);
        proof {
            let views = old(self)@.purchases;
            assert(views[at as int] == before);
            assert(purchase_views(self.purchases@) =~= views.update(
                at as int,
                before.with_price(price),
            ));
            assert(self@ =~= old(self)@.set_price(unique_id, price));
            let after = self@.purchases;
            assert forall|i: int, j: int| 0 <= i <= j < after.len() implies (#[trigger] after[i]).timestamp()
                <= (#[trigger] after[j]).timestamp() by {
                assert(after[i].timestamp() == views[i].timestamp());
                assert(after[j].timestamp() == views[j].timestamp());
            }
            assert forall|i: int| 0 <= i < after.len() implies self@.users.contains_key(
                (#[trigger] after[i]).user_id(),
            ) by {
                assert(after[i].user_id() == views[i].user_id());
            }
            assert forall|i: int| 0 <= i < after.len() implies ((#[trigger] after[i]).item_id() matches Some(
                item,
            ) ==> self@.items.contains_key(item)) by {
                assert(after[i].item_id() == views[i].item_id());
            }
        }
        priced
    }

    /// Whether a purchase with the id can be undone.
    pub fn can_undo_purchase(&self, unique_id: u64) -> (can: bool)
        requires
            self.wf(),
        ensures
            can == (self@.has_purchase(unique_id) && self@.undo_fits(unique_id)),
    {
        match find_purchase(&self.purchases, unique_id) {
            Some(at) => {
                let purchase = &self.purchases[at];
                assert(self@.purchases[at as int] == purchase@);
                if purchase.has_item_id() {
                    self.can_unbook(*purchase.get_user_id(), *purchase.get_item_id())
                } else {
                    true
                }
            },
            None => false,
        }
    }

    /// Undoes the first purchase with the id; says whether it was the last of
    /// the list.
    pub fn apply_undo_purchase(&mut self, unique_id: u64) -> (was_last: bool)
        requires
            old(self).wf(),
            old(self)@.has_purchase(unique_id),
            old(self)@.undo_fits(unique_id),
        ensures
            final(self).wf(),
            final(self)@ == old(self)@.undo_purchase(unique_id),
            was_last == old(self)@.undo_outcome(unique_id),
    {
        let at = match find_purchase(&self.purchases, unique_id) {
            Some(at) => at,
            None => unreached(),
        };
        let old_size = self.purchases.len();
        let element = self.purchases.remove(at);
        proof {
            let views = old(self)@.purchases;
            assert(views[at as int] == element@);
            assert(purchase_views(self.purchases@) =~= views.remove(at as int));
            let after = self@.purchases;
            assert forall|i: int| 0 <= i < after.len() implies #[trigger] after[i] == views[if i < at {
                i
            } else {
                i + 1
            }] by {}
            assert forall|i: int, j: int| 0 <= i <= j < after.len() implies (#[trigger] after[i]).timestamp()
                <= (#[trigger] after[j]).timestamp() by {
                let i0 = if i < at { i } else { i + 1 };
                let j0 = if j < at { j } else { j + 1 };
                assert(after[i] == views[i0] && after[j] == views[j0]);
            }
            assert(self@ =~= (DatastoreView { purchases: views.remove(at as int), ..old(self)@ }));
        }
        if element.has_item_id() {
            self.book(*element.get_user_id(), *element.get_item_id(), false);
        }
        old_size == at + 1
    }

    /// Whether a purchase from a free-for-all is valid and fits.
    pub fn can_ffa_purchase(&self, ffa_id: u64, item_id: u32, millis: i64) -> (can: bool)
        requires
            self.wf(),
        ensures
            can == (self@.ffa_purchase_valid(ffa_id, item_id, millis) && self@.ffa_purchase_fits(
                ffa_id,
                item_id,
            )),
    {
        let at = match find_freeby(&self.open_ffa, ffa_id) {
            Some(at) => at,
            None => {
                return false;
            },
        };
        let freeby = &self.open_ffa[at];
        assert(self@.open_ffa[at as int] == freeby@);
        assert(self@.items.contains_key(item_id) == self.items@.contains_key(item_id));
        let item = match self.items.get(&item_id) {
            Some(item) => item,
            None => {
                return false;
            },
        };
        let donor = freeby.get_donor();
        assert(self@.users.contains_key(donor) == self.users@.contains_key(donor));
        if !(freeby.allows(item) && freeby.is_open() && self.users.contains_key(&donor)
            && self.accepts_purchase_at(millis)) {
            return false;
        }
        self.purchase_count < u64::MAX && self.can_book(donor, item_id)
    }

    /// Makes a purchase from a free-for-all.
    pub fn apply_ffa_purchase(&mut self, ffa_id: u64, item_id: u32, millis: i64)
        requires
            old(self).wf(),
            old(self)@.ffa_purchase_valid(ffa_id, item_id, millis),
            old(self)@.ffa_purchase_fits(ffa_id, item_id),
        ensures
            final(self).wf(),
            final(self)@ == old(self)@.ffa_purchase(ffa_id, item_id, millis),
    {
        let unique_id: u64 = self.purchase_count + 1;
        self.purchase_count = unique_id;
        let at = match find_freeby(&self.open_ffa, ffa_id) {
            Some(at) => at,
            None => unreached(),
        };
        let mut freeby = self.open_ffa.remove(at);
        let ghost open_before = old(self)@.open_ffa;
        assert(open_before[at as int] == freeby@);
        let donor: u32 = freeby.get_donor();
        let purchase = Purchase::FFAPurchase {
            unique_id,
            timestamp_epoch_millis: millis,
            item_id,
            freeby_id: freeby.get_id(),
            donor,
        };
        let ghost purchase_view = purchase@;
        self.purchases.push(purchase);
        freeby.decrement();
        let ghost used = freeby@;
        if freeby.left() == 0 {
            let slot = find_slot(&self.used_up_freebies, freeby.get_id());
            self.used_up_freebies.insert(slot, freeby);
            proof {
                lemma_filed_is_ordered(old(self)@.used_up_freebies, used);
                assert(freeby_views(self.used_up_freebies@) =~= filed(old(self)@.used_up_freebies, used));
                assert(freeby_views(self.open_ffa@) =~= open_before.remove(at as int));
                let after = self@.used_up_freebies;
                let before = old(self)@.used_up_freebies;
                assert forall|i: int| 0 <= i < after.len() implies (#[trigger] after[i]).wf() by {
                    if i < slot {
                        assert(after[i] == before[i]);
                    } else if i > slot {
                        assert(after[i] == before[i - 1]);
                    }
                }
                let open_after = self@.open_ffa;
                assert forall|i: int| 0 <= i < open_after.len() implies (#[trigger] open_after[i]) is FFA
                    && open_after[i].wf() by {
                    assert(open_after[i] == open_before[if i < at { i } else { i + 1 }]);
                }
            }
        } else {
            self.open_ffa.insert(at, freeby);
            proof {
                assert(freeby_views(self.open_ffa@) =~= open_before.update(at as int, used));
                let open_after = self@.open_ffa;
                assert forall|i: int| 0 <= i < open_after.len() implies (#[trigger] open_after[i]) is FFA
                    && open_after[i].wf() by {
                    if i != at {
                        assert(open_after[i] == open_before[i]);
                    }
                }
            }
        }
        proof {
            assert(purchase_views(self.purchases@) =~= old(self)@.purchases.push(purchase_view));
            let expected = old(self)@.ffa_purchase(ffa_id, item_id, millis);
            let unbooked = DatastoreView {
                balance_cost_per_user: old(self)@.balance_cost_per_user,
                balance_count_per_user: old(self)@.balance_count_per_user,
                ..expected
            };
            assert(self@ =~= unbooked);
        }
        self.book(donor, item_id, true);
        proof {
            assert(self@ =~= old(self)@.ffa_purchase(ffa_id, item_id, millis));
        }
    }
}

} // verus!
