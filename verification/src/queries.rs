//! What can be read off the aggregate.

use vstd::prelude::*;
use vstd::slice::slice_subrange;
use crate::bill::{bill_at, bill_views, find_bill, Bill, BillView};
use crate::catalog::{matches_usergroup, Item, User};
use crate::datastore::{active_item_texts, active_user_texts, Datastore, DatastoreView};
use crate::finalize::{
    budget_freeby_for,
    count_freeby_for,
    find_budget_freeby,
    find_count_freeby,
    is_billed,
    is_unresolved,
};
use crate::freeby::{find_freeby, freeby_at, freeby_views, Freeby};
use crate::left_threaded_avl_tree::{top, AVLTree};
use crate::purchase::{
    count_before,
    find_purchase,
    find_purchase_indices,
    purchase_at,
    purchase_views,
    Purchase,
    PurchaseFunctions,
    PurchaseView,
};
use crate::search::{kept_positions, lemma_kept_next, lemma_kept_positions};
use crate::text_index::{is_substring, search_index, searchable};
use crate::views::{contains_id, texts_view};

verus! {

broadcast use vstd::std_specs::hash::group_hash_axioms;

/// The elements of `from` at the positions at which a flag holds, in their
/// order.
pub open spec fn selected<T>(from: Seq<T>, flags: Seq<bool>) -> Seq<T> {
    Seq::new(kept_positions(flags).len(), |k: int| from[kept_positions(flags)[k]])
}

/// The ids of a list of purchases.
pub open spec fn purchase_ids(purchases: Seq<PurchaseView>) -> Seq<u64> {
    Seq::new(purchases.len(), |i: int| purchases[i].unique_id())
}

/// The users of a list ordered by time who have to be resolved before the
/// bill can be finalized, each once, in the order of their first purchase
/// that the bill covers.
pub open spec fn unresolved_users(
    purchases: Seq<PurchaseView>,
    bill: BillView,
    users: Map<u32, crate::catalog::UserView>,
) -> Seq<u32>
    decreases purchases.len(),
{
    if purchases.len() == 0 {
        Seq::empty()
    } else {
        let before = unresolved_users(purchases.drop_last(), bill, users);
        let user_id = purchases.last().user_id();
        if is_billed(bill, purchases.last()) && is_unresolved(bill, user_id, users[user_id])
            && !before.contains(user_id) {
            before.push(user_id)
        } else {
            before
        }
    }
}

impl DatastoreView {
    /// Which purchases a user is charged for in `[start, end)`.
    pub open spec fn personal_flags(self, user_id: u32, start: i64, end: i64) -> Seq<bool> {
        Seq::new(
            self.purchases.len(),
            |i: int|
                self.purchases[i].user_id() == user_id && start <= self.purchases[i].timestamp() < end,
        )
    }

    /// Which bills concern a user, or anyone, and touch `[start, end]`.
    pub open spec fn bill_flags(self, user_id: Option<u32>, start: i64, end: i64) -> Seq<bool> {
        Seq::new(
            self.bills.len(),
            |i: int|
                self.bills[i].users.admits(user_id) && !(self.bills[i].timestamp_to < start
                    || self.bills[i].timestamp_from > end),
        )
    }

    /// Which purchases the bill covers.
    pub open spec fn billed_flags(self, bill: BillView) -> Seq<bool> {
        Seq::new(self.purchases.len(), |i: int| is_billed(bill, self.purchases[i]))
    }

    /// Which purchases are specials that the bill covers; with `unpriced`,
    /// those of them without a price.
    pub open spec fn special_flags(self, bill: BillView, unpriced: bool) -> Seq<bool> {
        Seq::new(
            self.purchases.len(),
            |i: int|
                is_billed(bill, self.purchases[i]) && self.purchases[i] is SpecialPurchase && (unpriced
                    ==> self.purchases[i].special_price() is None),
        )
    }

    /// Which of the ids below the counter are users of the bill who are not
    /// deleted.
    pub open spec fn billed_user_flags(self, bill: BillView) -> Seq<bool> {
        Seq::new(
            self.user_id_counter as nat,
            |i: int|
                self.users.contains_key(i as u32) && !self.users[i as u32].deleted && bill.users.selects(
                    i as u32,
                ),
        )
    }
}

/// What can be asked of the aggregate.
pub trait DatastoreQueries {
    /// The content that is asked.
    spec fn asked(&self) -> DatastoreView;

    /// The content is well formed.
    spec fn sound(&self) -> bool;

    /// The time of the first purchase with the id.
    fn get_purchase_timestamp(&self, purchase_id: u64) -> (millis: Option<i64>)
        ensures
            millis == if self.asked().has_purchase(purchase_id) {
                Some(self.asked().purchases[purchase_at(self.asked().purchases, purchase_id)].timestamp())
            } else {
                None
            },
    ;

    /// The best `n` users, best first.
    fn top_user_ids(&self, n: u16) -> (ids: Vec<u32>)
        requires
            self.sound(),
        ensures
            ids@ == top(self.asked().top_user_scores, n as nat),
    ;

    /// The best `n` items of a user, best first; none for a user without a
    /// ranking.
    fn top_item_ids(&self, user_id: u32, n: u8) -> (ids: Vec<u32>)
        requires
            self.sound(),
        ensures
            ids@ == if self.asked().drink_scores_per_user.contains_key(user_id) {
                top(self.asked().drink_scores_per_user[user_id], n as nat)
            } else {
                Seq::empty()
            },
    ;

    /// The users who are not deleted and whose name holds the search term,
    /// in ascending order of their ids.
    fn users_searchhit_ids(&self, searchterm: &str) -> (ids: Vec<u32>)
        requires
            self.sound(),
        ensures
            forall|i: int, j: int| 0 <= i < j < ids.len() ==> ids[i] < ids[j],
            forall|id: u32| #[trigger]
                ids@.contains(id) <==> self.asked().users.contains_key(id)
                    && !self.asked().users[id].deleted && is_substring(
                    searchable(self.asked().users_index.case_sensitive, searchterm@),
                    searchable(self.asked().users_index.case_sensitive, self.asked().users[id].username),
                ),
    ;

    /// The items that are not deleted and whose name holds the search term,
    /// in ascending order of their ids.
    fn items_searchhit_ids(&self, searchterm: &str) -> (ids: Vec<u32>)
        requires
            self.sound(),
        ensures
            forall|i: int, j: int| 0 <= i < j < ids.len() ==> ids[i] < ids[j],
            forall|id: u32| #[trigger]
                ids@.contains(id) <==> self.asked().items.contains_key(id)
                    && !self.asked().items[id].deleted && is_substring(
                    searchable(self.asked().items_index.case_sensitive, searchterm@),
                    searchable(self.asked().items_index.case_sensitive, self.asked().items[id].name),
                ),
    ;

    /// The purchases that a user is charged for in `[start, end)`, in their
    /// order.
    fn personal_log_filtered(&self, user_id: u32, millis_start_inclusive: i64, millis_end_exclusive: i64) -> (log: Vec<Purchase>)
        ensures
            purchase_views(log@) == selected(
                self.asked().purchases,
                self.asked().personal_flags(user_id, millis_start_inclusive, millis_end_exclusive),
            ),
    ;

    /// The purchases in `[start, end)`, in their order; the span is not
    /// empty backwards.
    fn global_log_filtered(&self, millis_start_inclusive: i64, millis_end_exclusive: i64) -> (log: &[Purchase])
        requires
            self.sound(),
            millis_start_inclusive <= millis_end_exclusive,
        ensures
            purchase_views(log@) == self.asked().purchases.subrange(
                count_before(self.asked().purchases, millis_start_inclusive) as int,
                count_before(self.asked().purchases, millis_end_exclusive) as int,
            ),
            forall|i: int|
                0 <= i < self.asked().purchases.len() ==> (millis_start_inclusive <= (
                #[trigger] self.asked().purchases[i]).timestamp() < millis_end_exclusive <==> count_before(
                    self.asked().purchases,
                    millis_start_inclusive,
                ) <= i < count_before(self.asked().purchases, millis_end_exclusive)),
    ;

    /// The bills that concern a user, or anyone where no user is given, and
    /// touch `[start, end]`, in their order.
    fn bills_filtered(&self, user_id: Option<u32>, millis_start_inclusive: i64, millis_end_exclusive: i64) -> (bills: Vec<Bill>)
        ensures
            bill_views(bills@) == selected(
                self.asked().bills,
                self.asked().bill_flags(user_id, millis_start_inclusive, millis_end_exclusive),
            ),
    ;

    /// The categories, each once.
    fn all_categories(&self) -> (categories: Vec<String>)
        requires
            self.sound(),
        ensures
            texts_view(categories@).no_duplicates(),
            texts_view(categories@).to_set() == self.asked().categories,
    ;

    /// The first bill over `[from, to)`.
    fn get_bill(&self, timestamp_from: i64, timestamp_to: i64) -> (bill: Option<&Bill>)
        ensures
            bill.is_some() == self.asked().has_bill(timestamp_from, timestamp_to),
            bill matches Some(b) ==> b@ == self.asked().bill(timestamp_from, timestamp_to),
    ;

    /// The position of the first bill over `[from, to)`.
    fn get_bill_index(&self, timestamp_from: i64, timestamp_to: i64) -> (at: Option<usize>)
        ensures
            at.is_some() == self.asked().has_bill(timestamp_from, timestamp_to),
            at matches Some(i) ==> i == bill_at(self.asked().bills, timestamp_from, timestamp_to),
    ;

    /// The ids of the specials that the bill over `[from, to)` covers, in
    /// their order; none where there is no such bill.
    fn get_specials_to_bill(&self, timestamp_from: i64, timestamp_to: i64) -> (ids: Vec<u64>)
        ensures
            ids@ == if self.asked().has_bill(timestamp_from, timestamp_to) {
                selected(
                    purchase_ids(self.asked().purchases),
                    self.asked().special_flags(self.asked().bill(timestamp_from, timestamp_to), false),
                )
            } else {
                Seq::empty()
            },
    ;

    /// The ids of the specials without a price that the bill over
    /// `[from, to)` covers, in their order; none where there is no such bill.
    fn get_unpriced_specials_to_bill(&self, timestamp_from: i64, timestamp_to: i64) -> (ids: Vec<u64>)
        ensures
            ids@ == if self.asked().has_bill(timestamp_from, timestamp_to) {
                selected(
                    purchase_ids(self.asked().purchases),
                    self.asked().special_flags(self.asked().bill(timestamp_from, timestamp_to), true),
                )
            } else {
                Seq::empty()
            },
    ;

    /// The users of the bill over `[from, to)` who are not deleted, in
    /// ascending order; none where there is no such bill.
    fn get_users_to_bill(&self, timestamp_from: i64, timestamp_to: i64) -> (ids: Vec<u32>)
        requires
            self.sound(),
        ensures
            ids@ == if self.asked().has_bill(timestamp_from, timestamp_to) {
                selected(
                    Seq::new(self.asked().user_id_counter as nat, |i: int| i as u32),
                    self.asked().billed_user_flags(self.asked().bill(timestamp_from, timestamp_to)),
                )
            } else {
                Seq::empty()
            },
    ;

    /// The users whom the bill over `[from, to)` charges and who have to be
    /// resolved first: they are billed, not excluded from the bill, and have
    /// no external id. None where there is no such bill.
    fn get_un_set_users_to_bill(&self, timestamp_from: i64, timestamp_to: i64) -> (ids: Vec<u32>)
        requires
            self.sound(),
        ensures
            ids@ == if self.asked().has_bill(timestamp_from, timestamp_to) {
                unresolved_users(
                    self.asked().purchases,
                    self.asked().bill(timestamp_from, timestamp_to),
                    self.asked().users,
                )
            } else {
                Seq::empty()
            },
    ;

    /// The positions of the purchases that the bill covers, in ascending
    /// order.
    fn get_purchase_indices_to_bill(&self, bill: &Bill) -> (indices: Vec<usize>)
        ensures
            indices@.map_values(|i: usize| i as int) == kept_positions(self.asked().billed_flags(bill@)),
    ;

    /// The first open free-for-all with the id; else the first used-up
    /// freeby with it.
    fn get_ffa_freeby(&self, id: u64) -> (freeby: Option<&Freeby>)
        ensures
            freeby matches Some(f) ==> f@.id() == id && f@ == (if freeby_at(self.asked().open_ffa, id)
                < self.asked().open_ffa.len() {
                self.asked().open_ffa[freeby_at(self.asked().open_ffa, id)]
            } else {
                self.asked().used_up_freebies[freeby_at(self.asked().used_up_freebies, id)]
            }),
            freeby.is_none() == (freeby_at(self.asked().open_ffa, id) == self.asked().open_ffa.len()
                && freeby_at(self.asked().used_up_freebies, id) == self.asked().used_up_freebies.len()),
    ;

    /// The first used-up freeby with the id; else the first open freeby of
    /// the recipient with it.
    fn get_personal_freeby(&self, recipient_id: u32, freeby_id: u64) -> (freeby: Option<&Freeby>)
        ensures
            freeby matches Some(f) ==> f@.id() == freeby_id && f@ == (if freeby_at(
                self.asked().used_up_freebies,
                freeby_id,
            ) < self.asked().used_up_freebies.len() {
                self.asked().used_up_freebies[freeby_at(self.asked().used_up_freebies, freeby_id)]
            } else {
                self.asked().open_freebies_of(recipient_id)[freeby_at(
                    self.asked().open_freebies_of(recipient_id),
                    freeby_id,
                )]
            }),
            freeby.is_none() == (freeby_at(self.asked().used_up_freebies, freeby_id)
                == self.asked().used_up_freebies.len() && freeby_at(
                self.asked().open_freebies_of(recipient_id),
                freeby_id,
            ) == self.asked().open_freebies_of(recipient_id).len()),
    ;

    /// The position of the first transfer among the open freebies of the
    /// recipient.
    fn get_budget_freeby_id_useable_for(&self, recipient_id: u32) -> (at: Option<usize>)
        ensures
            at.is_some() == (budget_freeby_for(self.asked().open_freebies_of(recipient_id))
                < self.asked().open_freebies_of(recipient_id).len()),
            at matches Some(i) ==> i == budget_freeby_for(self.asked().open_freebies_of(recipient_id)),
    ;

    /// The position, among the open freebies of the recipient, of the first
    /// classic freeby that pays for the item, which exists, and has something
    /// left.
    fn get_count_freeby_id_useable_for(&self, recipient_id: u32, item: u32) -> (at: Option<usize>)
        requires
            self.sound(),
            self.asked().items.contains_key(item),
        ensures
            at.is_some() == (count_freeby_for(
                self.asked().open_freebies_of(recipient_id),
                self.asked().items[item],
            ) < self.asked().open_freebies_of(recipient_id).len()),
            at matches Some(i) ==> i == count_freeby_for(
                self.asked().open_freebies_of(recipient_id),
                self.asked().items[item],
            ),
    ;
}

/// What gives a purchase by its id.
pub trait Purchaseable {
    /// The purchases that are kept, in their order.
    spec fn kept_purchases(&self) -> Seq<PurchaseView>;

    /// A copy of the first purchase with the id.
    fn get_purchase(&self, id: u64) -> (purchase: Option<Purchase>)
        ensures
            purchase.is_some() == (purchase_at(self.kept_purchases(), id) < self.kept_purchases().len()),
            purchase matches Some(p) ==> p@ == self.kept_purchases()[purchase_at(
                self.kept_purchases(),
                id,
            )],
    ;
}

impl Purchaseable for Datastore {
    open spec fn kept_purchases(&self) -> Seq<PurchaseView> {
        self@.purchases
    }

    fn get_purchase(&self, id: u64) -> (purchase: Option<Purchase>) {
        match find_purchase(&self.purchases, id) {
            Some(at) => {
                assert(self@.purchases[at as int] == self.purchases[at as int]@);
                Some(self.purchases[at].clone())
            },
            None => None,
        }
    }
}

impl User {
    /// The text under which the user is found: the name.
    pub fn as_searchable_text(&self) -> (text: String)
        ensures
            text@ == self.username@,
    {
        self.username.clone()
    }

    pub fn get_id(&self) -> (id: u32)
        ensures
            id == self.user_id,
    {
        self.user_id
    }
}

impl Item {
    /// The text under which the item is found: the name.
    pub fn as_searchable_text(&self) -> (text: String)
        ensures
            text@ == self.name@,
    {
        self.name.clone()
    }

    pub fn get_id(&self) -> (id: u32)
        ensures
            id == self.item_id,
    {
        self.item_id
    }
}

impl Datastore {
    /// The ids of the specials that the bill covers; with `unpriced`, of
    /// those without a price.
    fn specials_of(&self, bill: &Bill, unpriced: bool) -> (ids: Vec<u64>)
        ensures
            ids@ == selected(purchase_ids(self@.purchases), self@.special_flags(bill@, unpriced)),
    {
        let ghost views = self@.purchases;
        let ghost flags = self@.special_flags(bill@, unpriced);
        let mut ids: Vec<u64> = Vec::new();
        let mut i: usize = 0;
        assert(flags.take(0) =~= Seq::empty());
        assert(ids@ =~= selected(purchase_ids(views), flags.take(0)));
        while i < self.purchases.len()
            invariant
                i <= self.purchases.len(),
                views == self@.purchases,
                flags == self@.special_flags(bill@, unpriced),
                ids@ == selected(purchase_ids(views), flags.take(i as int)),
            decreases self.purchases.len() - i,
        {
            let purchase = &self.purchases[i];
            assert(views[i as int] == purchase@);
            proof {
                lemma_kept_next(flags, i as int);
            }
            let millis = *purchase.get_timestamp();
            let billed = bill.timestamp_from <= millis && millis < bill.timestamp_to && matches_usergroup(
                &Some(*purchase.get_user_id()),
                &bill.users,
            );
            if billed && purchase.is_special() && (!unpriced || purchase.get_special_set_price().is_none()) {
                let ghost before = ids@;
                ids.push(purchase.get_unique_id());
                assert(ids@ =~= selected(purchase_ids(views), flags.take(i + 1)));
            } else {
                assert(ids@ =~= selected(purchase_ids(views), flags.take(i + 1)));
            }
            i += 1;
        }
        assert(flags.take(self.purchases.len() as int) =~= flags);
        ids
    }
}

impl DatastoreView {
    /// Which purchases stay when those at the given positions leave.
    pub open spec fn staying_flags(self, leaving: Seq<usize>) -> Seq<bool> {
        Seq::new(self.purchases.len(), |i: int| !leaving.contains(i as usize))
    }
}

impl Datastore {
    /// Takes the purchases at the given positions, which lie in the list, out
    /// of it.
    pub fn remove_purchases_indices(&mut self, indices: Vec<usize>)
        requires
            old(self).wf(),
            forall|k: int| 0 <= k < indices.len() ==> indices[k] < old(self).purchases.len(),
        ensures
            final(self).wf(),
            final(self)@ == (DatastoreView {
                purchases: selected(old(self)@.purchases, old(self)@.staying_flags(indices@)),
                ..old(self)@
            }),
    {
        let ghost views = self@.purchases;
        let ghost flags = self@.staying_flags(indices@);
        let mut kept: Vec<Purchase> = Vec::new();
        let mut i: usize = 0;
        assert(flags.take(0) =~= Seq::empty());
        assert(purchase_views(kept@) =~= selected(views, flags.take(0)));
        while i < self.purchases.len()
            invariant
                i <= self.purchases.len(),
                views == self@.purchases,
                flags == self@.staying_flags(indices@),
                purchase_views(kept@) == selected(views, flags.take(i as int)),
            decreases self.purchases.len() - i,
        {
            let purchase = &self.purchases[i];
            assert(views[i as int] == purchase@);
            proof {
                lemma_kept_next(flags, i as int);
            }
            let mut leaving = false;
            let mut k: usize = 0;
            while k < indices.len()
                invariant
                    k <= indices.len(),
                    leaving == exists|j: int| 0 <= j < k && indices[j] == i,
                decreases indices.len() - k,
            {
                if indices[k] == i {
                    leaving = true;
                }
                k += 1;
            }
            assert(leaving == indices@.contains(i));
            if !leaving {
                let ghost before = purchase_views(kept@);
                kept.push(purchase.clone());
                assert(purchase_views(kept@) =~= before.push(purchase@));
            }
            assert(purchase_views(kept@) =~= selected(views, flags.take(i + 1)));
            i += 1;
        }
        assert(flags.take(self.purchases.len() as int) =~= flags);
        self.purchases = kept;
        proof {
            lemma_kept_positions(flags);
            let after = self@.purchases;
            let at = kept_positions(flags);
            assert forall|a: int, b: int| 0 <= a <= b < after.len() implies (#[trigger] after[a]).timestamp()
                <= (#[trigger] after[b]).timestamp() by {
                if a < b {
                    assert(at[a] < at[b]);
                }
                assert(after[a] == views[at[a]] && after[b] == views[at[b]]);
            }
            assert forall|a: int| 0 <= a < after.len() implies self@.users.contains_key(
                (#[trigger] after[a]).user_id(),
            ) && (after[a].item_id() matches Some(item) ==> self@.items.contains_key(item)) by {
                assert(after[a] == views[at[a]]);
            }
        }
    }
}

impl DatastoreQueries for Datastore {
    open spec fn asked(&self) -> DatastoreView {
        self@
    }

    open spec fn sound(&self) -> bool {
        self.wf()
    }

    fn get_purchase_timestamp(&self, purchase_id: u64) -> (millis: Option<i64>) {
        match find_purchase(&self.purchases, purchase_id) {
            Some(at) => {
                assert(self@.purchases[at as int] == self.purchases[at as int]@);
                Some(*self.purchases[at].get_timestamp())
            },
            None => None,
        }
    }

    fn top_user_ids(&self, n: u16) -> (ids: Vec<u32>) {
        self.top_user_scores.extract_top(n as usize)
    }

    fn top_item_ids(&self, user_id: u32, n: u8) -> (ids: Vec<u32>) {
        assert(self@.drink_scores_per_user.contains_key(user_id)
            == self.drink_scores_per_user@.contains_key(user_id));
        match self.drink_scores_per_user.get(&user_id) {
            Some(tree) => tree.extract_top(n as usize),
            None => Vec::new(),
        }
    }

    fn users_searchhit_ids(&self, searchterm: &str) -> (ids: Vec<u32>) {
        let ids = search_index(&self.users_suffix_tree, searchterm);
        proof {
            let texts = active_user_texts(self@.users, self@.users_index.case_sensitive);
            assert(self@.users_index.texts == texts);
            assert forall|id: u32| #[trigger]
                ids@.contains(id) <==> self@.users.contains_key(id) && !self@.users[id].deleted
                    && is_substring(
                    searchable(self@.users_index.case_sensitive, searchterm@),
                    searchable(self@.users_index.case_sensitive, self@.users[id].username),
                ) by {
                assert(texts.contains_key(id) == (self@.users.contains_key(id) && !self@.users[id].deleted));
            }
        }
        ids
    }

    fn items_searchhit_ids(&self, searchterm: &str) -> (ids: Vec<u32>) {
        let ids = search_index(&self.items_suffix_tree, searchterm);
        proof {
            let texts = active_item_texts(self@.items, self@.items_index.case_sensitive);
            assert(self@.items_index.texts == texts);
            assert forall|id: u32| #[trigger]
                ids@.contains(id) <==> self@.items.contains_key(id) && !self@.items[id].deleted
                    && is_substring(
                    searchable(self@.items_index.case_sensitive, searchterm@),
                    searchable(self@.items_index.case_sensitive, self@.items[id].name),
                ) by {
                assert(texts.contains_key(id) == (self@.items.contains_key(id) && !self@.items[id].deleted));
            }
        }
        ids
    }

    fn personal_log_filtered(&self, user_id: u32, millis_start_inclusive: i64, millis_end_exclusive: i64) -> (log: Vec<Purchase>) {
        let ghost views = self@.purchases;
        let ghost flags = self@.personal_flags(user_id, millis_start_inclusive, millis_end_exclusive);
        let mut log: Vec<Purchase> = Vec::new();
        let mut i: usize = 0;
        assert(flags.take(0) =~= Seq::empty());
        assert(purchase_views(log@) =~= selected(views, flags.take(0)));
        while i < self.purchases.len()
            invariant
                i <= self.purchases.len(),
                views == self@.purchases,
                flags == self@.personal_flags(user_id, millis_start_inclusive, millis_end_exclusive),
                purchase_views(log@) == selected(views, flags.take(i as int)),
            decreases self.purchases.len() - i,
        {
            let purchase = &self.purchases[i];
            assert(views[i as int] == purchase@);
            proof {
                lemma_kept_next(flags, i as int);
            }
            let millis = *purchase.get_timestamp();
            if *purchase.get_user_id() == user_id && millis >= millis_start_inclusive && millis
                < millis_end_exclusive {
                let ghost before = purchase_views(log@);
                log.push(purchase.clone());
                assert(purchase_views(log@) =~= before.push(purchase@));
            }
            assert(purchase_views(log@) =~= selected(views, flags.take(i + 1)));
            i += 1;
        }
        assert(flags.take(self.purchases.len() as int) =~= flags);
        log
    }

    fn global_log_filtered(&self, millis_start_inclusive: i64, millis_end_exclusive: i64) -> (log: &[Purchase]) {
        let (from, to) = find_purchase_indices(
            self.purchases.as_slice(),
            millis_start_inclusive,
            millis_end_exclusive,
        );
        let log = slice_subrange(self.purchases.as_slice(), from, to);
        proof {
            assert(purchase_views(log@) =~= self@.purchases.subrange(from as int, to as int));
            assert forall|i: int| 0 <= i < self@.purchases.len() implies (millis_start_inclusive <= (
            #[trigger] self@.purchases[i]).timestamp() < millis_end_exclusive <==> from <= i < to) by {
                assert(self@.purchases[i] == self.purchases[i]@);
            }
        }
        log
    }

    fn bills_filtered(&self, user_id: Option<u32>, millis_start_inclusive: i64, millis_end_exclusive: i64) -> (bills: Vec<Bill>) {
        let ghost views = self@.bills;
        let ghost flags = self@.bill_flags(user_id, millis_start_inclusive, millis_end_exclusive);
        let mut bills: Vec<Bill> = Vec::new();
        let mut i: usize = 0;
        assert(flags.take(0) =~= Seq::empty());
        assert(bill_views(bills@) =~= selected(views, flags.take(0)));
        while i < self.bills.len()
            invariant
                i <= self.bills.len(),
                views == self@.bills,
                flags == self@.bill_flags(user_id, millis_start_inclusive, millis_end_exclusive),
                bill_views(bills@) == selected(views, flags.take(i as int)),
            decreases self.bills.len() - i,
        {
            let bill = &self.bills[i];
            assert(views[i as int] == bill@);
            proof {
                lemma_kept_next(flags, i as int);
            }
            if matches_usergroup(&user_id, &bill.users) && !(bill.timestamp_to < millis_start_inclusive
                || bill.timestamp_from > millis_end_exclusive) {
                let ghost before = bill_views(bills@);
                bills.push(bill.clone());
                assert(bill_views(bills@) =~= before.push(bill@));
            }
            assert(bill_views(bills@) =~= selected(views, flags.take(i + 1)));
            i += 1;
        }
        assert(flags.take(self.bills.len() as int) =~= flags);
        bills
    }

    fn all_categories(&self) -> (categories: Vec<String>) {
        self.categories.to_vec()
    }

    fn get_bill(&self, timestamp_from: i64, timestamp_to: i64) -> (bill: Option<&Bill>) {
        match find_bill(&self.bills, timestamp_from, timestamp_to) {
            Some(at) => {
                assert(self@.bills[at as int] == self.bills[at as int]@);
                Some(&self.bills[at])
            },
            None => None,
        }
    }

    fn get_bill_index(&self, timestamp_from: i64, timestamp_to: i64) -> (at: Option<usize>) {
        find_bill(&self.bills, timestamp_from, timestamp_to)
    }

    fn get_specials_to_bill(&self, timestamp_from: i64, timestamp_to: i64) -> (ids: Vec<u64>) {
        match self.get_bill(timestamp_from, timestamp_to) {
            Some(bill) => self.specials_of(bill, false),
            None => Vec::new(),
        }
    }

    fn get_unpriced_specials_to_bill(&self, timestamp_from: i64, timestamp_to: i64) -> (ids: Vec<u64>) {
        match self.get_bill(timestamp_from, timestamp_to) {
            Some(bill) => self.specials_of(bill, true),
            None => Vec::new(),
        }
    }

    fn get_users_to_bill(&self, timestamp_from: i64, timestamp_to: i64) -> (ids: Vec<u32>) {
        let bill = match self.get_bill(timestamp_from, timestamp_to) {
            Some(bill) => bill,
            None => {
                return Vec::new();
            },
        };
        let ghost all = Seq::new(self@.user_id_counter as nat, |i: int| i as u32);
        let ghost flags = self@.billed_user_flags(bill@);
        let mut ids: Vec<u32> = Vec::new();
        let mut id: u32 = 0;
        assert(flags.take(0) =~= Seq::empty());
        assert(ids@ =~= selected(all, flags.take(0)));
        while id < self.user_id_counter
            invariant
                id <= self.user_id_counter,
                all == Seq::new(self@.user_id_counter as nat, |i: int| i as u32),
                flags == self@.billed_user_flags(bill@),
                ids@ == selected(all, flags.take(id as int)),
            decreases self.user_id_counter - id,
        {
            proof {
                lemma_kept_next(flags, id as int);
            }
            assert(self@.users.contains_key(id) == self.users@.contains_key(id));
            match self.users.get(&id) {
                Some(user) => {
                    if !user.deleted && matches_usergroup(&Some(id), &bill.users) {
                        ids.push(id);
                    }
                },
                None => {},
            }
            assert(ids@ =~= selected(all, flags.take(id + 1)));
            id += 1;
        }
        assert(flags.take(self.user_id_counter as int) =~= flags);
        ids
    }

    fn get_un_set_users_to_bill(&self, timestamp_from: i64, timestamp_to: i64) -> (ids: Vec<u32>) {
        let bill = match self.get_bill(timestamp_from, timestamp_to) {
            Some(bill) => bill,
            None => {
                return Vec::new();
            },
        };
        let ghost views = self@.purchases;
        let mut ids: Vec<u32> = Vec::new();
        let mut i: usize = 0;
        assert(views.take(0) =~= Seq::empty());
        while i < self.purchases.len()
            invariant
                i <= self.purchases.len(),
                self.wf(),
                views == self@.purchases,
                ids@ == unresolved_users(views.take(i as int), bill@, self@.users),
            decreases self.purchases.len() - i,
        {
            let purchase = &self.purchases[i];
            assert(views[i as int] == purchase@);
            proof {
                let next = views.take(i + 1);
                assert(next.drop_last() =~= views.take(i as int));
                assert(next.last() == purchase@);
            }
            let user_id: u32 = *purchase.get_user_id();
            let millis = *purchase.get_timestamp();
            if bill.timestamp_from <= millis && millis < bill.timestamp_to && matches_usergroup(
                &Some(user_id),
                &bill.users,
            ) {
                assert(self@.users.contains_key(user_id));
                assert(self.users@.contains_key(user_id));
                let user = match self.users.get(&user_id) {
                    Some(user) => user,
                    None => unreached(),
                };
                assert(self@.users[user_id] == user@);
                if user.is_billed && !bill.users_that_will_not_be_billed.contains(&user_id)
                    && user.external_user_id.is_none() && !contains_id(&ids, user_id) {
                    ids.push(user_id);
                }
            }
            i += 1;
        }
        assert(views.take(self.purchases.len() as int) =~= views);
        ids
    }

    fn get_purchase_indices_to_bill(&self, bill: &Bill) -> (indices: Vec<usize>) {
        let ghost flags = self@.billed_flags(bill@);
        let mut indices: Vec<usize> = Vec::new();
        let mut i: usize = 0;
        assert(flags.take(0) =~= Seq::empty());
        assert(indices@.map_values(|i: usize| i as int) =~= kept_positions(flags.take(0)));
        while i < self.purchases.len()
            invariant
                i <= self.purchases.len(),
                flags == self@.billed_flags(bill@),
                indices@.map_values(|i: usize| i as int) == kept_positions(flags.take(i as int)),
            decreases self.purchases.len() - i,
        {
            let purchase = &self.purchases[i];
            assert(self@.purchases[i as int] == purchase@);
            proof {
                lemma_kept_next(flags, i as int);
            }
            let millis = *purchase.get_timestamp();
            let ghost before = indices@.map_values(|i: usize| i as int);
            if bill.timestamp_from <= millis && millis < bill.timestamp_to && matches_usergroup(
                &Some(*purchase.get_user_id()),
                &bill.users,
            ) {
                indices.push(i);
                assert(indices@.map_values(|i: usize| i as int) =~= before.push(i as int));
            }
            i += 1;
        }
        assert(flags.take(self.purchases.len() as int) =~= flags);
        indices
    }

    fn get_ffa_freeby(&self, id: u64) -> (freeby: Option<&Freeby>) {
        match find_freeby(&self.open_ffa, id) {
            Some(at) => {
                assert(self@.open_ffa[at as int] == self.open_ffa[at as int]@);
                Some(&self.open_ffa[at])
            },
            None => match find_freeby(&self.used_up_freebies, id) {
                Some(at) => {
                    assert(self@.used_up_freebies[at as int] == self.used_up_freebies[at as int]@);
                    Some(&self.used_up_freebies[at])
                },
                None => None,
            },
        }
    }

    fn get_personal_freeby(&self, recipient_id: u32, freeby_id: u64) -> (freeby: Option<&Freeby>) {
        match find_freeby(&self.used_up_freebies, freeby_id) {
            Some(at) => {
                assert(self@.used_up_freebies[at as int] == self.used_up_freebies[at as int]@);
                Some(&self.used_up_freebies[at])
            },
            None => {
                assert(self@.open_freebies.contains_key(recipient_id) == self.open_freebies@.contains_key(
                    recipient_id,
                ));
                match self.open_freebies.get(&recipient_id) {
                    Some(list) => {
                        assert(self@.open_freebies_of(recipient_id) == freeby_views(list@));
                        match find_freeby(list, freeby_id) {
                            Some(at) => {
                                assert(freeby_views(list@)[at as int] == list[at as int]@);
                                Some(&list[at])
                            },
                            None => None,
                        }
                    },
                    None => {
                        proof {
                            let none = Seq::<bool>::empty();
                            assert(Seq::new(
                                0,
                                |i: int| self@.open_freebies_of(recipient_id)[i].id() == freeby_id,
                            ) =~= none);
                            crate::search::lemma_first_true_none(none);
                        }
                        None
                    },
                }
            },
        }
    }

    fn get_budget_freeby_id_useable_for(&self, recipient_id: u32) -> (at: Option<usize>) {
        assert(self@.open_freebies.contains_key(recipient_id) == self.open_freebies@.contains_key(
            recipient_id,
        ));
        match self.open_freebies.get(&recipient_id) {
            Some(list) => {
                assert(self@.open_freebies_of(recipient_id) == freeby_views(list@));
                find_budget_freeby(list)
            },
            None => {
                proof {
                    let none = Seq::<bool>::empty();
                    assert(Seq::new(0, |i: int| self@.open_freebies_of(recipient_id)[i] is Transfer)
                        =~= none);
                    crate::search::lemma_first_true_none(none);
                }
                None
            },
        }
    }

    fn get_count_freeby_id_useable_for(&self, recipient_id: u32, item: u32) -> (at: Option<usize>) {
        assert(self.items@.contains_key(item));
        let kept = match self.items.get(&item) {
            Some(kept) => kept,
            None => unreached(),
        };
        assert(self@.items[item] == kept@);
        assert(self@.open_freebies.contains_key(recipient_id) == self.open_freebies@.contains_key(
            recipient_id,
        ));
        match self.open_freebies.get(&recipient_id) {
            Some(list) => {
                assert(self@.open_freebies_of(recipient_id) == freeby_views(list@));
                assert forall|i: int| 0 <= i < list.len() implies (#[trigger] list[i])@.wf() by {
                    assert(self@.open_freebies[recipient_id][i] == list[i]@);
                }
                find_count_freeby(list, kept)
            },
            None => {
                proof {
                    let none = Seq::<bool>::empty();
                    assert(Seq::new(
                        0,
                        |i: int|
                            self@.open_freebies_of(recipient_id)[i] is Classic && self@.open_freebies_of(
                                recipient_id,
                            )[i].allows(kept@) && self@.open_freebies_of(recipient_id)[i].left() > 0,
                    ) =~= none);
                    crate::search::lemma_first_true_none(none);
                }
                None
            },
        }
    }
}

} // verus!
