//! Finalizing a bill: every purchase that the bill covers is settled into the
//! record of the bill and leaves the list of live purchases.
//!
//! A purchase of an item is paid by the first classic freeby of the consumer
//! that pays for the item and has something left; else the consumer is
//! charged, and the first transfer of the consumer takes over as much of the
//! price as it has left.
//!
//! Finalizing leaves the balances, the rankings and the top sets as they
//! are: they keep counting the purchases that a bill has taken.

use vstd::prelude::*;
use std::collections::HashMap;
use crate::bill::{
    bill_at,
    bill_views,
    count_at,
    counted_up,
    day_index,
    days_between,
    find_bill,
    item_views,
    user_views,
    BillDataView,
    BillState,
    BillView,
    DayView,
    ExportableBillData,
    PaidForView,
    PricedSpecial,
    PricedSpecialView,
    UserInstanceView,
};
use crate::catalog::{matches_usergroup, Item, ItemView, User, UserGroup, UserView};
use crate::datastore::{Datastore, DatastoreView};
use crate::freeby::{
    filed,
    find_slot,
    freeby_views,
    lemma_filed_is_ordered,
    ordered_by_freeby_id,
    Freeby,
    FreebyAble,
    FreebyView,
};
use crate::purchase::{ordered_by_time, purchase_views, Purchase, PurchaseFunctions, PurchaseView};
use crate::search::{first_true, lemma_first_true_at, lemma_first_true_none};

verus! {

broadcast use vstd::std_specs::hash::group_hash_axioms;

/// The bill covers the purchase: it falls into the span of the bill, and the
/// user who is charged is among the users of the bill.
pub open spec fn is_billed(bill: BillView, purchase: PurchaseView) -> bool {
    &&& bill.timestamp_from <= purchase.timestamp() < bill.timestamp_to
    &&& bill.users.selects(purchase.user_id())
}

/// The user is billed, is not excluded from the bill, and has no external id
/// yet: the bill cannot be finalized before one of the three changes.
pub open spec fn is_unresolved(bill: BillView, user_id: u32, user: UserView) -> bool {
    &&& user.is_billed
    &&& !bill.users_that_will_not_be_billed.contains(user_id)
    &&& user.external_user_id is None
}

/// The position of the first classic freeby that pays for `item` and has
/// something left; the length of the list if there is none.
pub open spec fn count_freeby_for(list: Seq<FreebyView>, item: ItemView) -> int {
    first_true(
        Seq::new(list.len(), |i: int| list[i] is Classic && list[i].allows(item) && list[i].left() > 0),
    )
}

/// The position of the first transfer; the length of the list if there is
/// none.
pub open spec fn budget_freeby_for(list: Seq<FreebyView>) -> int {
    first_true(Seq::new(list.len(), |i: int| list[i] is Transfer))
}

/// The list after the freeby at `at` was used: without it if nothing is left
/// of it, else with what is left of it in its place.
pub open spec fn after_use(list: Seq<FreebyView>, at: int, used: FreebyView) -> Seq<FreebyView> {
    if used.left() == 0 {
        list.remove(at)
    } else {
        list.update(at, used)
    }
}

/// What settling purchases changes: the record of the bill, the open
/// personal freebies, and the used-up freebies.
#[verifier::ext_equal]
pub ghost struct Settlement {
    pub data: BillDataView,
    pub open_freebies: Map<u32, Seq<FreebyView>>,
    pub used_up_freebies: Seq<FreebyView>,
}

impl Settlement {
    /// The open freebies of a recipient; none where none were given.
    pub open spec fn open_of(self, recipient: u32) -> Seq<FreebyView> {
        if self.open_freebies.contains_key(recipient) {
            self.open_freebies[recipient]
        } else {
            Seq::empty()
        }
    }

    /// The freeby at `at` of a recipient was used, and `used` is what is left
    /// of it: it stays in its place, or is filed with the used-up freebies if
    /// nothing is left.
    pub open spec fn with_used(self, recipient: u32, at: int, used: FreebyView) -> Settlement {
        Settlement {
            open_freebies: self.open_freebies.insert(
                recipient,
                after_use(self.open_of(recipient), at, used),
            ),
            used_up_freebies: if used.left() == 0 {
                filed(self.used_up_freebies, used)
            } else {
                self.used_up_freebies
            },
            ..self
        }
    }

    /// A special is filed under its consumer with the price it was given.
    pub open spec fn settle_special(
        self,
        unique_id: u64,
        name: Seq<char>,
        price: u32,
        consumer: u32,
        day: usize,
        users: Map<u32, UserView>,
    ) -> Settlement {
        Settlement {
            data: self.data.with_user(consumer, users[consumer]).with_special(
                consumer,
                day,
                PricedSpecialView { purchase_id: unique_id, price, name },
            ),
            ..self
        }
    }

    /// A purchase from a free-for-all is filed under the donor.
    pub open spec fn settle_ffa(
        self,
        item_id: u32,
        donor: u32,
        day: usize,
        users: Map<u32, UserView>,
        items: Map<u32, ItemView>,
    ) -> Settlement {
        Settlement {
            data: self.data.with_user(donor, users[donor]).with_item(
                item_id,
                items[item_id],
            ).with_ffa_giveout(donor, day, item_id),
            ..self
        }
    }

    /// A purchase of an item is paid from a classic freeby of the consumer,
    /// or charged to the consumer and, as far as it goes, taken over by a
    /// transfer.
    pub open spec fn settle_simple(
        self,
        item_id: u32,
        consumer: u32,
        day: usize,
        users: Map<u32, UserView>,
        items: Map<u32, ItemView>,
    ) -> Settlement {
        let list = self.open_of(consumer);
        let item = items[item_id];
        let known = self.data.with_user(consumer, users[consumer]).with_item(item_id, item);
        let by_count = count_freeby_for(list, item);
        let by_budget = budget_freeby_for(list);
        if by_count < list.len() {
            let donor = list[by_count].donor();
            Settlement {
                data: known.with_user(donor, users[donor]).with_count_giveout(
                    donor,
                    day,
                    consumer,
                    item_id,
                ),
                ..self
            }.with_used(consumer, by_count, list[by_count].decremented())
        } else if by_budget < list.len() {
            let donor = list[by_budget].donor();
            let budget = list[by_budget].left();
            let taken = if budget < item.cost_cents {
                budget as u64
            } else {
                item.cost_cents as u64
            };
            Settlement {
                data: known.with_personal(consumer, day, item_id).with_budget_gotten(
                    consumer,
                    day,
                    donor,
                    taken,
                ).with_user(donor, users[donor]).with_budget_given(donor, day, consumer, taken),
                ..self
            }.with_used(consumer, by_budget, list[by_budget].spent(taken))
        } else {
            Settlement { data: known.with_personal(consumer, day, item_id), ..self }
        }
    }

    /// One purchase is settled, on the day counted from the start of the
    /// bill.
    pub open spec fn settle(
        self,
        purchase: PurchaseView,
        from: i64,
        users: Map<u32, UserView>,
        items: Map<u32, ItemView>,
    ) -> Settlement {
        let day = day_index(from, purchase.timestamp()) as usize;
        match purchase {
            PurchaseView::SpecialPurchase { unique_id, special_name, specialcost, consumer_id, .. } =>
                self.settle_special(
                    unique_id,
                    special_name,
                    specialcost->0,
                    consumer_id,
                    day,
                    users,
                ),
            PurchaseView::SimplePurchase { item_id, consumer_id, .. } => self.settle_simple(
                item_id,
                consumer_id,
                day,
                users,
                items,
            ),
            PurchaseView::FFAPurchase { item_id, donor, .. } => self.settle_ffa(
                item_id,
                donor,
                day,
                users,
                items,
            ),
        }
    }

    /// The first `upto` purchases are settled, one after the other, as far as
    /// the bill covers them.
    pub open spec fn settle_upto(
        self,
        purchases: Seq<PurchaseView>,
        upto: int,
        bill: BillView,
        users: Map<u32, UserView>,
        items: Map<u32, ItemView>,
    ) -> Settlement
        decreases upto,
    {
        if upto <= 0 {
            self
        } else {
            let before = self.settle_upto(purchases, upto - 1, bill, users, items);
            if is_billed(bill, purchases[upto - 1]) {
                before.settle(purchases[upto - 1], bill.timestamp_from, users, items)
            } else {
                before
            }
        }
    }
}

/// The purchases that the bill does not cover, in their order.
pub open spec fn unbilled(purchases: Seq<PurchaseView>, bill: BillView) -> Seq<PurchaseView>
    decreases purchases.len(),
{
    if purchases.len() == 0 {
        Seq::empty()
    } else if is_billed(bill, purchases.last()) {
        unbilled(purchases.drop_last(), bill)
    } else {
        unbilled(purchases.drop_last(), bill).push(purchases.last())
    }
}

/// What is left after billing is not covered by the bill, was in the list
/// before, and is still ordered by time.
pub proof fn lemma_unbilled(purchases: Seq<PurchaseView>, bill: BillView)
    ensures
        forall|i: int|
            0 <= i < unbilled(purchases, bill).len() ==> !is_billed(
                bill,
                #[trigger] unbilled(purchases, bill)[i],
            ) && purchases.contains(unbilled(purchases, bill)[i]),
        ordered_by_time(purchases) ==> ordered_by_time(unbilled(purchases, bill)),
    decreases purchases.len(),
{
    if purchases.len() > 0 {
        let rest = purchases.drop_last();
        lemma_unbilled(rest, bill);
        let kept = unbilled(rest, bill);
        let all = unbilled(purchases, bill);
        assert forall|i: int| 0 <= i < all.len() implies !is_billed(bill, #[trigger] all[i])
            && purchases.contains(all[i]) by {
            if i < kept.len() {
                assert(all[i] == kept[i]);
                let j = choose|j: int| 0 <= j < rest.len() && rest[j] == kept[i];
                assert(purchases[j] == kept[i]);
            } else {
                assert(all[i] == purchases[purchases.len() - 1]);
            }
        }
        if ordered_by_time(purchases) {
            assert forall|i: int, j: int| 0 <= i <= j < rest.len() implies (#[trigger] rest[i]).timestamp()
                <= (#[trigger] rest[j]).timestamp() by {
                assert(rest[i] == purchases[i] && rest[j] == purchases[j]);
            }
            assert forall|i: int, j: int| 0 <= i <= j < all.len() implies (#[trigger] all[i]).timestamp()
                <= (#[trigger] all[j]).timestamp() by {
                if j < kept.len() {
                    assert(all[i] == kept[i] && all[j] == kept[j]);
                } else if i < kept.len() {
                    assert(all[i] == kept[i]);
                    let k = choose|k: int| 0 <= k < rest.len() && rest[k] == kept[i];
                    assert(purchases[k] == kept[i]);
                    assert(purchases[k].timestamp() <= purchases[purchases.len() - 1].timestamp());
                }
            }
        }
    }
}

/// How large the numbers of a record are at most: the counts, and the cents
/// gotten and given in units of the largest price.
pub ghost struct Bounds {
    pub counts: int,
    pub gotten: int,
    pub given: int,
}

pub open spec fn counts_bounded(counts: Map<u32, u32>, bound: int) -> bool {
    forall|key: u32| #[trigger] counts.contains_key(key) ==> counts[key] <= bound
}

pub open spec fn paid_for_bounded(record: PaidForView, bounds: Bounds) -> bool {
    &&& counts_bounded(record.count_giveouts_used, bounds.counts)
    &&& record.budget_gotten <= bounds.gotten * 0xffff_ffff
    &&& record.budget_given <= bounds.given * 0xffff_ffff
}

pub open spec fn day_bounded(day: DayView, bounds: Bounds) -> bool {
    &&& counts_bounded(day.personally_consumed, bounds.counts)
    &&& counts_bounded(day.ffa_giveouts, bounds.counts)
    &&& forall|other: u32| #[trigger]
        day.giveouts_to_user_id.contains_key(other) ==> paid_for_bounded(
            day.giveouts_to_user_id[other],
            bounds,
        )
}

pub open spec fn instance_bounded(instance: UserInstanceView, bounds: Bounds) -> bool {
    forall|day: usize| #[trigger]
        instance.per_day.contains_key(day) ==> day_bounded(instance.per_day[day], bounds)
}

/// No number of the data is above its bound.
pub open spec fn data_bounded(data: BillDataView, bounds: Bounds) -> bool {
    forall|user: u32| #[trigger]
        data.user_consumption.contains_key(user) ==> instance_bounded(
            data.user_consumption[user],
            bounds,
        )
}

pub open spec fn bounds_within(low: Bounds, high: Bounds) -> bool {
    &&& 0 <= low.counts <= high.counts
    &&& 0 <= low.gotten <= high.gotten
    &&& 0 <= low.given <= high.given
}

proof fn lemma_day_widens(day: DayView, low: Bounds, high: Bounds)
    requires
        day_bounded(day, low),
        bounds_within(low, high),
    ensures
        day_bounded(day, high),
{
    assert forall|other: u32| #[trigger] day.giveouts_to_user_id.contains_key(other) implies paid_for_bounded(
        day.giveouts_to_user_id[other],
        high,
    ) by {
        assert(paid_for_bounded(day.giveouts_to_user_id[other], low));
    }
}

pub proof fn lemma_data_widens(data: BillDataView, low: Bounds, high: Bounds)
    requires
        data_bounded(data, low),
        bounds_within(low, high),
    ensures
        data_bounded(data, high),
{
    assert forall|user: u32| #[trigger] data.user_consumption.contains_key(user) implies instance_bounded(
        data.user_consumption[user],
        high,
    ) by {
        let instance = data.user_consumption[user];
        assert(instance_bounded(instance, low));
        assert forall|day: usize| #[trigger] instance.per_day.contains_key(day) implies day_bounded(
            instance.per_day[day],
            high,
        ) by {
            lemma_day_widens(instance.per_day[day], low, high);
        }
    }
}

pub proof fn lemma_day_of_bounded(data: BillDataView, bounds: Bounds, user: u32, day: usize)
    requires
        data_bounded(data, bounds),
        bounds_within(bounds, bounds),
    ensures
        day_bounded(data.day(user, day), bounds),
{
    if data.user_consumption.contains_key(user) {
        assert(instance_bounded(data.user_consumption[user], bounds));
    }
}

pub proof fn lemma_with_day_bounded(data: BillDataView, bounds: Bounds, user: u32, day: usize, record: DayView)
    requires
        data_bounded(data, bounds),
        day_bounded(record, bounds),
    ensures
        data_bounded(data.with_day(user, day, record), bounds),
{
    let after = data.with_day(user, day, record);
    assert forall|u: u32| #[trigger] after.user_consumption.contains_key(u) implies instance_bounded(
        after.user_consumption[u],
        bounds,
    ) by {
        if u == user {
            let instance = after.user_consumption[u];
            assert forall|d: usize| #[trigger] instance.per_day.contains_key(d) implies day_bounded(
                instance.per_day[d],
                bounds,
            ) by {
                if d != day {
                    assert(data.consumption(user).per_day.contains_key(d));
                    assert(data.user_consumption.contains_key(user));
                    assert(instance_bounded(data.user_consumption[user], bounds));
                }
            }
        } else {
            assert(data.user_consumption.contains_key(u));
        }
    }
}

pub proof fn lemma_with_user_bounded(data: BillDataView, bounds: Bounds, user_id: u32, user: UserView)
    requires
        data_bounded(data, bounds),
    ensures
        data_bounded(data.with_user(user_id, user), bounds),
        data.with_user(user_id, user).day(user_id, 0) == data.day(user_id, 0),
        forall|u: u32, d: usize| #[trigger]
            data.with_user(user_id, user).day(u, d) == data.day(u, d),
{
    let after = data.with_user(user_id, user);
    assert forall|u: u32| #[trigger] after.user_consumption.contains_key(u) implies instance_bounded(
        after.user_consumption[u],
        bounds,
    ) by {
        if data.user_consumption.contains_key(u) {
            assert(after.user_consumption[u] == data.user_consumption[u]);
        }
    }
}

/// One more of a count, a budget raised by at most the largest price: the
/// record stays within bounds that are raised by one.
proof fn lemma_counted_up_bounded(counts: Map<u32, u32>, key: u32, bound: int)
    requires
        counts_bounded(counts, bound),
        0 <= bound < u32::MAX,
    ensures
        counts_bounded(counted_up(counts, key), bound + 1),
        count_at(counts, key) < u32::MAX,
{
    if counts.contains_key(key) {
        assert(counts[key] <= bound);
    }
    assert forall|k: u32| #[trigger] counted_up(counts, key).contains_key(k) implies counted_up(
        counts,
        key,
    )[k] <= bound + 1 by {
        if k != key {
            assert(counts.contains_key(k));
        }
    }
}

proof fn lemma_paid_for_of_bounded(day: DayView, bounds: Bounds, other: u32)
    requires
        day_bounded(day, bounds),
        bounds_within(bounds, bounds),
    ensures
        paid_for_bounded(day.paid_for(other), bounds),
{
    if day.giveouts_to_user_id.contains_key(other) {
    }
}

proof fn lemma_with_record_bounded(day: DayView, bounds: Bounds, other: u32, record: PaidForView)
    requires
        day_bounded(day, bounds),
        paid_for_bounded(record, bounds),
    ensures
        day_bounded(
            DayView { giveouts_to_user_id: day.giveouts_to_user_id.insert(other, record), ..day },
            bounds,
        ),
{
    let after = DayView { giveouts_to_user_id: day.giveouts_to_user_id.insert(other, record), ..day };
    assert forall|o: u32| #[trigger] after.giveouts_to_user_id.contains_key(o) implies paid_for_bounded(
        after.giveouts_to_user_id[o],
        bounds,
    ) by {
        if o != other {
            assert(day.giveouts_to_user_id.contains_key(o));
        }
    }
}

/// The views of the open freebies of every recipient.
pub open spec fn open_views(open: Map<u32, Vec<Freeby>>) -> Map<u32, Seq<FreebyView>> {
    open.map_values(|fs: Vec<Freeby>| freeby_views(fs@))
}

/// Personal freebies are no free-for-alls, have no more used than given, and
/// name a donor who exists.
pub open spec fn personal_freebies_sound(open: Map<u32, Seq<FreebyView>>, users: Map<u32, UserView>) -> bool {
    forall|recipient: u32, i: int|
        open.contains_key(recipient) && 0 <= i < open[recipient].len() ==> {
            let freeby = #[trigger] open[recipient][i];
            &&& !(freeby is FFA)
            &&& freeby.wf()
            &&& users.contains_key(freeby.donor())
        }
}

/// Used-up freebies have no more used than given and are ordered by id.
pub open spec fn used_up_sound(used_up: Seq<FreebyView>) -> bool {
    &&& forall|i: int| 0 <= i < used_up.len() ==> (#[trigger] used_up[i]).wf()
    &&& ordered_by_freeby_id(used_up)
}

/// The position of the first classic freeby that pays for `item` and has
/// something left, if there is one.
pub fn find_count_freeby(list: &Vec<Freeby>, item: &Item) -> (found: Option<usize>)
    requires
        forall|i: int| 0 <= i < list.len() ==> (#[trigger] list[i])@.wf(),
    ensures
        found matches Some(at) ==> at == count_freeby_for(freeby_views(list@), item@) && at
            < list.len() && list[at as int]@ is Classic && list[at as int]@.left() > 0,
        found.is_none() ==> count_freeby_for(freeby_views(list@), item@) == list.len(),
{
    let ghost views = freeby_views(list@);
    let ghost flags = Seq::new(
        views.len(),
        |i: int| views[i] is Classic && views[i].allows(item@) && views[i].left() > 0,
    );
    let mut i: usize = 0;
    while i < list.len()
        invariant
            i <= list.len(),
            views == freeby_views(list@),
            flags == Seq::new(
                views.len(),
                |i: int| views[i] is Classic && views[i].allows(item@) && views[i].left() > 0,
            ),
            forall|j: int| 0 <= j < list.len() ==> (#[trigger] list[j])@.wf(),
            forall|j: int| 0 <= j < i ==> !flags[j],
        decreases list.len() - i,
    {
        let is_classic = match &list[i] {
            Freeby::Classic { .. } => true,
            _ => false,
        };
        assert(views[i as int] == list[i as int]@);
        if is_classic && list[i].allows(item) && list[i].is_open() {
            proof {
                assert(flags[i as int]);
                lemma_first_true_at(flags, i as int);
            }
            return Some(i);
        }
        assert(!flags[i as int]);
        i += 1;
    }
    proof {
        lemma_first_true_none(flags);
    }
    None
}

/// The position of the first transfer, if there is one.
pub fn find_budget_freeby(list: &Vec<Freeby>) -> (found: Option<usize>)
    ensures
        found matches Some(at) ==> at == budget_freeby_for(freeby_views(list@)) && at < list.len()
            && list[at as int]@ is Transfer,
        found.is_none() ==> budget_freeby_for(freeby_views(list@)) == list.len(),
{
    let ghost views = freeby_views(list@);
    let ghost flags = Seq::new(views.len(), |i: int| views[i] is Transfer);
    let mut i: usize = 0;
    while i < list.len()
        invariant
            i <= list.len(),
            views == freeby_views(list@),
            flags == Seq::new(views.len(), |i: int| views[i] is Transfer),
            forall|j: int| 0 <= j < i ==> !flags[j],
        decreases list.len() - i,
    {
        let is_transfer = match &list[i] {
            Freeby::Transfer { .. } => true,
            _ => false,
        };
        assert(views[i as int] == list[i as int]@);
        if is_transfer {
            proof {
                assert(flags[i as int]);
                lemma_first_true_at(flags, i as int);
            }
            return Some(i);
        }
        assert(!flags[i as int]);
        i += 1;
    }
    proof {
        lemma_first_true_none(flags);
    }
    None
}


pub proof fn lemma_personal_bounded(data: BillDataView, bounds: Bounds, user: u32, day: usize, item: u32)
    requires
        data_bounded(data, bounds),
        bounds_within(bounds, bounds),
        bounds.counts < u32::MAX,
    ensures
        count_at(data.day(user, day).personally_consumed, item) < u32::MAX,
        data_bounded(data.with_personal(user, day, item), Bounds { counts: bounds.counts + 1, ..bounds }),
{
    let high = Bounds { counts: bounds.counts + 1, ..bounds };
    let record = data.day(user, day);
    lemma_day_of_bounded(data, bounds, user, day);
    lemma_counted_up_bounded(record.personally_consumed, item, bounds.counts);
    lemma_day_widens(record, bounds, high);
    lemma_data_widens(data, bounds, high);
    lemma_with_day_bounded(data, high, user, day, record.with_personal(item));
}

pub proof fn lemma_ffa_giveout_bounded(data: BillDataView, bounds: Bounds, user: u32, day: usize, item: u32)
    requires
        data_bounded(data, bounds),
        bounds_within(bounds, bounds),
        bounds.counts < u32::MAX,
    ensures
        count_at(data.day(user, day).ffa_giveouts, item) < u32::MAX,
        data_bounded(data.with_ffa_giveout(user, day, item), Bounds { counts: bounds.counts + 1, ..bounds }),
{
    let high = Bounds { counts: bounds.counts + 1, ..bounds };
    let record = data.day(user, day);
    lemma_day_of_bounded(data, bounds, user, day);
    lemma_counted_up_bounded(record.ffa_giveouts, item, bounds.counts);
    lemma_day_widens(record, bounds, high);
    lemma_data_widens(data, bounds, high);
    lemma_with_day_bounded(data, high, user, day, record.with_ffa_giveout(item));
}

pub proof fn lemma_count_giveout_bounded(
    data: BillDataView,
    bounds: Bounds,
    donor: u32,
    day: usize,
    consumer: u32,
    item: u32,
)
    requires
        data_bounded(data, bounds),
        bounds_within(bounds, bounds),
        bounds.counts < u32::MAX,
    ensures
        count_at(data.day(donor, day).paid_for(consumer).count_giveouts_used, item) < u32::MAX,
        data_bounded(
            data.with_count_giveout(donor, day, consumer, item),
            Bounds { counts: bounds.counts + 1, ..bounds },
        ),
{
    let high = Bounds { counts: bounds.counts + 1, ..bounds };
    let record = data.day(donor, day);
    lemma_day_of_bounded(data, bounds, donor, day);
    lemma_paid_for_of_bounded(record, bounds, consumer);
    let paid = record.paid_for(consumer);
    lemma_counted_up_bounded(paid.count_giveouts_used, item, bounds.counts);
    lemma_day_widens(record, bounds, high);
    lemma_data_widens(data, bounds, high);
    lemma_with_record_bounded(
        record,
        high,
        consumer,
        PaidForView { count_giveouts_used: counted_up(paid.count_giveouts_used, item), ..paid },
    );
    lemma_with_day_bounded(data, high, donor, day, record.with_count_giveout(consumer, item));
}

pub proof fn lemma_budget_gotten_bounded(
    data: BillDataView,
    bounds: Bounds,
    consumer: u32,
    day: usize,
    donor: u32,
    cents: u64,
)
    requires
        data_bounded(data, bounds),
        bounds_within(bounds, bounds),
        bounds.gotten < u32::MAX,
        cents <= 0xffff_ffff,
    ensures
        data.day(consumer, day).paid_for(donor).budget_gotten + cents <= u64::MAX,
        data_bounded(
            data.with_budget_gotten(consumer, day, donor, cents),
            Bounds { gotten: bounds.gotten + 1, ..bounds },
        ),
{
    let high = Bounds { gotten: bounds.gotten + 1, ..bounds };
    let record = data.day(consumer, day);
    lemma_day_of_bounded(data, bounds, consumer, day);
    lemma_paid_for_of_bounded(record, bounds, donor);
    let paid = record.paid_for(donor);
    assert(paid.budget_gotten + cents <= (bounds.gotten + 1) * 0xffff_ffff);
    lemma_day_widens(record, bounds, high);
    lemma_data_widens(data, bounds, high);
    lemma_with_record_bounded(
        record,
        high,
        donor,
        PaidForView { budget_gotten: (paid.budget_gotten + cents) as u64, ..paid },
    );
    lemma_with_day_bounded(data, high, consumer, day, record.with_budget_gotten(donor, cents));
}

pub proof fn lemma_budget_given_bounded(
    data: BillDataView,
    bounds: Bounds,
    donor: u32,
    day: usize,
    consumer: u32,
    cents: u64,
)
    requires
        data_bounded(data, bounds),
        bounds_within(bounds, bounds),
        bounds.given < u32::MAX,
        cents <= 0xffff_ffff,
    ensures
        data.day(donor, day).paid_for(consumer).budget_given + cents <= u64::MAX,
        data_bounded(
            data.with_budget_given(donor, day, consumer, cents),
            Bounds { given: bounds.given + 1, ..bounds },
        ),
{
    let high = Bounds { given: bounds.given + 1, ..bounds };
    let record = data.day(donor, day);
    lemma_day_of_bounded(data, bounds, donor, day);
    lemma_paid_for_of_bounded(record, bounds, consumer);
    let paid = record.paid_for(consumer);
    assert(paid.budget_given + cents <= (bounds.given + 1) * 0xffff_ffff);
    lemma_day_widens(record, bounds, high);
    lemma_data_widens(data, bounds, high);
    lemma_with_record_bounded(
        record,
        high,
        consumer,
        PaidForView { budget_given: (paid.budget_given + cents) as u64, ..paid },
    );
    lemma_with_day_bounded(data, high, donor, day, record.with_budget_given(consumer, cents));
}

pub proof fn lemma_with_item_bounded(data: BillDataView, bounds: Bounds, item_id: u32, item: ItemView)
    requires
        data_bounded(data, bounds),
    ensures
        data_bounded(data.with_item(item_id, item), bounds),
{
    assert(data.with_item(item_id, item).user_consumption == data.user_consumption);
}

/// All three bounds at `bound`.
pub open spec fn even_bounds(bound: int) -> Bounds {
    Bounds { counts: bound, gotten: bound, given: bound }
}

/// The freeby that was taken from position `at` of a list goes back to its
/// place, or to the used-up freebies if nothing is left of it.
fn put_back(list: &mut Vec<Freeby>, used_up: &mut Vec<Freeby>, at: usize, freeby: Freeby)
    requires
        at <= old(list).len(),
        freeby@.wf(),
        used_up_sound(freeby_views(old(used_up)@)),
    ensures
        freeby_views(final(list)@) == if freeby@.left() == 0 {
            freeby_views(old(list)@)
        } else {
            freeby_views(old(list)@).insert(at as int, freeby@)
        },
        freeby_views(final(used_up)@) == if freeby@.left() == 0 {
            filed(freeby_views(old(used_up)@), freeby@)
        } else {
            freeby_views(old(used_up)@)
        },
        used_up_sound(freeby_views(final(used_up)@)),
{
    let ghost view = freeby@;
    if freeby.left() == 0 {
        let slot = find_slot(used_up, freeby.get_id());
        used_up.insert(slot, freeby);
        proof {
            let before = freeby_views(old(used_up)@);
            let after = freeby_views(used_up@);
            lemma_filed_is_ordered(before, view);
            assert(after =~= filed(before, view));
            assert forall|i: int| 0 <= i < after.len() implies (#[trigger] after[i]).wf() by {
                if i < slot {
                    assert(after[i] == before[i]);
                } else if i > slot {
                    assert(after[i] == before[i - 1]);
                }
            }
        }
    } else {
        list.insert(at, freeby);
        assert(freeby_views(list@) =~= freeby_views(old(list)@).insert(at as int, view));
    }
}

/// The content of what settling changes.
pub open spec fn settlement(
    data: ExportableBillData,
    open: Map<u32, Vec<Freeby>>,
    used_up: Seq<Freeby>,
) -> Settlement {
    Settlement {
        data: data@,
        open_freebies: open_views(open),
        used_up_freebies: freeby_views(used_up),
    }
}

/// The open freebies stay sound when the list of one recipient is replaced
/// by a sound list.
proof fn lemma_open_replaced(
    open: Map<u32, Seq<FreebyView>>,
    users: Map<u32, UserView>,
    recipient: u32,
    list: Seq<FreebyView>,
)
    requires
        personal_freebies_sound(open, users),
        forall|i: int|
            0 <= i < list.len() ==> !((#[trigger] list[i]) is FFA) && list[i].wf() && users.contains_key(
                list[i].donor(),
            ),
    ensures
        personal_freebies_sound(open.insert(recipient, list), users),
{
    let after = open.insert(recipient, list);
    assert forall|r: u32, i: int| after.contains_key(r) && 0 <= i < after[r].len() implies {
        let freeby = #[trigger] after[r][i];
        &&& !(freeby is FFA)
        &&& freeby.wf()
        &&& users.contains_key(freeby.donor())
    } by {
        if r != recipient {
            assert(open.contains_key(r));
            assert(after[r][i] == open[r][i]);
        }
    }
}

/// Settles a purchase of a special.
fn settle_special_purchase(
    data: &mut ExportableBillData,
    users: &HashMap<u32, User>,
    unique_id: u64,
    special_name: &String,
    price: u32,
    consumer: u32,
    day: usize,
    Ghost(bounds): Ghost<Bounds>,
)
    requires
        users@.contains_key(consumer),
        data_bounded(old(data)@, bounds),
    ensures
        final(data)@ == old(data)@.with_user(consumer, user_views(users@)[consumer]).with_special(
            consumer,
            day,
            PricedSpecialView { purchase_id: unique_id, price, name: special_name@ },
        ),
        data_bounded(final(data)@, bounds),
{
    let user = match users.get(&consumer) {
        Some(user) => user,
        None => unreached(),
    };
    data.ensure_user(consumer, user);
    data.record_special(
        consumer,
        day,
        PricedSpecial { purchase_id: unique_id, price, name: special_name.clone() },
    );
    proof {
        let known = old(data)@.with_user(consumer, user@);
        lemma_with_user_bounded(old(data)@, bounds, consumer, user@);
        let record = known.day(consumer, day);
        if known.user_consumption.contains_key(consumer) && known.user_consumption[consumer].per_day.contains_key(
            day,
        ) {
            assert(instance_bounded(known.user_consumption[consumer], bounds));
        }
        let special = PricedSpecialView { purchase_id: unique_id, price, name: special_name@ };
        assert(day_bounded(record.with_special(special), bounds)) by {
            if known.user_consumption.contains_key(consumer) {
                assert(instance_bounded(known.user_consumption[consumer], bounds));
            }
        }
        lemma_with_day_bounded(known, bounds, consumer, day, record.with_special(special));
    }
}

/// Settles a purchase from a free-for-all.
fn settle_ffa_purchase(
    data: &mut ExportableBillData,
    users: &HashMap<u32, User>,
    items: &HashMap<u32, Item>,
    item_id: u32,
    donor: u32,
    day: usize,
    Ghost(bound): Ghost<int>,
)
    requires
        users@.contains_key(donor),
        items@.contains_key(item_id),
        data_bounded(old(data)@, even_bounds(bound)),
        0 <= bound < u32::MAX,
    ensures
        final(data)@ == old(data)@.with_user(donor, user_views(users@)[donor]).with_item(
            item_id,
            item_views(items@)[item_id],
        ).with_ffa_giveout(donor, day, item_id),
        data_bounded(final(data)@, even_bounds(bound + 1)),
{
    let user = match users.get(&donor) {
        Some(user) => user,
        None => unreached(),
    };
    let item = match items.get(&item_id) {
        Some(item) => item,
        None => unreached(),
    };
    data.ensure_user(donor, user);
    data.ensure_item(item_id, item);
    proof {
        let bounds = even_bounds(bound);
        lemma_with_user_bounded(old(data)@, bounds, donor, user@);
        lemma_with_item_bounded(old(data)@.with_user(donor, user@), bounds, item_id, item@);
        lemma_ffa_giveout_bounded(data@, bounds, donor, day, item_id);
        lemma_data_widens(
            data@.with_ffa_giveout(donor, day, item_id),
            Bounds { counts: bound + 1, ..bounds },
            even_bounds(bound + 1),
        );
    }
    data.record_ffa_giveout(donor, day, item_id);
}

/// Settles a purchase of one item.
fn settle_simple_purchase(
    data: &mut ExportableBillData,
    open: &mut HashMap<u32, Vec<Freeby>>,
    used_up: &mut Vec<Freeby>,
    users: &HashMap<u32, User>,
    items: &HashMap<u32, Item>,
    item_id: u32,
    consumer: u32,
    day: usize,
    Ghost(bound): Ghost<int>,
)
    requires
        users@.contains_key(consumer),
        items@.contains_key(item_id),
        personal_freebies_sound(open_views(old(open)@), user_views(users@)),
        used_up_sound(freeby_views(old(used_up)@)),
        data_bounded(old(data)@, even_bounds(bound)),
        0 <= bound < u32::MAX,
    ensures
        settlement(*final(data), final(open)@, final(used_up)@) == settlement(
            *old(data),
            old(open)@,
            old(used_up)@,
        ).settle_simple(item_id, consumer, day, user_views(users@), item_views(items@)),
        personal_freebies_sound(open_views(final(open)@), user_views(users@)),
        used_up_sound(freeby_views(final(used_up)@)),
        data_bounded(final(data)@, even_bounds(bound + 1)),
{
    let ghost start = settlement(*data, open@, used_up@);
    let ghost user_map = user_views(users@);
    let ghost expected = start.settle_simple(item_id, consumer, day, user_map, item_views(items@));
    let ghost bounds = even_bounds(bound);
    let ghost high = even_bounds(bound + 1);
    let user = match users.get(&consumer) {
        Some(user) => user,
        None => unreached(),
    };
    let item = match items.get(&item_id) {
        Some(item) => item,
        None => unreached(),
    };
    data.ensure_user(consumer, user);
    data.ensure_item(item_id, item);
    let ghost known = data@;
    proof {
        lemma_with_user_bounded(old(data)@, bounds, consumer, user@);
        lemma_with_item_bounded(old(data)@.with_user(consumer, user@), bounds, item_id, item@);
    }
    let ghost open_before = open_views(open@);
    match open.remove(&consumer) {
        None => {
            proof {
                assert(!open_before.contains_key(consumer));
                assert(open@ =~= old(open)@);
                let none = Seq::<bool>::empty();
                assert(Seq::new(
                    0,
                    |i: int|
                        start.open_of(consumer)[i] is Classic && start.open_of(consumer)[i].allows(item@)
                            && start.open_of(consumer)[i].left() > 0,
                ) =~= none);
                assert(Seq::new(0, |i: int| start.open_of(consumer)[i] is Transfer) =~= none);
                lemma_first_true_none(none);
                lemma_personal_bounded(known, bounds, consumer, day, item_id);
                lemma_data_widens(
                    known.with_personal(consumer, day, item_id),
                    Bounds { counts: bound + 1, ..bounds },
                    high,
                );
            }
            data.record_personal(consumer, day, item_id);
            proof {
                assert(settlement(*data, open@, used_up@) =~= expected);
            }
        },
        Some(list) => {
            let mut list = list;
            let ghost views = freeby_views(list@);
            proof {
                assert(open_before.contains_key(consumer));
                assert(views == open_before[consumer]);
                assert(views == start.open_of(consumer));
                assert forall|i: int| 0 <= i < list.len() implies (#[trigger] list[i])@.wf() by {
                    assert(open_before[consumer][i] == list[i]@);
                }
            }
            match find_count_freeby(&list, item) {
                Some(at) => {
                    let ghost taken_view = list[at as int]@;
                    let mut freeby = list.remove(at);
                    proof {
                        assert(views[at as int] == taken_view);
                        assert(open_before[consumer][at as int] == taken_view);
                        assert(freeby_views(list@) =~= views.remove(at as int));
                    }
                    let donor = freeby.get_donor();
                    assert(user_map.contains_key(donor));
                    assert(users@.contains_key(donor));
                    let donor_user = match users.get(&donor) {
                        Some(user) => user,
                        None => unreached(),
                    };
                    data.ensure_user(donor, donor_user);
                    proof {
                        lemma_with_user_bounded(known, bounds, donor, donor_user@);
                        lemma_count_giveout_bounded(data@, bounds, donor, day, consumer, item_id);
                        lemma_data_widens(
                            data@.with_count_giveout(donor, day, consumer, item_id),
                            Bounds { counts: bound + 1, ..bounds },
                            high,
                        );
                    }
                    data.record_count_giveout(donor, day, consumer, item_id);
                    freeby.decrement();
                    let ghost used = freeby@;
                    put_back(&mut list, used_up, at, freeby);
                    proof {
                        assert(freeby_views(list@) =~= after_use(views, at as int, used));
                        assert forall|i: int| 0 <= i < freeby_views(list@).len() implies !((
                        #[trigger] freeby_views(list@)[i]) is FFA) && freeby_views(list@)[i].wf()
                            && user_map.contains_key(freeby_views(list@)[i].donor()) by {
                            let after = freeby_views(list@);
                            if used.left() == 0 {
                                assert(after[i] == open_before[consumer][if i < at { i } else { i + 1 }]);
                            } else if i != at {
                                assert(after[i] == open_before[consumer][i]);
                            }
                        }
                        lemma_open_replaced(open_before, user_map, consumer, freeby_views(list@));
                    }
                },
                None => {
                    proof {
                        lemma_personal_bounded(known, bounds, consumer, day, item_id);
                    }
                    data.record_personal(consumer, day, item_id);
                    match find_budget_freeby(&list) {
                        Some(at) => {
                            let ghost taken_view = list[at as int]@;
                            let mut freeby = list.remove(at);
                            proof {
                                assert(views[at as int] == taken_view);
                                assert(open_before[consumer][at as int] == taken_view);
                                assert(freeby_views(list@) =~= views.remove(at as int));
                            }
                            let budget: u64 = freeby.get_budget_cents_left();
                            let donor = freeby.get_donor();
                            assert(user_map.contains_key(donor));
                            assert(users@.contains_key(donor));
                            let donor_user = match users.get(&donor) {
                                Some(user) => user,
                                None => unreached(),
                            };
                            let item_cost: u64 = item.cost_cents as u64;
                            let taken: u64 = if budget < item_cost {
                                budget
                            } else {
                                item_cost
                            };
                            freeby.remove_budget_by(taken);
                            let ghost used = freeby@;
                            let ghost first = Bounds { counts: bound + 1, ..bounds };
                            let ghost second = Bounds { gotten: bound + 1, ..first };
                            proof {
                                lemma_budget_gotten_bounded(data@, first, consumer, day, donor, taken);
                            }
                            data.record_budget_gotten(consumer, day, donor, taken);
                            data.ensure_user(donor, donor_user);
                            proof {
                                let gotten = known.with_personal(consumer, day, item_id).with_budget_gotten(
                                    consumer,
                                    day,
                                    donor,
                                    taken,
                                );
                                lemma_with_user_bounded(gotten, second, donor, donor_user@);
                                lemma_budget_given_bounded(data@, second, donor, day, consumer, taken);
                            }
                            data.record_budget_given(donor, day, consumer, taken);
                            put_back(&mut list, used_up, at, freeby);
                            proof {
                                assert(freeby_views(list@) =~= after_use(views, at as int, used));
                                assert forall|i: int| 0 <= i < freeby_views(list@).len() implies !((
                                #[trigger] freeby_views(list@)[i]) is FFA) && freeby_views(list@)[i].wf()
                                    && user_map.contains_key(freeby_views(list@)[i].donor()) by {
                                    let after = freeby_views(list@);
                                    if used.left() == 0 {
                                        assert(after[i] == open_before[consumer][if i < at {
                                            i
                                        } else {
                                            i + 1
                                        }]);
                                    } else if i != at {
                                        assert(after[i] == open_before[consumer][i]);
                                    }
                                }
                                lemma_open_replaced(open_before, user_map, consumer, freeby_views(list@));
                            }
                        },
                        None => {
                            proof {
                                lemma_data_widens(data@, Bounds { counts: bound + 1, ..bounds }, high);
                                lemma_open_replaced(open_before, user_map, consumer, views);
                            }
                        },
                    }
                },
            }
            let ghost list_view = freeby_views(list@);
            open.insert(consumer, list);
            proof {
                assert(open_views(open@) =~= open_before.insert(consumer, list_view));
                assert(settlement(*data, open@, used_up@) =~= expected);
            }
        },
    }
}


/// Every purchase that the bill covers can be settled: the user who is
/// charged and the item exist, a special has a price, and the day fits.
pub open spec fn billable(
    purchases: Seq<PurchaseView>,
    bill: BillView,
    users: Map<u32, UserView>,
    items: Map<u32, ItemView>,
) -> bool {
    forall|i: int|
        0 <= i < purchases.len() && is_billed(bill, #[trigger] purchases[i]) ==> {
            let purchase = purchases[i];
            &&& users.contains_key(purchase.user_id())
            &&& (purchase.item_id() matches Some(item) ==> items.contains_key(item))
            &&& (purchase is SpecialPurchase ==> purchase.special_price() is Some)
            &&& day_index(bill.timestamp_from, purchase.timestamp()) <= usize::MAX
        }
}

/// Whether the bill over `[from, to)` for `group` covers the purchase.
fn covers(from: i64, to: i64, group: &UserGroup, purchase: &Purchase, Ghost(bill): Ghost<BillView>) -> (billed: bool)
    requires
        bill.timestamp_from == from,
        bill.timestamp_to == to,
        bill.users == group@,
    ensures
        billed == is_billed(bill, purchase@),
{
    let millis = *purchase.get_timestamp();
    from <= millis && millis < to && matches_usergroup(&Some(*purchase.get_user_id()), group)
}

/// Settles, one after the other, every purchase that the bill covers.
fn settle_purchases(
    purchases: &Vec<Purchase>,
    users: &HashMap<u32, User>,
    items: &HashMap<u32, Item>,
    from: i64,
    to: i64,
    group: &UserGroup,
    Ghost(bill): Ghost<BillView>,
    data: &mut ExportableBillData,
    open: &mut HashMap<u32, Vec<Freeby>>,
    used_up: &mut Vec<Freeby>,
)
    requires
        bill.timestamp_from == from,
        bill.timestamp_to == to,
        bill.users == group@,
        billable(purchase_views(purchases@), bill, user_views(users@), item_views(items@)),
        purchases.len() <= u32::MAX,
        old(data)@ == BillDataView::empty(),
        personal_freebies_sound(open_views(old(open)@), user_views(users@)),
        used_up_sound(freeby_views(old(used_up)@)),
    ensures
        settlement(*final(data), final(open)@, final(used_up)@) == settlement(
            *old(data),
            old(open)@,
            old(used_up)@,
        ).settle_upto(
            purchase_views(purchases@),
            purchases.len() as int,
            bill,
            user_views(users@),
            item_views(items@),
        ),
        personal_freebies_sound(open_views(final(open)@), user_views(users@)),
        used_up_sound(freeby_views(final(used_up)@)),
{
    let ghost start = settlement(*data, open@, used_up@);
    let ghost views = purchase_views(purchases@);
    let ghost user_map = user_views(users@);
    let ghost item_map = item_views(items@);
    let mut i: usize = 0;
    while i < purchases.len()
        invariant
            i <= purchases.len(),
            purchases.len() <= u32::MAX,
            bill.timestamp_from == from,
            bill.timestamp_to == to,
            bill.users == group@,
            views == purchase_views(purchases@),
            user_map == user_views(users@),
            item_map == item_views(items@),
            billable(views, bill, user_map, item_map),
            settlement(*data, open@, used_up@) == start.settle_upto(views, i as int, bill, user_map, item_map),
            personal_freebies_sound(open_views(open@), user_map),
            used_up_sound(freeby_views(used_up@)),
            data_bounded(data@, even_bounds(i as int)),
        decreases purchases.len() - i,
    {
        let purchase = &purchases[i];
        assert(views[i as int] == purchase@);
        let ghost before = settlement(*data, open@, used_up@);
        if covers(from, to, group, purchase, Ghost(bill)) {
            assert(is_billed(bill, views[i as int]));
            assert(user_map.contains_key(purchase@.user_id()));
            assert(users@.contains_key(purchase@.user_id()));
            let day: usize = days_between(from, *purchase.get_timestamp()) as usize;
            match purchase {
                Purchase::SpecialPurchase { unique_id, special_name, specialcost, consumer_id, .. } => {
                    let price: u32 = match specialcost {
                        Some(price) => *price,
                        None => unreached(),
                    };
                    settle_special_purchase(
                        data,
                        users,
                        *unique_id,
                        special_name,
                        price,
                        *consumer_id,
                        day,
                        Ghost(even_bounds(i as int)),
                    );
                    proof {
                        lemma_data_widens(data@, even_bounds(i as int), even_bounds(i + 1));
                        assert(settlement(*data, open@, used_up@) =~= before.settle(
                            purchase@,
                            from,
                            user_map,
                            item_map,
                        ));
                    }
                },
                Purchase::SimplePurchase { item_id, consumer_id, .. } => {
                    assert(item_map.contains_key(*item_id));
                    assert(items@.contains_key(*item_id));
                    settle_simple_purchase(
                        data,
                        open,
                        used_up,
                        users,
                        items,
                        *item_id,
                        *consumer_id,
                        day,
                        Ghost(i as int),
                    );
                },
                Purchase::FFAPurchase { item_id, donor, .. } => {
                    assert(item_map.contains_key(*item_id));
                    assert(items@.contains_key(*item_id));
                    settle_ffa_purchase(data, users, items, *item_id, *donor, day, Ghost(i as int));
                    proof {
                        assert(settlement(*data, open@, used_up@) =~= before.settle(
                            purchase@,
                            from,
                            user_map,
                            item_map,
                        ));
                    }
                },
            }
        } else {
            proof {
                lemma_data_widens(data@, even_bounds(i as int), even_bounds(i + 1));
            }
        }
        i += 1;
    }
}

/// The purchases that the bill does not cover.
fn keep_unbilled(
    purchases: &Vec<Purchase>,
    from: i64,
    to: i64,
    group: &UserGroup,
    Ghost(bill): Ghost<BillView>,
) -> (kept: Vec<Purchase>)
    requires
        bill.timestamp_from == from,
        bill.timestamp_to == to,
        bill.users == group@,
    ensures
        purchase_views(kept@) == unbilled(purchase_views(purchases@), bill),
{
    let ghost views = purchase_views(purchases@);
    let mut kept: Vec<Purchase> = Vec::new();
    let mut i: usize = 0;
    assert(views.take(0) =~= Seq::empty());
    assert(purchase_views(kept@) =~= Seq::empty());
    while i < purchases.len()
        invariant
            i <= purchases.len(),
            bill.timestamp_from == from,
            bill.timestamp_to == to,
            bill.users == group@,
            views == purchase_views(purchases@),
            purchase_views(kept@) == unbilled(views.take(i as int), bill),
        decreases purchases.len() - i,
    {
        let purchase = &purchases[i];
        proof {
            let next = views.take(i + 1);
            assert(next.drop_last() =~= views.take(i as int));
            assert(next.last() == purchase@);
        }
        let ghost before = purchase_views(kept@);
        if !covers(from, to, group, purchase, Ghost(bill)) {
            kept.push(purchase.clone());
            assert(purchase_views(kept@) =~= before.push(purchase@));
        }
        i += 1;
    }
    assert(views.take(purchases.len() as int) =~= views);
    kept
}

impl DatastoreView {
    /// What settling starts from: the record of the bill, and the personal
    /// and the used-up freebies as they are.
    pub open spec fn settlement_start(self, bill: BillView) -> Settlement {
        Settlement {
            data: bill.finalized_data,
            open_freebies: self.open_freebies,
            used_up_freebies: self.used_up_freebies,
        }
    }

    /// A bill over the span exists and is not finalized; every user whom it
    /// charges is resolved, and every special that it covers has a price.
    pub open spec fn finalize_bill_valid(self, from: i64, to: i64) -> bool {
        &&& self.has_open_bill(from, to)
        &&& forall|i: int|
            0 <= i < self.purchases.len() && is_billed(self.bill(from, to), #[trigger] self.purchases[i])
                ==> {
                let purchase = self.purchases[i];
                &&& !is_unresolved(
                    self.bill(from, to),
                    purchase.user_id(),
                    self.users[purchase.user_id()],
                )
                &&& (purchase is SpecialPurchase ==> purchase.special_price() is Some)
            }
    }

    /// The counts of the record stay within `u32`, and the days within
    /// `usize`.
    pub open spec fn finalize_bill_fits(self, from: i64, to: i64) -> bool {
        &&& self.purchases.len() <= u32::MAX
        &&& forall|i: int|
            0 <= i < self.purchases.len() && is_billed(self.bill(from, to), #[trigger] self.purchases[i])
                ==> day_index(from, self.purchases[i].timestamp()) <= usize::MAX
    }

    /// The bill is finalized: every purchase that it covers is settled, in
    /// the order of the list, and leaves the list.
    pub open spec fn finalize_bill(self, from: i64, to: i64) -> DatastoreView {
        let at = bill_at(self.bills, from, to);
        let bill = self.bills[at];
        let done = self.settlement_start(bill).settle_upto(
            self.purchases,
            self.purchases.len() as int,
            bill,
            self.users,
            self.items,
        );
        DatastoreView {
            bills: self.bills.update(
                at,
                BillView { bill_state: BillState::Finalized, finalized_data: done.data, ..bill },
            ),
            purchases: unbilled(self.purchases, bill),
            open_freebies: done.open_freebies,
            used_up_freebies: done.used_up_freebies,
            ..self
        }
    }
}

impl Datastore {
    /// Whether the bill over the span can be finalized.
    pub fn can_finalize_bill(&self, from: i64, to: i64) -> (can: bool)
        requires
            self.wf(),
        ensures
            can == (self@.finalize_bill_valid(from, to) && self@.finalize_bill_fits(from, to)),
    {
        let at = match find_bill(&self.bills, from, to) {
            Some(at) => at,
            None => {
                return false;
            },
        };
        let bill = &self.bills[at];
        let ghost bill_view = self@.bill(from, to);
        assert(bill_view == bill@);
        if !bill.bill_state.is_created() {
            return false;
        }
        if self.purchases.len() > u32::MAX as usize {
            return false;
        }
        let ghost views = self@.purchases;
        let mut i: usize = 0;
        while i < self.purchases.len()
            invariant
                i <= self.purchases.len(),
                self.wf(),
                at < self.bills.len(),
                bill == &self.bills[at as int],
                bill_view == bill@,
                bill_view == self@.bill(from, to),
                bill_view.timestamp_from == from,
                bill_view.timestamp_to == to,
                views == self@.purchases,
                forall|j: int|
                    0 <= j < i && is_billed(bill_view, #[trigger] views[j]) ==> {
                        let purchase = views[j];
                        &&& !is_unresolved(bill_view, purchase.user_id(), self@.users[purchase.user_id()])
                        &&& (purchase is SpecialPurchase ==> purchase.special_price() is Some)
                        &&& day_index(from, purchase.timestamp()) <= usize::MAX
                    },
            decreases self.purchases.len() - i,
        {
            let purchase = &self.purchases[i];
            assert(views[i as int] == purchase@);
            if covers(from, to, &bill.users, purchase, Ghost(bill_view)) {
                let user_id: u32 = *purchase.get_user_id();
                assert(self@.users.contains_key(user_id));
                assert(self.users@.contains_key(user_id));
                let user = match self.users.get(&user_id) {
                    Some(user) => user,
                    None => unreached(),
                };
                assert(self@.users[user_id] == user@);
                assert(is_billed(self@.bill(from, to), self@.purchases[i as int]));
                if user.is_billed && !bill.users_that_will_not_be_billed.contains(&user_id)
                    && user.external_user_id.is_none() {
                    return false;
                }
                if purchase.is_special() && purchase.get_special_set_price().is_none() {
                    return false;
                }
                if days_between(from, *purchase.get_timestamp()) > usize::MAX as i128 {
                    return false;
                }
            }
            i += 1;
        }
        true
    }

    /// Finalizes the bill over the span. Afterwards the bill covers no live
    /// purchase.
    pub fn apply_finalize_bill(&mut self, from: i64, to: i64)
        requires
            old(self).wf(),
            old(self)@.finalize_bill_valid(from, to),
            old(self)@.finalize_bill_fits(from, to),
        ensures
            final(self).wf(),
            final(self)@ == old(self)@.finalize_bill(from, to),
            forall|i: int|
                0 <= i < final(self)@.purchases.len() ==> !is_billed(
                    old(self)@.bill(from, to),
                    #[trigger] final(self)@.purchases[i],
                ),
    {
        let at = match find_bill(&self.bills, from, to) {
            Some(at) => at,
            None => unreached(),
        };
        let ghost before = old(self)@;
        let ghost bill_view = before.bill(from, to);
        let mut bill = self.bills.remove(at);
        assert(bill_view == bill@);
        bill.bill_state = BillState::Finalized;
        let group = bill.users.clone();
        proof {
            assert forall|i: int|
                0 <= i < before.purchases.len() && is_billed(
                    bill_view,
                    #[trigger] before.purchases[i],
                ) implies {
                let purchase = before.purchases[i];
                &&& before.users.contains_key(purchase.user_id())
                &&& (purchase.item_id() matches Some(item) ==> before.items.contains_key(item))
                &&& (purchase is SpecialPurchase ==> purchase.special_price() is Some)
                &&& day_index(bill_view.timestamp_from, purchase.timestamp()) <= usize::MAX
            } by {}
        }
        settle_purchases(
            &self.purchases,
            &self.users,
            &self.items,
            from,
            to,
            &group,
            Ghost(bill_view),
            &mut bill.finalized_data,
            &mut self.open_freebies,
            &mut self.used_up_freebies,
        );
        self.purchases = keep_unbilled(&self.purchases, from, to, &group, Ghost(bill_view));
        let ghost changed = bill@;
        self.bills.insert(at, bill);
        proof {
            lemma_unbilled(before.purchases, bill_view);
            assert(bill_views(self.bills@) =~= before.bills.update(at as int, changed));
            assert(self@ =~= before.finalize_bill(from, to));
            let after = self@.bills;
            assert forall|i: int|
                0 <= i < after.len() && (#[trigger] after[i]).bill_state
                    == BillState::Created implies after[i].finalized_data == BillDataView::empty() by {
                if i != at {
                    assert(after[i] == before.bills[i]);
                }
            }
            let kept = self@.purchases;
            assert forall|i: int| 0 <= i < kept.len() implies self@.users.contains_key(
                (#[trigger] kept[i]).user_id(),
            ) && (kept[i].item_id() matches Some(item) ==> self@.items.contains_key(item)) by {
                assert(before.purchases.contains(kept[i]));
                let j = choose|j: int| 0 <= j < before.purchases.len() && before.purchases[j] == kept[i];
                assert(before.users.contains_key(before.purchases[j].user_id()));
            }
        }
    }
}

} // verus!
