//! How many purchases the record of a bill stands for.
//!
//! A special stands in the record as itself, every other purchase as one
//! more in a count. The tally of a record adds up all of these.

use vstd::prelude::*;
use crate::bill::{count_at, counted_up, BillDataView, BillView, DayView, PaidForView, UserInstanceView};
use crate::catalog::{ItemView, UserView};
use crate::datastore::DatastoreView;
use crate::finalize::{
    after_use,
    budget_freeby_for,
    count_freeby_for,
    data_bounded,
    even_bounds,
    is_billed,
    lemma_budget_given_bounded,
    lemma_budget_gotten_bounded,
    lemma_count_giveout_bounded,
    lemma_data_widens,
    lemma_day_of_bounded,
    lemma_ffa_giveout_bounded,
    lemma_personal_bounded,
    lemma_with_day_bounded,
    lemma_with_item_bounded,
    lemma_with_user_bounded,
    unbilled,
    Bounds,
    Settlement,
};
use crate::freeby::FreebyView;
use crate::purchase::PurchaseView;

verus! {

/// The sum of `weight` over the numbers below `upto`.
pub open spec fn sum_below(weight: spec_fn(int) -> nat, upto: nat) -> nat
    decreases upto,
{
    if upto == 0 {
        0
    } else {
        sum_below(weight, (upto - 1) as nat) + weight(upto - 1)
    }
}

/// Weights that agree below `upto` have the same sum.
pub proof fn lemma_sum_same(first: spec_fn(int) -> nat, second: spec_fn(int) -> nat, upto: nat)
    requires
        forall|j: int| 0 <= j < upto ==> #[trigger] first(j) == second(j),
    ensures
        sum_below(first, upto) == sum_below(second, upto),
    decreases upto,
{
    if upto > 0 {
        lemma_sum_same(first, second, (upto - 1) as nat);
    }
}

/// Weights that agree but at `at` have sums that differ as the weights at
/// `at` do.
pub proof fn lemma_sum_one_changed(
    first: spec_fn(int) -> nat,
    second: spec_fn(int) -> nat,
    upto: nat,
    at: int,
)
    requires
        0 <= at < upto,
        forall|j: int| 0 <= j < upto && j != at ==> #[trigger] first(j) == second(j),
    ensures
        sum_below(second, upto) + first(at) == sum_below(first, upto) + second(at),
    decreases upto,
{
    if upto - 1 == at {
        lemma_sum_same(first, second, (upto - 1) as nat);
    } else {
        lemma_sum_one_changed(first, second, (upto - 1) as nat, at);
    }
}

/// The number of ids: 2 to the power of 32.
pub open spec fn id_count() -> nat {
    0x1_0000_0000
}

/// The number of day indices.
pub open spec fn day_count() -> nat {
    (usize::MAX + 1) as nat
}

pub open spec fn counts_weight(counts: Map<u32, u32>) -> spec_fn(int) -> nat {
    |key: int| count_at(counts, key as u32) as nat
}

/// All that is booked in a map of counts.
pub open spec fn counts_tally(counts: Map<u32, u32>) -> nat {
    sum_below(counts_weight(counts), id_count())
}

pub open spec fn records_weight(day: DayView) -> spec_fn(int) -> nat {
    |other: int| counts_tally(day.paid_for(other as u32).count_giveouts_used)
}

/// The purchases that a day of a record stands for: what was consumed, the
/// specials, what was given out in free-for-alls, and what was paid for
/// others from classic freebies.
pub open spec fn day_tally(day: DayView) -> nat {
    counts_tally(day.personally_consumed) + counts_tally(day.ffa_giveouts) + day.specials_consumed.len()
        + sum_below(records_weight(day), id_count())
}

pub open spec fn days_weight(instance: UserInstanceView) -> spec_fn(int) -> nat {
    |day: int| day_tally(instance.day(day as usize))
}

pub open spec fn instance_tally(instance: UserInstanceView) -> nat {
    sum_below(days_weight(instance), day_count())
}

pub open spec fn users_weight(data: BillDataView) -> spec_fn(int) -> nat {
    |user: int| instance_tally(data.consumption(user as u32))
}

/// The purchases that a record stands for.
pub open spec fn data_tally(data: BillDataView) -> nat {
    sum_below(users_weight(data), id_count())
}

/// How many of the first `upto` purchases the bill covers.
pub open spec fn billed_count(purchases: Seq<PurchaseView>, upto: int, bill: BillView) -> nat
    decreases upto,
{
    if upto <= 0 {
        0
    } else if is_billed(bill, purchases[upto - 1]) {
        billed_count(purchases, upto - 1, bill) + 1
    } else {
        billed_count(purchases, upto - 1, bill)
    }
}

proof fn lemma_counted_up_tally(counts: Map<u32, u32>, key: u32)
    requires
        count_at(counts, key) < u32::MAX,
    ensures
        counts_tally(counted_up(counts, key)) == counts_tally(counts) + 1,
{
    let first = counts_weight(counts);
    let second = counts_weight(counted_up(counts, key));
    assert forall|j: int| 0 <= j < id_count() && j != key as int implies #[trigger] first(j) == second(j) by {
        assert(j as u32 != key);
    }
    lemma_sum_one_changed(first, second, id_count(), key as int);
}

proof fn lemma_empty_counts_tally()
    ensures
        counts_tally(Map::empty()) == 0,
{
    lemma_sum_zero(counts_weight(Map::empty()), id_count());
}

proof fn lemma_sum_zero(weight: spec_fn(int) -> nat, upto: nat)
    requires
        forall|j: int| 0 <= j < upto ==> #[trigger] weight(j) == 0,
    ensures
        sum_below(weight, upto) == 0,
    decreases upto,
{
    if upto > 0 {
        lemma_sum_zero(weight, (upto - 1) as nat);
    }
}

proof fn lemma_fresh_tallies()
    ensures
        day_tally(DayView::fresh()) == 0,
        forall|user: u32| instance_tally(#[trigger] UserInstanceView::fresh(user)) == 0,
        data_tally(BillDataView::empty()) == 0,
{
    lemma_empty_counts_tally();
    let day = DayView::fresh();
    assert forall|j: int| 0 <= j < id_count() implies #[trigger] records_weight(day)(j) == 0 by {
        assert(day.paid_for(j as u32) == PaidForView::fresh(j as u32));
    }
    lemma_sum_zero(records_weight(day), id_count());
    assert forall|user: u32| instance_tally(#[trigger] UserInstanceView::fresh(user)) == 0 by {
        let instance = UserInstanceView::fresh(user);
        assert forall|j: int| 0 <= j < day_count() implies #[trigger] days_weight(instance)(j) == 0 by {
            assert(instance.day(j as usize) == DayView::fresh());
        }
        lemma_sum_zero(days_weight(instance), day_count());
    }
    let data = BillDataView::empty();
    assert forall|j: int| 0 <= j < id_count() implies #[trigger] users_weight(data)(j) == 0 by {
        assert(data.consumption(j as u32) == UserInstanceView::fresh(j as u32));
    }
    lemma_sum_zero(users_weight(data), id_count());
}

/// Replacing the record towards one user changes the tally of a day as the
/// tally of that record changes.
proof fn lemma_record_replaced(day: DayView, other: u32, record: PaidForView)
    ensures
        day_tally(
            DayView { giveouts_to_user_id: day.giveouts_to_user_id.insert(other, record), ..day },
        ) + counts_tally(day.paid_for(other).count_giveouts_used) == day_tally(day) + counts_tally(
            record.count_giveouts_used,
        ),
{
    let after = DayView { giveouts_to_user_id: day.giveouts_to_user_id.insert(other, record), ..day };
    let first = records_weight(day);
    let second = records_weight(after);
    assert forall|j: int| 0 <= j < id_count() && j != other as int implies #[trigger] first(j) == second(j) by {
        assert(j as u32 != other);
        assert(after.paid_for(j as u32) == day.paid_for(j as u32));
    }
    assert(after.paid_for(other) == record);
    lemma_sum_one_changed(first, second, id_count(), other as int);
}

/// Replacing the record of one day changes the tally of the data as the
/// tally of that day changes.
proof fn lemma_day_replaced(data: BillDataView, user: u32, day: usize, record: DayView)
    ensures
        data_tally(data.with_day(user, day, record)) + day_tally(data.day(user, day)) == data_tally(data)
            + day_tally(record),
{
    let after = data.with_day(user, day, record);
    let before_instance = data.consumption(user);
    let after_instance = after.consumption(user);
    let first_days = days_weight(before_instance);
    let second_days = days_weight(after_instance);
    assert forall|j: int| 0 <= j < day_count() && j != day as int implies #[trigger] first_days(j) == second_days(j) by {
        assert(j as usize != day);
        assert(after_instance.day(j as usize) == before_instance.day(j as usize));
    }
    assert(after_instance.day(day) == record);
    lemma_sum_one_changed(first_days, second_days, day_count(), day as int);
    let first = users_weight(data);
    let second = users_weight(after);
    assert forall|j: int| 0 <= j < id_count() && j != user as int implies #[trigger] first(j) == second(j) by {
        assert(j as u32 != user);
        assert(after.consumption(j as u32) == data.consumption(j as u32));
    }
    lemma_sum_one_changed(first, second, id_count(), user as int);
}

/// Copies of users and items, and empty records, change no tally.
proof fn lemma_known_tally(data: BillDataView, user_id: u32, user: UserView, item_id: u32, item: ItemView)
    ensures
        data_tally(data.with_user(user_id, user)) == data_tally(data),
        data_tally(data.with_item(item_id, item)) == data_tally(data),
{
    let with_user = data.with_user(user_id, user);
    assert forall|j: int| 0 <= j < id_count() implies #[trigger] users_weight(data)(j) == users_weight(with_user)(j) by {
        assert(with_user.consumption(j as u32) == data.consumption(j as u32));
    }
    lemma_sum_same(users_weight(data), users_weight(with_user), id_count());
    let with_item = data.with_item(item_id, item);
    assert forall|j: int| 0 <= j < id_count() implies #[trigger] users_weight(data)(j) == users_weight(with_item)(j) by {
        assert(with_item.consumption(j as u32) == data.consumption(j as u32));
    }
    lemma_sum_same(users_weight(data), users_weight(with_item), id_count());
}

proof fn lemma_personal_tally(data: BillDataView, user: u32, day: usize, item: u32)
    requires
        count_at(data.day(user, day).personally_consumed, item) < u32::MAX,
    ensures
        data_tally(data.with_personal(user, day, item)) == data_tally(data) + 1,
{
    let record = data.day(user, day);
    lemma_counted_up_tally(record.personally_consumed, item);
    assert(record.with_personal(item).giveouts_to_user_id == record.giveouts_to_user_id);
    lemma_sum_same(records_weight(record), records_weight(record.with_personal(item)), id_count());
    lemma_day_replaced(data, user, day, record.with_personal(item));
}

proof fn lemma_ffa_giveout_tally(data: BillDataView, user: u32, day: usize, item: u32)
    requires
        count_at(data.day(user, day).ffa_giveouts, item) < u32::MAX,
    ensures
        data_tally(data.with_ffa_giveout(user, day, item)) == data_tally(data) + 1,
{
    let record = data.day(user, day);
    lemma_counted_up_tally(record.ffa_giveouts, item);
    lemma_sum_same(records_weight(record), records_weight(record.with_ffa_giveout(item)), id_count());
    lemma_day_replaced(data, user, day, record.with_ffa_giveout(item));
}

proof fn lemma_special_tally(data: BillDataView, user: u32, day: usize, special: crate::bill::PricedSpecialView)
    ensures
        data_tally(data.with_special(user, day, special)) == data_tally(data) + 1,
{
    let record = data.day(user, day);
    lemma_sum_same(records_weight(record), records_weight(record.with_special(special)), id_count());
    lemma_day_replaced(data, user, day, record.with_special(special));
}

proof fn lemma_count_giveout_tally(data: BillDataView, donor: u32, day: usize, consumer: u32, item: u32)
    requires
        count_at(data.day(donor, day).paid_for(consumer).count_giveouts_used, item) < u32::MAX,
    ensures
        data_tally(data.with_count_giveout(donor, day, consumer, item)) == data_tally(data) + 1,
{
    let record = data.day(donor, day);
    let paid = record.paid_for(consumer);
    lemma_counted_up_tally(paid.count_giveouts_used, item);
    lemma_record_replaced(
        record,
        consumer,
        PaidForView { count_giveouts_used: counted_up(paid.count_giveouts_used, item), ..paid },
    );
    lemma_day_replaced(data, donor, day, record.with_count_giveout(consumer, item));
}

proof fn lemma_budget_tally(data: BillDataView, user: u32, day: usize, other: u32, cents: u64)
    ensures
        data_tally(data.with_budget_gotten(user, day, other, cents)) == data_tally(data),
        data_tally(data.with_budget_given(user, day, other, cents)) == data_tally(data),
{
    let record = data.day(user, day);
    let paid = record.paid_for(other);
    lemma_record_replaced(
        record,
        other,
        PaidForView { budget_gotten: (paid.budget_gotten + cents) as u64, ..paid },
    );
    lemma_day_replaced(data, user, day, record.with_budget_gotten(other, cents));
    lemma_record_replaced(
        record,
        other,
        PaidForView { budget_given: (paid.budget_given + cents) as u64, ..paid },
    );
    lemma_day_replaced(data, user, day, record.with_budget_given(other, cents));
}

/// No freeby of the list has more used than given.
pub open spec fn all_within(list: Seq<FreebyView>) -> bool {
    forall|i: int| 0 <= i < list.len() ==> (#[trigger] list[i]).wf()
}

/// No open personal freeby has more used than given.
pub open spec fn personal_within(open: Map<u32, Seq<FreebyView>>) -> bool {
    forall|recipient: u32| #[trigger] open.contains_key(recipient) ==> all_within(open[recipient])
}

proof fn lemma_with_used_within(state: Settlement, recipient: u32, at: int, used: FreebyView)
    requires
        personal_within(state.open_freebies),
        state.open_freebies.contains_key(recipient),
        0 <= at < state.open_freebies[recipient].len(),
        used.wf(),
    ensures
        personal_within(state.with_used(recipient, at, used).open_freebies),
{
    let after = state.with_used(recipient, at, used);
    let list = state.open_freebies[recipient];
    assert(all_within(list));
    let changed = after_use(list, at, used);
    assert forall|i: int| 0 <= i < changed.len() implies (#[trigger] changed[i]).wf() by {
        if used.left() == 0 {
            assert(changed[i] == list[if i < at { i } else { i + 1 }]);
        } else if i != at {
            assert(changed[i] == list[i]);
        }
    }
    assert forall|r: u32| #[trigger] after.open_freebies.contains_key(r) implies all_within(
        after.open_freebies[r],
    ) by {
        if r != recipient {
            assert(state.open_freebies.contains_key(r));
        }
    }
}

/// Settling one purchase raises the tally of the record by one.
proof fn lemma_settle_tally(
    state: Settlement,
    purchase: PurchaseView,
    from: i64,
    users: Map<u32, UserView>,
    items: Map<u32, ItemView>,
    bound: int,
)
    requires
        data_bounded(state.data, even_bounds(bound)),
        personal_within(state.open_freebies),
        0 <= bound < u32::MAX,
    ensures
        data_tally(state.settle(purchase, from, users, items).data) == data_tally(state.data) + 1,
        data_bounded(state.settle(purchase, from, users, items).data, even_bounds(bound + 1)),
        personal_within(state.settle(purchase, from, users, items).open_freebies),
{
    let day = crate::bill::day_index(from, purchase.timestamp()) as usize;
    let bounds = even_bounds(bound);
    let high = even_bounds(bound + 1);
    let counted = Bounds { counts: bound + 1, ..bounds };
    match purchase {
        PurchaseView::SpecialPurchase { unique_id, special_name, specialcost, consumer_id, .. } => {
            let known = state.data.with_user(consumer_id, users[consumer_id]);
            lemma_known_tally(state.data, consumer_id, users[consumer_id], 0, items[0]);
            lemma_with_user_bounded(state.data, bounds, consumer_id, users[consumer_id]);
            let special = crate::bill::PricedSpecialView {
                purchase_id: unique_id,
                price: specialcost->0,
                name: special_name,
            };
            lemma_special_tally(known, consumer_id, day, special);
            lemma_day_of_bounded(known, bounds, consumer_id, day);
            lemma_with_day_bounded(known, bounds, consumer_id, day, known.day(consumer_id, day).with_special(special));
            lemma_data_widens(known.with_special(consumer_id, day, special), bounds, high);
        },
        PurchaseView::FFAPurchase { item_id, donor, .. } => {
            let with_user = state.data.with_user(donor, users[donor]);
            let known = with_user.with_item(item_id, items[item_id]);
            lemma_known_tally(state.data, donor, users[donor], item_id, items[item_id]);
            lemma_known_tally(with_user, donor, users[donor], item_id, items[item_id]);
            lemma_with_user_bounded(state.data, bounds, donor, users[donor]);
            lemma_with_item_bounded(with_user, bounds, item_id, items[item_id]);
            lemma_ffa_giveout_bounded(known, bounds, donor, day, item_id);
            lemma_ffa_giveout_tally(known, donor, day, item_id);
            lemma_data_widens(known.with_ffa_giveout(donor, day, item_id), counted, high);
        },
        PurchaseView::SimplePurchase { item_id, consumer_id, .. } => {
            let list = state.open_of(consumer_id);
            let item = items[item_id];
            let with_user = state.data.with_user(consumer_id, users[consumer_id]);
            let known = with_user.with_item(item_id, item);
            lemma_known_tally(state.data, consumer_id, users[consumer_id], item_id, item);
            lemma_known_tally(with_user, consumer_id, users[consumer_id], item_id, item);
            lemma_with_user_bounded(state.data, bounds, consumer_id, users[consumer_id]);
            lemma_with_item_bounded(with_user, bounds, item_id, item);
            let by_count = count_freeby_for(list, item);
            let by_budget = budget_freeby_for(list);
            crate::search::lemma_first_true(
                Seq::new(
                    list.len(),
                    |i: int| list[i] is Classic && list[i].allows(item) && list[i].left() > 0,
                ),
            );
            crate::search::lemma_first_true(Seq::new(list.len(), |i: int| list[i] is Transfer));
            if by_count < list.len() {
                assert(state.open_freebies.contains_key(consumer_id));
                assert(all_within(list));
                assert(list[by_count].wf() && list[by_count].left() > 0);
                let donor = list[by_count].donor();
                let with_donor = known.with_user(donor, users[donor]);
                lemma_with_used_within(
                    Settlement {
                        data: with_donor.with_count_giveout(donor, day, consumer_id, item_id),
                        ..state
                    },
                    consumer_id,
                    by_count,
                    list[by_count].decremented(),
                );
                lemma_known_tally(known, donor, users[donor], item_id, item);
                lemma_with_user_bounded(known, bounds, donor, users[donor]);
                lemma_count_giveout_bounded(with_donor, bounds, donor, day, consumer_id, item_id);
                lemma_count_giveout_tally(with_donor, donor, day, consumer_id, item_id);
                lemma_data_widens(with_donor.with_count_giveout(donor, day, consumer_id, item_id), counted, high);
            } else {
                lemma_personal_bounded(known, bounds, consumer_id, day, item_id);
                lemma_personal_tally(known, consumer_id, day, item_id);
                let charged = known.with_personal(consumer_id, day, item_id);
                if by_budget < list.len() {
                    assert(state.open_freebies.contains_key(consumer_id));
                    assert(all_within(list));
                    assert(list[by_budget].wf());
                    let donor = list[by_budget].donor();
                    let budget = list[by_budget].left();
                    let taken = if budget < item.cost_cents {
                        budget as u64
                    } else {
                        item.cost_cents as u64
                    };
                    lemma_with_used_within(
                        Settlement {
                            data: charged.with_budget_gotten(consumer_id, day, donor, taken).with_user(
                                donor,
                                users[donor],
                            ).with_budget_given(donor, day, consumer_id, taken),
                            ..state
                        },
                        consumer_id,
                        by_budget,
                        list[by_budget].spent(taken),
                    );
                    let second = Bounds { gotten: bound + 1, ..counted };
                    lemma_budget_gotten_bounded(charged, counted, consumer_id, day, donor, taken);
                    lemma_budget_tally(charged, consumer_id, day, donor, taken);
                    let gotten = charged.with_budget_gotten(consumer_id, day, donor, taken);
                    lemma_with_user_bounded(gotten, second, donor, users[donor]);
                    lemma_known_tally(gotten, donor, users[donor], item_id, item);
                    let with_donor = gotten.with_user(donor, users[donor]);
                    lemma_budget_given_bounded(with_donor, second, donor, day, consumer_id, taken);
                    lemma_budget_tally(with_donor, donor, day, consumer_id, taken);
                } else {
                    lemma_data_widens(charged, counted, high);
                }
            }
        },
    }
}

/// Settling the first `upto` purchases raises the tally of the record by the
/// number of those that the bill covers.
proof fn lemma_settle_upto_tally(
    state: Settlement,
    purchases: Seq<PurchaseView>,
    upto: int,
    bill: BillView,
    users: Map<u32, UserView>,
    items: Map<u32, ItemView>,
)
    requires
        data_bounded(state.data, even_bounds(0)),
        personal_within(state.open_freebies),
        0 <= upto <= u32::MAX,
    ensures
        data_tally(state.settle_upto(purchases, upto, bill, users, items).data) == data_tally(state.data)
            + billed_count(purchases, upto, bill),
        data_bounded(state.settle_upto(purchases, upto, bill, users, items).data, even_bounds(upto)),
        personal_within(state.settle_upto(purchases, upto, bill, users, items).open_freebies),
    decreases upto,
{
    if upto > 0 {
        lemma_settle_upto_tally(state, purchases, upto - 1, bill, users, items);
        let before = state.settle_upto(purchases, upto - 1, bill, users, items);
        if is_billed(bill, purchases[upto - 1]) {
            lemma_settle_tally(before, purchases[upto - 1], bill.timestamp_from, users, items, upto - 1);
        } else {
            lemma_data_widens(before.data, even_bounds(upto - 1), even_bounds(upto));
        }
    }
}

/// The purchases that a bill covers and those that it leaves make up the
/// list.
pub proof fn lemma_billed_and_unbilled(purchases: Seq<PurchaseView>, bill: BillView)
    ensures
        billed_count(purchases, purchases.len() as int, bill) + unbilled(purchases, bill).len()
            == purchases.len(),
    decreases purchases.len(),
{
    if purchases.len() > 0 {
        let rest = purchases.drop_last();
        lemma_billed_and_unbilled(rest, bill);
        lemma_billed_count_of_prefix(purchases, rest, rest.len() as int, bill);
    }
}

proof fn lemma_billed_count_of_prefix(whole: Seq<PurchaseView>, part: Seq<PurchaseView>, upto: int, bill: BillView)
    requires
        0 <= upto <= part.len() <= whole.len(),
        forall|i: int| 0 <= i < part.len() ==> part[i] == whole[i],
    ensures
        billed_count(whole, upto, bill) == billed_count(part, upto, bill),
    decreases upto,
{
    if upto > 0 {
        lemma_billed_count_of_prefix(whole, part, upto - 1, bill);
    }
}

/// Every purchase that a bill covers stands in its record exactly once: the
/// tally of the record of a finalized bill is the number of purchases that
/// finalizing took from the list.
pub proof fn lemma_finalized_bill_holds_each_once(store: DatastoreView, from: i64, to: i64)
    requires
        store.wf(),
        store.finalize_bill_valid(from, to),
        store.finalize_bill_fits(from, to),
    ensures
        data_tally(store.finalize_bill(from, to).bill(from, to).finalized_data) + store.finalize_bill(
            from,
            to,
        ).purchases.len() == store.purchases.len(),
        data_tally(store.finalize_bill(from, to).bill(from, to).finalized_data) == billed_count(
            store.purchases,
            store.purchases.len() as int,
            store.bill(from, to),
        ),
{
    let bill = store.bill(from, to);
    let at = crate::bill::bill_at(store.bills, from, to);
    assert(bill.finalized_data == BillDataView::empty());
    lemma_fresh_tallies();
    assert forall|r: u32| #[trigger] store.open_freebies.contains_key(r) implies all_within(
        store.open_freebies[r],
    ) by {
        assert forall|i: int| 0 <= i < store.open_freebies[r].len() implies (
        #[trigger] store.open_freebies[r][i]).wf() by {}
    }
    lemma_settle_upto_tally(
        store.settlement_start(bill),
        store.purchases,
        store.purchases.len() as int,
        bill,
        store.users,
        store.items,
    );
    lemma_billed_and_unbilled(store.purchases, bill);
    let after = store.finalize_bill(from, to);
    crate::search::lemma_first_true(
        Seq::new(
            store.bills.len(),
            |i: int| store.bills[i].timestamp_from == from && store.bills[i].timestamp_to == to,
        ),
    );
    let before_flags = Seq::new(
        store.bills.len(),
        |i: int| store.bills[i].timestamp_from == from && store.bills[i].timestamp_to == to,
    );
    let after_flags = Seq::new(
        after.bills.len(),
        |i: int| after.bills[i].timestamp_from == from && after.bills[i].timestamp_to == to,
    );
    assert(after_flags =~= before_flags);
    assert(after.bill(from, to) == after.bills[at]);
}

} // verus!
