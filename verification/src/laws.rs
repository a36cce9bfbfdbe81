//! What holds of the aggregate under every event.

use vstd::prelude::*;
use crate::bill::BillView;
use crate::catalog::{ItemView, UserView};
use crate::datastore::DatastoreView;
use crate::finalize::{after_use, budget_freeby_for, count_freeby_for, is_billed, Settlement};
use crate::freeby::{filed, freeby_at, lemma_filed_is_ordered, ordered_by_freeby_id, FreebyView};
use crate::indices::{top_set, top_sets};
use crate::persistencer::replayed;
use crate::purchase::PurchaseView;
use crate::rustix_event_shop::BLEvents;
use crate::search::lemma_first_true;
use crate::views::{opt_text_view, texts_view};

verus! {

/// Every freeby of the list has something left and no more used than given.
pub open spec fn all_open(list: Seq<FreebyView>) -> bool {
    forall|i: int| 0 <= i < list.len() ==> (#[trigger] list[i]).wf() && list[i].left() > 0
}

/// Every freeby of the list has nothing left, and the list is ordered by id.
pub open spec fn all_used_up(list: Seq<FreebyView>) -> bool {
    &&& forall|i: int| 0 <= i < list.len() ==> (#[trigger] list[i]).left() == 0
    &&& ordered_by_freeby_id(list)
}

/// The open freebies of every recipient have something left.
pub open spec fn personal_open(open: Map<u32, Seq<FreebyView>>) -> bool {
    forall|recipient: u32| #[trigger] open.contains_key(recipient) ==> all_open(open[recipient])
}

impl DatastoreView {
    /// Every open freeby has something left; every used-up freeby has
    /// nothing left, and they are ordered by id.
    pub open spec fn freebies_settled(self) -> bool {
        &&& all_open(self.open_ffa)
        &&& personal_open(self.open_freebies)
        &&& all_used_up(self.used_up_freebies)
    }

    /// The top sets are what the rankings give: the best users, and for
    /// each user the best items.
    pub open spec fn tops_current(self, top_users: nat, top_items: nat) -> bool {
        &&& self.top_users == top_set(self.top_user_scores, top_users)
        &&& self.top_drinks_per_user == top_sets(self.drink_scores_per_user, top_items)
    }
}

impl BLEvents {
    /// The event opens a freeby with nothing in it.
    pub open spec fn opens_empty_freeby(&self) -> bool {
        match self {
            BLEvents::CreateFreeForAll { allowed_number_total, .. } => *allowed_number_total == 0,
            BLEvents::CreateFreeCount { allowed_number_total, .. } => *allowed_number_total == 0,
            BLEvents::CreateFreeBudget { cents_worth_total, .. } => *cents_worth_total == 0,
            _ => false,
        }
    }

    /// The two events say the same: they are of one kind, and their fields
    /// hold the same numbers, texts and sets.
    pub open spec fn says_the_same_as(&self, other: &BLEvents) -> bool {
        match (self, other) {
            (
                BLEvents::CreateItem { itemname, price_cents, category },
                BLEvents::CreateItem { itemname: name2, price_cents: price2, category: text2 },
            ) => itemname@ == name2@ && price_cents == price2 && opt_text_view(*category) == opt_text_view(*text2),
            (BLEvents::CreateUser { username }, BLEvents::CreateUser { username: name2 }) => username@
                == name2@,
            (
                BLEvents::UpdateUser { user_id, username, is_billed, is_highlighted, external_user_id },
                BLEvents::UpdateUser {
                    user_id: user2,
                    username: name2,
                    is_billed: billed2,
                    is_highlighted: marked2,
                    external_user_id: extra2,
                },
            ) => user_id == user2 && username@ == name2@ && is_billed == billed2 && is_highlighted == marked2
                && opt_text_view(*external_user_id) == opt_text_view(*extra2),
            (
                BLEvents::UpdateItem { item_id, itemname, price_cents, category },
                BLEvents::UpdateItem { item_id: item2, itemname: name2, price_cents: price2, category: text2 },
            ) => item_id == item2 && itemname@ == name2@ && price_cents == price2 && opt_text_view(*category)
                == opt_text_view(*text2),
            (BLEvents::DeleteItem { item_id }, BLEvents::DeleteItem { item_id: item2 }) => item_id == item2,
            (BLEvents::DeleteUser { user_id }, BLEvents::DeleteUser { user_id: user2 }) => user_id == user2,
            (
                BLEvents::MakeSimplePurchase { user_id, item_id, timestamp },
                BLEvents::MakeSimplePurchase { user_id: user2, item_id: item2, timestamp: time2 },
            ) => user_id == user2 && item_id == item2 && timestamp == time2,
            (
                BLEvents::MakeShoppingCartPurchase { user_id, specials, item_ids, timestamp },
                BLEvents::MakeShoppingCartPurchase { user_id: user2, specials: specials2, item_ids: item2, timestamp: time2 },
            ) => user_id == user2 && texts_view(specials@) == texts_view(specials2@) && item_ids@ == item2@
                && timestamp == time2,
            (
                BLEvents::MakeSpecialPurchase { user_id, special_name, timestamp },
                BLEvents::MakeSpecialPurchase { user_id: user2, special_name: name2, timestamp: time2 },
            ) => user_id == user2 && special_name@ == name2@ && timestamp == time2,
            (
                BLEvents::MakeFreeForAllPurchase { ffa_id, item_id, timestamp },
                BLEvents::MakeFreeForAllPurchase { ffa_id: from2, item_id: item2, timestamp: time2 },
            ) => ffa_id == from2 && item_id == item2 && timestamp == time2,
            (
                BLEvents::CreateFreeForAll {
                    allowed_categories,
                    allowed_drinks,
                    allowed_number_total,
                    text_message,
                    created_timestamp,
                    donor,
                },
                BLEvents::CreateFreeForAll {
                    allowed_categories: text2,
                    allowed_drinks: drinks2,
                    allowed_number_total: name2,
                    text_message: message2,
                    created_timestamp: time2,
                    donor: donor2,
                },
            ) => texts_view(allowed_categories@) == texts_view(text2@) && allowed_drinks@ == drinks2@
                && allowed_number_total == name2 && text_message@ == message2@ && created_timestamp == time2 && donor
                == donor2,
            (
                BLEvents::CreateFreeCount {
                    allowed_categories,
                    allowed_drinks,
                    allowed_number_total,
                    text_message,
                    created_timestamp,
                    donor,
                    recipient,
                },
                BLEvents::CreateFreeCount {
                    allowed_categories: text2,
                    allowed_drinks: drinks2,
                    allowed_number_total: name2,
                    text_message: message2,
                    created_timestamp: time2,
                    donor: donor2,
                    recipient: recipient2,
                },
            ) => texts_view(allowed_categories@) == texts_view(text2@) && allowed_drinks@ == drinks2@
                && allowed_number_total == name2 && text_message@ == message2@ && created_timestamp == time2 && donor
                == donor2 && recipient == recipient2,
            (
                BLEvents::CreateFreeBudget { cents_worth_total, text_message, created_timestamp, donor, recipient },
                BLEvents::CreateFreeBudget {
                    cents_worth_total: text2,
                    text_message: message2,
                    created_timestamp: time2,
                    donor: donor2,
                    recipient: recipient2,
                },
            ) => cents_worth_total == text2 && text_message@ == message2@ && created_timestamp == time2 && donor == donor2
                && recipient == recipient2,
            (BLEvents::UndoPurchase { unique_id }, BLEvents::UndoPurchase { unique_id: user2 }) => unique_id
                == user2,
            (
                BLEvents::CreateBill { timestamp_from, timestamp_to, user_ids, comment },
                BLEvents::CreateBill { timestamp_from: from2, timestamp_to: time2, user_ids: user2, comment: text2 },
            ) => timestamp_from == from2 && timestamp_to == time2 && user_ids@ == user2@ && comment@ == text2@,
            (
                BLEvents::FinalizeBill { timestamp_from, timestamp_to },
                BLEvents::FinalizeBill { timestamp_from: from2, timestamp_to: time2 },
            ) => timestamp_from == from2 && timestamp_to == time2,
            (
                BLEvents::ExportBill { timestamp_from, timestamp_to },
                BLEvents::ExportBill { timestamp_from: from2, timestamp_to: time2 },
            ) => timestamp_from == from2 && timestamp_to == time2,
            (
                BLEvents::DeleteUnfinishedBill { timestamp_from, timestamp_to },
                BLEvents::DeleteUnfinishedBill { timestamp_from: from2, timestamp_to: time2 },
            ) => timestamp_from == from2 && timestamp_to == time2,
            (
                BLEvents::SetPriceForSpecial { unique_id, price },
                BLEvents::SetPriceForSpecial { unique_id: user2, price: price2 },
            ) => unique_id == user2 && price == price2,
            (
                BLEvents::UpdateBill { timestamp_from, timestamp_to, comment, users, users_that_will_not_be_billed },
                BLEvents::UpdateBill {
                    timestamp_from: from2,
                    timestamp_to: time2,
                    comment: text2,
                    users: user2,
                    users_that_will_not_be_billed: extra2,
                },
            ) => timestamp_from == from2 && timestamp_to == time2 && comment@ == text2@ && users@ == user2@
                && users_that_will_not_be_billed@ == extra2@,
            _ => false,
        }
    }
}

/// Two events that say the same are valid on the same aggregates, fit on the
/// same, and do and report the same.
pub proof fn lemma_same_events_same_effect(
    first: BLEvents,
    second: BLEvents,
    store: DatastoreView,
    top_users: nat,
    top_items: nat,
)
    requires
        first.says_the_same_as(&second),
    ensures
        first.precondition(store) == second.precondition(store),
        first.within_limits(store) == second.within_limits(store),
        first.effect(store, top_users, top_items) == second.effect(store, top_users, top_items),
        first.report(store, top_users, top_items) == second.report(store, top_users, top_items),
{
    match (first, second) {
        (
            BLEvents::MakeShoppingCartPurchase { specials, .. },
            BLEvents::MakeShoppingCartPurchase { specials: specials2, .. },
        ) => {
            assert(specials@.len() == texts_view(specials@).len());
            assert(specials2@.len() == texts_view(specials2@).len());
        },
        _ => {},
    }
}

/// Replay is determined by what the events say: two logs whose events say
/// the same, one by one, lead from the same aggregate to the same aggregate,
/// equal in every field.
pub proof fn lemma_replay_is_determined(
    first: Seq<BLEvents>,
    second: Seq<BLEvents>,
    store: DatastoreView,
    top_users: nat,
    top_items: nat,
)
    requires
        first.len() == second.len(),
        forall|i: int| 0 <= i < first.len() ==> (#[trigger] first[i]).says_the_same_as(&second[i]),
    ensures
        replayed(first, store, top_users, top_items) == replayed(second, store, top_users, top_items),
    decreases first.len(),
{
    if first.len() > 0 {
        assert forall|i: int| 0 <= i < first.drop_last().len() implies (#[trigger] first.drop_last()[i]).says_the_same_as(
            &second.drop_last()[i],
        ) by {
            assert(first.drop_last()[i] == first[i]);
            assert(second.drop_last()[i] == second[i]);
        }
        lemma_replay_is_determined(first.drop_last(), second.drop_last(), store, top_users, top_items);
        assert(first[first.len() - 1].says_the_same_as(&second[second.len() - 1]));
        lemma_same_events_same_effect(
            first.last(),
            second.last(),
            replayed(first.drop_last(), store, top_users, top_items),
            top_users,
            top_items,
        );
    }
}

/// The aggregate before any event is well formed, its freebies are settled,
/// and its top sets are current.
pub proof fn lemma_empty_aggregate(top_users: nat, top_items: nat)
    ensures
        DatastoreView::empty().wf(),
        DatastoreView::empty().freebies_settled(),
        DatastoreView::empty().tops_current(top_users, top_items),
{
    let empty = DatastoreView::empty();
    assert(crate::datastore::active_user_texts(empty.users, true) =~= Map::<u32, Seq<char>>::empty());
    assert(crate::datastore::active_item_texts(empty.items, true) =~= Map::<u32, Seq<char>>::empty());
    assert(empty.top_drinks_per_user.dom() =~= empty.drink_scores_per_user.dom());
    assert(crate::left_threaded_avl_tree::top(empty.top_user_scores, top_users) =~= Seq::<u32>::empty());
    assert(top_set(empty.top_user_scores, top_users) =~= Set::<u32>::empty());
    assert(top_sets(empty.drink_scores_per_user, top_items) =~= Map::<u32, Set<u32>>::empty());
}

/// After a bill is finalized it covers no live purchase, and the purchases
/// that are left are ordered by time as before.
pub proof fn lemma_finalized_bill_covers_nothing(store: DatastoreView, from: i64, to: i64)
    ensures
        forall|i: int|
            0 <= i < store.finalize_bill(from, to).purchases.len() ==> !is_billed(
                store.bill(from, to),
                #[trigger] store.finalize_bill(from, to).purchases[i],
            ),
        crate::purchase::ordered_by_time(store.purchases) ==> crate::purchase::ordered_by_time(
            store.finalize_bill(from, to).purchases,
        ),
{
    crate::finalize::lemma_unbilled(store.purchases, store.bill(from, to));
}

/// The purchases of the items of a cart keep the top sets current.
proof fn lemma_cart_keeps_tops(
    store: DatastoreView,
    user_id: u32,
    item_ids: Seq<u32>,
    specials: Seq<Seq<char>>,
    millis: i64,
    top_users: nat,
    top_items: nat,
)
    requires
        store.tops_current(top_users, top_items),
        store.top_drinks_per_user.dom() == store.drink_scores_per_user.dom(),
    ensures
        store.cart_items(user_id, item_ids, millis, top_users, top_items).tops_current(top_users, top_items),
        store.cart_items(user_id, item_ids, millis, top_users, top_items).top_drinks_per_user.dom()
            == store.cart_items(user_id, item_ids, millis, top_users, top_items).drink_scores_per_user.dom(),
        store.cart_specials(user_id, specials, millis).tops_current(top_users, top_items),
    decreases item_ids.len() + specials.len(),
{
    if item_ids.len() > 0 {
        lemma_cart_keeps_tops(store, user_id, item_ids.drop_last(), Seq::empty(), millis, top_users, top_items);
        let before = store.cart_items(user_id, item_ids.drop_last(), millis, top_users, top_items);
        let after = before.simple_purchase(user_id, item_ids.last(), millis, top_users, top_items);
        assert(after.top_drinks_per_user =~= top_sets(after.drink_scores_per_user, top_items));
        assert(after.top_drinks_per_user.dom() =~= after.drink_scores_per_user.dom());
    }
    if specials.len() > 0 {
        lemma_cart_keeps_tops(store, user_id, Seq::empty(), specials.drop_last(), millis, top_users, top_items);
    }
}

/// Top sets that are current stay current under every event: afterwards the
/// top users are the best of the ranking of the users, and the top items of
/// each user are the best of their ranking.
pub proof fn lemma_tops_stay_current(event: BLEvents, store: DatastoreView, top_users: nat, top_items: nat)
    requires
        store.wf(),
        event.precondition(store),
        store.tops_current(top_users, top_items),
    ensures
        event.effect(store, top_users, top_items).tops_current(top_users, top_items),
{
    let after = event.effect(store, top_users, top_items);
    match event {
        BLEvents::MakeShoppingCartPurchase { user_id, specials, item_ids, timestamp } => {
            lemma_cart_keeps_tops(store, user_id, item_ids@, Seq::empty(), timestamp, top_users, top_items);
            let bought = store.cart_items(user_id, item_ids@, timestamp, top_users, top_items);
            lemma_cart_keeps_tops(
                bought,
                user_id,
                Seq::empty(),
                texts_view(specials@),
                timestamp,
                top_users,
                top_items,
            );
        },
        _ => {
            assert(after.top_drinks_per_user =~= top_sets(after.drink_scores_per_user, top_items));
        },
    }
}

/// A list of open freebies stays one when one of them is used and goes if
/// nothing is left of it.
proof fn lemma_after_use_open(list: Seq<FreebyView>, at: int, used: FreebyView)
    requires
        all_open(list),
        0 <= at < list.len(),
        used.wf(),
        used.left() >= 0,
    ensures
        all_open(after_use(list, at, used)),
{
    let after = after_use(list, at, used);
    assert forall|i: int| 0 <= i < after.len() implies (#[trigger] after[i]).wf() && after[i].left()
        > 0 by {
        if used.left() == 0 {
            assert(after[i] == list[if i < at { i } else { i + 1 }]);
        } else if i != at {
            assert(after[i] == list[i]);
        }
    }
}

/// Used-up freebies stay what they are when one more is filed.
proof fn lemma_filed_used_up(list: Seq<FreebyView>, used: FreebyView)
    requires
        all_used_up(list),
        used.left() == 0,
    ensures
        all_used_up(filed(list, used)),
{
    lemma_filed_is_ordered(list, used);
    let slot = crate::freeby::slot_for(list, used.id());
    let after = filed(list, used);
    assert forall|i: int| 0 <= i < after.len() implies (#[trigger] after[i]).left() == 0 by {
        if i < slot {
            assert(after[i] == list[i]);
        } else if i > slot {
            assert(after[i] == list[i - 1]);
        }
    }
}

/// The freebies of a settlement are settled.
pub open spec fn settlement_settled(state: Settlement) -> bool {
    personal_open(state.open_freebies) && all_used_up(state.used_up_freebies)
}

proof fn lemma_with_used_settled(state: Settlement, recipient: u32, at: int, used: FreebyView)
    requires
        settlement_settled(state),
        state.open_freebies.contains_key(recipient),
        0 <= at < state.open_freebies[recipient].len(),
        used.wf(),
        used.left() >= 0,
    ensures
        settlement_settled(state.with_used(recipient, at, used)),
{
    let after = state.with_used(recipient, at, used);
    lemma_after_use_open(state.open_freebies[recipient], at, used);
    if used.left() == 0 {
        lemma_filed_used_up(state.used_up_freebies, used);
    }
    assert forall|r: u32| #[trigger] after.open_freebies.contains_key(r) implies all_open(
        after.open_freebies[r],
    ) by {
        if r != recipient {
            assert(state.open_freebies.contains_key(r));
        }
    }
}

/// Settling one purchase keeps the freebies settled.
proof fn lemma_settle_keeps_settled(
    state: Settlement,
    purchase: PurchaseView,
    from: i64,
    users: Map<u32, UserView>,
    items: Map<u32, ItemView>,
)
    requires
        settlement_settled(state),
    ensures
        settlement_settled(state.settle(purchase, from, users, items)),
{
    match purchase {
        PurchaseView::SimplePurchase { item_id, consumer_id, .. } => {
            let list = state.open_of(consumer_id);
            let item = items[item_id];
            let by_count = count_freeby_for(list, item);
            let by_budget = budget_freeby_for(list);
            lemma_first_true(
                Seq::new(
                    list.len(),
                    |i: int| list[i] is Classic && list[i].allows(item) && list[i].left() > 0,
                ),
            );
            lemma_first_true(Seq::new(list.len(), |i: int| list[i] is Transfer));
            if by_count < list.len() {
                assert(state.open_freebies.contains_key(consumer_id));
                assert(list[by_count].wf() && list[by_count].left() > 0);
                let donor = list[by_count].donor();
                let day = crate::bill::day_index(from, purchase.timestamp()) as usize;
                let known = state.data.with_user(consumer_id, users[consumer_id]).with_item(item_id, item);
                let recorded = Settlement {
                    data: known.with_user(donor, users[donor]).with_count_giveout(
                        donor,
                        day,
                        consumer_id,
                        item_id,
                    ),
                    ..state
                };
                lemma_with_used_settled(recorded, consumer_id, by_count, list[by_count].decremented());
            } else if by_budget < list.len() {
                assert(state.open_freebies.contains_key(consumer_id));
                assert(list[by_budget].wf() && list[by_budget].left() > 0);
                let donor = list[by_budget].donor();
                let budget = list[by_budget].left();
                let taken = if budget < item.cost_cents {
                    budget as u64
                } else {
                    item.cost_cents as u64
                };
                let day = crate::bill::day_index(from, purchase.timestamp()) as usize;
                let known = state.data.with_user(consumer_id, users[consumer_id]).with_item(item_id, item);
                let recorded = Settlement {
                    data: known.with_personal(consumer_id, day, item_id).with_budget_gotten(
                        consumer_id,
                        day,
                        donor,
                        taken,
                    ).with_user(donor, users[donor]).with_budget_given(donor, day, consumer_id, taken),
                    ..state
                };
                lemma_with_used_settled(recorded, consumer_id, by_budget, list[by_budget].spent(taken));
            }
        },
        _ => {},
    }
}

proof fn lemma_settle_upto_keeps_settled(
    state: Settlement,
    purchases: Seq<PurchaseView>,
    upto: int,
    bill: BillView,
    users: Map<u32, UserView>,
    items: Map<u32, ItemView>,
)
    requires
        settlement_settled(state),
    ensures
        settlement_settled(state.settle_upto(purchases, upto, bill, users, items)),
    decreases upto,
{
    if upto > 0 {
        lemma_settle_upto_keeps_settled(state, purchases, upto - 1, bill, users, items);
        let before = state.settle_upto(purchases, upto - 1, bill, users, items);
        if is_billed(bill, purchases[upto - 1]) {
            lemma_settle_keeps_settled(before, purchases[upto - 1], bill.timestamp_from, users, items);
        }
    }
}

/// Settled freebies stay settled under every event that opens no empty
/// freeby: afterwards every open freeby has something left, every used-up
/// freeby has nothing left, and the used-up freebies are ordered by id.
pub proof fn lemma_freebies_stay_settled(event: BLEvents, store: DatastoreView, top_users: nat, top_items: nat)
    requires
        store.wf(),
        event.precondition(store),
        store.freebies_settled(),
        !event.opens_empty_freeby(),
    ensures
        event.effect(store, top_users, top_items).freebies_settled(),
{
    let after = event.effect(store, top_users, top_items);
    match event {
        BLEvents::MakeShoppingCartPurchase { user_id, specials, item_ids, timestamp } => {
            lemma_cart_keeps_freebies(
                store,
                user_id,
                item_ids@,
                Seq::empty(),
                timestamp,
                top_users,
                top_items,
            );
            lemma_cart_keeps_freebies(
                store.cart_items(user_id, item_ids@, timestamp, top_users, top_items),
                user_id,
                Seq::empty(),
                texts_view(specials@),
                timestamp,
                top_users,
                top_items,
            );
        },
        BLEvents::MakeFreeForAllPurchase { ffa_id, .. } => {
            let at = freeby_at(store.open_ffa, ffa_id);
            let used = store.open_ffa[at].decremented();
            assert(store.open_ffa[at].wf());
            lemma_after_use_open(store.open_ffa, at, used);
            assert(after.open_ffa == after_use(store.open_ffa, at, used));
            if used.left() == 0 {
                lemma_filed_used_up(store.used_up_freebies, used);
            }
        },
        BLEvents::CreateFreeForAll { .. } => {
            assert forall|i: int| 0 <= i < after.open_ffa.len() implies (#[trigger] after.open_ffa[i]).wf()
                && after.open_ffa[i].left() > 0 by {
                if i < store.open_ffa.len() {
                    assert(after.open_ffa[i] == store.open_ffa[i]);
                }
            }
        },
        BLEvents::CreateFreeCount { recipient, .. } => {
            lemma_personal_added(store, recipient, after.open_freebies[recipient].last());
        },
        BLEvents::CreateFreeBudget { recipient, .. } => {
            lemma_personal_added(store, recipient, after.open_freebies[recipient].last());
        },
        BLEvents::FinalizeBill { timestamp_from, timestamp_to } => {
            let bill = store.bill(timestamp_from, timestamp_to);
            lemma_settle_upto_keeps_settled(
                store.settlement_start(bill),
                store.purchases,
                store.purchases.len() as int,
                bill,
                store.users,
                store.items,
            );
        },
        _ => {},
    }
}

proof fn lemma_personal_added(store: DatastoreView, recipient: u32, freeby: FreebyView)
    requires
        personal_open(store.open_freebies),
        freeby.wf(),
        freeby.left() > 0,
    ensures
        personal_open(
            store.open_freebies.insert(recipient, store.open_freebies_of(recipient).push(freeby)),
        ),
{
    let after = store.open_freebies.insert(recipient, store.open_freebies_of(recipient).push(freeby));
    assert forall|r: u32| #[trigger] after.contains_key(r) implies all_open(after[r]) by {
        if r == recipient {
            let list = store.open_freebies_of(recipient);
            if store.open_freebies.contains_key(recipient) {
                assert(all_open(store.open_freebies[recipient]));
            }
            assert forall|i: int| 0 <= i < after[r].len() implies (#[trigger] after[r][i]).wf()
                && after[r][i].left() > 0 by {
                if i < list.len() {
                    assert(after[r][i] == list[i]);
                }
            }
        } else {
            assert(store.open_freebies.contains_key(r));
        }
    }
}

proof fn lemma_cart_keeps_freebies(
    store: DatastoreView,
    user_id: u32,
    item_ids: Seq<u32>,
    specials: Seq<Seq<char>>,
    millis: i64,
    top_users: nat,
    top_items: nat,
)
    ensures
        store.cart_items(user_id, item_ids, millis, top_users, top_items).open_ffa == store.open_ffa,
        store.cart_items(user_id, item_ids, millis, top_users, top_items).open_freebies
            == store.open_freebies,
        store.cart_items(user_id, item_ids, millis, top_users, top_items).used_up_freebies
            == store.used_up_freebies,
        store.cart_specials(user_id, specials, millis).open_ffa == store.open_ffa,
        store.cart_specials(user_id, specials, millis).open_freebies == store.open_freebies,
        store.cart_specials(user_id, specials, millis).used_up_freebies == store.used_up_freebies,
    decreases item_ids.len() + specials.len(),
{
    if item_ids.len() > 0 {
        lemma_cart_keeps_freebies(store, user_id, item_ids.drop_last(), Seq::empty(), millis, top_users, top_items);
    }
    if specials.len() > 0 {
        lemma_cart_keeps_freebies(store, user_id, Seq::empty(), specials.drop_last(), millis, top_users, top_items);
    }
}

} // verus!
