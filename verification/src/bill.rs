//! Bills, and what a finalized bill records.
//!
//! A finalized bill keeps, per user and per day, what the user consumed and
//! what was paid for others, together with a copy of every user and item that
//! the record mentions.

use vstd::prelude::*;
use std::collections::HashMap;
use std::collections::HashSet;
use crate::catalog::{Item, ItemView, User, UserGroup, UserGroupView, UserView};
use crate::search::{first_true, lemma_first_true_at, lemma_first_true_none};

verus! {

broadcast use vstd::std_specs::hash::group_hash_axioms;

/// The milliseconds of one day.
pub const DAY_MILLIS: i64 = 86_400_000;

/// The number booked under `key`; 0 where nothing is booked.
pub open spec fn count_at(counts: Map<u32, u32>, key: u32) -> u32 {
    if counts.contains_key(key) {
        counts[key]
    } else {
        0
    }
}

/// The counts with one more booked under `key`.
pub open spec fn counted_up(counts: Map<u32, u32>, key: u32) -> Map<u32, u32> {
    counts.insert(key, (count_at(counts, key) + 1) as u32)
}

/// Books one more under `key`.
pub fn count_up(counts: &mut HashMap<u32, u32>, key: u32)
    requires
        count_at(old(counts)@, key) < u32::MAX,
    ensures
        final(counts)@ == counted_up(old(counts)@, key),
{
    let before: u32 = match counts.get(&key) {
        Some(n) => *n,
        None => 0,
    };
    counts.insert(key, before + 1);
}

/// How far a bill has come.
#[derive(Debug, Clone, Copy, PartialEq, Eq, Structural)]
pub enum BillState {
    Created,
    Finalized,
    ExportedAtLeastOnce,
}

impl BillState {
    pub fn is_created(&self) -> (created: bool)
        ensures
            created == (*self == BillState::Created),
    {
        match self {
            BillState::Created => true,
            _ => false,
        }
    }

    /// Finalized, whether or not it was exported since.
    pub fn is_finalized(&self) -> (finalized: bool)
        ensures
            finalized == (*self != BillState::Created),
    {
        !self.is_created()
    }
}

impl Default for BillState {
    fn default() -> (state: Self)
        ensures
            state == BillState::Created,
    {
        BillState::Created
    }
}

/// A special with the price it was given.
#[derive(Debug, Clone)]
pub struct PricedSpecial {
    pub purchase_id: u64,
    pub price: u32,
    pub name: String,
}

pub ghost struct PricedSpecialView {
    pub purchase_id: u64,
    pub price: u32,
    pub name: Seq<char>,
}

impl View for PricedSpecial {
    type V = PricedSpecialView;

    open spec fn view(&self) -> PricedSpecialView {
        PricedSpecialView { purchase_id: self.purchase_id, price: self.price, name: self.name@ }
    }
}

/// What one user paid for another on one day: items from classic freebies,
/// cents given from a transfer, and cents gotten from one.
#[derive(Debug, Clone)]
pub struct PaidFor {
    pub recipient_id: u32,
    pub count_giveouts_used: HashMap<u32, u32>,
    pub budget_given: u64,
    pub budget_gotten: u64,
}

#[verifier::ext_equal]
pub ghost struct PaidForView {
    pub recipient_id: u32,
    pub count_giveouts_used: Map<u32, u32>,
    pub budget_given: u64,
    pub budget_gotten: u64,
}

impl PaidForView {
    /// The record towards `recipient_id` with nothing in it.
    pub open spec fn fresh(recipient_id: u32) -> PaidForView {
        PaidForView { recipient_id, count_giveouts_used: Map::empty(), budget_given: 0, budget_gotten: 0 }
    }
}

impl View for PaidFor {
    type V = PaidForView;

    open spec fn view(&self) -> PaidForView {
        PaidForView {
            recipient_id: self.recipient_id,
            count_giveouts_used: self.count_giveouts_used@,
            budget_given: self.budget_given,
            budget_gotten: self.budget_gotten,
        }
    }
}

impl PaidFor {
    /// The record towards `recipient_id` with nothing in it.
    pub fn fresh(recipient_id: u32) -> (record: Self)
        ensures
            record@ == PaidForView::fresh(recipient_id),
    {
        PaidFor { recipient_id, count_giveouts_used: HashMap::new(), budget_given: 0, budget_gotten: 0 }
    }
}

/// What a user consumed and paid for on one day.
#[derive(Debug, Clone)]
pub struct BillUserDayInstance {
    pub personally_consumed: HashMap<u32, u32>,
    pub specials_consumed: Vec<PricedSpecial>,
    pub ffa_giveouts: HashMap<u32, u32>,
    pub giveouts_to_user_id: HashMap<u32, PaidFor>,
}

#[verifier::ext_equal]
pub ghost struct DayView {
    pub personally_consumed: Map<u32, u32>,
    pub specials_consumed: Seq<PricedSpecialView>,
    pub ffa_giveouts: Map<u32, u32>,
    pub giveouts_to_user_id: Map<u32, PaidForView>,
}

impl DayView {
    /// The day with nothing in it.
    pub open spec fn fresh() -> DayView {
        DayView {
            personally_consumed: Map::empty(),
            specials_consumed: Seq::empty(),
            ffa_giveouts: Map::empty(),
            giveouts_to_user_id: Map::empty(),
        }
    }

    /// The record towards `other`; an empty one where there is none yet.
    pub open spec fn paid_for(self, other: u32) -> PaidForView {
        if self.giveouts_to_user_id.contains_key(other) {
            self.giveouts_to_user_id[other]
        } else {
            PaidForView::fresh(other)
        }
    }

    pub open spec fn with_special(self, special: PricedSpecialView) -> DayView {
        DayView { specials_consumed: self.specials_consumed.push(special), ..self }
    }

    pub open spec fn with_personal(self, item_id: u32) -> DayView {
        DayView { personally_consumed: counted_up(self.personally_consumed, item_id), ..self }
    }

    pub open spec fn with_ffa_giveout(self, item_id: u32) -> DayView {
        DayView { ffa_giveouts: counted_up(self.ffa_giveouts, item_id), ..self }
    }

    pub open spec fn with_count_giveout(self, consumer: u32, item_id: u32) -> DayView {
        let record = self.paid_for(consumer);
        DayView {
            giveouts_to_user_id: self.giveouts_to_user_id.insert(
                consumer,
                PaidForView {
                    count_giveouts_used: counted_up(record.count_giveouts_used, item_id),
                    ..record
                },
            ),
            ..self
        }
    }

    pub open spec fn with_budget_gotten(self, donor: u32, cents: u64) -> DayView {
        let record = self.paid_for(donor);
        DayView {
            giveouts_to_user_id: self.giveouts_to_user_id.insert(
                donor,
                PaidForView { budget_gotten: (record.budget_gotten + cents) as u64, ..record },
            ),
            ..self
        }
    }

    pub open spec fn with_budget_given(self, consumer: u32, cents: u64) -> DayView {
        let record = self.paid_for(consumer);
        DayView {
            giveouts_to_user_id: self.giveouts_to_user_id.insert(
                consumer,
                PaidForView { budget_given: (record.budget_given + cents) as u64, ..record },
            ),
            ..self
        }
    }
}

impl View for BillUserDayInstance {
    type V = DayView;

    open spec fn view(&self) -> DayView {
        DayView {
            personally_consumed: self.personally_consumed@,
            specials_consumed: self.specials_consumed@.map_values(|s: PricedSpecial| s@),
            ffa_giveouts: self.ffa_giveouts@,
            giveouts_to_user_id: self.giveouts_to_user_id@.map_values(|p: PaidFor| p@),
        }
    }
}

impl BillUserDayInstance {
    /// The day with nothing in it.
    pub fn fresh() -> (day: Self)
        ensures
            day@ == DayView::fresh(),
    {
        let day = BillUserDayInstance {
            personally_consumed: HashMap::new(),
            specials_consumed: Vec::new(),
            ffa_giveouts: HashMap::new(),
            giveouts_to_user_id: HashMap::new(),
        };
        assert(day@ =~= DayView::fresh());
        day
    }

    fn take_record(&mut self, other: u32) -> (record: PaidFor)
        ensures
            record@ == old(self)@.paid_for(other),
            final(self).giveouts_to_user_id@ == old(self).giveouts_to_user_id@.remove(other),
            final(self).personally_consumed == old(self).personally_consumed,
            final(self).specials_consumed == old(self).specials_consumed,
            final(self).ffa_giveouts == old(self).ffa_giveouts,
    {
        match self.giveouts_to_user_id.remove(&other) {
            Some(record) => record,
            None => PaidFor::fresh(other),
        }
    }

    fn put_record(&mut self, other: u32, record: PaidFor)
        ensures
            final(self)@ == (DayView {
                giveouts_to_user_id: old(self)@.giveouts_to_user_id.insert(other, record@),
                ..old(self)@
            }),
    {
        self.giveouts_to_user_id.insert(other, record);
        assert(self@.giveouts_to_user_id =~= old(self)@.giveouts_to_user_id.insert(other, record@));
    }

    /// Files a priced special.
    pub fn add_special(&mut self, special: PricedSpecial)
        ensures
            final(self)@ == old(self)@.with_special(special@),
    {
        self.specials_consumed.push(special);
        assert(self@.specials_consumed =~= old(self)@.specials_consumed.push(special@));
    }

    /// Books one more of `item_id` as consumed by the user.
    pub fn add_personal(&mut self, item_id: u32)
        requires
            count_at(old(self)@.personally_consumed, item_id) < u32::MAX,
        ensures
            final(self)@ == old(self)@.with_personal(item_id),
    {
        count_up(&mut self.personally_consumed, item_id);
    }

    /// Books one more of `item_id` as given out in a free-for-all.
    pub fn add_ffa_giveout(&mut self, item_id: u32)
        requires
            count_at(old(self)@.ffa_giveouts, item_id) < u32::MAX,
        ensures
            final(self)@ == old(self)@.with_ffa_giveout(item_id),
    {
        count_up(&mut self.ffa_giveouts, item_id);
    }

    /// Books one more of `item_id` as paid for `consumer` from a classic
    /// freeby.
    pub fn add_count_giveout(&mut self, consumer: u32, item_id: u32)
        requires
            count_at(old(self)@.paid_for(consumer).count_giveouts_used, item_id) < u32::MAX,
        ensures
            final(self)@ == old(self)@.with_count_giveout(consumer, item_id),
    {
        let mut record = self.take_record(consumer);
        count_up(&mut record.count_giveouts_used, item_id);
        self.put_record(consumer, record);
        assert(self@.giveouts_to_user_id =~= old(self)@.with_count_giveout(
            consumer,
            item_id,
        ).giveouts_to_user_id);
    }

    /// Books `cents` as gotten from a transfer of `donor`.
    pub fn add_budget_gotten(&mut self, donor: u32, cents: u64)
        requires
            old(self)@.paid_for(donor).budget_gotten + cents <= u64::MAX,
        ensures
            final(self)@ == old(self)@.with_budget_gotten(donor, cents),
    {
        let mut record = self.take_record(donor);
        record.budget_gotten = record.budget_gotten + cents;
        self.put_record(donor, record);
        assert(self@.giveouts_to_user_id =~= old(self)@.with_budget_gotten(
            donor,
            cents,
        ).giveouts_to_user_id);
    }

    /// Books `cents` as given to `consumer` from a transfer.
    pub fn add_budget_given(&mut self, consumer: u32, cents: u64)
        requires
            old(self)@.paid_for(consumer).budget_given + cents <= u64::MAX,
        ensures
            final(self)@ == old(self)@.with_budget_given(consumer, cents),
    {
        let mut record = self.take_record(consumer);
        record.budget_given = record.budget_given + cents;
        self.put_record(consumer, record);
        assert(self@.giveouts_to_user_id =~= old(self)@.with_budget_given(
            consumer,
            cents,
        ).giveouts_to_user_id);
    }
}

/// What one user consumed and paid for, day by day.
#[derive(Debug, Clone)]
pub struct BillUserInstance {
    pub user_id: u32,
    pub per_day: HashMap<usize, BillUserDayInstance>,
}

#[verifier::ext_equal]
pub ghost struct UserInstanceView {
    pub user_id: u32,
    pub per_day: Map<usize, DayView>,
}

impl UserInstanceView {
    /// The record of `user_id` with no day in it.
    pub open spec fn fresh(user_id: u32) -> UserInstanceView {
        UserInstanceView { user_id, per_day: Map::empty() }
    }

    /// The record of `day`; an empty one where there is none yet.
    pub open spec fn day(self, day: usize) -> DayView {
        if self.per_day.contains_key(day) {
            self.per_day[day]
        } else {
            DayView::fresh()
        }
    }
}

impl View for BillUserInstance {
    type V = UserInstanceView;

    open spec fn view(&self) -> UserInstanceView {
        UserInstanceView {
            user_id: self.user_id,
            per_day: self.per_day@.map_values(|d: BillUserDayInstance| d@),
        }
    }
}

impl BillUserInstance {
    /// The record of `user_id` with no day in it.
    pub fn fresh(user_id: u32) -> (instance: Self)
        ensures
            instance@ == UserInstanceView::fresh(user_id),
    {
        let instance = BillUserInstance { user_id, per_day: HashMap::new() };
        assert(instance@ =~= UserInstanceView::fresh(user_id));
        instance
    }
}

/// What a finalized bill exports.
#[derive(Debug)]
pub struct ExportableBillData {
    pub all_users: HashMap<u32, User>,
    pub all_items: HashMap<u32, Item>,
    pub user_consumption: HashMap<u32, BillUserInstance>,
}

#[verifier::ext_equal]
pub ghost struct BillDataView {
    pub all_users: Map<u32, UserView>,
    pub all_items: Map<u32, ItemView>,
    pub user_consumption: Map<u32, UserInstanceView>,
}

impl BillDataView {
    pub open spec fn empty() -> BillDataView {
        BillDataView { all_users: Map::empty(), all_items: Map::empty(), user_consumption: Map::empty() }
    }

    /// The record of `user_id`; an empty one where there is none yet.
    pub open spec fn consumption(self, user_id: u32) -> UserInstanceView {
        if self.user_consumption.contains_key(user_id) {
            self.user_consumption[user_id]
        } else {
            UserInstanceView::fresh(user_id)
        }
    }

    /// The record of `user_id` on `day`; an empty one where there is none
    /// yet.
    pub open spec fn day(self, user_id: u32, day: usize) -> DayView {
        self.consumption(user_id).day(day)
    }

    /// The data with the record of `user_id` on `day` replaced.
    pub open spec fn with_day(self, user_id: u32, day: usize, record: DayView) -> BillDataView {
        let instance = self.consumption(user_id);
        BillDataView {
            user_consumption: self.user_consumption.insert(
                user_id,
                UserInstanceView { per_day: instance.per_day.insert(day, record), ..instance },
            ),
            ..self
        }
    }

    /// The data with a priced special filed for a user on a day.
    pub open spec fn with_special(self, user_id: u32, day: usize, special: PricedSpecialView) -> BillDataView {
        self.with_day(user_id, day, self.day(user_id, day).with_special(special))
    }

    /// The data with one more of an item consumed by a user on a day.
    pub open spec fn with_personal(self, user_id: u32, day: usize, item_id: u32) -> BillDataView {
        self.with_day(user_id, day, self.day(user_id, day).with_personal(item_id))
    }

    /// The data with one more of an item given out by a donor in a
    /// free-for-all on a day.
    pub open spec fn with_ffa_giveout(self, donor: u32, day: usize, item_id: u32) -> BillDataView {
        self.with_day(donor, day, self.day(donor, day).with_ffa_giveout(item_id))
    }

    /// The data with one more of an item paid by a donor for a consumer on a
    /// day.
    pub open spec fn with_count_giveout(
        self,
        donor: u32,
        day: usize,
        consumer: u32,
        item_id: u32,
    ) -> BillDataView {
        self.with_day(donor, day, self.day(donor, day).with_count_giveout(consumer, item_id))
    }

    /// The data with cents that a consumer got from a donor on a day.
    pub open spec fn with_budget_gotten(
        self,
        consumer: u32,
        day: usize,
        donor: u32,
        cents: u64,
    ) -> BillDataView {
        self.with_day(consumer, day, self.day(consumer, day).with_budget_gotten(donor, cents))
    }

    /// The data with cents that a donor gave to a consumer on a day.
    pub open spec fn with_budget_given(
        self,
        donor: u32,
        day: usize,
        consumer: u32,
        cents: u64,
    ) -> BillDataView {
        self.with_day(donor, day, self.day(donor, day).with_budget_given(consumer, cents))
    }

    /// The data with a copy of `user` and a record for them, each unless it
    /// is there already.
    pub open spec fn with_user(self, user_id: u32, user: UserView) -> BillDataView {
        BillDataView {
            all_users: if self.all_users.contains_key(user_id) {
                self.all_users
            } else {
                self.all_users.insert(user_id, user)
            },
            user_consumption: if self.user_consumption.contains_key(user_id) {
                self.user_consumption
            } else {
                self.user_consumption.insert(user_id, UserInstanceView::fresh(user_id))
            },
            ..self
        }
    }

    /// The data with a copy of `item`, unless one is there already.
    pub open spec fn with_item(self, item_id: u32, item: ItemView) -> BillDataView {
        BillDataView {
            all_items: if self.all_items.contains_key(item_id) {
                self.all_items
            } else {
                self.all_items.insert(item_id, item)
            },
            ..self
        }
    }
}

/// The views of copies of users.
pub open spec fn user_views(users: Map<u32, User>) -> Map<u32, UserView> {
    users.map_values(|u: User| u@)
}

/// The views of copies of items.
pub open spec fn item_views(items: Map<u32, Item>) -> Map<u32, ItemView> {
    items.map_values(|i: Item| i@)
}

impl View for ExportableBillData {
    type V = BillDataView;

    open spec fn view(&self) -> BillDataView {
        BillDataView {
            all_users: user_views(self.all_users@),
            all_items: item_views(self.all_items@),
            user_consumption: self.user_consumption@.map_values(|i: BillUserInstance| i@),
        }
    }
}

impl Default for ExportableBillData {
    fn default() -> (data: Self)
        ensures
            data@ == BillDataView::empty(),
    {
        let data = ExportableBillData {
            all_users: HashMap::new(),
            all_items: HashMap::new(),
            user_consumption: HashMap::new(),
        };
        assert(data@ =~= BillDataView::empty());
        data
    }
}

impl Clone for ExportableBillData {
    fn clone(&self) -> (copy: Self)
        ensures
            copy@ == self@,
    {
        ExportableBillData {
            all_users: self.all_users.clone(),
            all_items: self.all_items.clone(),
            user_consumption: self.user_consumption.clone(),
        }
    }
}

impl ExportableBillData {
    /// Keeps a copy of `user` and opens a record for them, each unless it is
    /// there already.
    pub fn ensure_user(&mut self, user_id: u32, user: &User)
        ensures
            final(self)@ == old(self)@.with_user(user_id, user@),
    {
        if !self.all_users.contains_key(&user_id) {
            self.all_users.insert(user_id, user.clone());
        }
        if !self.user_consumption.contains_key(&user_id) {
            self.user_consumption.insert(user_id, BillUserInstance::fresh(user_id));
        }
        assert(self@ =~= old(self)@.with_user(user_id, user@));
    }

    /// Keeps a copy of `item`, unless one is there already.
    pub fn ensure_item(&mut self, item_id: u32, item: &Item)
        ensures
            final(self)@ == old(self)@.with_item(item_id, item@),
    {
        if !self.all_items.contains_key(&item_id) {
            self.all_items.insert(item_id, item.clone());
        }
        assert(self@ =~= old(self)@.with_item(item_id, item@));
    }

    /// Takes the record of `user_id` on `day` out of the data, to be put back
    /// by `put_day`.
    pub fn take_day(&mut self, user_id: u32, day: usize) -> (taken: (BillUserInstance, BillUserDayInstance))
        ensures
            taken.1@ == old(self)@.day(user_id, day),
            taken.0@.user_id == old(self)@.consumption(user_id).user_id,
            taken.0@.per_day == old(self)@.consumption(user_id).per_day.remove(day),
            final(self)@ == (BillDataView {
                user_consumption: old(self)@.user_consumption.remove(user_id),
                ..old(self)@
            }),
    {
        let mut instance = match self.user_consumption.remove(&user_id) {
            Some(instance) => instance,
            None => BillUserInstance::fresh(user_id),
        };
        let record = match instance.per_day.remove(&day) {
            Some(record) => record,
            None => BillUserDayInstance::fresh(),
        };
        proof {
            assert(instance@.per_day =~= old(self)@.consumption(user_id).per_day.remove(day));
            assert(self@.user_consumption =~= old(self)@.user_consumption.remove(user_id));
        }
        (instance, record)
    }

    /// Files a priced special for a user on a day.
    pub fn record_special(&mut self, user_id: u32, day: usize, special: PricedSpecial)
        ensures
            final(self)@ == old(self)@.with_special(user_id, day, special@),
    {
        let ghost before = self@;
        let (instance, mut record) = self.take_day(user_id, day);
        record.add_special(special);
        self.restore_day(Ghost(before), user_id, day, instance, record);
    }

    /// Books one more of an item as consumed by a user on a day.
    pub fn record_personal(&mut self, user_id: u32, day: usize, item_id: u32)
        requires
            count_at(old(self)@.day(user_id, day).personally_consumed, item_id) < u32::MAX,
        ensures
            final(self)@ == old(self)@.with_personal(user_id, day, item_id),
    {
        let ghost before = self@;
        let (instance, mut record) = self.take_day(user_id, day);
        record.add_personal(item_id);
        self.restore_day(Ghost(before), user_id, day, instance, record);
    }

    /// Books one more of an item as given out by a donor in a free-for-all on
    /// a day.
    pub fn record_ffa_giveout(&mut self, donor: u32, day: usize, item_id: u32)
        requires
            count_at(old(self)@.day(donor, day).ffa_giveouts, item_id) < u32::MAX,
        ensures
            final(self)@ == old(self)@.with_ffa_giveout(donor, day, item_id),
    {
        let ghost before = self@;
        let (instance, mut record) = self.take_day(donor, day);
        record.add_ffa_giveout(item_id);
        self.restore_day(Ghost(before), donor, day, instance, record);
    }

    /// Books one more of an item as paid by a donor for a consumer on a day.
    pub fn record_count_giveout(&mut self, donor: u32, day: usize, consumer: u32, item_id: u32)
        requires
            count_at(old(self)@.day(donor, day).paid_for(consumer).count_giveouts_used, item_id)
                < u32::MAX,
        ensures
            final(self)@ == old(self)@.with_count_giveout(donor, day, consumer, item_id),
    {
        let ghost before = self@;
        let (instance, mut record) = self.take_day(donor, day);
        record.add_count_giveout(consumer, item_id);
        self.restore_day(Ghost(before), donor, day, instance, record);
    }

    /// Books cents that a consumer got from a donor on a day.
    pub fn record_budget_gotten(&mut self, consumer: u32, day: usize, donor: u32, cents: u64)
        requires
            old(self)@.day(consumer, day).paid_for(donor).budget_gotten + cents <= u64::MAX,
        ensures
            final(self)@ == old(self)@.with_budget_gotten(consumer, day, donor, cents),
    {
        let ghost before = self@;
        let (instance, mut record) = self.take_day(consumer, day);
        record.add_budget_gotten(donor, cents);
        self.restore_day(Ghost(before), consumer, day, instance, record);
    }

    /// Books cents that a donor gave to a consumer on a day.
    pub fn record_budget_given(&mut self, donor: u32, day: usize, consumer: u32, cents: u64)
        requires
            old(self)@.day(donor, day).paid_for(consumer).budget_given + cents <= u64::MAX,
        ensures
            final(self)@ == old(self)@.with_budget_given(donor, day, consumer, cents),
    {
        let ghost before = self@;
        let (instance, mut record) = self.take_day(donor, day);
        record.add_budget_given(consumer, cents);
        self.restore_day(Ghost(before), donor, day, instance, record);
    }

    /// Puts back a record that `take_day` took out of `before`.
    fn restore_day(
        &mut self,
        Ghost(before): Ghost<BillDataView>,
        user_id: u32,
        day: usize,
        instance: BillUserInstance,
        record: BillUserDayInstance,
    )
        requires
            instance@.user_id == before.consumption(user_id).user_id,
            instance@.per_day == before.consumption(user_id).per_day.remove(day),
            old(self)@ == (BillDataView {
                user_consumption: before.user_consumption.remove(user_id),
                ..before
            }),
        ensures
            final(self)@ == before.with_day(user_id, day, record@),
    {
        self.put_day(user_id, instance, day, record);
        proof {
            let instance_view = before.consumption(user_id);
            assert(instance_view.per_day.remove(day).insert(day, record@) =~= instance_view.per_day.insert(
                day,
                record@,
            ));
            assert(self@.user_consumption =~= before.with_day(user_id, day, record@).user_consumption);
            assert(self@ =~= before.with_day(user_id, day, record@));
        }
    }

    /// Puts the record of `user_id` on `day` into the data.
    pub fn put_day(&mut self, user_id: u32, instance: BillUserInstance, day: usize, record: BillUserDayInstance)
        ensures
            final(self)@ == (BillDataView {
                user_consumption: old(self)@.user_consumption.insert(
                    user_id,
                    UserInstanceView {
                        user_id: instance@.user_id,
                        per_day: instance@.per_day.insert(day, record@),
                    },
                ),
                ..old(self)@
            }),
    {
        let ghost before = instance@;
        let ghost added = record@;
        let mut instance = instance;
        instance.per_day.insert(day, record);
        proof {
            assert(instance@.per_day =~= before.per_day.insert(day, added));
        }
        let ghost whole = instance@;
        self.user_consumption.insert(user_id, instance);
        assert(self@.user_consumption =~= old(self)@.user_consumption.insert(user_id, whole));
    }
}

/// A span of time to be settled, the users it settles, and, once finalized,
/// what it settled.
#[derive(Debug)]
pub struct Bill {
    pub timestamp_from: i64,
    pub timestamp_to: i64,
    pub comment: String,
    pub users: UserGroup,
    pub bill_state: BillState,
    pub users_that_will_not_be_billed: HashSet<u32>,
    pub finalized_data: ExportableBillData,
}

#[verifier::ext_equal]
pub ghost struct BillView {
    pub timestamp_from: i64,
    pub timestamp_to: i64,
    pub comment: Seq<char>,
    pub users: UserGroupView,
    pub bill_state: BillState,
    pub users_that_will_not_be_billed: Set<u32>,
    pub finalized_data: BillDataView,
}

impl View for Bill {
    type V = BillView;

    open spec fn view(&self) -> BillView {
        BillView {
            timestamp_from: self.timestamp_from,
            timestamp_to: self.timestamp_to,
            comment: self.comment@,
            users: self.users@,
            bill_state: self.bill_state,
            users_that_will_not_be_billed: self.users_that_will_not_be_billed@,
            finalized_data: self.finalized_data@,
        }
    }
}

/// Calls `HashSet::clone` of std: the copy holds the same ids.
#[verifier::external_body]
pub(crate) fn clone_id_set(ids: &HashSet<u32>) -> (copy: HashSet<u32>)
    ensures
        copy@ == ids@,
{
    ids.clone()
}

impl Clone for Bill {
    fn clone(&self) -> (copy: Self)
        ensures
            copy@ == self@,
    {
        Bill {
            timestamp_from: self.timestamp_from,
            timestamp_to: self.timestamp_to,
            comment: self.comment.clone(),
            users: self.users.clone(),
            bill_state: self.bill_state,
            users_that_will_not_be_billed: clone_id_set(&self.users_that_will_not_be_billed),
            finalized_data: self.finalized_data.clone(),
        }
    }
}

/// The start of the day of `millis`, in steps of whole days from 0: the
/// last step at or before `millis` if it is not negative, else the first
/// step at or after it.
pub open spec fn day_start(millis: i64) -> int {
    if millis >= 0 {
        (millis as int / 86_400_000) * 86_400_000
    } else {
        -((-(millis as int) / 86_400_000) * 86_400_000)
    }
}

/// The whole days from the day-aligned start `from` up to `time`; 0 for a
/// `time` before that start.
pub open spec fn day_index(from: i64, time: i64) -> int {
    if time >= day_start(from) {
        (time - day_start(from)) / 86_400_000
    } else {
        0
    }
}

impl Bill {
    /// The index of the day of `time`, counted from the day in which the bill
    /// starts, in days of 86 400 000 milliseconds.
    pub fn get_day_index(&self, time: i64) -> (day: usize)
        requires
            day_index(self.timestamp_from, time) <= usize::MAX,
        ensures
            day == day_index(self.timestamp_from, time),
    {
        let days: i128 = days_between(self.timestamp_from, time);
        days as usize
    }
}

/// The whole days from the day-aligned start `from` up to `time`.
pub fn days_between(from: i64, time: i64) -> (days: i128)
    ensures
        days == day_index(from, time),
        0 <= days,
{
    let from: i128 = from as i128;
    let day: i128 = DAY_MILLIS as i128;
    let first_day_begin: i128 = if from >= 0 {
        (from / day) * day
    } else {
        -(((-from) / day) * day)
    };
    let elapsed: i128 = time as i128 - first_day_begin;
    if elapsed >= 0 {
        elapsed / day
    } else {
        0
    }
}

/// The views of a list of bills.
pub open spec fn bill_views(bills: Seq<Bill>) -> Seq<BillView> {
    bills.map_values(|b: Bill| b@)
}

/// The position of the first bill over `[from, to)`; the length of the list
/// if there is none.
pub open spec fn bill_at(bills: Seq<BillView>, from: i64, to: i64) -> int {
    first_true(
        Seq::new(bills.len(), |i: int| bills[i].timestamp_from == from && bills[i].timestamp_to == to),
    )
}

/// The position of the first bill over `[from, to)`, if there is one.
pub fn find_bill(bills: &Vec<Bill>, from: i64, to: i64) -> (found: Option<usize>)
    ensures
        found matches Some(at) ==> at == bill_at(bill_views(bills@), from, to) && at < bills.len()
            && bills[at as int].timestamp_from == from && bills[at as int].timestamp_to == to,
        found.is_none() ==> bill_at(bill_views(bills@), from, to) == bills.len(),
{
    let ghost views = bill_views(bills@);
    let ghost flags = Seq::new(
        views.len(),
        |i: int| views[i].timestamp_from == from && views[i].timestamp_to == to,
    );
    let mut i: usize = 0;
    while i < bills.len()
        invariant
            i <= bills.len(),
            views == bill_views(bills@),
            flags == Seq::new(
                views.len(),
                |i: int| views[i].timestamp_from == from && views[i].timestamp_to == to,
            ),
            forall|j: int| 0 <= j < i ==> !flags[j],
        decreases bills.len() - i,
    {
        if bills[i].timestamp_from == from && bills[i].timestamp_to == to {
            proof {
                assert(flags[i as int]);
                lemma_first_true_at(flags, i as int);
            }
            return Some(i);
        }
        assert(!flags[i as int]);
        i += 1;
    }
    proof {
        lemma_first_true_none(flags);
    }
    None
}

} // verus!
