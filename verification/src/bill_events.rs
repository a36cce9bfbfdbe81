//! What the events on bills, short of finalizing one, do to the aggregate.

use vstd::prelude::*;
use std::collections::HashSet;
use crate::bill::{
    bill_at,
    bill_views,
    clone_id_set,
    find_bill,
    Bill,
    BillDataView,
    BillState,
    BillView,
    ExportableBillData,
};
use crate::catalog::{UserGroup, UserGroupView};
use crate::datastore::{Datastore, DatastoreView};

verus! {

broadcast use vstd::std_specs::hash::group_hash_axioms;

impl DatastoreView {
    /// A bill over `[from, to)` exists.
    pub open spec fn has_bill(self, from: i64, to: i64) -> bool {
        bill_at(self.bills, from, to) < self.bills.len()
    }

    /// The first bill over `[from, to)`; meaningful where one exists.
    pub open spec fn bill(self, from: i64, to: i64) -> BillView {
        self.bills[bill_at(self.bills, from, to)]
    }

    /// There is a purchase to bill, and no bill over the same span.
    pub open spec fn create_bill_valid(self, from: i64, to: i64) -> bool {
        self.purchases.len() > 0 && !self.has_bill(from, to)
    }

    /// A new bill at the end of the bills: created, with nobody excluded and
    /// nothing recorded.
    pub open spec fn create_bill(
        self,
        from: i64,
        to: i64,
        users: UserGroupView,
        comment: Seq<char>,
    ) -> DatastoreView {
        DatastoreView {
            bills: self.bills.push(
                BillView {
                    timestamp_from: from,
                    timestamp_to: to,
                    comment,
                    users,
                    bill_state: BillState::Created,
                    users_that_will_not_be_billed: Set::empty(),
                    finalized_data: BillDataView::empty(),
                },
            ),
            ..self
        }
    }

    /// A bill over the span exists and is not finalized.
    pub open spec fn has_open_bill(self, from: i64, to: i64) -> bool {
        self.has_bill(from, to) && self.bill(from, to).bill_state == BillState::Created
    }

    /// The first bill over the span with a new comment, new users and new
    /// excluded users.
    pub open spec fn update_bill(
        self,
        from: i64,
        to: i64,
        comment: Seq<char>,
        users: UserGroupView,
        excluded: Set<u32>,
    ) -> DatastoreView {
        let at = bill_at(self.bills, from, to);
        DatastoreView {
            bills: self.bills.update(
                at,
                BillView { comment, users, users_that_will_not_be_billed: excluded, ..self.bills[at] },
            ),
            ..self
        }
    }

    /// The bills without the first bill over the span.
    pub open spec fn delete_bill(self, from: i64, to: i64) -> DatastoreView {
        DatastoreView { bills: self.bills.remove(bill_at(self.bills, from, to)), ..self }
    }

    /// A bill over the span exists and is finalized.
    pub open spec fn has_finalized_bill(self, from: i64, to: i64) -> bool {
        self.has_bill(from, to) && self.bill(from, to).bill_state != BillState::Created
    }

    /// The first bill over the span marked as exported.
    pub open spec fn export_bill(self, from: i64, to: i64) -> DatastoreView {
        let at = bill_at(self.bills, from, to);
        DatastoreView {
            bills: self.bills.update(
                at,
                BillView { bill_state: BillState::ExportedAtLeastOnce, ..self.bills[at] },
            ),
            ..self
        }
    }
}

impl Datastore {
    /// Whether a bill over the span can be created.
    pub fn can_create_bill(&self, from: i64, to: i64) -> (can: bool)
        ensures
            can == self@.create_bill_valid(from, to),
    {
        assert(self@.purchases.len() == self.purchases.len());
        !self.purchases.is_empty() && find_bill(&self.bills, from, to).is_none()
    }

    /// Creates a bill.
    pub fn apply_create_bill(&mut self, from: i64, to: i64, users: &UserGroup, comment: &String)
        requires
            old(self).wf(),
        ensures
            final(self).wf(),
            final(self)@ == old(self)@.create_bill(from, to, users@, comment@),
    {
        let bill = Bill {
            timestamp_from: from,
            timestamp_to: to,
            users: users.clone(),
            bill_state: BillState::Created,
            users_that_will_not_be_billed: HashSet::new(),
            comment: comment.clone(),
            finalized_data: ExportableBillData::default(),
        };
        let ghost view = bill@;
        self.bills.push(bill);
        proof {
            let before = old(self)@.bills;
            assert(bill_views(self.bills@) =~= before.push(view));
            assert(self@ =~= old(self)@.create_bill(from, to, users@, comment@));
            let after = self@.bills;
            assert forall|i: int|
                0 <= i < after.len() && (#[trigger] after[i]).bill_state
                    == BillState::Created implies after[i].finalized_data == BillDataView::empty() by {
                if i < before.len() {
                    assert(after[i] == before[i]);
                }
            }
        }
    }

    /// Whether a bill over the span exists and is not finalized.
    pub fn has_open_bill(&self, from: i64, to: i64) -> (has: bool)
        ensures
            has == self@.has_open_bill(from, to),
    {
        match find_bill(&self.bills, from, to) {
            Some(at) => {
                assert(self@.bills[at as int] == self.bills[at as int]@);
                self.bills[at].bill_state.is_created()
            },
            None => false,
        }
    }

    /// Whether a bill over the span exists and is finalized.
    pub fn has_finalized_bill(&self, from: i64, to: i64) -> (has: bool)
        ensures
            has == self@.has_finalized_bill(from, to),
    {
        match find_bill(&self.bills, from, to) {
            Some(at) => {
                assert(self@.bills[at as int] == self.bills[at as int]@);
                self.bills[at].bill_state.is_finalized()
            },
            None => false,
        }
    }

    /// Changes a bill that is not finalized.
    pub fn apply_update_bill(
        &mut self,
        from: i64,
        to: i64,
        comment: &String,
        users: &UserGroup,
        users_that_will_not_be_billed: &HashSet<u32>,
    )
        requires
            old(self).wf(),
            old(self)@.has_open_bill(from, to),
        ensures
            final(self).wf(),
            final(self)@ == old(self)@.update_bill(
                from,
                to,
                comment@,
                users@,
                users_that_will_not_be_billed@,
            ),
    {
        let at = match find_bill(&self.bills, from, to) {
            Some(at) => at,
            None => unreached(),
        };
        let mut bill = self.bills.remove(at);
        let ghost before = old(self)@.bills;
        assert(before[at as int] == bill@);
        bill.comment = comment.clone();
        bill.users = users.clone();
        bill.users_that_will_not_be_billed = clone_id_set(users_that_will_not_be_billed);
        let ghost changed = bill@;
        self.bills.insert(at, bill);
        proof {
            assert(bill_views(self.bills@) =~= before.update(at as int, changed));
            assert(self@ =~= old(self)@.update_bill(
                from,
                to,
                comment@,
                users@,
                users_that_will_not_be_billed@,
            ));
            let after = self@.bills;
            assert forall|i: int|
                0 <= i < after.len() && (#[trigger] after[i]).bill_state
                    == BillState::Created implies after[i].finalized_data == BillDataView::empty() by {
                if i != at {
                    assert(after[i] == before[i]);
                }
            }
        }
    }

    /// Removes a bill that is not finalized.
    pub fn apply_delete_bill(&mut self, from: i64, to: i64)
        requires
            old(self).wf(),
            old(self)@.has_open_bill(from, to),
        ensures
            final(self).wf(),
            final(self)@ == old(self)@.delete_bill(from, to),
    {
        let at = match find_bill(&self.bills, from, to) {
            Some(at) => at,
            None => unreached(),
        };
        self.bills.remove(at);
        proof {
            let before = old(self)@.bills;
            assert(bill_views(self.bills@) =~= before.remove(at as int));
            assert(self@ =~= old(self)@.delete_bill(from, to));
            let after = self@.bills;
            assert forall|i: int|
                0 <= i < after.len() && (#[trigger] after[i]).bill_state
                    == BillState::Created implies after[i].finalized_data == BillDataView::empty() by {
                assert(after[i] == before[if i < at { i } else { i + 1 }]);
            }
        }
    }

    /// Marks a finalized bill as exported.
    pub fn apply_export_bill(&mut self, from: i64, to: i64)
        requires
            old(self).wf(),
            old(self)@.has_finalized_bill(from, to),
        ensures
            final(self).wf(),
            final(self)@ == old(self)@.export_bill(from, to),
    {
        let at = match find_bill(&self.bills, from, to) {
            Some(at) => at,
            None => unreached(),
        };
        let mut bill = self.bills.remove(at);
        let ghost before = old(self)@.bills;
        assert(before[at as int] == bill@);
        bill.bill_state = BillState::ExportedAtLeastOnce;
        let ghost changed = bill@;
        self.bills.insert(at, bill);
        proof {
            assert(bill_views(self.bills@) =~= before.update(at as int, changed));
            assert(self@ =~= old(self)@.export_bill(from, to));
            let after = self@.bills;
            assert forall|i: int|
                0 <= i < after.len() && (#[trigger] after[i]).bill_state
                    == BillState::Created implies after[i].finalized_data == BillDataView::empty() by {
                if i != at {
                    assert(after[i] == before[i]);
                }
            }
        }
    }
}

} // verus!
