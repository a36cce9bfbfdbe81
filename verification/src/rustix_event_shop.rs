//! The events: each says when it is valid and what it does to the aggregate.
//!
//! An event is applied only where it is valid and fits: where no counter
//! that it raises would leave its type, and where the aggregate holds what
//! the event reads.

use vstd::prelude::*;
use std::collections::HashSet;
use crate::catalog::UserGroup;
use crate::config::StaticConfig;
use crate::datastore::{Datastore, DatastoreView, Itemable, Userable};
use crate::views::{opt_text_view, texts_view};

verus! {

pub use crate::indices::hashset;

/// An event on the aggregate.
#[derive(Debug)]
pub enum BLEvents {
    CreateItem { itemname: String, price_cents: u32, category: Option<String> },
    CreateUser { username: String },
    UpdateUser {
        user_id: u32,
        username: String,
        is_billed: bool,
        is_highlighted: bool,
        external_user_id: Option<String>,
    },
    UpdateItem { item_id: u32, itemname: String, price_cents: u32, category: Option<String> },
    DeleteItem { item_id: u32 },
    DeleteUser { user_id: u32 },
    MakeSimplePurchase { user_id: u32, item_id: u32, timestamp: i64 },
    MakeShoppingCartPurchase { user_id: u32, specials: Vec<String>, item_ids: Vec<u32>, timestamp: i64 },
    MakeSpecialPurchase { user_id: u32, special_name: String, timestamp: i64 },
    MakeFreeForAllPurchase { ffa_id: u64, item_id: u32, timestamp: i64 },
    CreateFreeForAll {
        allowed_categories: Vec<String>,
        allowed_drinks: Vec<u32>,
        allowed_number_total: u16,
        text_message: String,
        created_timestamp: i64,
        donor: u32,
    },
    CreateFreeCount {
        allowed_categories: Vec<String>,
        allowed_drinks: Vec<u32>,
        allowed_number_total: u16,
        text_message: String,
        created_timestamp: i64,
        donor: u32,
        recipient: u32,
    },
    CreateFreeBudget {
        cents_worth_total: u64,
        text_message: String,
        created_timestamp: i64,
        donor: u32,
        recipient: u32,
    },
    UndoPurchase { unique_id: u64 },
    CreateBill { timestamp_from: i64, timestamp_to: i64, user_ids: UserGroup, comment: String },
    FinalizeBill { timestamp_from: i64, timestamp_to: i64 },
    ExportBill { timestamp_from: i64, timestamp_to: i64 },
    DeleteUnfinishedBill { timestamp_from: i64, timestamp_to: i64 },
    SetPriceForSpecial { unique_id: u64, price: u32 },
    UpdateBill {
        timestamp_from: i64,
        timestamp_to: i64,
        comment: String,
        users: UserGroup,
        users_that_will_not_be_billed: HashSet<u32>,
    },
}

/// What can be asked of an event, and what applying it does.
pub trait Event {
    /// The aggregate meets the precondition of the event.
    spec fn valid(&self, store: DatastoreView) -> bool;

    /// The event can be carried out on the aggregate within the limits of the
    /// machine: no counter that it raises is at its largest value, and what
    /// it takes back is there.
    spec fn fits(&self, store: DatastoreView) -> bool;

    /// The aggregate after the event, with top sets of the given sizes.
    spec fn applied(&self, store: DatastoreView, top_users: nat, top_items: nat) -> DatastoreView;

    /// What applying the event reports.
    spec fn outcome(&self, store: DatastoreView, top_users: nat, top_items: nat) -> bool;

    /// Whether the event is valid on the aggregate and fits.
    fn can_be_applied(&self, store: &Datastore) -> (can: bool)
        requires
            store.wf(),
        ensures
            can == (self.valid(store@) && self.fits(store@)),
    ;

    /// Carries out an event that is valid and fits. The version is left to
    /// whoever keeps the log.
    fn apply(&self, store: &mut Datastore, config: &StaticConfig) -> (outcome: bool)
        requires
            old(store).wf(),
            self.valid(old(store)@),
            self.fits(old(store)@),
        ensures
            final(store).wf(),
            final(store)@ == self.applied(
                old(store)@,
                config.users_in_top_users as nat,
                config.top_drinks_per_user as nat,
            ),
            outcome == self.outcome(
                old(store)@,
                config.users_in_top_users as nat,
                config.top_drinks_per_user as nat,
            ),
    ;
}

impl BLEvents {
    /// The aggregate meets the precondition of the event.
    pub open spec fn precondition(&self, store: DatastoreView) -> bool {
        match self {
            BLEvents::CreateItem { .. } => true,
            BLEvents::CreateUser { .. } => true,
            BLEvents::UpdateUser { user_id, .. } => store.users.contains_key(*user_id),
            BLEvents::UpdateItem { item_id, .. } => store.items.contains_key(*item_id),
            BLEvents::DeleteItem { item_id } => store.items.contains_key(*item_id),
            BLEvents::DeleteUser { user_id } => store.users.contains_key(*user_id),
            BLEvents::MakeSimplePurchase { user_id, item_id, timestamp } => store.simple_purchase_valid(
                *user_id,
                *item_id,
                *timestamp,
            ),
            BLEvents::MakeShoppingCartPurchase { user_id, specials, item_ids, timestamp } =>
                store.cart_valid(*user_id, item_ids@, specials@.len() as int, *timestamp),
            BLEvents::MakeSpecialPurchase { user_id, timestamp, .. } => store.special_purchase_valid(
                *user_id,
                *timestamp,
            ),
            BLEvents::MakeFreeForAllPurchase { ffa_id, item_id, timestamp } => store.ffa_purchase_valid(
                *ffa_id,
                *item_id,
                *timestamp,
            ),
            BLEvents::CreateFreeForAll { .. } => true,
            BLEvents::CreateFreeCount { donor, recipient, .. } => store.users.contains_key(*donor)
                && store.users.contains_key(*recipient),
            BLEvents::CreateFreeBudget { donor, recipient, .. } => store.users.contains_key(*donor)
                && store.users.contains_key(*recipient),
            BLEvents::UndoPurchase { unique_id } => store.has_purchase(*unique_id),
            BLEvents::CreateBill { timestamp_from, timestamp_to, .. } => store.create_bill_valid(
                *timestamp_from,
                *timestamp_to,
            ),
            BLEvents::FinalizeBill { timestamp_from, timestamp_to } => store.finalize_bill_valid(
                *timestamp_from,
                *timestamp_to,
            ),
            BLEvents::ExportBill { timestamp_from, timestamp_to } => store.has_finalized_bill(
                *timestamp_from,
                *timestamp_to,
            ),
            BLEvents::DeleteUnfinishedBill { timestamp_from, timestamp_to } => store.has_open_bill(
                *timestamp_from,
                *timestamp_to,
            ),
            BLEvents::SetPriceForSpecial { unique_id, .. } => store.has_purchase(*unique_id),
            BLEvents::UpdateBill { timestamp_from, timestamp_to, .. } => store.has_open_bill(
                *timestamp_from,
                *timestamp_to,
            ),
        }
    }

    /// No counter that the event raises is at its largest value, and what
    /// the event takes back is there.
    pub open spec fn within_limits(&self, store: DatastoreView) -> bool {
        match self {
            BLEvents::CreateItem { .. } => store.item_id_counter < u32::MAX,
            BLEvents::CreateUser { .. } => store.user_id_counter < u32::MAX,
            BLEvents::MakeSimplePurchase { user_id, item_id, .. } => store.simple_purchase_fits(
                *user_id,
                *item_id,
            ),
            BLEvents::MakeShoppingCartPurchase { user_id, specials, item_ids, .. } => store.cart_fits(
                *user_id,
                item_ids@,
                item_ids@.len() as int,
                specials@.len() as int,
            ),
            BLEvents::MakeSpecialPurchase { .. } => store.purchase_count < u64::MAX,
            BLEvents::MakeFreeForAllPurchase { ffa_id, item_id, .. } => store.ffa_purchase_fits(
                *ffa_id,
                *item_id,
            ),
            BLEvents::CreateFreeForAll { .. } => store.freeby_id_counter < u64::MAX,
            BLEvents::CreateFreeCount { .. } => store.freeby_id_counter < u64::MAX,
            BLEvents::CreateFreeBudget { .. } => store.freeby_id_counter < u64::MAX,
            BLEvents::UndoPurchase { unique_id } => store.undo_fits(*unique_id),
            BLEvents::FinalizeBill { timestamp_from, timestamp_to } => store.finalize_bill_fits(
                *timestamp_from,
                *timestamp_to,
            ),
            _ => true,
        }
    }

    /// The aggregate after the event, with top sets of the given sizes.
    pub open spec fn effect(&self, store: DatastoreView, top_users: nat, top_items: nat) -> DatastoreView {
        match self {
            BLEvents::CreateItem { itemname, price_cents, category } => store.create_item(
                itemname@,
                *price_cents,
                opt_text_view(*category),
                top_items,
            ),
            BLEvents::CreateUser { username } => store.create_user(username@, top_users, top_items),
            BLEvents::UpdateUser { user_id, username, is_billed, is_highlighted, external_user_id } =>
                store.update_user(
                    *user_id,
                    username@,
                    *is_billed,
                    *is_highlighted,
                    opt_text_view(*external_user_id),
                ),
            BLEvents::UpdateItem { item_id, itemname, price_cents, category } => store.update_item(
                *item_id,
                itemname@,
                *price_cents,
                opt_text_view(*category),
            ),
            BLEvents::DeleteItem { item_id } => store.delete_item(*item_id, top_items),
            BLEvents::DeleteUser { user_id } => store.delete_user(*user_id, top_users),
            BLEvents::MakeSimplePurchase { user_id, item_id, timestamp } => store.simple_purchase(
                *user_id,
                *item_id,
                *timestamp,
                top_users,
                top_items,
            ),
            BLEvents::MakeShoppingCartPurchase { user_id, specials, item_ids, timestamp } =>
                store.cart_purchase(
                    *user_id,
                    texts_view(specials@),
                    item_ids@,
                    *timestamp,
                    top_users,
                    top_items,
                ),
            BLEvents::MakeSpecialPurchase { user_id, special_name, timestamp } => store.special_purchase(
                *user_id,
                special_name@,
                *timestamp,
            ),
            BLEvents::MakeFreeForAllPurchase { ffa_id, item_id, timestamp } => store.ffa_purchase(
                *ffa_id,
                *item_id,
                *timestamp,
            ),
            BLEvents::CreateFreeForAll {
                allowed_categories,
                allowed_drinks,
                allowed_number_total,
                text_message,
                created_timestamp,
                donor,
            } => store.create_ffa(
                texts_view(allowed_categories@),
                allowed_drinks@,
                *allowed_number_total,
                text_message@,
                *created_timestamp,
                *donor,
            ),
            BLEvents::CreateFreeCount {
                allowed_categories,
                allowed_drinks,
                allowed_number_total,
                text_message,
                created_timestamp,
                donor,
                recipient,
            } => store.create_free_count(
                texts_view(allowed_categories@),
                allowed_drinks@,
                *allowed_number_total,
                text_message@,
                *created_timestamp,
                *donor,
                *recipient,
            ),
            BLEvents::CreateFreeBudget { cents_worth_total, text_message, created_timestamp, donor, recipient } =>
                store.create_free_budget(
                    *cents_worth_total,
                    text_message@,
                    *created_timestamp,
                    *donor,
                    *recipient,
                ),
            BLEvents::UndoPurchase { unique_id } => store.undo_purchase(*unique_id),
            BLEvents::CreateBill { timestamp_from, timestamp_to, user_ids, comment } => store.create_bill(
                *timestamp_from,
                *timestamp_to,
                user_ids@,
                comment@,
            ),
            BLEvents::FinalizeBill { timestamp_from, timestamp_to } => store.finalize_bill(
                *timestamp_from,
                *timestamp_to,
            ),
            BLEvents::ExportBill { timestamp_from, timestamp_to } => store.export_bill(
                *timestamp_from,
                *timestamp_to,
            ),
            BLEvents::DeleteUnfinishedBill { timestamp_from, timestamp_to } => store.delete_bill(
                *timestamp_from,
                *timestamp_to,
            ),
            BLEvents::SetPriceForSpecial { unique_id, price } => store.set_price(*unique_id, *price),
            BLEvents::UpdateBill { timestamp_from, timestamp_to, comment, users, users_that_will_not_be_billed } =>
                store.update_bill(
                    *timestamp_from,
                    *timestamp_to,
                    comment@,
                    users@,
                    users_that_will_not_be_billed@,
                ),
        }
    }

    /// What applying the event reports.
    pub open spec fn report(&self, store: DatastoreView, top_users: nat, top_items: nat) -> bool {
        match self {
            BLEvents::DeleteUser { user_id } => store.top_users.contains(*user_id),
            BLEvents::MakeSimplePurchase { user_id, .. } => store.simple_purchase_outcome(
                *user_id,
                top_users,
            ),
            BLEvents::MakeShoppingCartPurchase { user_id, item_ids, timestamp, .. } =>
                store.cart_items_outcome(*user_id, item_ids@, *timestamp, top_users, top_items),
            BLEvents::UndoPurchase { unique_id } => store.undo_outcome(*unique_id),
            BLEvents::SetPriceForSpecial { unique_id, .. } => store.purchases[crate::purchase::purchase_at(
                store.purchases,
                *unique_id,
            )].is_special(),
            _ => true,
        }
    }
}

impl Event for BLEvents {
    open spec fn valid(&self, store: DatastoreView) -> bool {
        self.precondition(store)
    }

    open spec fn fits(&self, store: DatastoreView) -> bool {
        self.within_limits(store)
    }

    open spec fn applied(&self, store: DatastoreView, top_users: nat, top_items: nat) -> DatastoreView {
        self.effect(store, top_users, top_items)
    }

    open spec fn outcome(&self, store: DatastoreView, top_users: nat, top_items: nat) -> bool {
        self.report(store, top_users, top_items)
    }

    fn can_be_applied(&self, store: &Datastore) -> (can: bool) {
        match self {
            BLEvents::CreateItem { .. } => store.item_id_counter < u32::MAX,
            BLEvents::CreateUser { .. } => store.user_id_counter < u32::MAX,
            BLEvents::UpdateUser { user_id, .. } => store.has_user(*user_id),
            BLEvents::UpdateItem { item_id, .. } => store.has_item(*item_id),
            BLEvents::DeleteItem { item_id } => store.has_item(*item_id),
            BLEvents::DeleteUser { user_id } => store.has_user(*user_id),
            BLEvents::MakeSimplePurchase { user_id, item_id, timestamp } => store.can_simple_purchase(
                *user_id,
                *item_id,
                *timestamp,
            ),
            BLEvents::MakeShoppingCartPurchase { user_id, specials, item_ids, timestamp } =>
                store.can_cart_purchase(*user_id, specials, item_ids, *timestamp),
            BLEvents::MakeSpecialPurchase { user_id, timestamp, .. } => store.can_special_purchase(
                *user_id,
                *timestamp,
            ),
            BLEvents::MakeFreeForAllPurchase { ffa_id, item_id, timestamp } => store.can_ffa_purchase(
                *ffa_id,
                *item_id,
                *timestamp,
            ),
            BLEvents::CreateFreeForAll { .. } => store.freeby_id_counter < u64::MAX,
            BLEvents::CreateFreeCount { donor, recipient, .. } => store.has_user(*donor)
                && store.has_user(*recipient) && store.freeby_id_counter < u64::MAX,
            BLEvents::CreateFreeBudget { donor, recipient, .. } => store.has_user(*donor)
                && store.has_user(*recipient) && store.freeby_id_counter < u64::MAX,
            BLEvents::UndoPurchase { unique_id } => store.can_undo_purchase(*unique_id),
            BLEvents::CreateBill { timestamp_from, timestamp_to, .. } => store.can_create_bill(
                *timestamp_from,
                *timestamp_to,
            ),
            BLEvents::FinalizeBill { timestamp_from, timestamp_to } => store.can_finalize_bill(
                *timestamp_from,
                *timestamp_to,
            ),
            BLEvents::ExportBill { timestamp_from, timestamp_to } => store.has_finalized_bill(
                *timestamp_from,
                *timestamp_to,
            ),
            BLEvents::DeleteUnfinishedBill { timestamp_from, timestamp_to } => store.has_open_bill(
                *timestamp_from,
                *timestamp_to,
            ),
            BLEvents::SetPriceForSpecial { unique_id, .. } => store.has_purchase(*unique_id),
            BLEvents::UpdateBill { timestamp_from, timestamp_to, .. } => store.has_open_bill(
                *timestamp_from,
                *timestamp_to,
            ),
        }
    }

    fn apply(&self, store: &mut Datastore, config: &StaticConfig) -> (outcome: bool) {
        match self {
            BLEvents::CreateItem { itemname, price_cents, category } => {
                store.apply_create_item(itemname, *price_cents, category, config);
                true
            },
            BLEvents::CreateUser { username } => {
                store.apply_create_user(username, config);
                true
            },
            BLEvents::UpdateUser { user_id, username, is_billed, is_highlighted, external_user_id } => {
                store.apply_update_user(*user_id, username, *is_billed, *is_highlighted, external_user_id);
                true
            },
            BLEvents::UpdateItem { item_id, itemname, price_cents, category } => {
                store.apply_update_item(*item_id, itemname, *price_cents, category);
                true
            },
            BLEvents::DeleteItem { item_id } => {
                store.apply_delete_item(*item_id, config);
                true
            },
            BLEvents::DeleteUser { user_id } => store.apply_delete_user(*user_id, config),
            BLEvents::MakeSimplePurchase { user_id, item_id, timestamp } => store.apply_simple_purchase(
                *user_id,
                *item_id,
                *timestamp,
                config,
            ),
            BLEvents::MakeShoppingCartPurchase { user_id, specials, item_ids, timestamp } =>
                store.apply_cart_purchase(*user_id, specials, item_ids, *timestamp, config),
            BLEvents::MakeSpecialPurchase { user_id, special_name, timestamp } => {
                store.apply_special_purchase(*user_id, special_name, *timestamp);
                true
            },
            BLEvents::MakeFreeForAllPurchase { ffa_id, item_id, timestamp } => {
                store.apply_ffa_purchase(*ffa_id, *item_id, *timestamp);
                true
            },
            BLEvents::CreateFreeForAll {
                allowed_categories,
                allowed_drinks,
                allowed_number_total,
                text_message,
                created_timestamp,
                donor,
            } => {
                store.apply_create_ffa(
                    allowed_categories,
                    allowed_drinks,
                    *allowed_number_total,
                    text_message,
                    *created_timestamp,
                    *donor,
                );
                true
            },
            BLEvents::CreateFreeCount {
                allowed_categories,
                allowed_drinks,
                allowed_number_total,
                text_message,
                created_timestamp,
                donor,
                recipient,
            } => {
                store.apply_create_free_count(
                    allowed_categories,
                    allowed_drinks,
                    *allowed_number_total,
                    text_message,
                    *created_timestamp,
                    *donor,
                    *recipient,
                );
                true
            },
            BLEvents::CreateFreeBudget { cents_worth_total, text_message, created_timestamp, donor, recipient } => {
                store.apply_create_free_budget(
                    *cents_worth_total,
                    text_message,
                    *created_timestamp,
                    *donor,
                    *recipient,
                );
                true
            },
            BLEvents::UndoPurchase { unique_id } => store.apply_undo_purchase(*unique_id),
            BLEvents::CreateBill { timestamp_from, timestamp_to, user_ids, comment } => {
                store.apply_create_bill(*timestamp_from, *timestamp_to, user_ids, comment);
                true
            },
            BLEvents::FinalizeBill { timestamp_from, timestamp_to } => {
                store.apply_finalize_bill(*timestamp_from, *timestamp_to);
                true
            },
            BLEvents::ExportBill { timestamp_from, timestamp_to } => {
                store.apply_export_bill(*timestamp_from, *timestamp_to);
                true
            },
            BLEvents::DeleteUnfinishedBill { timestamp_from, timestamp_to } => {
                store.apply_delete_bill(*timestamp_from, *timestamp_to);
                true
            },
            BLEvents::SetPriceForSpecial { unique_id, price } => store.apply_set_price(*unique_id, *price),
            BLEvents::UpdateBill { timestamp_from, timestamp_to, comment, users, users_that_will_not_be_billed } => {
                store.apply_update_bill(
                    *timestamp_from,
                    *timestamp_to,
                    comment,
                    users,
                    users_that_will_not_be_billed,
                );
                true
            },
        }
    }
}

} // verus!
