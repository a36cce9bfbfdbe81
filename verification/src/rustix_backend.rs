//! A backend: the aggregate together with the pipeline that events go
//! through, and one emitter for each event.

use vstd::prelude::*;
use vstd::string::StringExecFns;
use crate::catalog::UserGroup;
use crate::datastore::{Datastore, DatastoreView};
use crate::persistencer::{replayed, FilePersister, Persistencer};
use crate::rustix_event_shop::BLEvents;

verus! {

#[derive(Debug)]
pub struct RustixBackend {
    pub datastore: Datastore,
    pub persistencer: FilePersister,
}

/// What changes the aggregate of a backend: each emitter builds its event and
/// sends it through the pipeline.
pub trait WriteBackend {
    /// The aggregate is well formed.
    spec fn wf(&self) -> bool;

    /// The content of the aggregate.
    spec fn content(&self) -> DatastoreView;

    /// The backend accepts the event: it is valid, fits, and needs no log.
    spec fn accepts(&self, event: BLEvents) -> bool;

    /// The content after the event was accepted: the event applied, under
    /// the next version.
    spec fn content_after(&self, event: BLEvents) -> DatastoreView;

    /// The backend with another aggregate accepts the same events with the
    /// same outcome, as far as its configuration goes.
    spec fn same_settings(&self, other: &Self) -> bool;

    /// Sends an event through the pipeline; says whether it was accepted. A
    /// rejected event changes nothing.
    fn apply(&mut self, event: &BLEvents) -> (accepted: bool)
        requires
            old(self).wf(),
        ensures
            final(self).wf(),
            final(self).same_settings(old(self)),
            accepted == old(self).accepts(*event),
            final(self).content() == if accepted {
                old(self).content_after(*event)
            } else {
                old(self).content()
            },
    ;

    fn create_bill(&mut self, timestamp_from: i64, timestamp_to: i64, user_ids: UserGroup, comment: String) -> (accepted: bool)
        requires
            old(self).wf(),
        ensures
            final(self).wf(),
            final(self).same_settings(old(self)),
            accepted == old(self).accepts(
                (BLEvents::CreateBill { timestamp_from, timestamp_to, user_ids, comment }),
            ),
            final(self).content() == if accepted {
                old(self).content_after(
                    (BLEvents::CreateBill { timestamp_from, timestamp_to, user_ids, comment }),
                )
            } else {
                old(self).content()
            },
    ;

    fn create_item(&mut self, itemname: String, price_cents: u32, category: Option<String>) -> (accepted: bool)
        requires
            old(self).wf(),
        ensures
            final(self).wf(),
            final(self).same_settings(old(self)),
            accepted == old(self).accepts((BLEvents::CreateItem { itemname, price_cents, category })),
            final(self).content() == if accepted {
                old(self).content_after((BLEvents::CreateItem { itemname, price_cents, category }))
            } else {
                old(self).content()
            },
    ;

    fn create_user(&mut self, username: String) -> (accepted: bool)
        requires
            old(self).wf(),
        ensures
            final(self).wf(),
            final(self).same_settings(old(self)),
            accepted == old(self).accepts((BLEvents::CreateUser { username })),
            final(self).content() == if accepted {
                old(self).content_after((BLEvents::CreateUser { username }))
            } else {
                old(self).content()
            },
    ;

    fn update_item(
        &mut self,
        item_id: u32,
        itemname: String,
        price_cents: u32,
        category: Option<String>,
    ) -> (accepted: bool)
        requires
            old(self).wf(),
        ensures
            final(self).wf(),
            final(self).same_settings(old(self)),
            accepted == old(self).accepts(
                (BLEvents::UpdateItem { item_id, itemname, price_cents, category }),
            ),
            final(self).content() == if accepted {
                old(self).content_after(
                    (BLEvents::UpdateItem { item_id, itemname, price_cents, category }),
                )
            } else {
                old(self).content()
            },
    ;

    fn update_user(
        &mut self,
        user_id: u32,
        username: String,
        is_billed: bool,
        is_highlighted: bool,
        external_user_id: Option<String>,
    ) -> (accepted: bool)
        requires
            old(self).wf(),
        ensures
            final(self).wf(),
            final(self).same_settings(old(self)),
            accepted == old(self).accepts(
                (BLEvents::UpdateUser { user_id, username, is_billed, is_highlighted, external_user_id }),
            ),
            final(self).content() == if accepted {
                old(self).content_after(
                    (BLEvents::UpdateUser { user_id, username, is_billed, is_highlighted, external_user_id }),
                )
            } else {
                old(self).content()
            },
    ;

    fn delete_user(&mut self, user_id: u32) -> (accepted: bool)
        requires
            old(self).wf(),
        ensures
            final(self).wf(),
            final(self).same_settings(old(self)),
            accepted == old(self).accepts((BLEvents::DeleteUser { user_id })),
            final(self).content() == if accepted {
                old(self).content_after((BLEvents::DeleteUser { user_id }))
            } else {
                old(self).content()
            },
    ;

    fn delete_item(&mut self, item_id: u32) -> (accepted: bool)
        requires
            old(self).wf(),
        ensures
            final(self).wf(),
            final(self).same_settings(old(self)),
            accepted == old(self).accepts((BLEvents::DeleteItem { item_id })),
            final(self).content() == if accepted {
                old(self).content_after((BLEvents::DeleteItem { item_id }))
            } else {
                old(self).content()
            },
    ;

    fn purchase(&mut self, user_id: u32, item_id: u32, millis_timestamp: i64) -> (accepted: bool)
        requires
            old(self).wf(),
        ensures
            final(self).wf(),
            final(self).same_settings(old(self)),
            accepted == old(self).accepts(
                (BLEvents::MakeSimplePurchase { user_id, item_id, timestamp: millis_timestamp }),
            ),
            final(self).content() == if accepted {
                old(self).content_after(
                    (BLEvents::MakeSimplePurchase { user_id, item_id, timestamp: millis_timestamp }),
                )
            } else {
                old(self).content()
            },
    ;

    fn special_purchase(&mut self, user_id: u32, special_name: String, millis_timestamp: i64) -> (accepted: bool)
        requires
            old(self).wf(),
        ensures
            final(self).wf(),
            final(self).same_settings(old(self)),
            accepted == old(self).accepts(
                (BLEvents::MakeSpecialPurchase { user_id, special_name, timestamp: millis_timestamp }),
            ),
            final(self).content() == if accepted {
                old(self).content_after(
                    (BLEvents::MakeSpecialPurchase { user_id, special_name, timestamp: millis_timestamp }),
                )
            } else {
                old(self).content()
            },
    ;

    fn cart_purchase(
        &mut self,
        user_id: u32,
        specials: Vec<String>,
        item_ids: Vec<u32>,
        millis_timestamp: i64,
    ) -> (accepted: bool)
        requires
            old(self).wf(),
        ensures
            final(self).wf(),
            final(self).same_settings(old(self)),
            accepted == old(self).accepts(
                (BLEvents::MakeShoppingCartPurchase {
                    user_id,
                    specials,
                    item_ids,
                    timestamp: millis_timestamp,
                }),
            ),
            final(self).content() == if accepted {
                old(self).content_after(
                    (BLEvents::MakeShoppingCartPurchase {
                        user_id,
                        specials,
                        item_ids,
                        timestamp: millis_timestamp,
                    }),
                )
            } else {
                old(self).content()
            },
    ;

    fn ffa_purchase(&mut self, ffa_id: u64, item_id: u32, millis_timestamp: i64) -> (accepted: bool)
        requires
            old(self).wf(),
        ensures
            final(self).wf(),
            final(self).same_settings(old(self)),
            accepted == old(self).accepts(
                (BLEvents::MakeFreeForAllPurchase { ffa_id, item_id, timestamp: millis_timestamp }),
            ),
            final(self).content() == if accepted {
                old(self).content_after(
                    (BLEvents::MakeFreeForAllPurchase { ffa_id, item_id, timestamp: millis_timestamp }),
                )
            } else {
                old(self).content()
            },
    ;

    fn create_ffa(
        &mut self,
        allowed_categories: Vec<String>,
        allowed_drinks: Vec<u32>,
        allowed_number_total: u16,
        text_message: String,
        created_timestamp: i64,
        donor: u32,
    ) -> (accepted: bool)
        requires
            old(self).wf(),
        ensures
            final(self).wf(),
            final(self).same_settings(old(self)),
            accepted == old(self).accepts(
                (BLEvents::CreateFreeForAll {
                    allowed_categories,
                    allowed_drinks,
                    allowed_number_total,
                    text_message,
                    created_timestamp,
                    donor,
                }),
            ),
            final(self).content() == if accepted {
                old(self).content_after(
                    (BLEvents::CreateFreeForAll {
                        allowed_categories,
                        allowed_drinks,
                        allowed_number_total,
                        text_message,
                        created_timestamp,
                        donor,
                    }),
                )
            } else {
                old(self).content()
            },
    ;

    fn create_free_budget(
        &mut self,
        cents_worth_total: u64,
        text_message: String,
        created_timestamp: i64,
        donor: u32,
        recipient: u32,
    ) -> (accepted: bool)
        requires
            old(self).wf(),
        ensures
            final(self).wf(),
            final(self).same_settings(old(self)),
            accepted == old(self).accepts(
                (BLEvents::CreateFreeBudget {
                    cents_worth_total,
                    text_message,
                    created_timestamp,
                    donor,
                    recipient,
                }),
            ),
            final(self).content() == if accepted {
                old(self).content_after(
                    (BLEvents::CreateFreeBudget {
                        cents_worth_total,
                        text_message,
                        created_timestamp,
                        donor,
                        recipient,
                    }),
                )
            } else {
                old(self).content()
            },
    ;

    fn create_free_count(
        &mut self,
        allowed_categories: Vec<String>,
        allowed_drinks: Vec<u32>,
        allowed_number_total: u16,
        text_message: String,
        created_timestamp: i64,
        donor: u32,
        recipient: u32,
    ) -> (accepted: bool)
        requires
            old(self).wf(),
        ensures
            final(self).wf(),
            final(self).same_settings(old(self)),
            accepted == old(self).accepts(
                (BLEvents::CreateFreeCount {
                    allowed_categories,
                    allowed_drinks,
                    allowed_number_total,
                    text_message,
                    created_timestamp,
                    donor,
                    recipient,
                }),
            ),
            final(self).content() == if accepted {
                old(self).content_after(
                    (BLEvents::CreateFreeCount {
                        allowed_categories,
                        allowed_drinks,
                        allowed_number_total,
                        text_message,
                        created_timestamp,
                        donor,
                        recipient,
                    }),
                )
            } else {
                old(self).content()
            },
    ;

    fn undo_purchase(&mut self, unique_id: u64) -> (accepted: bool)
        requires
            old(self).wf(),
        ensures
            final(self).wf(),
            final(self).same_settings(old(self)),
            accepted == old(self).accepts((BLEvents::UndoPurchase { unique_id })),
            final(self).content() == if accepted {
                old(self).content_after((BLEvents::UndoPurchase { unique_id }))
            } else {
                old(self).content()
            },
    ;
}

impl RustixBackend {
    /// Where a snapshot of the aggregate belongs, and the version that
    /// writing it reports: `snapshot.json` below the directory of the
    /// backend. `None` for a backend without persistence, which writes no
    /// snapshot.
    pub fn snapshot_target(&self) -> (target: Option<(String, u64)>)
        ensures
            target.is_some() == self.persistencer.config.use_persistence,
            target matches Some(to) ==> to.0@ == self.persistencer.config.persistence_file_path@
                + "/snapshot.json"@ && to.1 == self.datastore.version,
    {
        if !self.persistencer.config.use_persistence {
            return None;
        }
        let filepath = self.persistencer.config.persistence_file_path.clone().concat("/snapshot.json");
        Some((filepath, self.datastore.version))
    }

    /// Replaces the aggregate by one that was read from a snapshot, with its
    /// substring indices built anew, and returns its version; `None`, and no
    /// change, for an aggregate that is not restorable.
    pub fn install_snapshot(&mut self, datastore: Datastore) -> (version: Option<u64>)
        ensures
            version == if datastore.restorable() {
                Some(datastore.version)
            } else {
                None
            },
            final(self).persistencer == old(self).persistencer,
            datastore.restorable() ==> final(self).datastore.wf() && final(self).datastore@
                == (DatastoreView {
                users_index: datastore@.fresh_users_index(),
                items_index: datastore@.fresh_items_index(),
                ..datastore@
            }),
            !datastore.restorable() ==> final(self).datastore == old(self).datastore,
    {
        let mut datastore = datastore;
        if datastore.restore() {
            let version = datastore.version;
            self.datastore = datastore;
            Some(version)
        } else {
            None
        }
    }

    /// Applies the events that a log holds beyond the version of the
    /// aggregate, in their order, and returns the version afterwards.
    pub fn replay(&mut self, events: &Vec<BLEvents>) -> (version: u64)
        requires
            old(self).datastore.wf(),
        ensures
            final(self).datastore.wf(),
            final(self).persistencer == old(self).persistencer,
            final(self).datastore@ == replayed(
                events@,
                old(self).datastore@,
                old(self).persistencer.config.users_in_top_users as nat,
                old(self).persistencer.config.top_drinks_per_user as nat,
            ),
            version == final(self).datastore.version,
    {
        self.persistencer.replay(events, &mut self.datastore)
    }
}

impl WriteBackend for RustixBackend {
    open spec fn wf(&self) -> bool {
        self.datastore.wf()
    }

    open spec fn content(&self) -> DatastoreView {
        self.datastore@
    }

    open spec fn accepts(&self, event: BLEvents) -> bool {
        &&& event.precondition(self.datastore@)
        &&& event.within_limits(self.datastore@)
        &&& self.datastore.version < u64::MAX
        &&& !self.persistencer.config.use_persistence
    }

    open spec fn content_after(&self, event: BLEvents) -> DatastoreView {
        DatastoreView {
            version: (self.datastore.version + 1) as u64,
            ..event.effect(
                self.datastore@,
                self.persistencer.config.users_in_top_users as nat,
                self.persistencer.config.top_drinks_per_user as nat,
            )
        }
    }

    open spec fn same_settings(&self, other: &Self) -> bool {
        &&& self.persistencer.config.users_in_top_users == other.persistencer.config.users_in_top_users
        &&& self.persistencer.config.top_drinks_per_user == other.persistencer.config.top_drinks_per_user
        &&& self.persistencer.config.use_persistence == other.persistencer.config.use_persistence
    }

    fn apply(&mut self, event: &BLEvents) -> (accepted: bool) {
        self.persistencer.test_store_apply(event, &mut self.datastore)
    }

    fn create_bill(&mut self, timestamp_from: i64, timestamp_to: i64, user_ids: UserGroup, comment: String) -> (accepted: bool) {
        self.persistencer.test_store_apply(
            &BLEvents::CreateBill { timestamp_from, timestamp_to, user_ids, comment },
            &mut self.datastore,
        )
    }

    fn create_item(&mut self, itemname: String, price_cents: u32, category: Option<String>) -> (accepted: bool) {
        self.persistencer.test_store_apply(
            &BLEvents::CreateItem { itemname, price_cents, category },
            &mut self.datastore,
        )
    }

    fn create_user(&mut self, username: String) -> (accepted: bool) {
        self.persistencer.test_store_apply(&BLEvents::CreateUser { username }, &mut self.datastore)
    }

    fn update_item(
        &mut self,
        item_id: u32,
        itemname: String,
        price_cents: u32,
        category: Option<String>,
    ) -> (accepted: bool) {
        self.persistencer.test_store_apply(
            &BLEvents::UpdateItem { item_id, itemname, price_cents, category },
            &mut self.datastore,
        )
    }

    fn update_user(
        &mut self,
        user_id: u32,
        username: String,
        is_billed: bool,
        is_highlighted: bool,
        external_user_id: Option<String>,
    ) -> (accepted: bool) {
        self.persistencer.test_store_apply(
            &BLEvents::UpdateUser { user_id, username, is_billed, is_highlighted, external_user_id },
            &mut self.datastore,
        )
    }

    fn delete_user(&mut self, user_id: u32) -> (accepted: bool) {
        self.persistencer.test_store_apply(&BLEvents::DeleteUser { user_id }, &mut self.datastore)
    }

    fn delete_item(&mut self, item_id: u32) -> (accepted: bool) {
        self.persistencer.test_store_apply(&BLEvents::DeleteItem { item_id }, &mut self.datastore)
    }

    fn purchase(&mut self, user_id: u32, item_id: u32, millis_timestamp: i64) -> (accepted: bool) {
        self.persistencer.test_store_apply(
            &BLEvents::MakeSimplePurchase { user_id, item_id, timestamp: millis_timestamp },
            &mut self.datastore,
        )
    }

    fn special_purchase(&mut self, user_id: u32, special_name: String, millis_timestamp: i64) -> (accepted: bool) {
        self.persistencer.test_store_apply(
            &BLEvents::MakeSpecialPurchase { user_id, special_name, timestamp: millis_timestamp },
            &mut self.datastore,
        )
    }

    fn cart_purchase(
        &mut self,
        user_id: u32,
        specials: Vec<String>,
        item_ids: Vec<u32>,
        millis_timestamp: i64,
    ) -> (accepted: bool) {
        self.persistencer.test_store_apply(
            &BLEvents::MakeShoppingCartPurchase { user_id, specials, item_ids, timestamp: millis_timestamp },
            &mut self.datastore,
        )
    }

    fn ffa_purchase(&mut self, ffa_id: u64, item_id: u32, millis_timestamp: i64) -> (accepted: bool) {
        self.persistencer.test_store_apply(
            &BLEvents::MakeFreeForAllPurchase { ffa_id, item_id, timestamp: millis_timestamp },
            &mut self.datastore,
        )
    }

    fn create_ffa(
        &mut self,
        allowed_categories: Vec<String>,
        allowed_drinks: Vec<u32>,
        allowed_number_total: u16,
        text_message: String,
        created_timestamp: i64,
        donor: u32,
    ) -> (accepted: bool) {
        self.persistencer.test_store_apply(
            &BLEvents::CreateFreeForAll {
                allowed_categories,
                allowed_drinks,
                allowed_number_total,
                text_message,
                created_timestamp,
                donor,
            },
            &mut self.datastore,
        )
    }

    fn create_free_budget(
        &mut self,
        cents_worth_total: u64,
        text_message: String,
        created_timestamp: i64,
        donor: u32,
        recipient: u32,
    ) -> (accepted: bool) {
        self.persistencer.test_store_apply(
            &BLEvents::CreateFreeBudget { cents_worth_total, text_message, created_timestamp, donor, recipient },
            &mut self.datastore,
        )
    }

    fn create_free_count(
        &mut self,
        allowed_categories: Vec<String>,
        allowed_drinks: Vec<u32>,
        allowed_number_total: u16,
        text_message: String,
        created_timestamp: i64,
        donor: u32,
        recipient: u32,
    ) -> (accepted: bool) {
        self.persistencer.test_store_apply(
            &BLEvents::CreateFreeCount {
                allowed_categories,
                allowed_drinks,
                allowed_number_total,
                text_message,
                created_timestamp,
                donor,
                recipient,
            },
            &mut self.datastore,
        )
    }

    fn undo_purchase(&mut self, unique_id: u64) -> (accepted: bool) {
        self.persistencer.test_store_apply(&BLEvents::UndoPurchase { unique_id }, &mut self.datastore)
    }
}

} // verus!
