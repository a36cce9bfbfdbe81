//! An event-sourced consumption ledger: users purchase items, donors hand out
//! freebies, and bills close out time windows. Every change to the in-memory
//! aggregate is an event that is validated, then applied.

use vstd::prelude::*;

pub mod bill;
pub mod bill_events;
pub mod cart_events;
pub mod catalog;
pub mod catalog_events;
pub mod config;
pub mod datastore;
pub mod errors;
pub mod finalize;
pub mod freeby;
pub mod freeby_events;
pub mod indices;
pub mod keyed;
pub mod laws;
pub mod ledger_events;
pub mod left_threaded_avl_tree;
pub mod persistencer;
pub mod purchase;
pub mod queries;
pub mod restore;
pub mod rustix_backend;
pub mod rustix_event_shop;
pub mod search;
pub mod tally;
pub mod text_index;
pub mod views;

verus! {

/// A backend without persistence, with 20 users on a page and among the top
/// users.
pub fn build_transient_backend() -> (backend: rustix_backend::RustixBackend)
    ensures
        backend.datastore.wf(),
        backend.datastore@ == datastore::DatastoreView::empty(),
        !backend.persistencer.config.use_persistence,
        backend.persistencer.config.users_per_page == 20,
        backend.persistencer.config.users_in_top_users == 20,
        backend.persistencer.config.top_drinks_per_user == 4,
{
    build_transient_backend_with(20, 20)
}

/// A backend without persistence, with the given numbers of users on a page
/// and among the top users, and four top items for each user.
pub fn build_transient_backend_with(users_per_page: u8, top_users: u8) -> (backend:
    rustix_backend::RustixBackend)
    ensures
        backend.datastore.wf(),
        backend.datastore@ == datastore::DatastoreView::empty(),
        !backend.persistencer.config.use_persistence,
        backend.persistencer.config.users_per_page == users_per_page,
        backend.persistencer.config.users_in_top_users == top_users,
        backend.persistencer.config.top_drinks_per_user == 4,
{
    let mut config = config::StaticConfig::default();
    config.users_per_page = users_per_page as usize;
    config.users_in_top_users = top_users as usize;
    config.top_drinks_per_user = 4;
    rustix_backend::RustixBackend {
        datastore: datastore::Datastore::default(),
        persistencer: persistencer::FilePersister::new(config),
    }
}

/// A backend whose events belong into a log below `dir`; the log is kept by
/// whoever opens it there.
pub fn build_persistent_backend(dir: &str) -> (backend: rustix_backend::RustixBackend)
    ensures
        backend.datastore.wf(),
        backend.datastore@ == datastore::DatastoreView::empty(),
        backend.persistencer.config.use_persistence,
        backend.persistencer.config.persistence_file_path@ == dir@,
        backend.persistencer.config.users_per_page == 40,
        backend.persistencer.config.users_in_top_users == 40,
        backend.persistencer.config.top_drinks_per_user == 4,
{
    let config = config::StaticConfig::default_persistence(dir);
    rustix_backend::RustixBackend {
        datastore: datastore::Datastore::default(),
        persistencer: persistencer::FilePersister::new(config),
    }
}

} // verus!
