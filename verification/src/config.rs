//! Static configuration of a backend.

use vstd::prelude::*;

verus! {

/// Options that shape paging, the sizes of the materialized top sets, and
/// whether events are written to a durable log.
#[derive(Debug)]
pub struct StaticConfig {
    pub users_per_page: usize,
    pub users_in_top_users: usize,
    pub top_drinks_per_user: usize,
    pub use_persistence: bool,
    pub persistence_file_path: String,
}

impl StaticConfig {
    /// The configuration of a backend that logs its events below `filepath`.
    pub fn default_persistence(filepath: &str) -> (config: Self)
        ensures
            config.users_per_page == 40,
            config.users_in_top_users == 40,
            config.top_drinks_per_user == 4,
            config.use_persistence,
            config.persistence_file_path@ == filepath@,
    {
        StaticConfig {
            users_per_page: 40,
            users_in_top_users: 40,
            top_drinks_per_user: 4,
            use_persistence: true,
            persistence_file_path: filepath.to_owned(),
        }
    }
}

impl Default for StaticConfig {
    /// The configuration of a purely in-memory backend.
    fn default() -> (config: Self)
        ensures
            config.users_per_page == 20,
            config.users_in_top_users == 20,
            config.top_drinks_per_user == 4,
            !config.use_persistence,
            config.persistence_file_path@ == Seq::<char>::empty(),
    {
        StaticConfig {
            users_per_page: 20,
            users_in_top_users: 20,
            top_drinks_per_user: 4,
            use_persistence: false,
            persistence_file_path: String::new(),
        }
    }
}

} // verus!
