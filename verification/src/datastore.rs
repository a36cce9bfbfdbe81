//! The aggregate: every entity and every index derived from them.
//!
//! Events are the only writers. What an event does is stated over
//! `DatastoreView`, the mathematical content of a `Datastore`.

use vstd::prelude::*;
use std::collections::HashMap;
use std::collections::HashSet;
use suffix_rs::MockKDTree;
use crate::bill::{bill_views, item_views, user_views, BillDataView, BillView};
use crate::catalog::{ItemView, UserView};
use crate::freeby::{freeby_views, ordered_by_freeby_id, FreebyView};
use crate::keyed::{balances_view, balances_wf, Balances, NameKey, NameKeyedMap, TextSet};
use crate::left_threaded_avl_tree::{AVLTree, ScoredIdTreeMock};
use crate::purchase::{ordered_by_time, purchase_views, PurchaseView};
use crate::indices::{index_items, index_users};
use crate::text_index::{build_index, index_case_sensitive, index_texts, searchable};

verus! {

broadcast use vstd::std_specs::hash::group_hash_axioms;

pub use crate::bill::{
    BillUserDayInstance,
    BillUserInstance,
    ExportableBillData,
    PaidFor,
    PricedSpecial,
};
pub use crate::bill::{Bill, BillState};
pub use crate::catalog::{matches_usergroup, Item, User, UserGroup};
pub use crate::freeby::{Freeby, FreebyAble};
pub use crate::purchase::{find_purchase_indices, Purchase, PurchaseFunctions};
pub use crate::queries::{DatastoreQueries, Purchaseable};

#[derive(Debug)]
pub struct Datastore {
    pub version: u64,
    pub user_id_counter: u32,
    pub freeby_id_counter: u64,
    pub item_id_counter: u32,
    pub users: HashMap<u32, User>,
    pub users_suffix_tree: MockKDTree,
    pub items: HashMap<u32, Item>,
    pub items_suffix_tree: MockKDTree,
    pub purchases: Vec<Purchase>,
    pub purchase_count: u64,
    pub bills: Vec<Bill>,
    pub top_user_scores: ScoredIdTreeMock,
    pub top_users: HashSet<u32>,
    pub highlighted_users: HashSet<u32>,
    pub top_drinks_per_user: HashMap<u32, HashSet<u32>>,
    pub drink_scores_per_user: HashMap<u32, ScoredIdTreeMock>,
    pub balance_cost_per_user: Balances,
    pub balance_count_per_user: Balances,
    pub used_up_freebies: Vec<Freeby>,
    pub open_freebies: HashMap<u32, Vec<Freeby>>,
    pub open_ffa: Vec<Freeby>,
    pub categories: TextSet,
}

/// What a substring index holds.
#[verifier::ext_equal]
pub ghost struct IndexView {
    pub texts: Map<u32, Seq<char>>,
    pub case_sensitive: bool,
}

/// The content of an index of `suffix_rs`.
pub open spec fn index_view(tree: MockKDTree) -> IndexView {
    IndexView { texts: index_texts(tree), case_sensitive: index_case_sensitive(tree) }
}

/// The content of a `Datastore`.
#[verifier::ext_equal]
pub ghost struct DatastoreView {
    pub version: u64,
    pub user_id_counter: u32,
    pub freeby_id_counter: u64,
    pub item_id_counter: u32,
    pub users: Map<u32, UserView>,
    pub users_index: IndexView,
    pub items: Map<u32, ItemView>,
    pub items_index: IndexView,
    pub purchases: Seq<PurchaseView>,
    pub purchase_count: u64,
    pub bills: Seq<BillView>,
    pub top_user_scores: Seq<(u32, u32)>,
    pub top_users: Set<u32>,
    pub highlighted_users: Set<u32>,
    pub top_drinks_per_user: Map<u32, Set<u32>>,
    pub drink_scores_per_user: Map<u32, Seq<(u32, u32)>>,
    pub balance_cost_per_user: Map<NameKey, Map<NameKey, u32>>,
    pub balance_count_per_user: Map<NameKey, Map<NameKey, u32>>,
    pub used_up_freebies: Seq<FreebyView>,
    pub open_freebies: Map<u32, Seq<FreebyView>>,
    pub open_ffa: Seq<FreebyView>,
    pub categories: Set<Seq<char>>,
}

/// The texts that the index over users holds: the name of each user who is
/// not deleted.
pub open spec fn active_user_texts(users: Map<u32, UserView>, case_sensitive: bool) -> Map<
    u32,
    Seq<char>,
> {
    Map::new(
        |id: u32| users.contains_key(id) && !users[id].deleted,
        |id: u32| searchable(case_sensitive, users[id].username),
    )
}

/// The texts that the index over items holds: the name of each item that is
/// not deleted.
pub open spec fn active_item_texts(items: Map<u32, ItemView>, case_sensitive: bool) -> Map<
    u32,
    Seq<char>,
> {
    Map::new(
        |id: u32| items.contains_key(id) && !items[id].deleted,
        |id: u32| searchable(case_sensitive, items[id].name),
    )
}

impl DatastoreView {
    /// Ids come from the counters: every user and item has an id below its
    /// counter, and carries the id under which it is kept.
    pub open spec fn ids_from_counters(self) -> bool {
        &&& forall|id: u32| #[trigger]
            self.users.contains_key(id) ==> id < self.user_id_counter && self.users[id].user_id == id
        &&& forall|id: u32| #[trigger]
            self.items.contains_key(id) ==> id < self.item_id_counter && self.items[id].item_id == id
    }

    /// The purchase list is ordered by time, and each purchase names a user
    /// and, unless it is a special, an item that exist.
    pub open spec fn purchases_sound(self) -> bool {
        &&& ordered_by_time(self.purchases)
        &&& forall|i: int|
            0 <= i < self.purchases.len() ==> self.users.contains_key(
                (#[trigger] self.purchases[i]).user_id(),
            )
        &&& forall|i: int|
            0 <= i < self.purchases.len() ==> ((#[trigger] self.purchases[i]).item_id() matches Some(
                item,
            ) ==> self.items.contains_key(item))
    }

    /// No freeby has more used than it was given; free-for-alls and personal
    /// freebies are kept apart, personal ones name a donor who exists, and the
    /// used-up ones are ordered by id.
    pub open spec fn freebies_sound(self) -> bool {
        &&& forall|i: int|
            0 <= i < self.open_ffa.len() ==> (#[trigger] self.open_ffa[i]) is FFA
                && self.open_ffa[i].wf()
        &&& forall|recipient: u32, i: int|
            self.open_freebies.contains_key(recipient) && 0 <= i
                < self.open_freebies[recipient].len() ==> {
                let freeby = #[trigger] self.open_freebies[recipient][i];
                &&& !(freeby is FFA)
                &&& freeby.wf()
                &&& self.users.contains_key(freeby.donor())
            }
        &&& forall|i: int|
            0 <= i < self.used_up_freebies.len() ==> (#[trigger] self.used_up_freebies[i]).wf()
        &&& ordered_by_freeby_id(self.used_up_freebies)
    }

    /// A bill that is not finalized records nothing yet.
    pub open spec fn bills_sound(self) -> bool {
        forall|i: int|
            0 <= i < self.bills.len() && (#[trigger] self.bills[i]).bill_state == BillState::Created
                ==> self.bills[i].finalized_data == BillDataView::empty()
    }

    /// Each user with an item ranking has a set of top items, and the other
    /// way round; only ids below the counter have them.
    pub open spec fn rankings_sound(self) -> bool {
        &&& self.top_drinks_per_user.dom() == self.drink_scores_per_user.dom()
        &&& forall|id: u32| #[trigger]
            self.drink_scores_per_user.contains_key(id) ==> id < self.user_id_counter
    }

    /// The substring indices hold the names of the users and items that are
    /// not deleted.
    pub open spec fn indices_current(self) -> bool {
        &&& self.users_index.texts == active_user_texts(self.users, self.users_index.case_sensitive)
        &&& self.items_index.texts == active_item_texts(self.items, self.items_index.case_sensitive)
    }

    /// All of the above.
    pub open spec fn wf(self) -> bool {
        &&& self.ids_from_counters()
        &&& self.purchases_sound()
        &&& self.freebies_sound()
        &&& self.bills_sound()
        &&& self.rankings_sound()
        &&& self.indices_current()
    }

    /// The aggregate before any event.
    pub open spec fn empty() -> DatastoreView {
        DatastoreView {
            version: 0,
            user_id_counter: 0,
            freeby_id_counter: 0,
            item_id_counter: 0,
            users: Map::empty(),
            users_index: IndexView { texts: Map::empty(), case_sensitive: true },
            items: Map::empty(),
            items_index: IndexView { texts: Map::empty(), case_sensitive: true },
            purchases: Seq::empty(),
            purchase_count: 0,
            bills: Seq::empty(),
            top_user_scores: Seq::empty(),
            top_users: Set::empty(),
            highlighted_users: Set::empty(),
            top_drinks_per_user: Map::empty(),
            drink_scores_per_user: Map::empty(),
            balance_cost_per_user: Map::empty(),
            balance_count_per_user: Map::empty(),
            used_up_freebies: Seq::empty(),
            open_freebies: Map::empty(),
            open_ffa: Seq::empty(),
            categories: Set::empty(),
        }
    }
}

impl View for Datastore {
    type V = DatastoreView;

    open spec fn view(&self) -> DatastoreView {
        DatastoreView {
            version: self.version,
            user_id_counter: self.user_id_counter,
            freeby_id_counter: self.freeby_id_counter,
            item_id_counter: self.item_id_counter,
            users: user_views(self.users@),
            users_index: index_view(self.users_suffix_tree),
            items: item_views(self.items@),
            items_index: index_view(self.items_suffix_tree),
            purchases: purchase_views(self.purchases@),
            purchase_count: self.purchase_count,
            bills: bill_views(self.bills@),
            top_user_scores: self.top_user_scores.entries(),
            top_users: self.top_users@,
            highlighted_users: self.highlighted_users@,
            top_drinks_per_user: self.top_drinks_per_user@.map_values(|s: HashSet<u32>| s@),
            drink_scores_per_user: self.drink_scores_per_user@.map_values(
                |t: ScoredIdTreeMock| t.entries(),
            ),
            balance_cost_per_user: balances_view(self.balance_cost_per_user),
            balance_count_per_user: balances_view(self.balance_count_per_user),
            used_up_freebies: freeby_views(self.used_up_freebies@),
            open_freebies: self.open_freebies@.map_values(|fs: Vec<Freeby>| freeby_views(fs@)),
            open_ffa: freeby_views(self.open_ffa@),
            categories: self.categories@,
        }
    }
}

impl Datastore {
    /// The representation is sound: rankings, balances and the category set
    /// hold no key twice.
    pub open spec fn repr_wf(&self) -> bool {
        &&& self.top_user_scores.wf()
        &&& forall|id: u32| #[trigger]
            self.drink_scores_per_user@.contains_key(id) ==> self.drink_scores_per_user@[id].wf()
        &&& balances_wf(self.balance_cost_per_user)
        &&& balances_wf(self.balance_count_per_user)
        &&& self.categories.wf()
    }

    /// The representation is sound and the content is well formed.
    pub open spec fn wf(&self) -> bool {
        self.repr_wf() && self@.wf()
    }

    /// What the content says of the keys holds of the maps themselves.
    pub proof fn lemma_keys(&self)
        requires
            self@.ids_from_counters(),
            self@.rankings_sound(),
        ensures
            forall|id: u32| #[trigger] self.users@.contains_key(id) ==> id < self.user_id_counter,
            forall|id: u32| #[trigger] self.items@.contains_key(id) ==> id < self.item_id_counter,
            forall|id: u32| #[trigger]
                self.drink_scores_per_user@.contains_key(id) ==> id < self.user_id_counter,
            self.top_drinks_per_user@.dom() == self.drink_scores_per_user@.dom(),
    {
        assert forall|id: u32| #[trigger] self.users@.contains_key(id) implies id
            < self.user_id_counter by {
            assert(self@.users.contains_key(id));
        }
        assert forall|id: u32| #[trigger] self.items@.contains_key(id) implies id
            < self.item_id_counter by {
            assert(self@.items.contains_key(id));
        }
        assert forall|id: u32| #[trigger] self.drink_scores_per_user@.contains_key(id) implies id
            < self.user_id_counter by {
            assert(self@.drink_scores_per_user.contains_key(id));
        }
        assert(self.top_drinks_per_user@.dom() =~= self@.top_drinks_per_user.dom());
        assert(self.drink_scores_per_user@.dom() =~= self@.drink_scores_per_user.dom());
    }
}

/// Whether an item is kept under an id.
pub trait Itemable {
    /// The items that are kept, by id.
    spec fn kept_items(&self) -> Set<u32>;

    fn has_item(&self, id: u32) -> (has: bool)
        ensures
            has == self.kept_items().contains(id),
    ;
}

/// Whether a user is kept under an id.
pub trait Userable {
    /// The users who are kept, by id.
    spec fn kept_users(&self) -> Set<u32>;

    fn has_user(&self, id: u32) -> (has: bool)
        ensures
            has == self.kept_users().contains(id),
    ;
}

impl Userable for Datastore {
    open spec fn kept_users(&self) -> Set<u32> {
        self@.users.dom()
    }

    fn has_user(&self, id: u32) -> (has: bool) {
        assert(self@.users.contains_key(id) == self.users@.contains_key(id));
        self.users.contains_key(&id)
    }
}

impl Itemable for Datastore {
    open spec fn kept_items(&self) -> Set<u32> {
        self@.items.dom()
    }

    fn has_item(&self, id: u32) -> (has: bool) {
        assert(self@.items.contains_key(id) == self.items@.contains_key(id));
        self.items.contains_key(&id)
    }
}

/// What builds the substring indices anew.
pub trait SuffixTreeRebuildable {
    /// The content whose indices are built.
    spec fn indexed(&self) -> DatastoreView;

    /// Builds the index over the users anew: afterwards it holds the name of
    /// each user who is not deleted, not case sensitive.
    fn rebuild_user_tree(&mut self)
        requires
            old(self).indexed().ids_from_counters(),
        ensures
            final(self).indexed() == (DatastoreView {
                users_index: IndexView {
                    texts: active_user_texts(old(self).indexed().users, false),
                    case_sensitive: false,
                },
                ..old(self).indexed()
            }),
    ;

    /// Builds the index over the items anew: afterwards it holds the name of
    /// each item that is not deleted, not case sensitive.
    fn rebuild_item_tree(&mut self)
        requires
            old(self).indexed().ids_from_counters(),
        ensures
            final(self).indexed() == (DatastoreView {
                items_index: IndexView {
                    texts: active_item_texts(old(self).indexed().items, false),
                    case_sensitive: false,
                },
                ..old(self).indexed()
            }),
    ;
}

impl SuffixTreeRebuildable for Datastore {
    open spec fn indexed(&self) -> DatastoreView {
        self@
    }

    fn rebuild_user_tree(&mut self) {
        assert forall|id: u32| #[trigger] self.users@.contains_key(id) implies id
            < self.user_id_counter by {
            assert(self@.users.contains_key(id));
        }
        self.users_suffix_tree = index_users(&self.users, self.user_id_counter);
        assert(self@ =~= (DatastoreView {
            users_index: IndexView {
                texts: active_user_texts(old(self)@.users, false),
                case_sensitive: false,
            },
            ..old(self)@
        }));
    }

    fn rebuild_item_tree(&mut self) {
        assert forall|id: u32| #[trigger] self.items@.contains_key(id) implies id
            < self.item_id_counter by {
            assert(self@.items.contains_key(id));
        }
        self.items_suffix_tree = index_items(&self.items, self.item_id_counter);
        assert(self@ =~= (DatastoreView {
            items_index: IndexView {
                texts: active_item_texts(old(self)@.items, false),
                case_sensitive: false,
            },
            ..old(self)@
        }));
    }
}

impl Default for Datastore {
    fn default() -> (store: Self)
        ensures
            store.wf(),
            store@ == DatastoreView::empty(),
    {
        let no_texts: Vec<(u32, String)> = Vec::new();
        let store = Datastore {
            users: HashMap::new(),
            users_suffix_tree: build_index(&no_texts, true),
            items: HashMap::new(),
            items_suffix_tree: build_index(&no_texts, true),
            purchases: Vec::new(),
            purchase_count: 0,
            bills: Vec::new(),
            top_user_scores: ScoredIdTreeMock::default(),
            top_users: HashSet::new(),
            highlighted_users: HashSet::new(),
            top_drinks_per_user: HashMap::new(),
            drink_scores_per_user: HashMap::new(),
            balance_cost_per_user: NameKeyedMap::new(),
            balance_count_per_user: NameKeyedMap::new(),
            used_up_freebies: Vec::new(),
            open_freebies: HashMap::new(),
            open_ffa: Vec::new(),
            user_id_counter: 0,
            freeby_id_counter: 0,
            item_id_counter: 0,
            categories: TextSet::new(),
            version: 0,
        };
        proof {
            assert(store@.users_index.texts =~= Map::<u32, Seq<char>>::empty());
            assert(store@.items_index.texts =~= Map::<u32, Seq<char>>::empty());
            assert(store@ =~= DatastoreView::empty());
            assert(active_user_texts(store@.users, true) =~= Map::<u32, Seq<char>>::empty());
            assert(active_item_texts(store@.items, true) =~= Map::<u32, Seq<char>>::empty());
        }
        store
    }
}

} // verus!
