//! What the events on users and items do to the aggregate.

use vstd::prelude::*;
use std::collections::HashMap;
use crate::bill::{item_views, user_views};
use crate::catalog::{Item, ItemView, User, UserView};
use crate::config::StaticConfig;
use crate::datastore::{active_item_texts, active_user_texts, Datastore, DatastoreView, IndexView};
use crate::indices::{
    active_items,
    extract_top_set,
    index_items,
    index_users,
    rerank_item,
    reranked,
    seed_item_scores,
    seeded_scores,
    top_set,
    top_sets,
};
use crate::left_threaded_avl_tree::AVLTree;
use crate::views::{clone_opt_text, opt_text_view};

verus! {

broadcast use vstd::std_specs::hash::group_hash_axioms;

/// Each ranking with `item` added at score 0, or with `item` taken out.
pub open spec fn reranked_all(scores: Map<u32, Seq<(u32, u32)>>, item: u32, add: bool) -> Map<
    u32,
    Seq<(u32, u32)>,
> {
    scores.map_values(|entries: Seq<(u32, u32)>| reranked(entries, item, add))
}

/// Some item that is not deleted has the category.
pub open spec fn category_in_use(items: Map<u32, ItemView>, category: Seq<char>) -> bool {
    exists|id: u32| #[trigger]
        items.contains_key(id) && !items[id].deleted && items[id].category == Some(category)
}

impl DatastoreView {
    /// The index over the users, built anew.
    pub open spec fn fresh_users_index(self) -> IndexView {
        IndexView { texts: active_user_texts(self.users, false), case_sensitive: false }
    }

    /// The index over the items, built anew.
    pub open spec fn fresh_items_index(self) -> IndexView {
        IndexView { texts: active_item_texts(self.items, false), case_sensitive: false }
    }

    /// A new item under the next item id: it joins the ranking of every user
    /// at score 0, the top items of every user are read off anew, its
    /// category joins the categories, and the index over the items is built
    /// anew.
    pub open spec fn create_item(
        self,
        name: Seq<char>,
        cents: u32,
        category: Option<Seq<char>>,
        top_items: nat,
    ) -> DatastoreView {
        let id = self.item_id_counter;
        let scores = reranked_all(self.drink_scores_per_user, id, true);
        let added = DatastoreView {
            categories: match category {
                Some(c) => self.categories.insert(c),
                None => self.categories,
            },
            items: self.items.insert(
                id,
                ItemView { name, item_id: id, category, cost_cents: cents, deleted: false },
            ),
            item_id_counter: (id + 1) as u32,
            drink_scores_per_user: scores,
            top_drinks_per_user: top_sets(scores, top_items),
            ..self
        };
        DatastoreView { items_index: added.fresh_items_index(), ..added }
    }

    /// A new user under the next user id, billed and not highlighted: they
    /// get a ranking of every item that is not deleted, at score 0, with the
    /// top items read off it; they join the ranking of the users at score 0,
    /// the top users are read off anew, and the index over the users is built
    /// anew.
    pub open spec fn create_user(self, name: Seq<char>, top_users: nat, top_items: nat) -> DatastoreView {
        let id = self.user_id_counter;
        let seeded = seeded_scores(active_items(self.items), self.item_id_counter as nat);
        let scores = reranked(self.top_user_scores, id, true);
        let added = DatastoreView {
            users: self.users.insert(
                id,
                UserView {
                    username: name,
                    external_user_id: None,
                    user_id: id,
                    is_billed: true,
                    highlight_in_ui: false,
                    deleted: false,
                },
            ),
            user_id_counter: (id + 1) as u32,
            drink_scores_per_user: self.drink_scores_per_user.insert(id, seeded),
            top_drinks_per_user: self.top_drinks_per_user.insert(id, top_set(seeded, top_items)),
            top_user_scores: scores,
            top_users: top_set(scores, top_users),
            ..self
        };
        DatastoreView { users_index: added.fresh_users_index(), ..added }
    }

    /// The item with a new name, price and category; the index over the items
    /// is built anew.
    pub open spec fn update_item(
        self,
        item_id: u32,
        name: Seq<char>,
        cents: u32,
        category: Option<Seq<char>>,
    ) -> DatastoreView {
        let changed = DatastoreView {
            items: self.items.insert(
                item_id,
                ItemView { name, cost_cents: cents, category, ..self.items[item_id] },
            ),
            ..self
        };
        DatastoreView { items_index: changed.fresh_items_index(), ..changed }
    }

    /// The user with a new name, external id and flags; they are in the set
    /// of highlighted users exactly if the new flag says so, and the index
    /// over the users is built anew.
    pub open spec fn update_user(
        self,
        user_id: u32,
        name: Seq<char>,
        is_billed: bool,
        is_highlighted: bool,
        external_user_id: Option<Seq<char>>,
    ) -> DatastoreView {
        let changed = DatastoreView {
            users: self.users.insert(
                user_id,
                UserView {
                    username: name,
                    is_billed,
                    highlight_in_ui: is_highlighted,
                    external_user_id,
                    ..self.users[user_id]
                },
            ),
            highlighted_users: if is_highlighted {
                self.highlighted_users.insert(user_id)
            } else {
                self.highlighted_users.remove(user_id)
            },
            ..self
        };
        DatastoreView { users_index: changed.fresh_users_index(), ..changed }
    }

    /// The item marked as deleted: it leaves the ranking of every user, the
    /// top items of every user are read off anew, its category leaves the
    /// categories unless an item that is not deleted still has it, and the
    /// index over the items is built anew.
    pub open spec fn delete_item(self, item_id: u32, top_items: nat) -> DatastoreView {
        let items = self.items.insert(item_id, ItemView { deleted: true, ..self.items[item_id] });
        let scores = reranked_all(self.drink_scores_per_user, item_id, false);
        let changed = DatastoreView {
            items,
            categories: match self.items[item_id].category {
                Some(c) => if category_in_use(items, c) {
                    self.categories
                } else {
                    self.categories.remove(c)
                },
                None => self.categories,
            },
            drink_scores_per_user: scores,
            top_drinks_per_user: top_sets(scores, top_items),
            ..self
        };
        DatastoreView { items_index: changed.fresh_items_index(), ..changed }
    }

    /// The user marked as deleted: they lose their item ranking and their top
    /// items, leave the ranking of the users and, if they were highlighted,
    /// the highlighted users; the top users are read off anew, and the index
    /// over the users is built anew.
    pub open spec fn delete_user(self, user_id: u32, top_users: nat) -> DatastoreView {
        let user = self.users[user_id];
        let scores = reranked(self.top_user_scores, user_id, false);
        let changed = DatastoreView {
            users: self.users.insert(user_id, UserView { deleted: true, ..user }),
            highlighted_users: if user.highlight_in_ui {
                self.highlighted_users.remove(user_id)
            } else {
                self.highlighted_users
            },
            drink_scores_per_user: self.drink_scores_per_user.remove(user_id),
            top_drinks_per_user: self.top_drinks_per_user.remove(user_id),
            top_user_scores: scores,
            top_users: top_set(scores, top_users),
            ..self
        };
        DatastoreView { users_index: changed.fresh_users_index(), ..changed }
    }
}

/// Whether some item that is not deleted has the category.
fn is_category_in_use(items: &HashMap<u32, Item>, counter: u32, category: &String) -> (used: bool)
    requires
        forall|id: u32| #[trigger] items@.contains_key(id) ==> id < counter,
    ensures
        used == category_in_use(item_views(items@), category@),
{
    let mut id: u32 = 0;
    while id < counter
        invariant
            id <= counter,
            forall|k: u32|
                k < id && #[trigger] items@.contains_key(k) ==> items@[k].deleted || opt_text_view(
                    items@[k].category,
                ) != Some(category@),
        decreases counter - id,
    {
        match items.get(&id) {
            Some(item) => {
                if !item.deleted {
                    match &item.category {
                        Some(c) => {
                            if *c == *category {
                                assert(item_views(items@).contains_key(id));
                                return true;
                            }
                        },
                        None => {},
                    }
                }
            },
            None => {},
        }
        id += 1;
    }
    proof {
        let views = item_views(items@);
        if category_in_use(views, category@) {
            let k = choose|k: u32| #[trigger]
                views.contains_key(k) && !views[k].deleted && views[k].category == Some(category@);
            assert(items@.contains_key(k));
        }
    }
    false
}

impl Datastore {
    /// Adds an item.
    pub fn apply_create_item(
        &mut self,
        itemname: &String,
        price_cents: u32,
        category: &Option<String>,
        config: &StaticConfig,
    )
        requires
            old(self).wf(),
            old(self).item_id_counter < u32::MAX,
        ensures
            final(self).wf(),
            final(self)@ == old(self)@.create_item(
                itemname@,
                price_cents,
                opt_text_view(*category),
                config.top_drinks_per_user as nat,
            ),
    {
        let id: u32 = self.item_id_counter;
        proof {
            self.lemma_keys();
        }
        match category {
            Some(c) => {
                self.categories.insert(c.clone());
            },
            None => {},
        }
        let item = Item {
            name: itemname.clone(),
            item_id: id,
            cost_cents: price_cents,
            category: clone_opt_text(category),
            deleted: false,
        };
        let ghost item_view = item@;
        self.items.insert(id, item);
        self.item_id_counter = id + 1;
        rerank_item(
            &mut self.drink_scores_per_user,
            &mut self.top_drinks_per_user,
            self.user_id_counter,
            id,
            true,
            config.top_drinks_per_user,
        );
        proof {
            assert(item_views(self.items@) =~= old(self)@.items.insert(id, item_view));
        }
        self.items_suffix_tree = index_items(&self.items, self.item_id_counter);
        proof {
            let expected = old(self)@.create_item(
                itemname@,
                price_cents,
                opt_text_view(*category),
                config.top_drinks_per_user as nat,
            );
            assert(self@.drink_scores_per_user =~= expected.drink_scores_per_user);
            assert(self@.top_drinks_per_user =~= expected.top_drinks_per_user);
            assert(self@ =~= expected);
            assert(self@.top_drinks_per_user.dom() =~= self@.drink_scores_per_user.dom());
        }
    }

    /// Adds a user.
    pub fn apply_create_user(&mut self, username: &String, config: &StaticConfig)
        requires
            old(self).wf(),
            old(self).user_id_counter < u32::MAX,
        ensures
            final(self).wf(),
            final(self)@ == old(self)@.create_user(
                username@,
                config.users_in_top_users as nat,
                config.top_drinks_per_user as nat,
            ),
    {
        let id: u32 = self.user_id_counter;
        proof {
            self.lemma_keys();
        }
        let user = User {
            username: username.clone(),
            external_user_id: None,
            user_id: id,
            is_billed: true,
            highlight_in_ui: false,
            deleted: false,
        };
        let ghost user_view = user@;
        self.users.insert(id, user);
        self.user_id_counter = id + 1;
        let score_tree = seed_item_scores(&self.items, self.item_id_counter);
        let best = extract_top_set(&score_tree, config.top_drinks_per_user);
        self.drink_scores_per_user.insert(id, score_tree);
        self.top_drinks_per_user.insert(id, best);
        self.top_user_scores.insert(id);
        self.top_users = extract_top_set(&self.top_user_scores, config.users_in_top_users);
        proof {
            assert(user_views(self.users@) =~= old(self)@.users.insert(id, user_view));
        }
        self.users_suffix_tree = index_users(&self.users, self.user_id_counter);
        proof {
            let expected = old(self)@.create_user(
                username@,
                config.users_in_top_users as nat,
                config.top_drinks_per_user as nat,
            );
            assert(self@.drink_scores_per_user =~= expected.drink_scores_per_user);
            assert(self@.top_drinks_per_user =~= expected.top_drinks_per_user);
            assert(self@ =~= expected);
            assert(self@.top_drinks_per_user.dom() =~= self@.drink_scores_per_user.dom());
        }
    }

    /// Changes an item that exists.
    pub fn apply_update_item(
        &mut self,
        item_id: u32,
        itemname: &String,
        price_cents: u32,
        category: &Option<String>,
    )
        requires
            old(self).wf(),
            old(self)@.items.contains_key(item_id),
        ensures
            final(self).wf(),
            final(self)@ == old(self)@.update_item(
                item_id,
                itemname@,
                price_cents,
                opt_text_view(*category),
            ),
    {
        proof {
            self.lemma_keys();
        }
        let (deleted, kept_id) = match self.items.get(&item_id) {
            Some(item) => (item.deleted, item.item_id),
            None => (false, item_id),
        };
        let item = Item {
            name: itemname.clone(),
            item_id: kept_id,
            cost_cents: price_cents,
            category: clone_opt_text(category),
            deleted,
        };
        let ghost item_view = item@;
        self.items.insert(item_id, item);
        proof {
            assert(item_views(self.items@) =~= old(self)@.items.insert(item_id, item_view));
        }
        self.items_suffix_tree = index_items(&self.items, self.item_id_counter);
        proof {
            assert(self@ =~= old(self)@.update_item(
                item_id,
                itemname@,
                price_cents,
                opt_text_view(*category),
            ));
        }
    }

    /// Changes a user who exists.
    pub fn apply_update_user(
        &mut self,
        user_id: u32,
        username: &String,
        is_billed: bool,
        is_highlighted: bool,
        external_user_id: &Option<String>,
    )
        requires
            old(self).wf(),
            old(self)@.users.contains_key(user_id),
        ensures
            final(self).wf(),
            final(self)@ == old(self)@.update_user(
                user_id,
                username@,
                is_billed,
                is_highlighted,
                opt_text_view(*external_user_id),
            ),
    {
        proof {
            self.lemma_keys();
        }
        let (deleted, kept_id) = match self.users.get(&user_id) {
            Some(user) => (user.deleted, user.user_id),
            None => (false, user_id),
        };
        let user = User {
            username: username.clone(),
            external_user_id: clone_opt_text(external_user_id),
            user_id: kept_id,
            is_billed,
            highlight_in_ui: is_highlighted,
            deleted,
        };
        let ghost user_view = user@;
        self.users.insert(user_id, user);
        if is_highlighted {
            self.highlighted_users.insert(user_id);
        } else {
            self.highlighted_users.remove(&user_id);
        }
        proof {
            assert(user_views(self.users@) =~= old(self)@.users.insert(user_id, user_view));
        }
        self.users_suffix_tree = index_users(&self.users, self.user_id_counter);
        proof {
            assert(self@ =~= old(self)@.update_user(
                user_id,
                username@,
                is_billed,
                is_highlighted,
                opt_text_view(*external_user_id),
            ));
        }
    }

    /// Marks an item that exists as deleted.
    pub fn apply_delete_item(&mut self, item_id: u32, config: &StaticConfig)
        requires
            old(self).wf(),
            old(self)@.items.contains_key(item_id),
        ensures
            final(self).wf(),
            final(self)@ == old(self)@.delete_item(item_id, config.top_drinks_per_user as nat),
    {
        proof {
            self.lemma_keys();
        }
        let item = match self.items.get(&item_id) {
            Some(item) => Item {
                name: item.name.clone(),
                item_id: item.item_id,
                cost_cents: item.cost_cents,
                category: clone_opt_text(&item.category),
                deleted: true,
            },
            None => unreached(),
        };
        let category = clone_opt_text(&item.category);
        let ghost item_view = item@;
        self.items.insert(item_id, item);
        proof {
            assert(item_views(self.items@) =~= old(self)@.items.insert(item_id, item_view));
        }
        match &category {
            Some(c) => {
                if !is_category_in_use(&self.items, self.item_id_counter, c) {
                    self.categories.remove(c);
                }
            },
            None => {},
        }
        rerank_item(
            &mut self.drink_scores_per_user,
            &mut self.top_drinks_per_user,
            self.user_id_counter,
            item_id,
            false,
            config.top_drinks_per_user,
        );
        self.items_suffix_tree = index_items(&self.items, self.item_id_counter);
        proof {
            let expected = old(self)@.delete_item(item_id, config.top_drinks_per_user as nat);
            assert(self@.drink_scores_per_user =~= expected.drink_scores_per_user);
            assert(self@.top_drinks_per_user =~= expected.top_drinks_per_user);
            assert(self@ =~= expected);
            assert(self@.top_drinks_per_user.dom() =~= self@.drink_scores_per_user.dom());
        }
    }

    /// Marks a user who exists as deleted; says whether they were among the
    /// top users.
    pub fn apply_delete_user(&mut self, user_id: u32, config: &StaticConfig) -> (was_top: bool)
        requires
            old(self).wf(),
            old(self)@.users.contains_key(user_id),
        ensures
            final(self).wf(),
            final(self)@ == old(self)@.delete_user(user_id, config.users_in_top_users as nat),
            was_top == old(self)@.top_users.contains(user_id),
    {
        proof {
            self.lemma_keys();
        }
        let user = match self.users.get(&user_id) {
            Some(user) => User {
                username: user.username.clone(),
                external_user_id: clone_opt_text(&user.external_user_id),
                user_id: user.user_id,
                is_billed: user.is_billed,
                highlight_in_ui: user.highlight_in_ui,
                deleted: true,
            },
            None => unreached(),
        };
        if user.highlight_in_ui {
            self.highlighted_users.remove(&user_id);
        }
        let ghost user_view = user@;
        self.users.insert(user_id, user);
        self.drink_scores_per_user.remove(&user_id);
        self.top_drinks_per_user.remove(&user_id);
        self.top_user_scores.remove(user_id);
        proof {
            assert(user_views(self.users@) =~= old(self)@.users.insert(user_id, user_view));
        }
        self.users_suffix_tree = index_users(&self.users, self.user_id_counter);
        let was_top = self.top_users.contains(&user_id);
        self.top_users = extract_top_set(&self.top_user_scores, config.users_in_top_users);
        proof {
            let expected = old(self)@.delete_user(user_id, config.users_in_top_users as nat);
            assert(self@.drink_scores_per_user =~= expected.drink_scores_per_user);
            assert(self@.top_drinks_per_user =~= expected.top_drinks_per_user);
            assert(self@ =~= expected);
            assert(self@.top_drinks_per_user.dom() =~= self@.drink_scores_per_user.dom());
        }
        was_top
    }
}

} // verus!
