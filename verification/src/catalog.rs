//! Users, items, and selections of users.

use vstd::prelude::*;
use crate::views::{clone_ids, clone_opt_text, contains_id, opt_text_view};

verus! {

/// A selection of users.
#[derive(Debug)]
pub enum UserGroup {
    SingleUser { user_id: u32 },
    AllUsers,
    MultipleUsers { user_ids: Vec<u32> },
}

/// What a `UserGroup` stands for.
pub ghost enum UserGroupView {
    SingleUser { user_id: u32 },
    AllUsers,
    MultipleUsers { user_ids: Seq<u32> },
}

impl View for UserGroup {
    type V = UserGroupView;

    open spec fn view(&self) -> UserGroupView {
        match self {
            UserGroup::SingleUser { user_id } => UserGroupView::SingleUser { user_id: *user_id },
            UserGroup::AllUsers => UserGroupView::AllUsers,
            UserGroup::MultipleUsers { user_ids } => UserGroupView::MultipleUsers {
                user_ids: user_ids@,
            },
        }
    }
}

impl UserGroupView {
    /// Whether the selection holds `user_id`.
    pub open spec fn selects(self, user_id: u32) -> bool {
        match self {
            UserGroupView::SingleUser { user_id: only } => only == user_id,
            UserGroupView::AllUsers => true,
            UserGroupView::MultipleUsers { user_ids } => user_ids.contains(user_id),
        }
    }

    /// Whether the selection admits an optional user; no user is admitted by
    /// every selection.
    pub open spec fn admits(self, user_id: Option<u32>) -> bool {
        match user_id {
            Some(id) => self.selects(id),
            None => true,
        }
    }
}

impl Default for UserGroup {
    fn default() -> (group: Self)
        ensures
            group@ == UserGroupView::AllUsers,
    {
        UserGroup::AllUsers
    }
}

impl Clone for UserGroup {
    fn clone(&self) -> (copy: Self)
        ensures
            copy@ == self@,
    {
        match self {
            UserGroup::SingleUser { user_id } => UserGroup::SingleUser { user_id: *user_id },
            UserGroup::AllUsers => UserGroup::AllUsers,
            UserGroup::MultipleUsers { user_ids } => UserGroup::MultipleUsers {
                user_ids: clone_ids(user_ids),
            },
        }
    }
}

/// Whether `usergroup` admits `user_id`: everyone is in `AllUsers`, one user
/// in `SingleUser`, the listed users in `MultipleUsers`; no user at all is
/// admitted by every group.
pub fn matches_usergroup(user_id: &Option<u32>, usergroup: &UserGroup) -> (admitted: bool)
    ensures
        admitted == usergroup@.admits(*user_id),
{
    match user_id {
        Some(checked_user_id) => match usergroup {
            UserGroup::SingleUser { user_id } => *user_id == *checked_user_id,
            UserGroup::AllUsers => true,
            UserGroup::MultipleUsers { user_ids } => contains_id(user_ids, *checked_user_id),
        },
        None => true,
    }
}

/// Someone who consumes and is billed.
#[derive(Debug)]
pub struct User {
    pub username: String,
    pub external_user_id: Option<String>,
    pub user_id: u32,
    pub is_billed: bool,
    pub highlight_in_ui: bool,
    pub deleted: bool,
}

/// What a `User` stands for.
pub ghost struct UserView {
    pub username: Seq<char>,
    pub external_user_id: Option<Seq<char>>,
    pub user_id: u32,
    pub is_billed: bool,
    pub highlight_in_ui: bool,
    pub deleted: bool,
}

impl View for User {
    type V = UserView;

    open spec fn view(&self) -> UserView {
        UserView {
            username: self.username@,
            external_user_id: opt_text_view(self.external_user_id),
            user_id: self.user_id,
            is_billed: self.is_billed,
            highlight_in_ui: self.highlight_in_ui,
            deleted: self.deleted,
        }
    }
}

impl Clone for User {
    fn clone(&self) -> (copy: Self)
        ensures
            copy == *self,
    {
        User {
            username: self.username.clone(),
            external_user_id: clone_opt_text(&self.external_user_id),
            user_id: self.user_id,
            is_billed: self.is_billed,
            highlight_in_ui: self.highlight_in_ui,
            deleted: self.deleted,
        }
    }
}

/// Something that can be purchased.
#[derive(Debug)]
pub struct Item {
    pub name: String,
    pub item_id: u32,
    pub category: Option<String>,
    pub cost_cents: u32,
    pub deleted: bool,
}

/// What an `Item` stands for.
pub ghost struct ItemView {
    pub name: Seq<char>,
    pub item_id: u32,
    pub category: Option<Seq<char>>,
    pub cost_cents: u32,
    pub deleted: bool,
}

impl View for Item {
    type V = ItemView;

    open spec fn view(&self) -> ItemView {
        ItemView {
            name: self.name@,
            item_id: self.item_id,
            category: opt_text_view(self.category),
            cost_cents: self.cost_cents,
            deleted: self.deleted,
        }
    }
}

impl Clone for Item {
    fn clone(&self) -> (copy: Self)
        ensures
            copy == *self,
    {
        Item {
            name: self.name.clone(),
            item_id: self.item_id,
            category: clone_opt_text(&self.category),
            cost_cents: self.cost_cents,
            deleted: self.deleted,
        }
    }
}

} // verus!
