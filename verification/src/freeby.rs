//! Freebies: a donor's standing offer to pay for what others consume.
//!
//! A free-for-all serves anyone, a classic freeby one recipient, both up to a
//! number of items; a transfer gives one recipient a budget in cents.

use vstd::prelude::*;
use crate::catalog::{Item, ItemView};
use crate::search::{first_true, lemma_first_true, lemma_first_true_at, lemma_first_true_none};
use crate::views::{clone_ids, clone_texts, contains_id, contains_text, texts_view};

verus! {

#[derive(Debug)]
pub enum Freeby {
    FFA {
        id: u64,
        allowed_categories: Vec<String>,
        allowed_drinks: Vec<u32>,
        allowed_number_total: u16,
        allowed_number_used: u16,
        text_message: String,
        created_timestamp: i64,
        donor: u32,
    },
    Transfer {
        id: u64,
        cents_worth_total: u64,
        cents_worth_used: u64,
        text_message: String,
        created_timestamp: i64,
        donor: u32,
        recipient: u32,
    },
    Classic {
        id: u64,
        allowed_categories: Vec<String>,
        allowed_drinks: Vec<u32>,
        allowed_number_total: u16,
        allowed_number_used: u16,
        text_message: String,
        created_timestamp: i64,
        donor: u32,
        recipient: u32,
    },
}

/// What a `Freeby` stands for.
pub ghost enum FreebyView {
    FFA {
        id: u64,
        allowed_categories: Seq<Seq<char>>,
        allowed_drinks: Seq<u32>,
        allowed_number_total: u16,
        allowed_number_used: u16,
        text_message: Seq<char>,
        created_timestamp: i64,
        donor: u32,
    },
    Transfer {
        id: u64,
        cents_worth_total: u64,
        cents_worth_used: u64,
        text_message: Seq<char>,
        created_timestamp: i64,
        donor: u32,
        recipient: u32,
    },
    Classic {
        id: u64,
        allowed_categories: Seq<Seq<char>>,
        allowed_drinks: Seq<u32>,
        allowed_number_total: u16,
        allowed_number_used: u16,
        text_message: Seq<char>,
        created_timestamp: i64,
        donor: u32,
        recipient: u32,
    },
}

impl FreebyView {
    pub open spec fn id(self) -> u64 {
        match self {
            FreebyView::FFA { id, .. } => id,
            FreebyView::Transfer { id, .. } => id,
            FreebyView::Classic { id, .. } => id,
        }
    }

    pub open spec fn donor(self) -> u32 {
        match self {
            FreebyView::FFA { donor, .. } => donor,
            FreebyView::Transfer { donor, .. } => donor,
            FreebyView::Classic { donor, .. } => donor,
        }
    }

    pub open spec fn message(self) -> Seq<char> {
        match self {
            FreebyView::FFA { text_message, .. } => text_message,
            FreebyView::Transfer { text_message, .. } => text_message,
            FreebyView::Classic { text_message, .. } => text_message,
        }
    }

    /// The categories it pays for; a transfer names none.
    pub open spec fn allowed_categories(self) -> Seq<Seq<char>> {
        match self {
            FreebyView::FFA { allowed_categories, .. } => allowed_categories,
            FreebyView::Transfer { .. } => Seq::empty(),
            FreebyView::Classic { allowed_categories, .. } => allowed_categories,
        }
    }

    /// The items it pays for; a transfer names none.
    pub open spec fn allowed_items(self) -> Seq<u32> {
        match self {
            FreebyView::FFA { allowed_drinks, .. } => allowed_drinks,
            FreebyView::Transfer { .. } => Seq::empty(),
            FreebyView::Classic { allowed_drinks, .. } => allowed_drinks,
        }
    }

    /// No more is used than was given.
    pub open spec fn wf(self) -> bool {
        match self {
            FreebyView::FFA { allowed_number_total, allowed_number_used, .. } => allowed_number_used
                <= allowed_number_total,
            FreebyView::Transfer { cents_worth_total, cents_worth_used, .. } => cents_worth_used
                <= cents_worth_total,
            FreebyView::Classic { allowed_number_total, allowed_number_used, .. } => allowed_number_used
                <= allowed_number_total,
        }
    }

    /// What is left of it: items, or cents of a transfer.
    pub open spec fn left(self) -> int {
        match self {
            FreebyView::FFA { allowed_number_total, allowed_number_used, .. } => allowed_number_total
                - allowed_number_used,
            FreebyView::Transfer { cents_worth_total, cents_worth_used, .. } => cents_worth_total
                - cents_worth_used,
            FreebyView::Classic { allowed_number_total, allowed_number_used, .. } => allowed_number_total
                - allowed_number_used,
        }
    }

    /// It pays for `item`: the item is listed, or its category is.
    pub open spec fn allows(self, item: ItemView) -> bool {
        self.allowed_items().contains(item.item_id) || (item.category matches Some(category)
            && self.allowed_categories().contains(category))
    }

    /// The freeby with one more item used; a transfer is unchanged.
    pub open spec fn decremented(self) -> FreebyView {
        match self {
            FreebyView::FFA {
                id,
                allowed_categories,
                allowed_drinks,
                allowed_number_total,
                allowed_number_used,
                text_message,
                created_timestamp,
                donor,
            } => FreebyView::FFA {
                id,
                allowed_categories,
                allowed_drinks,
                allowed_number_total,
                allowed_number_used: (allowed_number_used + 1) as u16,
                text_message,
                created_timestamp,
                donor,
            },
            FreebyView::Classic {
                id,
                allowed_categories,
                allowed_drinks,
                allowed_number_total,
                allowed_number_used,
                text_message,
                created_timestamp,
                donor,
                recipient,
            } => FreebyView::Classic {
                id,
                allowed_categories,
                allowed_drinks,
                allowed_number_total,
                allowed_number_used: (allowed_number_used + 1) as u16,
                text_message,
                created_timestamp,
                donor,
                recipient,
            },
            other => other,
        }
    }

    /// The transfer with `value` more cents used; another freeby is unchanged.
    pub open spec fn spent(self, value: u64) -> FreebyView {
        match self {
            FreebyView::Transfer {
                id,
                cents_worth_total,
                cents_worth_used,
                text_message,
                created_timestamp,
                donor,
                recipient,
            } => FreebyView::Transfer {
                id,
                cents_worth_total,
                cents_worth_used: (cents_worth_used + value) as u64,
                text_message,
                created_timestamp,
                donor,
                recipient,
            },
            other => other,
        }
    }
}

impl View for Freeby {
    type V = FreebyView;

    open spec fn view(&self) -> FreebyView {
        match self {
            Freeby::FFA {
                id,
                allowed_categories,
                allowed_drinks,
                allowed_number_total,
                allowed_number_used,
                text_message,
                created_timestamp,
                donor,
            } => FreebyView::FFA {
                id: *id,
                allowed_categories: texts_view(allowed_categories@),
                allowed_drinks: allowed_drinks@,
                allowed_number_total: *allowed_number_total,
                allowed_number_used: *allowed_number_used,
                text_message: text_message@,
                created_timestamp: *created_timestamp,
                donor: *donor,
            },
            Freeby::Transfer {
                id,
                cents_worth_total,
                cents_worth_used,
                text_message,
                created_timestamp,
                donor,
                recipient,
            } => FreebyView::Transfer {
                id: *id,
                cents_worth_total: *cents_worth_total,
                cents_worth_used: *cents_worth_used,
                text_message: text_message@,
                created_timestamp: *created_timestamp,
                donor: *donor,
                recipient: *recipient,
            },
            Freeby::Classic {
                id,
                allowed_categories,
                allowed_drinks,
                allowed_number_total,
                allowed_number_used,
                text_message,
                created_timestamp,
                donor,
                recipient,
            } => FreebyView::Classic {
                id: *id,
                allowed_categories: texts_view(allowed_categories@),
                allowed_drinks: allowed_drinks@,
                allowed_number_total: *allowed_number_total,
                allowed_number_used: *allowed_number_used,
                text_message: text_message@,
                created_timestamp: *created_timestamp,
                donor: *donor,
                recipient: *recipient,
            },
        }
    }
}

impl Clone for Freeby {
    fn clone(&self) -> (copy: Self)
        ensures
            copy@ == self@,
    {
        match self {
            Freeby::FFA {
                id,
                allowed_categories,
                allowed_drinks,
                allowed_number_total,
                allowed_number_used,
                text_message,
                created_timestamp,
                donor,
            } => Freeby::FFA {
                id: *id,
                allowed_categories: clone_texts(allowed_categories),
                allowed_drinks: clone_ids(allowed_drinks),
                allowed_number_total: *allowed_number_total,
                allowed_number_used: *allowed_number_used,
                text_message: text_message.clone(),
                created_timestamp: *created_timestamp,
                donor: *donor,
            },
            Freeby::Transfer {
                id,
                cents_worth_total,
                cents_worth_used,
                text_message,
                created_timestamp,
                donor,
                recipient,
            } => Freeby::Transfer {
                id: *id,
                cents_worth_total: *cents_worth_total,
                cents_worth_used: *cents_worth_used,
                text_message: text_message.clone(),
                created_timestamp: *created_timestamp,
                donor: *donor,
                recipient: *recipient,
            },
            Freeby::Classic {
                id,
                allowed_categories,
                allowed_drinks,
                allowed_number_total,
                allowed_number_used,
                text_message,
                created_timestamp,
                donor,
                recipient,
            } => Freeby::Classic {
                id: *id,
                allowed_categories: clone_texts(allowed_categories),
                allowed_drinks: clone_ids(allowed_drinks),
                allowed_number_total: *allowed_number_total,
                allowed_number_used: *allowed_number_used,
                text_message: text_message.clone(),
                created_timestamp: *created_timestamp,
                donor: *donor,
                recipient: *recipient,
            },
        }
    }
}

/// What can be asked of a freeby, and how it is used up.
pub trait FreebyAble {
    /// The freeby that the value stands for.
    spec fn freeby(&self) -> FreebyView;

    fn message(&self) -> (text: &str)
        ensures
            text@ == self.freeby().message(),
    ;

    fn get_id(&self) -> (id: u64)
        ensures
            id == self.freeby().id(),
    ;

    fn get_donor(&self) -> (donor: u32)
        ensures
            donor == self.freeby().donor(),
    ;

    fn allowed_categories(&self) -> (categories: &[String])
        ensures
            texts_view(categories@) == self.freeby().allowed_categories(),
    ;

    fn allowed_items(&self) -> (items: &[u32])
        ensures
            items@ == self.freeby().allowed_items(),
    ;

    /// Whether anything is left of it.
    fn is_open(&self) -> (open: bool)
        requires
            self.freeby().wf(),
        ensures
            open == (self.freeby().left() > 0),
    ;

    /// Uses one item of a free-for-all or a classic freeby that has one left.
    fn decrement(&mut self)
        requires
            old(self).freeby().wf(),
            !(old(self).freeby() is Transfer),
            old(self).freeby().left() > 0,
        ensures
            final(self).freeby() == old(self).freeby().decremented(),
            final(self).freeby().wf(),
            final(self).freeby().left() == old(self).freeby().left() - 1,
    ;

    /// The cents that a transfer has left.
    fn get_budget_cents_left(&self) -> (cents: u64)
        requires
            self.freeby().wf(),
            self.freeby() is Transfer,
        ensures
            cents == self.freeby().left(),
    ;

    /// Uses `value` cents of a transfer that has as many left.
    fn remove_budget_by(&mut self, value: u64)
        requires
            old(self).freeby().wf(),
            old(self).freeby() is Transfer,
            value <= old(self).freeby().left(),
        ensures
            final(self).freeby() == old(self).freeby().spent(value),
            final(self).freeby().wf(),
            final(self).freeby().left() == old(self).freeby().left() - value,
    ;

    /// What is left: items, or cents of a transfer.
    fn left(&self) -> (left: u64)
        requires
            self.freeby().wf(),
        ensures
            left == self.freeby().left(),
    ;

    /// Whether it pays for `item_to_allow`: the item is listed, or its
    /// category is.
    fn allows(&self, item_to_allow: &Item) -> (allowed: bool)
        ensures
            allowed == self.freeby().allows(item_to_allow@),
    ;
}

impl FreebyAble for Freeby {
    open spec fn freeby(&self) -> FreebyView {
        self@
    }

    fn message(&self) -> (text: &str) {
        match self {
            Freeby::Classic { text_message, .. } => text_message.as_str(),
            Freeby::Transfer { text_message, .. } => text_message.as_str(),
            Freeby::FFA { text_message, .. } => text_message.as_str(),
        }
    }

    fn get_id(&self) -> (id: u64) {
        match self {
            Freeby::Classic { id, .. } => *id,
            Freeby::Transfer { id, .. } => *id,
            Freeby::FFA { id, .. } => *id,
        }
    }

    fn get_donor(&self) -> (donor: u32) {
        match self {
            Freeby::Classic { donor, .. } => *donor,
            Freeby::Transfer { donor, .. } => *donor,
            Freeby::FFA { donor, .. } => *donor,
        }
    }

    fn allowed_categories(&self) -> (categories: &[String]) {
        match self {
            Freeby::Classic { allowed_categories, .. } => allowed_categories.as_slice(),
            Freeby::Transfer { .. } => {
                let none: &[String] = &[];
                assert(texts_view(none@) =~= Seq::empty());
                none
            },
            Freeby::FFA { allowed_categories, .. } => allowed_categories.as_slice(),
        }
    }

    fn allowed_items(&self) -> (items: &[u32]) {
        match self {
            Freeby::Classic { allowed_drinks, .. } => allowed_drinks.as_slice(),
            Freeby::Transfer { .. } => {
                let none: &[u32] = &[];
                assert(none@ =~= Seq::empty());
                none
            },
            Freeby::FFA { allowed_drinks, .. } => allowed_drinks.as_slice(),
        }
    }

    fn is_open(&self) -> (open: bool) {
        self.left() != 0
    }

    fn decrement(&mut self) {
        match self {
            Freeby::Classic { allowed_number_used, .. } => {
                *allowed_number_used = *allowed_number_used + 1;
            },
            Freeby::Transfer { .. } => {},
            Freeby::FFA { allowed_number_used, .. } => {
                *allowed_number_used = *allowed_number_used + 1;
            },
        }
    }

    fn get_budget_cents_left(&self) -> (cents: u64) {
        match self {
            Freeby::Transfer { cents_worth_total, cents_worth_used, .. } => *cents_worth_total
                - *cents_worth_used,
            _ => unreached(),
        }
    }

    fn remove_budget_by(&mut self, value: u64) {
        match self {
            Freeby::Transfer { cents_worth_used, .. } => {
                *cents_worth_used = *cents_worth_used + value;
            },
            _ => {},
        }
    }

    fn left(&self) -> (left: u64) {
        match self {
            Freeby::Classic { allowed_number_total, allowed_number_used, .. } => (*allowed_number_total
                - *allowed_number_used) as u64,
            Freeby::Transfer { cents_worth_total, cents_worth_used, .. } => *cents_worth_total
                - *cents_worth_used,
            Freeby::FFA { allowed_number_total, allowed_number_used, .. } => (*allowed_number_total
                - *allowed_number_used) as u64,
        }
    }

    fn allows(&self, item_to_allow: &Item) -> (allowed: bool) {
        match self {
            Freeby::Transfer { .. } => {
                assert(self@.allowed_items() =~= Seq::empty());
                assert(self@.allowed_categories() =~= Seq::empty());
                false
            },
            Freeby::Classic { allowed_categories, allowed_drinks, .. } => {
                if contains_id(allowed_drinks, item_to_allow.item_id) {
                    true
                } else {
                    match &item_to_allow.category {
                        Some(category) => contains_text(allowed_categories, category),
                        None => false,
                    }
                }
            },
            Freeby::FFA { allowed_categories, allowed_drinks, .. } => {
                if contains_id(allowed_drinks, item_to_allow.item_id) {
                    true
                } else {
                    match &item_to_allow.category {
                        Some(category) => contains_text(allowed_categories, category),
                        None => false,
                    }
                }
            },
        }
    }
}

impl Freeby {
    /// Whether no more is used than was given.
    pub fn is_wf(&self) -> (sound: bool)
        ensures
            sound == self@.wf(),
    {
        match self {
            Freeby::FFA { allowed_number_total, allowed_number_used, .. } => *allowed_number_used
                <= *allowed_number_total,
            Freeby::Transfer { cents_worth_total, cents_worth_used, .. } => *cents_worth_used
                <= *cents_worth_total,
            Freeby::Classic { allowed_number_total, allowed_number_used, .. } => *allowed_number_used
                <= *allowed_number_total,
        }
    }

    /// Whether it is a free-for-all.
    pub fn is_ffa(&self) -> (ffa: bool)
        ensures
            ffa == (self@ is FFA),
    {
        match self {
            Freeby::FFA { .. } => true,
            _ => false,
        }
    }
}

/// The views of a list of freebies.
pub open spec fn freeby_views(freebies: Seq<Freeby>) -> Seq<FreebyView> {
    freebies.map_values(|f: Freeby| f@)
}

/// The position of the first freeby with the id `id`; the length of the list
/// if there is none.
pub open spec fn freeby_at(freebies: Seq<FreebyView>, id: u64) -> int {
    first_true(Seq::new(freebies.len(), |i: int| freebies[i].id() == id))
}

/// The position of the first freeby whose id is not below `id`; the length of
/// the list if there is none.
pub open spec fn slot_for(freebies: Seq<FreebyView>, id: u64) -> int {
    first_true(Seq::new(freebies.len(), |i: int| freebies[i].id() >= id))
}

/// The list with `freeby` put before the first freeby whose id is not below
/// its own.
pub open spec fn filed(freebies: Seq<FreebyView>, freeby: FreebyView) -> Seq<FreebyView> {
    freebies.insert(slot_for(freebies, freeby.id()), freeby)
}

/// Each freeby of the list has an id at least as large as the one before it.
pub open spec fn ordered_by_freeby_id(freebies: Seq<FreebyView>) -> bool {
    forall|i: int, j: int|
        0 <= i <= j < freebies.len() ==> (#[trigger] freebies[i]).id() <= (#[trigger] freebies[j]).id()
}

/// Filing a freeby keeps a list ordered by id.
pub proof fn lemma_filed_is_ordered(freebies: Seq<FreebyView>, freeby: FreebyView)
    requires
        ordered_by_freeby_id(freebies),
    ensures
        ordered_by_freeby_id(filed(freebies, freeby)),
        0 <= slot_for(freebies, freeby.id()) <= freebies.len(),
{
    let flags = Seq::new(freebies.len(), |i: int| freebies[i].id() >= freeby.id());
    lemma_first_true(flags);
    let slot = slot_for(freebies, freeby.id());
    let after = filed(freebies, freeby);
    assert forall|i: int, j: int| 0 <= i <= j < after.len() implies (#[trigger] after[i]).id() <= (
    #[trigger] after[j]).id() by {
        let i0 = if i < slot { i } else { i - 1 };
        let j0 = if j < slot { j } else { j - 1 };
        if i < slot {
            assert(!flags[i]);
        }
        if j > slot {
            assert(flags[slot]);
            assert(freebies[slot].id() <= freebies[j0].id());
        }
        if i != slot && j != slot {
            assert(freebies[i0].id() <= freebies[j0].id());
        }
    }
}

/// The position of the first freeby with the id `id`, if there is one.
pub fn find_freeby(freebies: &Vec<Freeby>, id: u64) -> (found: Option<usize>)
    ensures
        found matches Some(at) ==> at == freeby_at(freeby_views(freebies@), id) && at < freebies.len()
            && freebies[at as int]@.id() == id,
        found.is_none() ==> freeby_at(freeby_views(freebies@), id) == freebies.len(),
{
    let ghost views = freeby_views(freebies@);
    let ghost flags = Seq::new(views.len(), |i: int| views[i].id() == id);
    let mut i: usize = 0;
    while i < freebies.len()
        invariant
            i <= freebies.len(),
            views == freeby_views(freebies@),
            flags == Seq::new(views.len(), |i: int| views[i].id() == id),
            forall|j: int| 0 <= j < i ==> !flags[j],
        decreases freebies.len() - i,
    {
        if freebies[i].get_id() == id {
            proof {
                assert(flags[i as int]);
                lemma_first_true_at(flags, i as int);
            }
            return Some(i);
        }
        assert(!flags[i as int]);
        i += 1;
    }
    proof {
        lemma_first_true_none(flags);
    }
    None
}

/// The position before which a freeby with the id `id` is filed.
pub fn find_slot(freebies: &Vec<Freeby>, id: u64) -> (slot: usize)
    ensures
        slot == slot_for(freeby_views(freebies@), id),
        slot <= freebies.len(),
{
    let ghost views = freeby_views(freebies@);
    let ghost flags = Seq::new(views.len(), |i: int| views[i].id() >= id);
    let mut i: usize = 0;
    while i < freebies.len()
        invariant
            i <= freebies.len(),
            views == freeby_views(freebies@),
            flags == Seq::new(views.len(), |i: int| views[i].id() >= id),
            forall|j: int| 0 <= j < i ==> !flags[j],
        decreases freebies.len() - i,
    {
        if freebies[i].get_id() >= id {
            proof {
                assert(flags[i as int]);
                lemma_first_true_at(flags, i as int);
            }
            return i;
        }
        assert(!flags[i as int]);
        i += 1;
    }
    proof {
        lemma_first_true_none(flags);
    }
    i
}

} // verus!
