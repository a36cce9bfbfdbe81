//! What the creation of freebies does to the aggregate.

use vstd::prelude::*;
use crate::datastore::{Datastore, DatastoreView};
use crate::freeby::{freeby_views, Freeby, FreebyView};
use crate::views::{clone_ids, clone_texts, texts_view};

verus! {

broadcast use vstd::std_specs::hash::group_hash_axioms;

impl DatastoreView {
    /// The open freebies of a recipient; none where none were given.
    pub open spec fn open_freebies_of(self, recipient: u32) -> Seq<FreebyView> {
        if self.open_freebies.contains_key(recipient) {
            self.open_freebies[recipient]
        } else {
            Seq::empty()
        }
    }

    /// A new free-for-all under the next freeby id, with nothing used, at
    /// the end of the open free-for-alls.
    pub open spec fn create_ffa(
        self,
        allowed_categories: Seq<Seq<char>>,
        allowed_drinks: Seq<u32>,
        allowed_number_total: u16,
        text_message: Seq<char>,
        created_timestamp: i64,
        donor: u32,
    ) -> DatastoreView {
        let id = (self.freeby_id_counter + 1) as u64;
        DatastoreView {
            freeby_id_counter: id,
            open_ffa: self.open_ffa.push(
                FreebyView::FFA {
                    id,
                    allowed_categories,
                    allowed_drinks,
                    allowed_number_total,
                    allowed_number_used: 0,
                    text_message,
                    created_timestamp,
                    donor,
                },
            ),
            ..self
        }
    }

    /// A new personal freeby under the next freeby id, at the end of the open
    /// freebies of its recipient.
    pub open spec fn with_personal_freeby(self, recipient: u32, freeby: FreebyView) -> DatastoreView {
        DatastoreView {
            freeby_id_counter: (self.freeby_id_counter + 1) as u64,
            open_freebies: self.open_freebies.insert(
                recipient,
                self.open_freebies_of(recipient).push(freeby),
            ),
            ..self
        }
    }

    /// A new classic freeby with nothing used.
    pub open spec fn create_free_count(
        self,
        allowed_categories: Seq<Seq<char>>,
        allowed_drinks: Seq<u32>,
        allowed_number_total: u16,
        text_message: Seq<char>,
        created_timestamp: i64,
        donor: u32,
        recipient: u32,
    ) -> DatastoreView {
        self.with_personal_freeby(
            recipient,
            FreebyView::Classic {
                id: (self.freeby_id_counter + 1) as u64,
                allowed_categories,
                allowed_drinks,
                allowed_number_total,
                allowed_number_used: 0,
                text_message,
                created_timestamp,
                donor,
                recipient,
            },
        )
    }

    /// A new transfer with nothing used.
    pub open spec fn create_free_budget(
        self,
        cents_worth_total: u64,
        text_message: Seq<char>,
        created_timestamp: i64,
        donor: u32,
        recipient: u32,
    ) -> DatastoreView {
        self.with_personal_freeby(
            recipient,
            FreebyView::Transfer {
                id: (self.freeby_id_counter + 1) as u64,
                cents_worth_total,
                cents_worth_used: 0,
                text_message,
                created_timestamp,
                donor,
                recipient,
            },
        )
    }
}

impl Datastore {
    /// Opens a free-for-all.
    pub fn apply_create_ffa(
        &mut self,
        allowed_categories: &Vec<String>,
        allowed_drinks: &Vec<u32>,
        allowed_number_total: u16,
        text_message: &String,
        created_timestamp: i64,
        donor: u32,
    )
        requires
            old(self).wf(),
            old(self).freeby_id_counter < u64::MAX,
        ensures
            final(self).wf(),
            final(self)@ == old(self)@.create_ffa(
                texts_view(allowed_categories@),
                allowed_drinks@,
                allowed_number_total,
                text_message@,
                created_timestamp,
                donor,
            ),
    {
        let id: u64 = self.freeby_id_counter + 1;
        self.freeby_id_counter = id;
        let freeby = Freeby::FFA {
            id,
            allowed_categories: clone_texts(allowed_categories),
            allowed_drinks: clone_ids(allowed_drinks),
            allowed_number_total,
            allowed_number_used: 0,
            text_message: text_message.clone(),
            created_timestamp,
            donor,
        };
        let ghost view = freeby@;
        self.open_ffa.push(freeby);
        proof {
            let before = old(self)@.open_ffa;
            assert(freeby_views(self.open_ffa@) =~= before.push(view));
            assert(self@ =~= old(self)@.create_ffa(
                texts_view(allowed_categories@),
                allowed_drinks@,
                allowed_number_total,
                text_message@,
                created_timestamp,
                donor,
            ));
            let after = self@.open_ffa;
            assert forall|i: int| 0 <= i < after.len() implies (#[trigger] after[i]) is FFA
                && after[i].wf() by {
                if i < before.len() {
                    assert(after[i] == before[i]);
                }
            }
        }
    }

    /// Puts a personal freeby with the next freeby id at the end of the open
    /// freebies of its recipient.
    fn add_personal_freeby(&mut self, recipient: u32, freeby: Freeby)
        requires
            old(self).wf(),
            old(self).freeby_id_counter < u64::MAX,
            !(freeby@ is FFA),
            freeby@.wf(),
            old(self)@.users.contains_key(freeby@.donor()),
        ensures
            final(self).wf(),
            final(self)@ == old(self)@.with_personal_freeby(recipient, freeby@),
    {
        self.freeby_id_counter = self.freeby_id_counter + 1;
        let ghost view = freeby@;
        let ghost before = old(self)@.open_freebies_of(recipient);
        let mut list = match self.open_freebies.remove(&recipient) {
            Some(list) => list,
            None => Vec::new(),
        };
        assert(freeby_views(list@) =~= before);
        list.push(freeby);
        assert(freeby_views(list@) =~= before.push(view));
        self.open_freebies.insert(recipient, list);
        proof {
            assert(self@.open_freebies =~= old(self)@.open_freebies.insert(recipient, before.push(view)));
            assert(self@ =~= old(self)@.with_personal_freeby(recipient, view));
            assert forall|r: u32, i: int|
                self@.open_freebies.contains_key(r) && 0 <= i < self@.open_freebies[r].len() implies {
                let f = #[trigger] self@.open_freebies[r][i];
                &&& !(f is FFA)
                &&& f.wf()
                &&& self@.users.contains_key(f.donor())
            } by {
                if r == recipient {
                    if i < before.len() {
                        assert(old(self)@.open_freebies.contains_key(r));
                        assert(self@.open_freebies[r][i] == old(self)@.open_freebies[r][i]);
                    }
                } else {
                    assert(old(self)@.open_freebies.contains_key(r));
                    assert(self@.open_freebies[r][i] == old(self)@.open_freebies[r][i]);
                }
            }
        }
    }

    /// Gives a recipient a classic freeby of a donor; both exist.
    pub fn apply_create_free_count(
        &mut self,
        allowed_categories: &Vec<String>,
        allowed_drinks: &Vec<u32>,
        allowed_number_total: u16,
        text_message: &String,
        created_timestamp: i64,
        donor: u32,
        recipient: u32,
    )
        requires
            old(self).wf(),
            old(self).freeby_id_counter < u64::MAX,
            old(self)@.users.contains_key(donor),
            old(self)@.users.contains_key(recipient),
        ensures
            final(self).wf(),
            final(self)@ == old(self)@.create_free_count(
                texts_view(allowed_categories@),
                allowed_drinks@,
                allowed_number_total,
                text_message@,
                created_timestamp,
                donor,
                recipient,
            ),
    {
        let freeby = Freeby::Classic {
            id: self.freeby_id_counter + 1,
            allowed_categories: clone_texts(allowed_categories),
            allowed_drinks: clone_ids(allowed_drinks),
            allowed_number_total,
            allowed_number_used: 0,
            text_message: text_message.clone(),
            created_timestamp,
            donor,
            recipient,
        };
        self.add_personal_freeby(recipient, freeby);
    }

    /// Gives a recipient a transfer of a donor; both exist.
    pub fn apply_create_free_budget(
        &mut self,
        cents_worth_total: u64,
        text_message: &String,
        created_timestamp: i64,
        donor: u32,
        recipient: u32,
    )
        requires
            old(self).wf(),
            old(self).freeby_id_counter < u64::MAX,
            old(self)@.users.contains_key(donor),
            old(self)@.users.contains_key(recipient),
        ensures
            final(self).wf(),
            final(self)@ == old(self)@.create_free_budget(
                cents_worth_total,
                text_message@,
                created_timestamp,
                donor,
                recipient,
            ),
    {
        let freeby = Freeby::Transfer {
            id: self.freeby_id_counter + 1,
            cents_worth_total,
            cents_worth_used: 0,
            text_message: text_message.clone(),
            created_timestamp,
            donor,
            recipient,
        };
        self.add_personal_freeby(recipient, freeby);
    }
}

} // verus!
