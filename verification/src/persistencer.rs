//! The pipeline of an event: validate, store, apply.
//!
//! The log itself is kept outside this library. Whoever keeps it hands the
//! write to `test_store_apply_with`; or asks `next_event_id` under which key
//! an event has to be written, writes it, and hands the outcome to `commit`.
//! Without persistence there is nothing to write, and `test_store_apply` is
//! the whole pipeline.

use vstd::prelude::*;
use std::io::Cursor;
use byteorder::{BigEndian, ReadBytesExt, WriteBytesExt};
use crate::config::StaticConfig;
use crate::datastore::{Datastore, DatastoreView};
use crate::rustix_event_shop::{BLEvents, Event};

verus! {

/// The byte of `id` that stands `shift` bits above the lowest.
pub open spec fn byte_at(id: u64, shift: u64) -> u8 {
    ((id >> shift) & 0xff) as u8
}

/// The eight bytes of `id`, highest first.
pub open spec fn big_endian(id: u64) -> Seq<u8> {
    seq![
        byte_at(id, 56),
        byte_at(id, 48),
        byte_at(id, 40),
        byte_at(id, 32),
        byte_at(id, 24),
        byte_at(id, 16),
        byte_at(id, 8),
        byte_at(id, 0),
    ]
}

/// The number whose eight bytes, highest first, are the first eight of
/// `bytes`.
pub open spec fn from_big_endian(bytes: Seq<u8>) -> u64 {
    (bytes[0] as u64) << 56 | (bytes[1] as u64) << 48 | (bytes[2] as u64) << 40 | (bytes[3] as u64) << 32
        | (bytes[4] as u64) << 24 | (bytes[5] as u64) << 16 | (bytes[6] as u64) << 8 | (bytes[7] as u64)
}

/// Calls `WriteBytesExt::write_u64::<BigEndian>` of `byteorder` on an empty
/// vector: the vector then holds the eight bytes of `id`, highest first.
#[verifier::external_body]
fn write_u64_big_endian(id: u64) -> (bytes: Vec<u8>)
    ensures
        bytes@ == big_endian(id),
{
    let mut wtr = vec![];
    wtr.write_u64::<BigEndian>(id).unwrap();
    wtr
}

/// Calls `ReadBytesExt::read_u64::<BigEndian>` of `byteorder` on a cursor
/// over `key`: the number whose bytes, highest first, are the first eight of
/// `key`. Fewer than eight bytes are left out: the read would fail.
#[verifier::external_body]
fn read_u64_big_endian(key: &[u8]) -> (id: u64)
    requires
        key.len() >= 8,
    ensures
        id == from_big_endian(key@),
{
    let mut rdr = Cursor::new(key);
    rdr.read_u64::<BigEndian>().unwrap()
}

/// The key of the log entry with the id `id`: its eight bytes, highest
/// first, so that the keys are ordered as the ids are.
pub fn id_to_key(id: u64) -> (key: Vec<u8>)
    ensures
        key@ == big_endian(id),
        key.len() == 8,
{
    write_u64_big_endian(id)
}

/// The id of the log entry with the key `key`, which has eight bytes at
/// least.
pub fn key_to_id(key: &[u8]) -> (id: u64)
    requires
        key.len() >= 8,
    ensures
        id == from_big_endian(key@),
{
    read_u64_big_endian(key)
}

/// The id of the key of an id is that id.
pub proof fn lemma_key_round_trip(id: u64)
    ensures
        from_big_endian(big_endian(id)) == id,
{
    let b0 = (id >> 56) & 0xff;
    let b1 = (id >> 48) & 0xff;
    let b2 = (id >> 40) & 0xff;
    let b3 = (id >> 32) & 0xff;
    let b4 = (id >> 24) & 0xff;
    let b5 = (id >> 16) & 0xff;
    let b6 = (id >> 8) & 0xff;
    let b7 = (id >> 0) & 0xff;
    assert(b0 < 256 && b1 < 256 && b2 < 256 && b3 < 256 && b4 < 256 && b5 < 256 && b6 < 256 && b7 < 256)
        by (bit_vector)
        requires
            b0 == (id >> 56) & 0xff,
            b1 == (id >> 48) & 0xff,
            b2 == (id >> 40) & 0xff,
            b3 == (id >> 32) & 0xff,
            b4 == (id >> 24) & 0xff,
            b5 == (id >> 16) & 0xff,
            b6 == (id >> 8) & 0xff,
            b7 == (id >> 0) & 0xff,
    ;
    assert(b0 << 56 | b1 << 48 | b2 << 40 | b3 << 32 | b4 << 24 | b5 << 16 | b6 << 8 | b7 == id)
        by (bit_vector)
        requires
            b0 == (id >> 56) & 0xff,
            b1 == (id >> 48) & 0xff,
            b2 == (id >> 40) & 0xff,
            b3 == (id >> 32) & 0xff,
            b4 == (id >> 24) & 0xff,
            b5 == (id >> 16) & 0xff,
            b6 == (id >> 8) & 0xff,
            b7 == (id >> 0) & 0xff,
    ;
    let bytes = big_endian(id);
    assert(bytes[0] as u64 == b0);
    assert(bytes[1] as u64 == b1);
    assert(bytes[2] as u64 == b2);
    assert(bytes[3] as u64 == b3);
    assert(bytes[4] as u64 == b4);
    assert(bytes[5] as u64 == b5);
    assert(bytes[6] as u64 == b6);
    assert(bytes[7] as u64 == b7);
}

/// The four bytes of `x`, highest first.
pub fn transform_u32_to_array_of_u8(x: u32) -> (bytes: [u8; 4])
    ensures
        bytes[0] == (x >> 24) & 0xff,
        bytes[1] == (x >> 16) & 0xff,
        bytes[2] == (x >> 8) & 0xff,
        bytes[3] == x & 0xff,
{
    assert((x >> 24) & 0xff < 256 && (x >> 16) & 0xff < 256 && (x >> 8) & 0xff < 256 && x & 0xff < 256)
        by (bit_vector);
    let b1: u8 = ((x >> 24) & 0xff) as u8;
    let b2: u8 = ((x >> 16) & 0xff) as u8;
    let b3: u8 = ((x >> 8) & 0xff) as u8;
    let b4: u8 = (x & 0xff) as u8;
    [b1, b2, b3, b4]
}

/// The aggregate after the events of a log, each applied where it is valid
/// and fits and skipped where it is not; the version counts the applied
/// ones.
pub open spec fn replayed(events: Seq<BLEvents>, store: DatastoreView, top_users: nat, top_items: nat) -> DatastoreView
    decreases events.len(),
{
    if events.len() == 0 {
        store
    } else {
        let before = replayed(events.drop_last(), store, top_users, top_items);
        let event = events.last();
        if event.precondition(before) && event.within_limits(before) && before.version < u64::MAX {
            DatastoreView {
                version: (before.version + 1) as u64,
                ..event.effect(before, top_users, top_items)
            }
        } else {
            before
        }
    }
}

/// What runs events through the pipeline.
pub trait Persistencer {
    /// The sizes of the top sets that applied events keep: of the top users,
    /// and of the top items of each user.
    spec fn top_sizes(&self) -> (nat, nat);

    /// Whether an accepted event needs to be written to a log first.
    spec fn persists(&self) -> bool;

    /// Validates an event and, if it is accepted, applies it under the next
    /// version. Says whether it was accepted: it was valid, fitted, and no
    /// log had to be written. A rejected event changes nothing.
    fn test_store_apply(&mut self, event: &BLEvents, datastore: &mut Datastore) -> (accepted: bool)
        requires
            old(datastore).wf(),
        ensures
            final(datastore).wf(),
            accepted == (event.precondition(old(datastore)@) && event.within_limits(old(datastore)@) && old(
                datastore,
            ).version < u64::MAX && !old(self).persists()),
            final(datastore)@ == if accepted {
                DatastoreView {
                    version: (old(datastore).version + 1) as u64,
                    ..event.effect(old(datastore)@, old(self).top_sizes().0, old(self).top_sizes().1)
                }
            } else {
                old(datastore)@
            },
            accepted ==> final(datastore).version == old(datastore).version + 1,
            final(self).top_sizes() == old(self).top_sizes(),
            final(self).persists() == old(self).persists(),
    ;
}

/// Runs events through the pipeline, with the configuration they are applied
/// under.
#[derive(Debug)]
pub struct FilePersister {
    pub config: StaticConfig,
}

impl FilePersister {
    pub fn new(config: StaticConfig) -> (persister: Self)
        ensures
            persister.config == config,
    {
        FilePersister { config }
    }

    /// The id under which the event has to be written to the log before it
    /// is applied: the next version, if the event is valid and fits; `None`
    /// if it is rejected.
    pub fn next_event_id(&self, event: &BLEvents, datastore: &Datastore) -> (id: Option<u64>)
        requires
            datastore.wf(),
        ensures
            id == if event.valid(datastore@) && event.fits(datastore@) && datastore.version < u64::MAX {
                Some((datastore.version + 1) as u64)
            } else {
                None
            },
    {
        if datastore.version < u64::MAX && event.can_be_applied(datastore) {
            Some(datastore.version + 1)
        } else {
            None
        }
    }

    /// Ends the pipeline of an event for which `next_event_id` gave an id:
    /// if it was stored, the version goes up by one and the event is applied;
    /// if storing failed, nothing changes. Says whether it was stored.
    pub fn commit(&self, event: &BLEvents, datastore: &mut Datastore, stored: bool) -> (accepted: bool)
        requires
            old(datastore).wf(),
            event.valid(old(datastore)@),
            event.fits(old(datastore)@),
            old(datastore).version < u64::MAX,
        ensures
            final(datastore).wf(),
            accepted == stored,
            final(datastore)@ == if stored {
                DatastoreView {
                    version: (old(datastore).version + 1) as u64,
                    ..event.applied(
                        old(datastore)@,
                        self.config.users_in_top_users as nat,
                        self.config.top_drinks_per_user as nat,
                    )
                }
            } else {
                old(datastore)@
            },
            stored ==> final(datastore).version == old(datastore).version + 1,
    {
        if stored {
            let ghost before = datastore@;
            event.apply(datastore, &self.config);
            proof {
                lemma_version_kept(
                    *event,
                    before,
                    self.config.users_in_top_users as nat,
                    self.config.top_drinks_per_user as nat,
                );
            }
            datastore.version = datastore.version + 1;
            true
        } else {
            false
        }
    }

    /// The pipeline with a log: validates the event, has `write` store it
    /// under the next version, and applies it if `write` reports success. A
    /// rejected event is not written, and neither a rejected event nor a
    /// failed write changes anything. Says whether the event was applied.
    pub fn test_store_apply_with<F: FnOnce(u64) -> bool>(
        &self,
        event: &BLEvents,
        datastore: &mut Datastore,
        write: F,
    ) -> (accepted: bool)
        requires
            old(datastore).wf(),
            forall|id: u64| write.requires((id,)),
        ensures
            final(datastore).wf(),
            !(event.valid(old(datastore)@) && event.fits(old(datastore)@) && old(datastore).version
                < u64::MAX) ==> !accepted,
            event.valid(old(datastore)@) && event.fits(old(datastore)@) && old(datastore).version
                < u64::MAX ==> write.ensures(((old(datastore).version + 1) as u64,), accepted),
            final(datastore)@ == if accepted {
                DatastoreView {
                    version: (old(datastore).version + 1) as u64,
                    ..event.applied(
                        old(datastore)@,
                        self.config.users_in_top_users as nat,
                        self.config.top_drinks_per_user as nat,
                    )
                }
            } else {
                old(datastore)@
            },
            accepted ==> final(datastore).version == old(datastore).version + 1,
    {
        match self.next_event_id(event, datastore) {
            Some(id) => {
                let stored = write(id);
                self.commit(event, datastore, stored)
            },
            None => false,
        }
    }

    /// Applies the events of a log in their order, each where it is valid and
    /// fits; the others are skipped. Returns the version, which counts the
    /// applied events.
    pub fn replay(&self, events: &Vec<BLEvents>, datastore: &mut Datastore) -> (version: u64)
        requires
            old(datastore).wf(),
        ensures
            final(datastore).wf(),
            final(datastore)@ == replayed(
                events@,
                old(datastore)@,
                self.config.users_in_top_users as nat,
                self.config.top_drinks_per_user as nat,
            ),
            version == final(datastore).version,
    {
        let ghost start = datastore@;
        let ghost top_users = self.config.users_in_top_users as nat;
        let ghost top_items = self.config.top_drinks_per_user as nat;
        let mut i: usize = 0;
        assert(events@.take(0) =~= Seq::empty());
        while i < events.len()
            invariant
                i <= events.len(),
                datastore.wf(),
                top_users == self.config.users_in_top_users as nat,
                top_items == self.config.top_drinks_per_user as nat,
                datastore@ == replayed(events@.take(i as int), start, top_users, top_items),
            decreases events.len() - i,
        {
            proof {
                let next = events@.take(i + 1);
                assert(next.drop_last() =~= events@.take(i as int));
                assert(next.last() == events[i as int]);
            }
            match self.next_event_id(&events[i], datastore) {
                Some(_) => {
                    self.commit(&events[i], datastore, true);
                },
                None => {},
            }
            i += 1;
        }
        assert(events@.take(events.len() as int) =~= events@);
        datastore.version
    }
}

/// No event changes the version: it belongs to the pipeline.
pub proof fn lemma_version_kept(event: BLEvents, store: DatastoreView, top_users: nat, top_items: nat)
    ensures
        event.applied(store, top_users, top_items).version == store.version,
{
    match event {
        BLEvents::MakeShoppingCartPurchase { user_id, specials, item_ids, timestamp } => {
            lemma_cart_keeps_version(
                store,
                user_id,
                Seq::empty(),
                item_ids@,
                timestamp,
                top_users,
                top_items,
            );
            lemma_cart_keeps_version(
                store.cart_items(user_id, item_ids@, timestamp, top_users, top_items),
                user_id,
                crate::views::texts_view(specials@),
                Seq::empty(),
                timestamp,
                top_users,
                top_items,
            );
        },
        _ => {},
    }
}

proof fn lemma_cart_keeps_version(
    store: DatastoreView,
    user_id: u32,
    specials: Seq<Seq<char>>,
    item_ids: Seq<u32>,
    millis: i64,
    top_users: nat,
    top_items: nat,
)
    ensures
        store.cart_items(user_id, item_ids, millis, top_users, top_items).version == store.version,
        store.cart_specials(user_id, specials, millis).version == store.version,
    decreases item_ids.len() + specials.len(),
{
    if item_ids.len() > 0 {
        lemma_cart_keeps_version(
            store,
            user_id,
            Seq::empty(),
            item_ids.drop_last(),
            millis,
            top_users,
            top_items,
        );
    }
    if specials.len() > 0 {
        lemma_cart_keeps_version(
            store,
            user_id,
            specials.drop_last(),
            Seq::empty(),
            millis,
            top_users,
            top_items,
        );
    }
}

impl Persistencer for FilePersister {
    open spec fn top_sizes(&self) -> (nat, nat) {
        (self.config.users_in_top_users as nat, self.config.top_drinks_per_user as nat)
    }

    open spec fn persists(&self) -> bool {
        self.config.use_persistence
    }

    fn test_store_apply(&mut self, event: &BLEvents, datastore: &mut Datastore) -> (accepted: bool) {
        if self.config.use_persistence {
            return false;
        }
        match self.next_event_id(event, datastore) {
            Some(_) => self.commit(event, datastore, true),
            None => false,
        }
    }
}

} // verus!
