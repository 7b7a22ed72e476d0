//! The cache: a store from keys to records, each with a time to live. It
//! is the single source of truth for the liveness of tokens and for state
//! that waits to be committed.

use vstd::prelude::*;
use crate::assoc::{
    as_map, lemma_map_absent, lemma_map_get, lemma_map_push, lemma_map_remove, unique,
};
use crate::result::Error;
use crate::token::domain::{Payload, PayloadView};
use crate::user::domain::{Credentials, CredentialsView};

verus! {

/// What the cache holds under a key, as a mathematical value.
pub enum RecordView {
    Token(PayloadView),
    Credentials(CredentialsView),
    Reset(i64),
}

/// What the cache holds under a key.
#[derive(Debug)]
pub enum Record {
    /// The payload of a live token, under its identifier.
    Token(Payload),
    /// Credentials that wait for their address to be confirmed, under
    /// their fingerprint.
    Credentials(Credentials),
    /// The intent of the user with this identifier to reset the password.
    Reset(i64),
}

impl View for Record {
    type V = RecordView;

    open spec fn view(&self) -> RecordView {
        match self {
            Record::Token(p) => RecordView::Token(p@),
            Record::Credentials(c) => RecordView::Credentials(c@),
            Record::Reset(id) => RecordView::Reset(*id),
        }
    }
}

impl Record {
    /// A copy of this record.
    pub fn duplicate(&self) -> (r: Record)
        ensures
            r@ == self@,
    {
        match self {
            Record::Token(p) => Record::Token(p.duplicate()),
            Record::Credentials(c) => Record::Credentials(c.duplicate()),
            Record::Reset(id) => Record::Reset(*id),
        }
    }
}

/// A record in the cache and the second from which it is no longer there.
pub struct EntryView {
    pub value: RecordView,
    pub expires: u64,
}

/// What a cache holds: its entries by key.
pub type Entries = Map<Seq<char>, EntryView>;

/// Is there an entry under `key` that has not expired at `now`?
pub open spec fn live(entries: Entries, key: Seq<char>, now: u64) -> bool {
    entries.contains_key(key) && now < entries[key].expires
}

/// The second at which a record saved at `now` for `ttl` seconds expires:
/// `now + ttl`, or the last second there is where that is beyond it.
pub open spec fn deadline(now: u64, ttl: u64) -> u64 {
    if now + ttl <= u64::MAX {
        (now + ttl) as u64
    } else {
        u64::MAX
    }
}

/// The entries after `value` was saved under `key` at `now` for `ttl`
/// seconds.
pub open spec fn after_save(entries: Entries, key: Seq<char>, value: RecordView, ttl: u64, now: u64) -> Entries {
    entries.insert(key, EntryView { value, expires: deadline(now, ttl) })
}

/// A store from keys to records, each kept for a time to live.
///
/// The contracts speak of a cache that says what it holds (`modelled`):
/// they state what holds of each outcome, and are exact for a cache that
/// is reliable, which nothing but its contents makes fail.
pub trait Cache {
    /// Does the cache say what it holds? Of a cache that does not, the
    /// contracts below promise nothing.
    open spec fn modelled(&self) -> bool {
        false
    }

    /// The entries of the cache, expired ones included until they are
    /// overwritten or deleted.
    open spec fn entries(&self) -> Entries {
        Map::empty()
    }

    /// Does nothing but its contents make the cache fail?
    open spec fn reliable(&self) -> bool {
        false
    }

    /// Saves `value` under `key` for `ttl` seconds from `now`, over any
    /// entry that is there. A time to live of zero is rejected.
    fn save(&mut self, key: &str, value: Record, ttl: u64, now: u64) -> (r: Result<(), Error>)
        ensures
            final(self).reliable() == old(self).reliable(),
            final(self).modelled() == old(self).modelled(),
            old(self).modelled() ==> ({
                &&& r is Ok ==> ttl > 0 && final(self).entries() == after_save(
                        old(self).entries(),
                        key@,
                        value@,
                        ttl,
                        now,
                    )
                &&& r is Err ==> final(self).entries() == old(self).entries()
                &&& old(self).reliable() && ttl > 0 ==> r is Ok
            }),
    ;

    /// The record under `key`; `NotFound` where there is none or it has
    /// expired at `now`.
    fn find(&self, key: &str, now: u64) -> (r: Result<Record, Error>)
        ensures
            self.modelled() ==> ({
                &&& r matches Ok(v) ==> live(self.entries(), key@, now)
                    && v@ == self.entries()[key@].value
                &&& r matches Err(e) ==> (e == Error::NotFound ==> !live(self.entries(), key@, now))
                &&& self.reliable() ==> (r matches Err(e) ==> e == Error::NotFound)
            }),
    ;

    /// Deletes the entry under `key`. Where there is none, a reliable cache
    /// succeeds silently; another may say `NotFound`.
    fn delete(&mut self, key: &str) -> (r: Result<(), Error>)
        ensures
            final(self).reliable() == old(self).reliable(),
            final(self).modelled() == old(self).modelled(),
            old(self).modelled() ==> ({
                &&& r is Ok ==> final(self).entries() == old(self).entries().remove(key@)
                &&& r is Err ==> final(self).entries() == old(self).entries()
                &&& r matches Err(e) ==> (e == Error::NotFound
                    ==> !old(self).entries().contains_key(key@))
                &&& old(self).reliable() ==> r is Ok
            }),
    ;
}

/// One entry of the cache in memory.
pub struct Slot {
    pub key: String,
    pub value: Record,
    pub expires: u64,
}

/// The keys of `slots`, in their order.
pub open spec fn slot_keys(slots: Seq<Slot>) -> Seq<Seq<char>> {
    Seq::new(slots.len(), |i: int| slots[i].key@)
}

/// The entries of `slots`, in their order.
pub open spec fn slot_entries(slots: Seq<Slot>) -> Seq<EntryView> {
    Seq::new(slots.len(), |i: int| EntryView { value: slots[i].value@, expires: slots[i].expires })
}

/// A cache in the memory of the process. It can be taken offline, after
/// which every operation fails with `Debug`.
pub struct InMemoryCache {
    slots: Vec<Slot>,
    offline: bool,
}

impl InMemoryCache {
    #[verifier::type_invariant]
    spec fn inv(self) -> bool {
        unique(slot_keys(self.slots@))
    }

    /// An empty cache.
    pub fn new() -> (cache: InMemoryCache)
        ensures
            cache.entries() == Map::<Seq<char>, EntryView>::empty(),
            cache.reliable(),
    {
        let cache = InMemoryCache { slots: Vec::new(), offline: false };
        proof {
            assert(cache.entries() =~= Map::<Seq<char>, EntryView>::empty());
        }
        cache
    }

    /// Takes the cache offline or online again; its entries stay.
    pub fn set_offline(&mut self, offline: bool)
        ensures
            final(self).entries() == old(self).entries(),
            final(self).reliable() == !offline,
    {
        proof {
            use_type_invariant(&*self);
        }
        self.offline = offline;
    }

    /// How many entries the cache holds, expired ones included.
    pub fn len(&self) -> (n: usize)
        ensures
            n == self.entries().dom().len(),
    {
        proof {
            use_type_invariant(self);
            let keys = slot_keys(self.slots@);
            crate::assoc::lemma_map_finite(keys, slot_entries(self.slots@));
            keys.unique_seq_to_set();
        }
        self.slots.len()
    }

    /// Where `key` stands among the slots, or their number where it does
    /// not.
    fn position(&self, key: &str) -> (at: usize)
        ensures
            at <= self.slots@.len(),
            at < self.slots@.len() ==> self.slots@[at as int].key@ == key@,
            at == self.slots@.len() ==> !self.entries().contains_key(key@),
            at < self.slots@.len() ==> self.entries().contains_key(key@) && self.entries()[key@]
                == slot_entries(self.slots@)[at as int],
    {
        proof {
            use_type_invariant(self);
        }
        let wanted = key.to_owned();
        let mut i: usize = 0;
        while i < self.slots.len()
            invariant
                i <= self.slots@.len(),
                wanted@ == key@,
                forall|k: int| 0 <= k < i ==> self.slots@[k].key@ != key@,
            decreases self.slots@.len() - i,
        {
            if self.slots[i].key == wanted {
                proof {
                    use_type_invariant(self);
                    let keys = slot_keys(self.slots@);
                    assert(keys[i as int] == key@);
                    lemma_map_get(keys, slot_entries(self.slots@), i as int);
                }
                return i;
            }
            i = i + 1;
        }
        proof {
            let keys = slot_keys(self.slots@);
            assert forall|k: int| 0 <= k < keys.len() implies keys[k] != key@ by {
                assert(keys[k] == self.slots@[k].key@);
            }
            lemma_map_absent(keys, slot_entries(self.slots@), key@);
        }
        i
    }
}

impl Cache for InMemoryCache {
    open spec fn modelled(&self) -> bool {
        true
    }

    closed spec fn entries(&self) -> Entries {
        as_map(slot_keys(self.slots@), slot_entries(self.slots@))
    }

    closed spec fn reliable(&self) -> bool {
        !self.offline
    }

    fn save(&mut self, key: &str, value: Record, ttl: u64, now: u64) -> (r: Result<(), Error>)
    {
        proof {
            use_type_invariant(&*self);
        }
        if self.offline || ttl == 0 {
            return Err(Error::Debug);
        }
        let expires = if ttl <= u64::MAX - now {
            now + ttl
        } else {
            u64::MAX
        };
        let at = self.position(key);
        let ghost before = self.slots@;
        let mut slots: Vec<Slot> = Vec::new();
        core::mem::swap(&mut slots, &mut self.slots);
        if at < slots.len() {
            proof {
                lemma_map_remove(slot_keys(before), slot_entries(before), at as int);
            }
            slots.remove(at);
            proof {
                assert(slot_keys(slots@) =~= slot_keys(before).remove(at as int));
                assert(slot_entries(slots@) =~= slot_entries(before).remove(at as int));
            }
        }
        let ghost middle = slots@;
        let ghost entry = EntryView { value: value@, expires };
        proof {
            lemma_map_absent(slot_keys(middle), slot_entries(middle), key@);
            lemma_map_push(slot_keys(middle), slot_entries(middle), key@, entry);
        }
        slots.push(Slot { key: key.to_owned(), value, expires });
        proof {
            assert(slot_keys(slots@) =~= slot_keys(middle).push(key@));
            assert(slot_entries(slots@) =~= slot_entries(middle).push(entry));
            assert(as_map(slot_keys(before), slot_entries(before)).remove(key@).insert(key@, entry)
                =~= as_map(slot_keys(before), slot_entries(before)).insert(key@, entry));
        }
        self.slots = slots;
        Ok(())
    }

    fn find(&self, key: &str, now: u64) -> (r: Result<Record, Error>)
    {
        if self.offline {
            return Err(Error::Debug);
        }
        let at = self.position(key);
        if at < self.slots.len() && now < self.slots[at].expires {
            Ok(self.slots[at].value.duplicate())
        } else {
            Err(Error::NotFound)
        }
    }

    fn delete(&mut self, key: &str) -> (r: Result<(), Error>)
    {
        proof {
            use_type_invariant(&*self);
        }
        if self.offline {
            return Err(Error::Debug);
        }
        let at = self.position(key);
        let ghost before = self.slots@;
        if at < self.slots.len() {
            let mut slots: Vec<Slot> = Vec::new();
            core::mem::swap(&mut slots, &mut self.slots);
            proof {
                lemma_map_remove(slot_keys(before), slot_entries(before), at as int);
            }
            slots.remove(at);
            proof {
                assert(slot_keys(slots@) =~= slot_keys(before).remove(at as int));
                assert(slot_entries(slots@) =~= slot_entries(before).remove(at as int));
            }
            self.slots = slots;
        } else {
            proof {
                assert(self.entries().remove(key@) =~= self.entries());
            }
        }
        Ok(())
    }
}

} // verus!
