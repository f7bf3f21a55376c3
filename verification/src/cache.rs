//! The answer cache: one entry per queried domain name, holding the
//! requesters still waiting for an answer, the most recent raw answer bytes,
//! and the time of the last answer write.
//!
//! Entries are kept in a vector with pairwise distinct names; the cache's
//! mathematical value is the map from each name to its entry. Entries are
//! created on the first query for a name and never removed, only overwritten.

use crate::domain::bytes_eq;
use crate::domain::clone_bytes;
use vstd::prelude::*;

verus! {

/// The address of a local requester, as plain values: the numeric value of
/// its IP address (v4 or v6) and its port.
#[derive(Clone, Copy, PartialEq, Eq, Structural, Debug)]
pub struct ClientAddr {
    pub ip: u128,
    pub port: u16,
}

/// One cache entry: the requesters awaiting an answer for the name, the last
/// cached raw answer (empty until the first reply), and the time the answer
/// was last written.
pub struct CacheEntry {
    pub pending: Vec<ClientAddr>,
    pub response: Vec<u8>,
    pub update_time: u64,
}

/// The mathematical value of a cache entry.
pub struct EntryV {
    pub pending: Seq<ClientAddr>,
    pub response: Seq<u8>,
    pub update_time: u64,
}

impl View for CacheEntry {
    type V = EntryV;

    open spec fn view(&self) -> EntryV {
        EntryV {
            pending: self.pending@,
            response: self.response@,
            update_time: self.update_time,
        }
    }
}

/// A named cache entry as stored.
pub struct Slot {
    pub name: Vec<u8>,
    pub entry: CacheEntry,
}

/// The map that a sequence of slots stands for: each name maps to its entry.
pub open spec fn map_of(s: Seq<Slot>) -> Map<Seq<u8>, EntryV>
    decreases s.len(),
{
    if s.len() == 0 {
        Map::empty()
    } else {
        map_of(s.drop_last()).insert(s.last().name@, s.last().entry@)
    }
}

/// The stored names are pairwise distinct.
pub open spec fn unique_names(s: Seq<Slot>) -> bool {
    forall|i: int, j: int| 0 <= i < j < s.len() ==> s[i].name@ != s[j].name@
}

/// What recording a requester does to the cache's map: append the requester
/// to the pending list of the name's entry, creating the entry (with no
/// cached answer, stamped `now`) if the name is new.
pub open spec fn spec_add_pending(
    m: Map<Seq<u8>, EntryV>,
    name: Seq<u8>,
    addr: ClientAddr,
    now: u64,
) -> Map<Seq<u8>, EntryV> {
    if m.contains_key(name) {
        m.insert(
            name,
            EntryV {
                pending: m[name].pending.push(addr),
                response: m[name].response,
                update_time: m[name].update_time,
            },
        )
    } else {
        m.insert(
            name,
            EntryV { pending: seq![addr], response: Seq::empty(), update_time: now },
        )
    }
}

proof fn lemma_map_of_contains(s: Seq<Slot>, k: Seq<u8>)
    ensures
        map_of(s).contains_key(k) <==> exists|i: int| 0 <= i < s.len() && s[i].name@ == k,
    decreases s.len(),
{
    if s.len() == 0 {
    } else {
        let t = s.drop_last();
        lemma_map_of_contains(t, k);
        if map_of(s).contains_key(k) {
            if s.last().name@ == k {
                assert(s[s.len() - 1].name@ == k);
            } else {
                let i = choose|i: int| 0 <= i < t.len() && t[i].name@ == k;
                assert(s[i].name@ == k);
            }
        }
        if exists|i: int| 0 <= i < s.len() && s[i].name@ == k {
            let i = choose|i: int| 0 <= i < s.len() && s[i].name@ == k;
            if i < s.len() - 1 {
                assert(t[i].name@ == k);
                assert(map_of(t).contains_key(k));
            }
        }
    }
}

proof fn lemma_map_of_index(s: Seq<Slot>, i: int)
    requires
        unique_names(s),
        0 <= i < s.len(),
    ensures
        map_of(s).contains_key(s[i].name@),
        map_of(s)[s[i].name@] == s[i].entry@,
    decreases s.len(),
{
    if i == s.len() - 1 {
    } else {
        let t = s.drop_last();
        assert(unique_names(t)) by {
            assert(forall|x: int, y: int|
                0 <= x < y < t.len() ==> t[x].name@ == s[x].name@ && t[y].name@ == s[y].name@);
        }
        lemma_map_of_index(t, i);
        assert(s.last().name@ != s[i].name@);
        assert(t[i] == s[i]);
    }
}

proof fn lemma_map_of_update(s: Seq<Slot>, i: int, slot: Slot)
    requires
        unique_names(s),
        0 <= i < s.len(),
        slot.name@ == s[i].name@,
    ensures
        map_of(s.update(i, slot)) == map_of(s).insert(slot.name@, slot.entry@),
        unique_names(s.update(i, slot)),
    decreases s.len(),
{
    let s2 = s.update(i, slot);
    assert(forall|x: int| 0 <= x < s2.len() ==> s2[x].name@ == s[x].name@);
    if i == s.len() - 1 {
        assert(s2.drop_last() =~= s.drop_last());
        assert(map_of(s2) =~= map_of(s).insert(slot.name@, slot.entry@));
    } else {
        let t = s.drop_last();
        assert(unique_names(t)) by {
            assert(forall|x: int, y: int|
                0 <= x < y < t.len() ==> t[x].name@ == s[x].name@ && t[y].name@ == s[y].name@);
        }
        assert(t[i] == s[i]);
        lemma_map_of_update(t, i, slot);
        assert(s2.drop_last() =~= t.update(i, slot));
        assert(s2.last() == s.last());
        assert(s.last().name@ != slot.name@);
        assert(map_of(s2) =~= map_of(s).insert(slot.name@, slot.entry@));
    }
}

proof fn lemma_map_of_push(s: Seq<Slot>, slot: Slot)
    ensures
        map_of(s.push(slot)) == map_of(s).insert(slot.name@, slot.entry@),
{
    assert(s.push(slot).drop_last() =~= s);
    assert(s.push(slot).last() == slot);
}

/// The answer cache.
pub struct Cache {
    slots: Vec<Slot>,
}

impl View for Cache {
    type V = Map<Seq<u8>, EntryV>;

    closed spec fn view(&self) -> Map<Seq<u8>, EntryV> {
        map_of(self.slots@)
    }
}

impl Cache {
    /// The stored names are pairwise distinct.
    pub closed spec fn wf(&self) -> bool {
        unique_names(self.slots@)
    }

    /// An empty cache.
    pub fn new() -> (c: Cache)
        ensures
            c.wf(),
            c@ == Map::<Seq<u8>, EntryV>::empty(),
    {
        Cache { slots: Vec::new() }
    }

    /// The index of the slot holding `name`, if the name is cached.
    fn find(&self, name: &Vec<u8>) -> (r: Option<usize>)
        requires
            self.wf(),
        ensures
            match r {
                Some(i) => {
                    &&& i < self.slots@.len()
                    &&& self.slots@[i as int].name@ == name@
                    &&& self@.contains_key(name@)
                    &&& self@[name@] == self.slots@[i as int].entry@
                },
                None => !self@.contains_key(name@),
            },
    {
        let mut i: usize = 0;
        while i < self.slots.len()
            invariant
                self.wf(),
                i <= self.slots.len(),
                forall|j: int| 0 <= j < i ==> self.slots@[j].name@ != name@,
            decreases self.slots.len() - i,
        {
            if bytes_eq(&self.slots[i].name, name) {
                proof {
                    lemma_map_of_index(self.slots@, i as int);
                }
                return Some(i);
            }
            i += 1;
        }
        proof {
            lemma_map_of_contains(self.slots@, name@);
        }
        None
    }

    /// The entry for `name`, if the name is cached.
    pub fn get(&self, name: &Vec<u8>) -> (r: Option<&CacheEntry>)
        requires
            self.wf(),
        ensures
            match r {
                Some(e) => self@.contains_key(name@) && e@ == self@[name@],
                None => !self@.contains_key(name@),
            },
    {
        match self.find(name) {
            Some(i) => Some(&self.slots[i].entry),
            None => None,
        }
    }

    /// Whether the name has an entry.
    pub fn contains(&self, name: &Vec<u8>) -> (r: bool)
        requires
            self.wf(),
        ensures
            r == self@.contains_key(name@),
    {
        self.find(name).is_some()
    }

    /// Record a requester as pending for `name`, creating the entry if the
    /// name is new.
    pub fn add_pending(&mut self, name: &Vec<u8>, addr: ClientAddr, now: u64)
        requires
            old(self).wf(),
        ensures
            final(self).wf(),
            final(self)@ == spec_add_pending(old(self)@, name@, addr, now),
    {
        match self.find(name) {
            Some(i) => {
                let mut slot = self.slots.remove(i);
                slot.entry.pending.push(addr);
                self.slots.insert(i, slot);
                proof {
                    assert(self.slots@ =~= old(self).slots@.update(
                        i as int,
                        self.slots@[i as int],
                    ));
                    lemma_map_of_update(old(self).slots@, i as int, self.slots@[i as int]);
                }
            },
            None => {
                let mut pend: Vec<ClientAddr> = Vec::new();
                pend.push(addr);
                let entry = CacheEntry { pending: pend, response: Vec::new(), update_time: now };
                self.slots.push(Slot { name: clone_bytes(name), entry });
                proof {
                    lemma_map_of_push(old(self).slots@, self.slots@.last());
                    lemma_map_of_contains(old(self).slots@, name@);
                    assert(self.slots@.drop_last() =~= old(self).slots@);
                    assert(unique_names(self.slots@));
                    assert(final(self)@ =~= spec_add_pending(old(self)@, name@, addr, now));
                }
            },
        }
    }

    /// Store a fresh answer for `name`: overwrite the cached answer, stamp it
    /// `now`, and drain the pending requesters, which are returned. A name
    /// with no entry stores nothing and returns nothing.
    pub fn store_reply(&mut self, name: &Vec<u8>, data: &Vec<u8>, now: u64) -> (r: Option<
        Vec<ClientAddr>,
    >)
        requires
            old(self).wf(),
        ensures
            final(self).wf(),
            match r {
                Some(p) => {
                    &&& old(self)@.contains_key(name@)
                    &&& p@ == old(self)@[name@].pending
                    &&& final(self)@ == old(self)@.insert(
                        name@,
                        EntryV { pending: Seq::empty(), response: data@, update_time: now },
                    )
                },
                None => !old(self)@.contains_key(name@) && final(self)@ == old(self)@,
            },
    {
        match self.find(name) {
            Some(i) => {
                let slot = self.slots.remove(i);
                let pending = slot.entry.pending;
                let fresh = CacheEntry {
                    pending: Vec::new(),
                    response: clone_bytes(data),
                    update_time: now,
                };
                self.slots.insert(i, Slot { name: slot.name, entry: fresh });
                proof {
                    assert(self.slots@ =~= old(self).slots@.update(
                        i as int,
                        self.slots@[i as int],
                    ));
                    lemma_map_of_update(old(self).slots@, i as int, self.slots@[i as int]);
                }
                Some(pending)
            },
            None => None,
        }
    }
}

} // verus!
