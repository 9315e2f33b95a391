//! The default state: a key/value store whose entries carry the time of their
//! creation and an optional time to live. A newer entry replaces an older one
//! under the same key; an expired entry is never handed out.

use crate::helpers::text::{decimal, to_decimal};
use crate::helpers::utils::epoch;
use crate::state::data_seeder::{DataSeeder, SeedError};
use crate::state::digest::{digest, hash, stamps};
use crate::state::{State, StateError};
use crate::state::storage::{
    difference, entries_of, lists, live, map_clone, map_difference, map_get, map_insert,
    map_items, map_len, map_new, map_retain_live,
};
use vstd::prelude::*;

verus! {

#[verifier::external_type_specification]
#[verifier::external_body]
pub struct ExJson(serde_json::Value);

/// `serde_json::Value` derives `Clone`: the copy is the same JSON value.
pub assume_specification[ <serde_json::Value as Clone>::clone ](v: &serde_json::Value) -> (r:
    serde_json::Value)
    ensures
        r == *v,
;

/// One entry of the state.
#[derive(Debug)]
pub struct Entry {
    /// The payload: any JSON value. The store carries it and never looks inside.
    pub value: serde_json::Value,
    /// When the entry was created at its origin, in milliseconds since the
    /// Unix epoch.
    pub ts: u64,
    /// How long after `ts` the entry stays valid, in milliseconds; `None`
    /// means for ever.
    pub ttl: Option<u64>,
}

impl Clone for Entry {
    fn clone(&self) -> (r: Self)
        ensures
            r == *self,
    {
        Entry { value: self.value.clone(), ts: self.ts, ttl: self.ttl }
    }
}

impl Entry {
    /// An entry is expired at `now` once `now` lies beyond `ts + ttl`.
    pub open spec fn expired_at(self, now: u64) -> bool {
        match self.ttl {
            Some(ttl) => self.ts + ttl < now,
            None => false,
        }
    }

    /// Tells whether the entry is still valid at the instant `now`.
    pub fn is_live_at(&self, now: u64) -> (r: bool)
        ensures
            r == !self.expired_at(now),
    {
        !self.is_expired_at(now)
    }

    /// `is_expired_at` at the current time.
    pub fn is_expired(&self) -> (r: bool)
        ensures
            exists|now: u64| r == #[trigger] self.expired_at(now),
    {
        let now = epoch();
        self.is_expired_at(now)
    }

    /// Tells whether the entry is expired at the instant `now`.
    pub fn is_expired_at(&self, now: u64) -> (r: bool)
        ensures
            r == self.expired_at(now),
    {
        match self.ttl {
            Some(ttl) => match self.ts.checked_add(ttl) {
                Some(end) => end < now,
                None => false,
            },
            None => false,
        }
    }
}

/// An incoming entry as it is stored: one that names no time to live gets the
/// store's default, where the store has one.
pub open spec fn with_default_ttl(incoming: Entry, default_ttl: Option<u64>) -> Entry {
    if incoming.ttl is None && default_ttl is Some {
        Entry { value: incoming.value, ts: incoming.ts, ttl: default_ttl }
    } else {
        incoming
    }
}

/// Whether `incoming`, offered at `now` for a key that holds `slot`, takes the
/// key: it is not expired, and the key is free or holds a strictly older entry.
pub open spec fn takes(slot: Option<Entry>, incoming: Entry, now: u64) -> bool {
    !incoming.expired_at(now) && match slot {
        Some(current) => current.ts < incoming.ts,
        None => true,
    }
}

/// What a key holds after `incoming` was offered for it at `now`.
pub open spec fn offer(slot: Option<Entry>, incoming: Entry, default_ttl: Option<u64>, now: u64)
    -> Option<Entry> {
    if takes(slot, incoming, now) {
        Some(with_default_ttl(incoming, default_ttl))
    } else {
        slot
    }
}

/// The entries of a store after those of `payload` were offered to it at `now`.
pub open spec fn merged(
    entries: Map<Seq<char>, Entry>,
    payload: Map<Seq<char>, Entry>,
    default_ttl: Option<u64>,
    now: u64,
) -> Map<Seq<char>, Entry> {
    Map::new(
        |k: Seq<char>|
            entries.contains_key(k) || (payload.contains_key(k) && !payload[k].expired_at(now)),
        |k: Seq<char>|
            if payload.contains_key(k) {
                offer(entries.get(k), payload[k], default_ttl, now)->0
            } else {
                entries[k]
            },
    )
}

/// Whether offering `payload` at `now` changes anything in `entries`.
pub open spec fn alters(entries: Map<Seq<char>, Entry>, payload: Map<Seq<char>, Entry>, now: u64)
    -> bool {
    exists|k: Seq<char>| #[trigger]
        payload.contains_key(k) && takes(entries.get(k), payload[k], now)
}

/// How many payloads may wait to be merged. One that comes while as many are
/// waiting is dropped.
pub const MAX_SET_OPS: usize = 64000;

/// The default state.
#[derive(Debug)]
pub struct Default {
    /// The time to live, in milliseconds, given to an incoming entry that
    /// names none.
    ttl: Option<u64>,
    /// Milliseconds between two sweeps that drop the expired entries.
    purge_interval: u64,
    /// The version as last computed.
    version: String,
    /// Whether the entries changed since `version` was computed.
    is_dirty: bool,
    /// The entries by key.
    storage: im::HashMap<String, Entry>,
}

impl Clone for Default {
    /// A second store with the same entries, mark, version and settings. The
    /// two share nothing that a later change to one could carry to the other.
    fn clone(&self) -> (state: Self)
        ensures
            state.entries() == self.entries(),
            state.dirty() == self.dirty(),
            state.cached_version() == self.cached_version(),
            state.default_ttl() == self.default_ttl(),
            state.sweep_interval() == self.sweep_interval(),
    {
        Default {
            ttl: self.ttl,
            purge_interval: self.purge_interval,
            version: self.version.clone(),
            is_dirty: self.is_dirty,
            storage: map_clone(&self.storage),
        }
    }
}

impl std::default::Default for Default {
    /// A store without a default time to live, swept once a minute.
    fn default() -> (state: Self)
        ensures
            state.entries() =~= Map::empty(),
            !state.dirty(),
            state.cached_version() =~= Seq::empty(),
            state.default_ttl() is None,
            state.sweep_interval() == 60000,
    {
        Default::new(None, 60000)
    }
}

impl Default {
    /// The entries that the store holds, expired ones included until the next
    /// sweep.
    pub closed spec fn entries(&self) -> Map<Seq<char>, Entry> {
        entries_of(self.storage)
    }

    /// Whether the cached version is stale.
    pub closed spec fn dirty(&self) -> bool {
        self.is_dirty
    }

    /// The cached version.
    pub closed spec fn cached_version(&self) -> Seq<char> {
        self.version@
    }

    /// The default time to live.
    pub closed spec fn default_ttl(&self) -> Option<u64> {
        self.ttl
    }

    /// The sweep interval.
    pub closed spec fn sweep_interval(&self) -> u64 {
        self.purge_interval
    }

    /// An empty store with the given default time to live and sweep interval.
    pub fn new(ttl: Option<u64>, purge_interval: u64) -> (state: Self)
        ensures
            state.entries() =~= Map::empty(),
            !state.dirty(),
            state.cached_version() =~= Seq::empty(),
            state.default_ttl() == ttl,
            state.sweep_interval() == purge_interval,
    {
        Default { ttl, purge_interval, version: String::new(), is_dirty: false, storage: map_new() }
    }

    /// Offers every entry of `payload` to the store at the instant `now`. An
    /// expired entry is passed over; one without a time to live gets the
    /// default; an entry takes a free key, or one that holds a strictly older
    /// entry. The store is marked dirty when any entry was taken.
    pub fn set_at(&mut self, payload: &im::HashMap<String, Entry>, now: u64)
        ensures
            final(self).entries() == merged(
                old(self).entries(),
                entries_of(*payload),
                old(self).default_ttl(),
                now,
            ),
            final(self).dirty() == (old(self).dirty() || alters(
                old(self).entries(),
                entries_of(*payload),
                now,
            )),
            final(self).cached_version() == old(self).cached_version(),
            final(self).default_ttl() == old(self).default_ttl(),
            final(self).sweep_interval() == old(self).sweep_interval(),
    {
        let items = map_items(payload);
        let ghost before = self.entries();
        let ghost offered = entries_of(*payload);
        let ghost was_dirty = self.is_dirty;
        let mut changed = false;
        let mut i: usize = 0;
        while i < items.len()
            invariant
                i <= items.len(),
                lists(items@, offered),
                self.ttl == old(self).ttl,
                self.purge_interval == old(self).purge_interval,
                self.version == old(self).version,
                self.is_dirty == was_dirty,
                before == old(self).entries(),
                entries_of(self.storage) =~= merged(
                    before,
                    offered.restrict(Set::new(|k: Seq<char>| seen(items@, i as int, k))),
                    self.ttl,
                    now,
                ),
                changed == exists|j: int|
                    0 <= j < i && takes(before.get(#[trigger] items@[j].0@), items@[j].1, now),
            decreases items.len() - i,
        {
            let incoming = &items[i].1;
            proof {
                assert(seen(items@, i as int + 1, items@[i as int].0@));
            }
            let current = map_get(&self.storage, items[i].0.as_str());
            let taken = !incoming.is_expired_at(now) && match current {
                Some(held) => held.ts < incoming.ts,
                None => true,
            };
            if taken {
                let mut stored = incoming.clone();
                if self.ttl.is_some() && stored.ttl.is_none() {
                    stored.ttl = self.ttl;
                }
                let _ = map_insert(&mut self.storage, items[i].0.clone(), stored);
                changed = true;
            }
            i += 1;
        }
        proof {
            let all = offered.restrict(Set::new(|k: Seq<char>| seen(items@, items@.len() as int, k)));
            assert(all =~= offered) by {
                assert forall|k: Seq<char>| offered.contains_key(k) implies seen(
                    items@,
                    items@.len() as int,
                    k,
                ) by {
                    let j = choose|j: int| 0 <= j < items@.len() && #[trigger] items@[j].0@ == k;
                    assert(items@[j].0@ == k);
                }
            }
            if alters(before, offered, now) {
                let k = choose|k: Seq<char>| #[trigger]
                    offered.contains_key(k) && takes(before.get(k), offered[k], now);
                let j = choose|j: int| 0 <= j < items@.len() && #[trigger] items@[j].0@ == k;
                assert(takes(before.get(items@[j].0@), items@[j].1, now));
            }
        }
        if changed {
            self.is_dirty = true;
        }
    }

    /// Takes in what a seeder delivered, at the instant `now`: a payload is
    /// merged as `set_at` merges it; a failure leaves the store as it is and
    /// is handed back.
    pub fn seed_at(
        &mut self,
        loaded: Result<im::HashMap<String, Entry>, SeedError>,
        now: u64,
    ) -> (r: Result<(), SeedError>)
        ensures
            match loaded {
                Ok(payload) => r is Ok && final(self).entries() == merged(
                    old(self).entries(),
                    entries_of(payload),
                    old(self).default_ttl(),
                    now,
                ) && final(self).dirty() == (old(self).dirty() || alters(
                    old(self).entries(),
                    entries_of(payload),
                    now,
                )),
                Err(e) => r == Err::<(), SeedError>(e) && final(self).entries() == old(
                    self,
                ).entries() && final(self).dirty() == old(self).dirty(),
            },
            final(self).cached_version() == old(self).cached_version(),
            final(self).default_ttl() == old(self).default_ttl(),
            final(self).sweep_interval() == old(self).sweep_interval(),
    {
        match loaded {
            Ok(payload) => {
                self.set_at(&payload, now);
                Ok(())
            },
            Err(e) => Err(e),
        }
    }

    /// One step of the worker that drains the queue of payloads, at the
    /// instant `now`: a payload that could be read is merged as `set_at`
    /// merges it; one that could not is dropped and the store stays as it is.
    pub fn ingest_at(&mut self, parsed: Option<im::HashMap<String, Entry>>, now: u64) -> (taken:
        bool)
        ensures
            taken == parsed is Some,
            match parsed {
                Some(payload) => final(self).entries() == merged(
                    old(self).entries(),
                    entries_of(payload),
                    old(self).default_ttl(),
                    now,
                ) && final(self).dirty() == (old(self).dirty() || alters(
                    old(self).entries(),
                    entries_of(payload),
                    now,
                )),
                None => final(self).entries() == old(self).entries() && final(self).dirty() == old(
                    self,
                ).dirty(),
            },
            final(self).cached_version() == old(self).cached_version(),
            final(self).default_ttl() == old(self).default_ttl(),
            final(self).sweep_interval() == old(self).sweep_interval(),
    {
        match parsed {
            Some(payload) => {
                self.set_at(&payload, now);
                true
            },
            None => false,
        }
    }

    /// Drops the entries that are expired at the instant `now`. The dirty mark
    /// and the cached version stay as they are.
    pub fn purge_at(&mut self, now: u64)
        ensures
            final(self).entries() == live(old(self).entries(), now),
            final(self).dirty() == old(self).dirty(),
            final(self).cached_version() == old(self).cached_version(),
            final(self).default_ttl() == old(self).default_ttl(),
            final(self).sweep_interval() == old(self).sweep_interval(),
    {
        map_retain_live(&mut self.storage, now);
    }

    /// The entry under `key`, unless there is none or it is expired at `now`.
    pub fn get_at(&self, key: &str, now: u64) -> (r: Option<Entry>)
        ensures
            r == live(self.entries(), now).get(key@),
    {
        match map_get(&self.storage, key) {
            Some(entry) => if entry.is_expired_at(now) {
                None
            } else {
                Some(entry.clone())
            },
            None => None,
        }
    }

    /// The entry under `key`, or `default` where `get_at` finds none.
    pub fn get_or_at(&self, key: &str, default: Entry, now: u64) -> (r: Entry)
        ensures
            r == match live(self.entries(), now).get(key@) {
                Some(entry) => entry,
                None => default,
            },
    {
        match self.get_at(key, now) {
            Some(entry) => entry,
            None => default,
        }
    }

    /// A snapshot of the entries that are not expired at `now`.
    pub fn get_root_at(&self, now: u64) -> (root: im::HashMap<String, Entry>)
        ensures
            entries_of(root) == live(self.entries(), now),
    {
        let mut root = map_clone(&self.storage);
        map_retain_live(&mut root, now);
        root
    }

    /// What differs between the store, its expired entries left aside, and
    /// `other` as it is: a key that only one side holds comes with its entry,
    /// a key that both hold comes with the entry of the smaller timestamp, and
    /// not at all where the timestamps agree.
    pub fn diff_at(&self, other: &im::HashMap<String, Entry>, now: u64) -> (d: im::HashMap<
        String,
        Entry,
    >)
        ensures
            entries_of(d) == difference(live(self.entries(), now), entries_of(*other)),
    {
        map_difference(self.get_root_at(now), map_clone(other))
    }

    /// The number of entries held, expired ones included until the next sweep.
    pub fn len(&self) -> (n: usize)
        ensures
            self.entries().dom().finite(),
            n == self.entries().dom().len(),
    {
        map_len(&self.storage)
    }

    /// Whether the entries changed since the version was last computed.
    pub fn is_dirty(&self) -> (r: bool)
        ensures
            r == self.dirty(),
    {
        self.is_dirty
    }

    /// The default time to live, in milliseconds.
    pub fn ttl(&self) -> (r: Option<u64>)
        ensures
            r == self.default_ttl(),
    {
        self.ttl
    }

    /// Milliseconds between two sweeps.
    pub fn purge_interval(&self) -> (r: u64)
        ensures
            r == self.sweep_interval(),
    {
        self.purge_interval
    }

    /// The version that a store with the given entries computes at `now`: the
    /// digest of the pairs of key and timestamp of its entries that are not
    /// expired, in decimal.
    pub open spec fn version_of(entries: Map<Seq<char>, Entry>, now: u64) -> Seq<char> {
        decimal(digest(stamps(live(entries, now))) as nat)
    }

    /// The version of the state. A dirty store computes it anew at the
    /// instant `now`, keeps it and is clean again; a clean store hands out
    /// what it kept.
    pub fn version_at(&mut self, now: u64) -> (v: String)
        ensures
            v@ == final(self).cached_version(),
            final(self).cached_version() == if old(self).dirty() {
                Self::version_of(old(self).entries(), now)
            } else {
                old(self).cached_version()
            },
            !final(self).dirty(),
            final(self).entries() == old(self).entries(),
            final(self).default_ttl() == old(self).default_ttl(),
            final(self).sweep_interval() == old(self).sweep_interval(),
    {
        if self.is_dirty {
            self.version = to_decimal(hash(&self.storage, now));
            self.is_dirty = false;
        }
        self.version.clone()
    }

    /// Asks the seeder for its data and takes it in at the current time: a
    /// payload is merged as `set_at` merges it; a failure leaves the store as
    /// it is and is handed back.
    pub fn seed<S: DataSeeder>(&mut self, seeder: &S) -> (r: Result<(), SeedError>)
        ensures
            r is Ok ==> exists|payload: Map<Seq<char>, Entry>, now: u64|
                {
                    &&& final(self).entries() == #[trigger] merged(
                        old(self).entries(),
                        payload,
                        old(self).default_ttl(),
                        now,
                    )
                    &&& final(self).dirty() == (old(self).dirty() || alters(
                        old(self).entries(),
                        payload,
                        now,
                    ))
                },
            r is Err ==> final(self).entries() == old(self).entries() && final(self).dirty() == old(
                self,
            ).dirty(),
            final(self).cached_version() == old(self).cached_version(),
            final(self).default_ttl() == old(self).default_ttl(),
            final(self).sweep_interval() == old(self).sweep_interval(),
    {
        self.seed_at(seeder.load(), epoch())
    }

    /// `purge_at` at the current time.
    pub fn purge(&mut self)
        ensures
            exists|now: u64| final(self).entries() == #[trigger] live(old(self).entries(), now),
            final(self).dirty() == old(self).dirty(),
            final(self).cached_version() == old(self).cached_version(),
            final(self).default_ttl() == old(self).default_ttl(),
            final(self).sweep_interval() == old(self).sweep_interval(),
    {
        let now = epoch();
        self.purge_at(now);
    }
}

impl State for Default {
    /// Seeds the store from `seeder`, where one is given. A seeder that fails
    /// leaves the store as it is; the failure is handed back for the record
    /// and stops nothing.
    fn init<S: DataSeeder>(&mut self, seeder: Option<&S>) -> (failure: Option<SeedError>)
        ensures
            seeder is None ==> failure is None,
            seeder is None || failure is Some ==> final(self).entries() == old(self).entries()
                && final(self).dirty() == old(self).dirty(),
            seeder is Some && failure is None ==> exists|payload: Map<Seq<char>, Entry>, now: u64|
                {
                    &&& final(self).entries() == #[trigger] merged(
                        old(self).entries(),
                        payload,
                        old(self).default_ttl(),
                        now,
                    )
                    &&& final(self).dirty() == (old(self).dirty() || alters(
                        old(self).entries(),
                        payload,
                        now,
                    ))
                },
            final(self).cached_version() == old(self).cached_version(),
            final(self).default_ttl() == old(self).default_ttl(),
            final(self).sweep_interval() == old(self).sweep_interval(),
    {
        match seeder {
            Some(seeder) => match self.seed(seeder) {
                Ok(()) => None,
                Err(e) => Some(e),
            },
            None => None,
        }
    }

    /// `version_at` at the current time.
    fn version(&mut self) -> (v: String)
        ensures
            v@ == final(self).cached_version(),
            old(self).dirty() ==> exists|now: u64|
                final(self).cached_version() == #[trigger] Self::version_of(
                    old(self).entries(),
                    now,
                ),
            !old(self).dirty() ==> final(self).cached_version() == old(self).cached_version(),
            !final(self).dirty(),
            final(self).entries() == old(self).entries(),
            final(self).default_ttl() == old(self).default_ttl(),
            final(self).sweep_interval() == old(self).sweep_interval(),
    {
        let now = epoch();
        self.version_at(now)
    }

    /// `set_at` at the current time. The default state takes every payload.
    fn set(&mut self, value: &im::HashMap<String, Entry>) -> (r: Result<(), StateError>)
        ensures
            r is Ok,
            exists|now: u64|
                {
                    &&& final(self).entries() == #[trigger] merged(
                        old(self).entries(),
                        entries_of(*value),
                        old(self).default_ttl(),
                        now,
                    )
                    &&& final(self).dirty() == (old(self).dirty() || alters(
                        old(self).entries(),
                        entries_of(*value),
                        now,
                    ))
                },
            final(self).cached_version() == old(self).cached_version(),
            final(self).default_ttl() == old(self).default_ttl(),
            final(self).sweep_interval() == old(self).sweep_interval(),
    {
        let now = epoch();
        self.set_at(value, now);
        Ok(())
    }

    /// `get_at` at the current time.
    fn get(&self, key: &str) -> (r: Option<Entry>)
        ensures
            exists|now: u64| r == (#[trigger] live(self.entries(), now)).get(key@),
    {
        let now = epoch();
        self.get_at(key, now)
    }

    /// `get_or_at` at the current time.
    fn get_or(&self, key: &str, default: Entry) -> (r: Entry)
        ensures
            exists|now: u64|
                r == match (#[trigger] live(self.entries(), now)).get(key@) {
                    Some(entry) => entry,
                    None => default,
                },
    {
        let now = epoch();
        self.get_or_at(key, default, now)
    }

    /// `diff_at` at the current time. The default state can always tell.
    fn diff(&self, other: &im::HashMap<String, Entry>) -> (r: Result<
        im::HashMap<String, Entry>,
        StateError,
    >)
        ensures
            r is Ok,
            exists|now: u64|
                entries_of(r->Ok_0) == difference(
                    #[trigger] live(self.entries(), now),
                    entries_of(*other),
                ),
    {
        let now = epoch();
        Ok(self.diff_at(other, now))
    }

    /// `get_root_at` at the current time. The default state always has a
    /// root.
    fn get_root(&self) -> (r: Option<im::HashMap<String, Entry>>)
        ensures
            r is Some,
            exists|now: u64| entries_of(r->0) == #[trigger] live(self.entries(), now),
    {
        let now = epoch();
        Some(self.get_root_at(now))
    }
}

/// Whether `key` is the key of one of the first `n` items.
pub open spec fn seen(items: Seq<(String, Entry)>, n: int, key: Seq<char>) -> bool {
    exists|j: int| 0 <= j < n && #[trigger] items[j].0@ == key
}

} // verus!
