//! A keyed cache that makes room by dropping its oldest entry.

use std::collections::HashMap;
use vstd::pervasive::cloned;
use vstd::prelude::*;
use vstd::std_specs::hash::group_hash_axioms;
use vstd::std_specs::hash::spec_hash_map_len;

verus! {

broadcast use group_hash_axioms;

/// Values by key, each with the time at which it was stored.
pub struct Cache<V> {
    entries: HashMap<u64, (u64, V)>,
    capacity: usize,
}

/// Whether `key` is an entry of `entries` stored before `now` and no later
/// than any other entry.
pub open spec fn is_oldest<V>(entries: Map<u64, (u64, V)>, key: u64, now: u64) -> bool {
    &&& entries.contains_key(key)
    &&& entries[key].0 < now
    &&& forall|other: u64| #[trigger] entries.contains_key(other) ==> entries[key].0 <= entries[other].0
}

/// Whether every entry of `entries` was stored before `now`.
pub open spec fn all_older<V>(entries: Map<u64, (u64, V)>, now: u64) -> bool {
    forall|key: u64| #[trigger] entries.contains_key(key) ==> entries[key].0 < now
}

/// Whether no entry of `entries` was stored before `now`.
pub open spec fn none_older<V>(entries: Map<u64, (u64, V)>, now: u64) -> bool {
    forall|key: u64| #[trigger] entries.contains_key(key) ==> entries[key].0 >= now
}

impl<V> View for Cache<V> {
    type V = Map<u64, (u64, V)>;

    closed spec fn view(&self) -> Map<u64, (u64, V)> {
        self.entries@
    }
}

impl<V: Clone> Cache<V> {
    /// The number of entries above which `store` makes room.
    pub closed spec fn capacity(&self) -> usize {
        self.capacity
    }

    /// Every cache holds finitely many entries, and no more than can be
    /// counted in a `usize`. So a cache of capacity `usize::MAX` never holds
    /// more than its capacity.
    pub proof fn fits(&self)
        ensures
            self@.dom().finite(),
            self@.len() <= usize::MAX,
    {
        assert(spec_hash_map_len(&self.entries) == self.entries@.len());
    }

    /// An empty cache. With the capacity `usize::MAX` it never drops an
    /// entry.
    pub fn new(capacity: usize) -> (cache: Self)
        ensures
            cache@ == Map::<u64, (u64, V)>::empty(),
            cache.capacity() == capacity,
    {
        Cache { entries: HashMap::new(), capacity }
    }

    /// A clone of the value stored under `key`, if there is one.
    pub fn get(&self, key: &u64) -> (found: Option<V>)
        ensures
            match found {
                Some(value) => self@.contains_key(*key) && cloned(self@[*key].1, value),
                None => !self@.contains_key(*key),
            },
    {
        match self.entries.get(key) {
            Some(entry) => Some(entry.1.clone()),
            None => None,
        }
    }

    /// The key of an entry stored before `now` and no later than any other,
    /// if any entry was stored before `now`.
    fn oldest(&self, now: u64) -> (found: Option<u64>)
        ensures
            match found {
                Some(key) => is_oldest(self@, key, now),
                None => none_older(self@, now),
            },
    {
        let mut oldest_key: Option<u64> = None;
        let mut oldest_time: u64 = now;
        for pair in it: self.entries.iter()
            invariant
                oldest_time <= now,
                oldest_key is None ==> oldest_time == now,
                forall|i: int| 0 <= i < it.index() ==> (#[trigger] it.seq()[i]).1.0 >= oldest_time,
                oldest_key matches Some(key) ==> self.entries@.contains_key(key)
                    && self.entries@[key].0 == oldest_time && oldest_time < now,
        {
            let (key, entry) = pair;
            if entry.0 < oldest_time {
                oldest_time = entry.0;
                oldest_key = Some(*key);
            }
        }
        oldest_key
    }

    /// Stores `value` under `key` with the time `now`. If the cache holds
    /// more than its capacity, an oldest entry stored before `now` is dropped
    /// first, and its key returned.
    ///
    /// So a cache whose clock moves on between stores never holds more than
    /// one entry above its capacity, and a cache of capacity `usize::MAX`
    /// never drops an entry.
    ///
    /// Where nothing is dropped the cache has one entry more if `key` is
    /// new, and as many as before if it is not. Where an entry is dropped it
    /// has as many as before if `key` is new or the key of the dropped
    /// entry, and one fewer if not.
    pub fn store(&mut self, key: u64, value: V, now: u64) -> (evicted: Option<u64>)
        ensures
            final(self).capacity() == old(self).capacity(),
            old(self)@.len() <= old(self).capacity() + 1 && all_older(old(self)@, now)
                ==> final(self)@.len() <= old(self).capacity() + 1,
            old(self).capacity() == usize::MAX ==> evicted is None,
            match evicted {
                Some(gone) => {
                    &&& old(self)@.len() > old(self).capacity()
                    &&& is_oldest(old(self)@, gone, now)
                    &&& final(self)@ == old(self)@.remove(gone).insert(key, (now, value))
                    &&& final(self)@.len() == old(self)@.len() - if old(self)@.contains_key(key)
                        && key != gone {
                        1int
                    } else {
                        0int
                    }
                },
                None => {
                    &&& old(self)@.len() <= old(self).capacity() || none_older(old(self)@, now)
                    &&& final(self)@ == old(self)@.insert(key, (now, value))
                    &&& final(self)@.len() == old(self)@.len() + if old(self)@.contains_key(key) {
                        0int
                    } else {
                        1int
                    }
                },
            },
    {
        let mut evicted: Option<u64> = None;
        if self.entries.len() > self.capacity {
            evicted = self.oldest(now);
            if let Some(gone) = evicted {
                self.entries.remove(&gone);
            }
            proof {
                if all_older(old(self)@, now) {
                    let some = old(self)@.dom().choose();
                    assert(old(self)@.contains_key(some));
                    assert(evicted is Some);
                }
            }
        }
        self.entries.insert(key, (now, value));
        evicted
    }
}

} // verus!
