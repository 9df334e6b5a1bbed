//! A two-tier cache: an admission (probationary) FIFO queue in front of a
//! protected (promoted) LRU queue.
//!
//! `put` always inserts into the admission queue; a `get` hit there migrates
//! the entry into the protected queue. A `get` miss in the admission queue
//! never consults the protected queue, so a promoted key is unreachable via
//! plain `get` — an open design gap of this scheme, stated here rather than
//! silently completed. Each queue
//! is provisioned with the full nominal capacity, not a split of it, so the
//! total occupancy is bounded by twice the capacity only.

use vstd::prelude::*;

use crate::fifo::{fifo_put_entries, fifo_put_evicted, FIFOCache};
use crate::keys::CacheKey;
use crate::lru_1::{lru_put_entries, LruCache, PutStrategy};
use crate::ordered_map::{distinct_keys, has_key, key_index};

verus! {

/// A cache pairing a probationary [`FIFOCache`] with a protected
/// [`LruCache`], each provisioned with the full nominal capacity.
pub struct Lru2qCache<K, V> {
    capacity: usize,
    lru: LruCache<K, V>,
    fifo: FIFOCache<K, V>,
}

impl<K: CacheKey, V> Lru2qCache<K, V> {
    /// The nominal capacity fixed at construction; each queue is provisioned
    /// with this full amount.
    pub closed spec fn spec_capacity(&self) -> usize {
        self.capacity
    }

    /// The entries of the admission (probationary, FIFO) queue, oldest first.
    pub closed spec fn admission(&self) -> Seq<(K, V)> {
        self.fifo@
    }

    /// The entries of the protected (promoted, LRU) queue, least recent
    /// first.
    pub closed spec fn protected(&self) -> Seq<(K, V)> {
        self.lru@
    }

    /// The cache's invariant: both queues are well formed and share the
    /// nominal capacity, and the protected queue re-adds promoted keys at the
    /// back.
    pub closed spec fn wf(&self) -> bool {
        &&& self.fifo.wf()
        &&& self.lru.wf()
        &&& self.fifo.spec_capacity() == self.capacity
        &&& self.lru.spec_capacity() == self.capacity
        &&& self.lru.spec_put_strategy() == PutStrategy::Add
    }

    /// Each queue on its own respects the nominal capacity, so the total
    /// occupancy is bounded by twice the capacity; the sum itself may exceed
    /// the capacity, a known limitation of provisioning both queues in full.
    pub proof fn lemma_len_bound(&self)
        requires
            self.wf(),
        ensures
            self.admission().len() <= self.spec_capacity(),
            self.protected().len() <= self.spec_capacity(),
            self.admission().len() + self.protected().len() <= 2 * self.spec_capacity(),
            distinct_keys(self.admission()),
            distinct_keys(self.protected()),
    {
    }

    /// An empty cache; both queues are provisioned with the full `capacity`.
    pub fn new(capacity: usize) -> (r: Self)
        ensures
            r.wf(),
            r.spec_capacity() == capacity,
            r.admission() == Seq::<(K, V)>::empty(),
            r.protected() == Seq::<(K, V)>::empty(),
    {
        Lru2qCache { capacity, lru: LruCache::new(capacity), fifo: FIFOCache::new(capacity) }
    }

    /// Probe the admission queue. On a hit the entry is migrated — moved, not
    /// copied — to the back of the protected queue and its value is returned.
    /// On an admission-queue miss the protected queue is not consulted and
    /// nothing changes.
    pub fn get(&mut self, key: &K) -> (r: Option<&V>)
        requires
            old(self).wf(),
        ensures
            final(self).wf(),
            final(self).spec_capacity() == old(self).spec_capacity(),
            match r {
                Some(v) => {
                    let i = key_index(old(self).admission(), key@);
                    let e = old(self).admission()[i];
                    &&& has_key(old(self).admission(), key@)
                    &&& final(self).admission() == old(self).admission().remove(i)
                    &&& final(self).protected() == lru_put_entries(
                        old(self).protected(),
                        old(self).spec_capacity(),
                        PutStrategy::Add,
                        e.0,
                        e.1,
                    )
                    &&& *v == e.1
                },
                None => {
                    &&& !has_key(old(self).admission(), key@)
                    &&& final(self).admission() == old(self).admission()
                    &&& final(self).protected() == old(self).protected()
                },
            },
    {
        match self.fifo.take(key) {
            Some((k, v)) => {
                self.lru.put(k, v);
                match self.lru.back() {
                    Some(bv) => Some(bv),
                    None => vstd::pervasive::unreached(),
                }
            },
            None => None,
        }
    }

    /// Look `key` up, initializing on a true miss. A key present in either
    /// queue delegates to `get` (so a key promoted earlier yields `None` and
    /// `init` is not run); otherwise `init` is invoked once and its value is
    /// inserted through the admission queue and returned.
    pub fn get_or_init<F: FnOnce() -> V>(&mut self, key: K, init: F) -> (r: Option<&V>)
        requires
            old(self).wf(),
            old(self).spec_capacity() > 0,
            call_requires(init, ()),
        ensures
            final(self).wf(),
            final(self).spec_capacity() == old(self).spec_capacity(),
            has_key(old(self).admission(), key@) ==> {
                let i = key_index(old(self).admission(), key@);
                let e = old(self).admission()[i];
                &&& final(self).admission() == old(self).admission().remove(i)
                &&& final(self).protected() == lru_put_entries(
                    old(self).protected(),
                    old(self).spec_capacity(),
                    PutStrategy::Add,
                    e.0,
                    e.1,
                )
                &&& (r matches Some(v) && *v == e.1)
            },
            !has_key(old(self).admission(), key@) && has_key(old(self).protected(), key@) ==> {
                &&& final(self).admission() == old(self).admission()
                &&& final(self).protected() == old(self).protected()
                &&& r is None
            },
            !has_key(old(self).admission(), key@) && !has_key(old(self).protected(), key@)
                ==> exists|v: V|
                {
                    &&& #[trigger] call_ensures(init, (), v)
                    &&& final(self).admission() == fifo_put_entries(
                        old(self).admission(),
                        old(self).spec_capacity(),
                        key,
                        v,
                    )
                    &&& final(self).protected() == old(self).protected()
                    &&& (r matches Some(rv) && *rv == v)
                },
    {
        if self.fifo.contains(&key) || self.lru.contains(&key) {
            self.get(&key)
        } else {
            let value = init();
            let ghost produced = value;
            let p = self.fifo.put_and_return(key, value);
            proof {
                assert(call_ensures(init, (), produced));
            }
            Some(p.1)
        }
    }

    /// Insert `(key, value)` into the admission queue; overflow there evicts
    /// that queue's front entry and returns it. The protected queue is never
    /// touched by `put`.
    pub fn put(&mut self, key: K, value: V) -> (r: Option<(K, V)>)
        requires
            old(self).wf(),
            old(self).spec_capacity() > 0,
        ensures
            final(self).wf(),
            final(self).spec_capacity() == old(self).spec_capacity(),
            final(self).protected() == old(self).protected(),
            final(self).admission() == fifo_put_entries(
                old(self).admission(),
                old(self).spec_capacity(),
                key,
                value,
            ),
            r == fifo_put_evicted(old(self).admission(), old(self).spec_capacity(), key),
    {
        self.fifo.put(key, value)
    }

    /// The same admission-queue insert as `put`, returning references to the
    /// entry just placed instead of any evicted pair.
    pub fn put_and_return(&mut self, key: K, value: V) -> (r: (&K, &V))
        requires
            old(self).wf(),
            old(self).spec_capacity() > 0,
        ensures
            final(self).wf(),
            final(self).spec_capacity() == old(self).spec_capacity(),
            final(self).protected() == old(self).protected(),
            final(self).admission() == fifo_put_entries(
                old(self).admission(),
                old(self).spec_capacity(),
                key,
                value,
            ),
            *r.0 == key,
            *r.1 == value,
    {
        self.fifo.put_and_return(key, value)
    }

    /// The total number of entries over both queues.
    pub fn len(&self) -> (r: usize)
        requires
            self.admission().len() + self.protected().len() <= usize::MAX,
        ensures
            r == self.admission().len() + self.protected().len(),
    {
        self.fifo.len() + self.lru.len()
    }

    /// The nominal capacity fixed at construction.
    pub fn capacity(&self) -> (r: usize)
        ensures
            r == self.spec_capacity(),
    {
        self.capacity
    }

    pub fn is_empty(&self) -> (r: bool)
        ensures
            r == (self.admission().len() == 0 && self.protected().len() == 0),
    {
        self.fifo.is_empty() && self.lru.is_empty()
    }

    /// Drop every entry of both queues; the capacity is kept.
    pub fn clear(&mut self)
        requires
            old(self).wf(),
        ensures
            final(self).wf(),
            final(self).spec_capacity() == old(self).spec_capacity(),
            final(self).admission() == Seq::<(K, V)>::empty(),
            final(self).protected() == Seq::<(K, V)>::empty(),
    {
        self.fifo.clear();
        self.lru.clear();
    }

    /// The value of the least recently used protected entry.
    pub fn front(&self) -> (r: Option<&V>)
        ensures
            match r {
                Some(v) => self.protected().len() > 0 && *v == self.protected()[0].1,
                None => self.protected().len() == 0,
            },
    {
        self.lru.front()
    }

    /// The value of the newest admission entry.
    pub fn back(&self) -> (r: Option<&V>)
        ensures
            match r {
                Some(v) => {
                    &&& self.admission().len() > 0
                    &&& *v == self.admission()[self.admission().len() - 1].1
                },
                None => self.admission().len() == 0,
            },
    {
        self.fifo.back()
    }
}

} // verus!
