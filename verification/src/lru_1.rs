//! A capacity-bounded cache that evicts the least recently used entry.
//!
//! Recency is tracked by relocating entries to the back: every successful
//! `get` or `get_mut` does so, and `put` on a present key follows the
//! configured [`PutStrategy`]. Capacity-triggered evictions are counted in
//! `popped_count`, which saturates at its maximum instead of wrapping.

use vstd::prelude::*;

use crate::keys::CacheKey;
use crate::ordered_map::{
    distinct_keys, has_key, key_index, lemma_key_index, lemma_remove_keeps_keys, OrderedMap,
};

verus! {

/// One more than `c`, saturating at the largest counter value.
pub open spec fn sat_inc_usize(c: usize) -> usize {
    if c == usize::MAX {
        c
    } else {
        (c + 1) as usize
    }
}

/// What `put` does when the key is already present.
#[derive(Clone, Copy, Debug, PartialEq, Eq, Structural)]
pub enum PutStrategy {
    /// Overwrite the value in place without moving the entry.
    Replace,
    /// Detach the old entry and insert a fresh one at the back of the queue.
    Add,
    /// Move the entry to the back of the queue unchanged; the supplied value
    /// is discarded.
    Move,
}

impl Default for PutStrategy {
    fn default() -> (r: Self)
        ensures
            r == PutStrategy::Add,
    {
        PutStrategy::Add
    }
}

/// The entries after an LRU `put` of `(key, value)` under `strat`: a present
/// key follows the strategy; a new key at capacity evicts the front
/// (least-recently-used) entry first.
pub open spec fn lru_put_entries<K: CacheKey, V>(
    s: Seq<(K, V)>,
    cap: usize,
    strat: PutStrategy,
    key: K,
    value: V,
) -> Seq<(K, V)> {
    if has_key(s, key@) {
        let i = key_index(s, key@);
        match strat {
            PutStrategy::Replace => s.update(i, (s[i].0, value)),
            PutStrategy::Add => s.remove(i).push((key, value)),
            PutStrategy::Move => s.remove(i).push(s[i]),
        }
    } else if s.len() >= cap {
        s.remove(0).push((key, value))
    } else {
        s.push((key, value))
    }
}

/// The pair an LRU `put` evicts: the front entry, exactly when the key is new
/// and the cache stands at capacity.
pub open spec fn lru_put_evicted<K: CacheKey, V>(s: Seq<(K, V)>, cap: usize, key: K) -> Option<
    (K, V),
> {
    if !has_key(s, key@) && s.len() >= cap {
        Some(s[0])
    } else {
        None
    }
}

/// A cache over an [`OrderedMap`] kept in access-recency order: front =
/// least recently used, back = most recently used.
pub struct LruCache<K, V> {
    capacity: usize,
    map: OrderedMap<K, V>,
    put_strategy: PutStrategy,
    popped_count: usize,
}

impl<K: CacheKey, V> View for LruCache<K, V> {
    type V = Seq<(K, V)>;

    closed spec fn view(&self) -> Seq<(K, V)> {
        self.map@
    }
}

impl<K: CacheKey, V> LruCache<K, V> {
    /// The capacity fixed at construction.
    pub closed spec fn spec_capacity(&self) -> usize {
        self.capacity
    }

    /// The strategy `put` follows for a present key.
    pub closed spec fn spec_put_strategy(&self) -> PutStrategy {
        self.put_strategy
    }

    /// How many entries capacity-triggered evictions have popped.
    pub closed spec fn spec_popped_count(&self) -> usize {
        self.popped_count
    }

    /// The cache's invariant: keys are pairwise distinct and the length never
    /// exceeds the capacity.
    pub open spec fn wf(&self) -> bool {
        &&& distinct_keys(self@)
        &&& self@.len() <= self.spec_capacity()
    }

    /// An empty cache with the default strategy, [`PutStrategy::Add`].
    pub fn new(capacity: usize) -> (r: Self)
        ensures
            r.wf(),
            r@ == Seq::<(K, V)>::empty(),
            r.spec_capacity() == capacity,
            r.spec_put_strategy() == PutStrategy::Add,
            r.spec_popped_count() == 0,
    {
        LruCache {
            capacity,
            map: OrderedMap::with_capacity(capacity),
            put_strategy: PutStrategy::Add,
            popped_count: 0,
        }
    }

    /// An empty cache with the given strategy.
    pub fn with_put_strategy(capacity: usize, strategy: PutStrategy) -> (r: Self)
        ensures
            r.wf(),
            r@ == Seq::<(K, V)>::empty(),
            r.spec_capacity() == capacity,
            r.spec_put_strategy() == strategy,
            r.spec_popped_count() == 0,
    {
        LruCache {
            capacity,
            map: OrderedMap::with_capacity(capacity),
            put_strategy: strategy,
            popped_count: 0,
        }
    }

    /// Switch the strategy `put` follows from now on.
    pub fn put_strategy(&mut self, strategy: PutStrategy)
        ensures
            final(self).wf() == old(self).wf(),
            final(self)@ == old(self)@,
            final(self).spec_capacity() == old(self).spec_capacity(),
            final(self).spec_popped_count() == old(self).spec_popped_count(),
            final(self).spec_put_strategy() == strategy,
    {
        self.put_strategy = strategy;
    }

    /// Look the value up; on a hit the entry moves to the back, the defining
    /// side effect of recency tracking.
    pub fn get(&mut self, key: &K) -> (r: Option<&V>)
        requires
            old(self).wf(),
        ensures
            final(self).wf(),
            final(self).spec_capacity() == old(self).spec_capacity(),
            final(self).spec_put_strategy() == old(self).spec_put_strategy(),
            final(self).spec_popped_count() == old(self).spec_popped_count(),
            match r {
                Some(v) => {
                    let i = key_index(old(self)@, key@);
                    &&& has_key(old(self)@, key@)
                    &&& final(self)@ == old(self)@.remove(i).push(old(self)@[i])
                    &&& *v == old(self)@[i].1
                },
                None => !has_key(old(self)@, key@) && final(self)@ == old(self)@,
            },
    {
        match self.map.move_to_back(key) {
            Some(p) => Some(p.1),
            None => None,
        }
    }

    /// Mutable lookup; on a hit the entry moves to the back first.
    pub fn get_mut(&mut self, key: &K) -> (r: Option<&mut V>)
        requires
            old(self).wf(),
        ensures
            final(self).wf(),
            final(self).spec_capacity() == old(self).spec_capacity(),
            final(self).spec_put_strategy() == old(self).spec_put_strategy(),
            final(self).spec_popped_count() == old(self).spec_popped_count(),
            match r {
                Some(v) => {
                    let i = key_index(old(self)@, key@);
                    &&& has_key(old(self)@, key@)
                    &&& *v == old(self)@[i].1
                    &&& final(self)@ == old(self)@.remove(i).push(
                        (old(self)@[i].0, *final(v)),
                    )
                },
                None => !has_key(old(self)@, key@) && final(self)@ == old(self)@,
            },
    {
        let ghost s = self@;
        let moved = self.map.move_to_back(key).is_some();
        if moved {
            proof {
                let i = key_index(s, key@);
                lemma_remove_keeps_keys(s, i);
                let t = s.remove(i).push(s[i]);
                lemma_key_index(t, key@, t.len() - 1);
                assert(s.remove(i).push((s[i].0, s[i].1)) == t);
            }
            let ghost t = self@;
            match self.map.get_mut(key) {
                Some(v) => {
                    proof {
                        let i = key_index(s, key@);
                        assert(t.update(t.len() - 1, (t[t.len() - 1].0, *final(v)))
                            =~= s.remove(i).push((s[i].0, *final(v))));
                    }
                    Some(v)
                },
                None => None,
            }
        } else {
            None
        }
    }

    /// Take the entry with key `key` out of the cache; the order of the
    /// remaining entries and the counter are untouched.
    pub fn take(&mut self, key: &K) -> (r: Option<(K, V)>)
        requires
            old(self).wf(),
        ensures
            final(self).wf(),
            final(self).spec_capacity() == old(self).spec_capacity(),
            final(self).spec_put_strategy() == old(self).spec_put_strategy(),
            final(self).spec_popped_count() == old(self).spec_popped_count(),
            match r {
                Some(p) => {
                    let i = key_index(old(self)@, key@);
                    &&& has_key(old(self)@, key@)
                    &&& p == old(self)@[i]
                    &&& final(self)@ == old(self)@.remove(i)
                    &&& final(self)@.len() == old(self)@.len() - 1
                    &&& !has_key(final(self)@, key@)
                },
                None => !has_key(old(self)@, key@) && final(self)@ == old(self)@,
            },
    {
        self.map.remove(key)
    }

    /// Insert `(key, value)`. A present key follows the configured strategy;
    /// a new key at capacity evicts the front entry, which is returned, and
    /// the popped counter advances.
    pub fn put(&mut self, key: K, value: V) -> (r: Option<(K, V)>)
        requires
            old(self).wf(),
            old(self).spec_capacity() > 0,
        ensures
            final(self).wf(),
            final(self).spec_capacity() == old(self).spec_capacity(),
            final(self).spec_put_strategy() == old(self).spec_put_strategy(),
            final(self)@ == lru_put_entries(
                old(self)@,
                old(self).spec_capacity(),
                old(self).spec_put_strategy(),
                key,
                value,
            ),
            r == lru_put_evicted(old(self)@, old(self).spec_capacity(), key),
            final(self).spec_popped_count() == if r is Some {
                sat_inc_usize(old(self).spec_popped_count())
            } else {
                old(self).spec_popped_count()
            },
    {
        let ghost s = self@;
        if self.map.contains(&key) {
            match self.put_strategy {
                PutStrategy::Add => {
                    self.map.push_back(key, value);
                },
                PutStrategy::Move => {
                    self.map.move_to_back(&key);
                },
                PutStrategy::Replace => {
                    self.map.replace_value(&key, value);
                },
            }
            None
        } else {
            let mut res: Option<(K, V)> = None;
            if self.map.len() >= self.capacity {
                match self.map.pop_front() {
                    Some(p) => {
                        res = Some(p);
                    },
                    None => {
                        vstd::pervasive::unreached::<()>();
                    },
                }
                if self.popped_count != usize::MAX {
                    self.popped_count = self.popped_count + 1;
                }
                proof {
                    lemma_remove_keeps_keys(s, 0);
                }
            }
            self.map.push_back(key, value);
            res
        }
    }

    /// The same fork as `put`, returning references to the resulting entry:
    /// the entry the strategy left for a present key, the fresh back entry
    /// for a new one. Any evicted entry is dropped, though the popped counter
    /// still advances.
    pub fn put_and_return(&mut self, key: K, value: V) -> (r: Option<(&K, &V)>)
        requires
            old(self).wf(),
            old(self).spec_capacity() > 0,
        ensures
            final(self).wf(),
            final(self).spec_capacity() == old(self).spec_capacity(),
            final(self).spec_put_strategy() == old(self).spec_put_strategy(),
            final(self)@ == lru_put_entries(
                old(self)@,
                old(self).spec_capacity(),
                old(self).spec_put_strategy(),
                key,
                value,
            ),
            final(self).spec_popped_count() == if !has_key(old(self)@, key@) && old(self)@.len()
                >= old(self).spec_capacity() {
                sat_inc_usize(old(self).spec_popped_count())
            } else {
                old(self).spec_popped_count()
            },
            ({
                let t = lru_put_entries(
                    old(self)@,
                    old(self).spec_capacity(),
                    old(self).spec_put_strategy(),
                    key,
                    value,
                );
                let pos = if has_key(old(self)@, key@) && old(self).spec_put_strategy()
                    == PutStrategy::Replace {
                    key_index(old(self)@, key@)
                } else {
                    t.len() - 1
                };
                r matches Some(p) && *p.0 == t[pos].0 && *p.1 == t[pos].1
            }),
    {
        let ghost s = self@;
        if self.map.contains(&key) {
            match self.put_strategy {
                PutStrategy::Add => {
                    let p = self.map.push_back_and_return(key, value);
                    Some(p)
                },
                PutStrategy::Move => {
                    self.map.move_to_back(&key)
                },
                PutStrategy::Replace => {
                    self.map.replace_value(&key, value)
                },
            }
        } else {
            if self.map.len() >= self.capacity {
                match self.map.pop_front() {
                    Some(_) => {},
                    None => {
                        vstd::pervasive::unreached::<()>();
                    },
                }
                if self.popped_count != usize::MAX {
                    self.popped_count = self.popped_count + 1;
                }
                proof {
                    lemma_remove_keeps_keys(s, 0);
                }
            }
            let p = self.map.push_back_and_return(key, value);
            Some(p)
        }
    }

    /// The number of entries held.
    pub fn len(&self) -> (r: usize)
        ensures
            r == self@.len(),
    {
        self.map.len()
    }

    /// The capacity fixed at construction.
    pub fn capacity(&self) -> (r: usize)
        ensures
            r == self.spec_capacity(),
    {
        self.capacity
    }

    /// How many entries capacity-triggered evictions have popped so far;
    /// strategy-triggered relocations are never counted.
    pub fn popped_count(&self) -> (r: usize)
        ensures
            r == self.spec_popped_count(),
    {
        self.popped_count
    }

    pub fn contains(&self, key: &K) -> (r: bool)
        ensures
            r == has_key(self@, key@),
    {
        self.map.contains(key)
    }

    pub fn is_empty(&self) -> (r: bool)
        ensures
            r == (self@.len() == 0),
    {
        self.map.is_empty()
    }

    /// Drop every entry; capacity, strategy and the counter are kept.
    pub fn clear(&mut self)
        ensures
            final(self).wf(),
            final(self)@ == Seq::<(K, V)>::empty(),
            final(self).spec_capacity() == old(self).spec_capacity(),
            final(self).spec_put_strategy() == old(self).spec_put_strategy(),
            final(self).spec_popped_count() == old(self).spec_popped_count(),
    {
        self.map.clear()
    }

    /// The value of the least recently used entry.
    pub fn front(&self) -> (r: Option<&V>)
        ensures
            match r {
                Some(v) => self@.len() > 0 && *v == self@[0].1,
                None => self@.len() == 0,
            },
    {
        match self.map.front() {
            Some(p) => Some(p.1),
            None => None,
        }
    }

    /// The value of the most recently used entry.
    pub fn back(&self) -> (r: Option<&V>)
        ensures
            match r {
                Some(v) => self@.len() > 0 && *v == self@[self@.len() - 1].1,
                None => self@.len() == 0,
            },
    {
        match self.map.back() {
            Some(p) => Some(p.1),
            None => None,
        }
    }

    /// The value at order rank `pos` from the front, zero-indexed.
    pub fn pos(&self, pos: usize) -> (r: Option<&V>)
        ensures
            match r {
                Some(v) => pos < self@.len() && *v == self@[pos as int].1,
                None => pos >= self@.len(),
            },
    {
        match self.map.position(pos) {
            Some(p) => Some(p.1),
            None => None,
        }
    }
}

impl<K: CacheKey, V> Default for LruCache<K, V> {
    /// A cache of capacity zero with the default strategy: it holds nothing
    /// and every `put` into it is a configuration defect.
    fn default() -> (r: Self)
        ensures
            r.wf(),
            r@ == Seq::<(K, V)>::empty(),
            r.spec_capacity() == 0,
            r.spec_put_strategy() == PutStrategy::Add,
            r.spec_popped_count() == 0,
    {
        LruCache {
            capacity: 0,
            map: OrderedMap::with_capacity(0),
            put_strategy: PutStrategy::Add,
            popped_count: 0,
        }
    }
}

} // verus!
