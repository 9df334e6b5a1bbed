//! An order-preserving key-value container.
//!
//! [`OrderedMap`] keeps its entries in an explicit linear order (front =
//! oldest, back = newest) that can be changed independently of lookup:
//! `move_to_back` relinks an entry without touching its value, `push_back`
//! inserts or relocates, `pop_front` removes the oldest entry. The model of a
//! map is the sequence of its entries, `self@: Seq<(K, V)>`, front first;
//! well-formedness says the keys of that sequence are pairwise distinct, so a
//! key picks out at most one position.

use vstd::prelude::*;

use crate::keys::CacheKey;

verus! {

/// The keys of `s` are pairwise distinct (compared by view).
pub open spec fn distinct_keys<K: CacheKey, V>(s: Seq<(K, V)>) -> bool {
    forall|i: int, j: int|
        0 <= i < j < s.len() ==> (#[trigger] s[i]).0@ != (#[trigger] s[j]).0@
}

/// Some entry of `s` has key `k`.
pub open spec fn has_key<K: CacheKey, V>(s: Seq<(K, V)>, k: <K as View>::V) -> bool {
    exists|i: int| 0 <= i < s.len() && (#[trigger] s[i]).0@ == k
}

/// The position of the entry of `s` whose key is `k`; meaningful only when
/// `has_key(s, k)` holds, and unique when the keys of `s` are distinct.
pub open spec fn key_index<K: CacheKey, V>(s: Seq<(K, V)>, k: <K as View>::V) -> int {
    choose|i: int| 0 <= i < s.len() && (#[trigger] s[i]).0@ == k
}

/// In a sequence with distinct keys, a position holding key `k` is the
/// position `key_index` picks.
pub proof fn lemma_key_index<K: CacheKey, V>(s: Seq<(K, V)>, k: <K as View>::V, i: int)
    requires
        distinct_keys(s),
        0 <= i < s.len(),
        s[i].0@ == k,
    ensures
        has_key(s, k),
        key_index(s, k) == i,
{
    assert(has_key(s, k));
    let j = key_index(s, k);
    if j < i {
        assert(s[j].0@ != s[i].0@);
    }
    if i < j {
        assert(s[i].0@ != s[j].0@);
    }
}

/// Removing position `i` keeps the keys distinct, drops the key stored there,
/// and keeps every other key.
pub proof fn lemma_remove_keeps_keys<K: CacheKey, V>(s: Seq<(K, V)>, i: int)
    requires
        distinct_keys(s),
        0 <= i < s.len(),
    ensures
        distinct_keys(s.remove(i)),
        !has_key(s.remove(i), s[i].0@),
        forall|k: <K as View>::V| k != s[i].0@ ==> has_key(s.remove(i), k) == has_key(s, k),
{
    let t = s.remove(i);
    assert forall|p: int, q: int| 0 <= p < q < t.len() implies (#[trigger] t[p]).0@ != (
    #[trigger] t[q]).0@ by {
        let p0 = if p < i { p } else { p + 1 };
        let q0 = if q < i { q } else { q + 1 };
        assert(t[p] == s[p0]);
        assert(t[q] == s[q0]);
    }
    assert forall|p: int| 0 <= p < t.len() implies (#[trigger] t[p]).0@ != s[i].0@ by {
        let p0 = if p < i { p } else { p + 1 };
        assert(t[p] == s[p0]);
    }
    assert forall|k: <K as View>::V| k != s[i].0@ implies has_key(t, k) == has_key(s, k) by {
        if has_key(s, k) {
            let p0 = choose|p: int| 0 <= p < s.len() && (#[trigger] s[p]).0@ == k;
            let p = if p0 < i { p0 } else { p0 - 1 };
            assert(t[p] == s[p0]);
            assert(has_key(t, k));
        }
        if has_key(t, k) {
            let p = choose|p: int| 0 <= p < t.len() && (#[trigger] t[p]).0@ == k;
            let p0 = if p < i { p } else { p + 1 };
            assert(t[p] == s[p0]);
            assert(has_key(s, k));
        }
    }
}

/// Overwriting the value at position `i`, key kept, leaves the keys distinct
/// and the key set unchanged.
pub proof fn lemma_update_value_keeps_keys<K: CacheKey, V>(s: Seq<(K, V)>, i: int, e: (K, V))
    requires
        distinct_keys(s),
        0 <= i < s.len(),
        e.0@ == s[i].0@,
    ensures
        distinct_keys(s.update(i, e)),
        forall|k: <K as View>::V| has_key(s.update(i, e), k) == has_key(s, k),
{
    let t = s.update(i, e);
    assert forall|p: int, q: int| 0 <= p < q < t.len() implies (#[trigger] t[p]).0@ != (
    #[trigger] t[q]).0@ by {
        assert(t[p].0@ == s[p].0@);
        assert(t[q].0@ == s[q].0@);
    }
    assert forall|k: <K as View>::V| has_key(t, k) == has_key(s, k) by {
        if has_key(s, k) {
            let p = choose|p: int| 0 <= p < s.len() && (#[trigger] s[p]).0@ == k;
            assert(t[p].0@ == s[p].0@);
            assert(has_key(t, k));
        }
        if has_key(t, k) {
            let p = choose|p: int| 0 <= p < t.len() && (#[trigger] t[p]).0@ == k;
            assert(s[p].0@ == t[p].0@);
            assert(has_key(s, k));
        }
    }
}

/// Appending an entry whose key is absent keeps the keys distinct.
pub proof fn lemma_push_keeps_distinct<K: CacheKey, V>(s: Seq<(K, V)>, e: (K, V))
    requires
        distinct_keys(s),
        !has_key(s, e.0@),
    ensures
        distinct_keys(s.push(e)),
        has_key(s.push(e), e.0@),
        forall|k: <K as View>::V| k != e.0@ ==> has_key(s.push(e), k) == has_key(s, k),
{
    let t = s.push(e);
    assert forall|p: int, q: int| 0 <= p < q < t.len() implies (#[trigger] t[p]).0@ != (
    #[trigger] t[q]).0@ by {
        if q < s.len() {
            assert(t[p] == s[p]);
            assert(t[q] == s[q]);
        } else {
            assert(t[p] == s[p]);
            assert(t[q] == e);
            assert(s[p].0@ != e.0@) by {
                if s[p].0@ == e.0@ {
                    assert(has_key(s, e.0@));
                }
            }
        }
    }
    assert(t[s.len() as int] == e);
    assert forall|k: <K as View>::V| k != e.0@ implies has_key(t, k) == has_key(s, k) by {
        if has_key(s, k) {
            let p = choose|p: int| 0 <= p < s.len() && (#[trigger] s[p]).0@ == k;
            assert(t[p] == s[p]);
        }
        if has_key(t, k) {
            let p = choose|p: int| 0 <= p < t.len() && (#[trigger] t[p]).0@ == k;
            assert(p < s.len());
            assert(s[p] == t[p]);
        }
    }
}

/// Law of removal: taking the entry with key `k` out of a well-formed entry
/// sequence yields exactly the stored pair's position, drops the length by
/// one, and leaves no entry with key `k` — so a later lookup of `k`, whose
/// contract answers `None` exactly when the key is absent, misses.
pub proof fn lemma_take_removes_key<K: CacheKey, V>(s: Seq<(K, V)>, k: <K as View>::V)
    requires
        distinct_keys(s),
        has_key(s, k),
    ensures
        s.remove(key_index(s, k)).len() == s.len() - 1,
        !has_key(s.remove(key_index(s, k)), k),
        distinct_keys(s.remove(key_index(s, k))),
{
    lemma_remove_keeps_keys(s, key_index(s, k));
}

/// Law of the zero-capacity boundary: a cache whose length is bounded by a
/// capacity of zero holds nothing, so an insertion finds no entry to relocate
/// and no entry to evict, and every entry sequence that does contain the new
/// key is nonempty — longer than the capacity allows. No insertion into a
/// zero-capacity cache can preserve the capacity bound; `put` therefore
/// demands positive capacity, and the unverified zero-capacity call fails
/// fatally at run time instead of exceeding the bound in silence.
pub proof fn lemma_zero_capacity_excludes_put<K: CacheKey, V>(s: Seq<(K, V)>, k: <K as View>::V)
    requires
        s.len() <= 0,
    ensures
        !has_key(s, k),
        forall|t: Seq<(K, V)>| has_key(t, k) ==> t.len() > 0,
{
}

/// A hash-addressable container whose entries also stand in a linear order,
/// front first. Lookup goes by key; the order is mutated on its own by
/// `move_to_back`, `push_back` and `pop_front`.
pub struct OrderedMap<K, V> {
    entries: Vec<(K, V)>,
}

impl<K: CacheKey, V> View for OrderedMap<K, V> {
    type V = Seq<(K, V)>;

    closed spec fn view(&self) -> Seq<(K, V)> {
        self.entries@
    }
}

impl<K: CacheKey, V> OrderedMap<K, V> {
    /// The map's invariant: no two entries share a key.
    pub open spec fn wf(&self) -> bool {
        distinct_keys(self@)
    }

    /// An empty map. The capacity argument is a pre-allocation hint only: the
    /// map itself accepts unbounded insertions.
    pub fn with_capacity(capacity: usize) -> (r: Self)
        ensures
            r.wf(),
            r@ == Seq::<(K, V)>::empty(),
    {
        OrderedMap { entries: Vec::with_capacity(capacity) }
    }

    /// The position of the entry with key `key`, if one exists.
    fn index_of(&self, key: &K) -> (r: Option<usize>)
        ensures
            match r {
                Some(i) => i < self@.len() && self@[i as int].0@ == key@,
                None => !has_key(self@, key@),
            },
    {
        let n = self.entries.len();
        let mut i: usize = 0;
        while i < n
            invariant
                n == self@.len(),
                i <= n,
                self@ == self.entries@,
                forall|j: int| 0 <= j < i ==> (#[trigger] self@[j]).0@ != key@,
            decreases n - i,
        {
            if self.entries[i].0.key_eq(key) {
                return Some(i);
            }
            i += 1;
        }
        None
    }

    pub fn contains(&self, key: &K) -> (r: bool)
        ensures
            r == has_key(self@, key@),
    {
        match self.index_of(key) {
            Some(i) => {
                proof {
                    assert(has_key(self@, key@));
                }
                true
            },
            None => false,
        }
    }

    /// Look the value up without any reordering side effect.
    pub fn get(&self, key: &K) -> (r: Option<&V>)
        requires
            self.wf(),
        ensures
            match r {
                Some(v) => has_key(self@, key@) && *v == self@[key_index(self@, key@)].1,
                None => !has_key(self@, key@),
            },
    {
        match self.index_of(key) {
            Some(i) => {
                proof {
                    lemma_key_index(self@, key@, i as int);
                }
                Some(&self.entries[i].1)
            },
            None => None,
        }
    }

    /// Mutable lookup, again without reordering.
    pub fn get_mut(&mut self, key: &K) -> (r: Option<&mut V>)
        requires
            old(self).wf(),
        ensures
            match r {
                Some(v) => {
                    &&& has_key(old(self)@, key@)
                    &&& *v == old(self)@[key_index(old(self)@, key@)].1
                    &&& final(self)@ == old(self)@.update(
                        key_index(old(self)@, key@),
                        (old(self)@[key_index(old(self)@, key@)].0, *final(v)),
                    )
                    &&& final(self).wf()
                },
                None => {
                    &&& !has_key(old(self)@, key@)
                    &&& final(self)@ == old(self)@
                    &&& final(self).wf()
                },
            },
    {
        let ghost s = self@;
        match self.index_of(key) {
            Some(i) => {
                proof {
                    lemma_key_index(s, key@, i as int);
                }
                let value_ref = &mut self.entries[i].1;
                proof {
                    lemma_update_value_keeps_keys(
                        s,
                        i as int,
                        (s[i as int].0, *final(value_ref)),
                    );
                }
                Some(value_ref)
            },
            None => None,
        }
    }

    /// Relink the entry with key `key` to the back, value untouched, and
    /// return a reference to it; an absent key inserts nothing.
    pub fn move_to_back(&mut self, key: &K) -> (r: Option<(&K, &V)>)
        requires
            old(self).wf(),
        ensures
            final(self).wf(),
            match r {
                Some(p) => {
                    let i = key_index(old(self)@, key@);
                    &&& has_key(old(self)@, key@)
                    &&& final(self)@ == old(self)@.remove(i).push(old(self)@[i])
                    &&& *p.0 == old(self)@[i].0
                    &&& *p.1 == old(self)@[i].1
                },
                None => !has_key(old(self)@, key@) && final(self)@ == old(self)@,
            },
    {
        let ghost s = self@;
        match self.index_of(key) {
            Some(i) => {
                proof {
                    lemma_key_index(s, key@, i as int);
                    lemma_remove_keeps_keys(s, i as int);
                    lemma_push_keeps_distinct(s.remove(i as int), s[i as int]);
                }
                let entry = self.entries.remove(i);
                self.entries.push(entry);
                let n = self.entries.len();
                let last = &self.entries[n - 1];
                Some((&last.0, &last.1))
            },
            None => None,
        }
    }

    /// Insert `(key, value)` at the back. An entry with the same key is
    /// detached from its old position first and returned; the fresh entry
    /// carries the new value either way.
    pub fn push_back(&mut self, key: K, value: V) -> (r: Option<(K, V)>)
        requires
            old(self).wf(),
        ensures
            final(self).wf(),
            match r {
                Some(p) => {
                    let i = key_index(old(self)@, key@);
                    &&& has_key(old(self)@, key@)
                    &&& p == old(self)@[i]
                    &&& final(self)@ == old(self)@.remove(i).push((key, value))
                },
                None => !has_key(old(self)@, key@) && final(self)@ == old(self)@.push(
                    (key, value),
                ),
            },
    {
        let ghost s = self@;
        match self.index_of(&key) {
            Some(i) => {
                proof {
                    lemma_key_index(s, key@, i as int);
                    lemma_remove_keeps_keys(s, i as int);
                    lemma_push_keeps_distinct(s.remove(i as int), (key, value));
                }
                let displaced = self.entries.remove(i);
                self.entries.push((key, value));
                Some(displaced)
            },
            None => {
                proof {
                    lemma_push_keeps_distinct(s, (key, value));
                }
                self.entries.push((key, value));
                None
            },
        }
    }

    /// The same insert-or-relocate effect as `push_back`, returning references
    /// to the entry just placed at the back instead of any displaced pair.
    pub fn push_back_and_return(&mut self, key: K, value: V) -> (r: (&K, &V))
        requires
            old(self).wf(),
        ensures
            final(self).wf(),
            final(self)@ == if has_key(old(self)@, key@) {
                old(self)@.remove(key_index(old(self)@, key@)).push((key, value))
            } else {
                old(self)@.push((key, value))
            },
            *r.0 == key,
            *r.1 == value,
    {
        self.push_back(key, value);
        let n = self.entries.len();
        let last = &self.entries[n - 1];
        (&last.0, &last.1)
    }

    /// Remove and return the frontmost entry; `None` when the map is empty.
    pub fn pop_front(&mut self) -> (r: Option<(K, V)>)
        requires
            old(self).wf(),
        ensures
            final(self).wf(),
            match r {
                Some(p) => {
                    &&& old(self)@.len() > 0
                    &&& p == old(self)@[0]
                    &&& final(self)@ == old(self)@.remove(0)
                },
                None => old(self)@.len() == 0 && final(self)@ == old(self)@,
            },
    {
        if self.entries.is_empty() {
            None
        } else {
            proof {
                lemma_remove_keeps_keys(self@, 0);
            }
            Some(self.entries.remove(0))
        }
    }

    /// Detach and return the entry with key `key`, wherever it stands.
    pub fn remove(&mut self, key: &K) -> (r: Option<(K, V)>)
        requires
            old(self).wf(),
        ensures
            final(self).wf(),
            match r {
                Some(p) => {
                    let i = key_index(old(self)@, key@);
                    &&& has_key(old(self)@, key@)
                    &&& p == old(self)@[i]
                    &&& final(self)@ == old(self)@.remove(i)
                    &&& !has_key(final(self)@, key@)
                },
                None => !has_key(old(self)@, key@) && final(self)@ == old(self)@,
            },
    {
        let ghost s = self@;
        match self.index_of(key) {
            Some(i) => {
                proof {
                    lemma_key_index(s, key@, i as int);
                    lemma_remove_keeps_keys(s, i as int);
                }
                Some(self.entries.remove(i))
            },
            None => None,
        }
    }

    /// Overwrite the value stored under `key` in place, position and key
    /// unchanged, and return references to the entry.
    pub fn replace_value(&mut self, key: &K, value: V) -> (r: Option<(&K, &V)>)
        requires
            old(self).wf(),
        ensures
            final(self).wf(),
            match r {
                Some(p) => {
                    let i = key_index(old(self)@, key@);
                    &&& has_key(old(self)@, key@)
                    &&& final(self)@ == old(self)@.update(i, (old(self)@[i].0, value))
                    &&& *p.0 == old(self)@[i].0
                    &&& *p.1 == value
                },
                None => !has_key(old(self)@, key@) && final(self)@ == old(self)@,
            },
    {
        let ghost s = self@;
        match self.index_of(key) {
            Some(i) => {
                proof {
                    lemma_key_index(s, key@, i as int);
                }
                let slot = &mut self.entries[i].1;
                *slot = value;
                proof {
                    lemma_update_value_keeps_keys(s, i as int, (s[i as int].0, value));
                }
                let entry = &self.entries[i];
                Some((&entry.0, &entry.1))
            },
            None => None,
        }
    }

    /// Peek at the frontmost entry without mutation.
    pub fn front(&self) -> (r: Option<(&K, &V)>)
        ensures
            match r {
                Some(p) => self@.len() > 0 && *p.0 == self@[0].0 && *p.1 == self@[0].1,
                None => self@.len() == 0,
            },
    {
        if self.entries.is_empty() {
            None
        } else {
            let first = &self.entries[0];
            Some((&first.0, &first.1))
        }
    }

    /// Peek at the backmost entry without mutation.
    pub fn back(&self) -> (r: Option<(&K, &V)>)
        ensures
            match r {
                Some(p) => {
                    &&& self@.len() > 0
                    &&& *p.0 == self@[self@.len() - 1].0
                    &&& *p.1 == self@[self@.len() - 1].1
                },
                None => self@.len() == 0,
            },
    {
        if self.entries.is_empty() {
            None
        } else {
            let n = self.entries.len();
            let last = &self.entries[n - 1];
            Some((&last.0, &last.1))
        }
    }

    /// The entry at order rank `pos` from the front, zero-indexed.
    pub fn position(&self, pos: usize) -> (r: Option<(&K, &V)>)
        ensures
            match r {
                Some(p) => {
                    &&& pos < self@.len()
                    &&& *p.0 == self@[pos as int].0
                    &&& *p.1 == self@[pos as int].1
                },
                None => pos >= self@.len(),
            },
    {
        if pos < self.entries.len() {
            let entry = &self.entries[pos];
            Some((&entry.0, &entry.1))
        } else {
            None
        }
    }

    /// The number of entries.
    pub fn len(&self) -> (r: usize)
        ensures
            r == self@.len(),
    {
        self.entries.len()
    }

    pub fn is_empty(&self) -> (r: bool)
        ensures
            r == (self@.len() == 0),
    {
        self.entries.is_empty()
    }

    /// Remove every entry.
    pub fn clear(&mut self)
        ensures
            final(self).wf(),
            final(self)@ == Seq::<(K, V)>::empty(),
    {
        self.entries.clear();
    }
}

} // verus!
