//! A capacity-bounded cache that evicts strictly by admission order.
//!
//! `get` and `contains` never reorder entries; `renew` is the only reordering
//! primitive besides insertion. Hit and miss counters record every lookup;
//! they saturate at their maximum instead of wrapping.

use vstd::prelude::*;

use crate::keys::CacheKey;
use crate::ordered_map::{
    distinct_keys, has_key, key_index, lemma_remove_keeps_keys, OrderedMap,
};

verus! {

/// One more than `c`, saturating at the largest counter value.
pub open spec fn sat_inc(c: u64) -> u64 {
    if c == u64::MAX {
        c
    } else {
        (c + 1) as u64
    }
}

/// The digit character for `d`; meaningful for `0 <= d <= 9`.
pub open spec fn digit_char(d: int) -> char {
    if d == 0 {
        '0'
    } else if d == 1 {
        '1'
    } else if d == 2 {
        '2'
    } else if d == 3 {
        '3'
    } else if d == 4 {
        '4'
    } else if d == 5 {
        '5'
    } else if d == 6 {
        '6'
    } else if d == 7 {
        '7'
    } else if d == 8 {
        '8'
    } else {
        '9'
    }
}

/// The decimal rendering of a nonnegative integer, most significant digit
/// first.
pub open spec fn dec_str(n: int) -> Seq<char>
    decreases n,
{
    if n < 10 {
        seq![digit_char(n)]
    } else {
        dec_str(n / 10).push(digit_char(n % 10))
    }
}

/// The hit ratio as hundredths of a percent, rounded half away from zero:
/// `round(10000 * hits / (hits + misses))`.
pub open spec fn rounded_percent_hundredths(hits: int, misses: int) -> int {
    (hits * 10000 + (hits + misses) / 2) / (hits + misses)
}

/// Hundredths of a percent rendered as a percentage with two decimal places,
/// such as the characters of `66.67%` for 6667.
pub open spec fn percent_str(p: int) -> Seq<char> {
    dec_str(p / 100).push('.').push(digit_char((p % 100) / 10)).push(
        digit_char((p % 100) % 10),
    ).push('%')
}

/// The entries after a FIFO `put` of `(key, value)`: an already-present key is
/// relocated to the back with the new value; otherwise the front entry makes
/// room first when the cache stands at capacity.
pub open spec fn fifo_put_entries<K: CacheKey, V>(
    s: Seq<(K, V)>,
    cap: usize,
    key: K,
    value: V,
) -> Seq<(K, V)> {
    if has_key(s, key@) {
        s.remove(key_index(s, key@)).push((key, value))
    } else if s.len() >= cap {
        s.remove(0).push((key, value))
    } else {
        s.push((key, value))
    }
}

/// The pair a FIFO `put` evicts: the front entry, exactly when the key is new
/// and the cache stands at capacity.
pub open spec fn fifo_put_evicted<K: CacheKey, V>(s: Seq<(K, V)>, cap: usize, key: K) -> Option<
    (K, V),
> {
    if !has_key(s, key@) && s.len() >= cap {
        Some(s[0])
    } else {
        None
    }
}

/// A cache over an [`OrderedMap`] whose eviction order is strictly the
/// admission order.
pub struct FIFOCache<K, V> {
    capacity: usize,
    map: OrderedMap<K, V>,
    hits: u64,
    misses: u64,
}

impl<K: CacheKey, V> View for FIFOCache<K, V> {
    type V = Seq<(K, V)>;

    closed spec fn view(&self) -> Seq<(K, V)> {
        self.map@
    }
}

impl<K: CacheKey, V> FIFOCache<K, V> {
    /// The capacity fixed at construction.
    pub closed spec fn spec_capacity(&self) -> usize {
        self.capacity
    }

    /// How many lookups found their key.
    pub closed spec fn spec_hits(&self) -> u64 {
        self.hits
    }

    /// How many lookups missed.
    pub closed spec fn spec_misses(&self) -> u64 {
        self.misses
    }

    /// The cache's invariant: keys are pairwise distinct and the length never
    /// exceeds the capacity.
    pub open spec fn wf(&self) -> bool {
        &&& distinct_keys(self@)
        &&& self@.len() <= self.spec_capacity()
    }

    /// An empty cache that will hold at most `capacity` entries.
    pub fn new(capacity: usize) -> (r: Self)
        ensures
            r.wf(),
            r@ == Seq::<(K, V)>::empty(),
            r.spec_capacity() == capacity,
            r.spec_hits() == 0,
            r.spec_misses() == 0,
    {
        FIFOCache { capacity, map: OrderedMap::with_capacity(capacity), hits: 0, misses: 0 }
    }

    /// Take the entry with key `key` out of the cache; counters and the order
    /// of the remaining entries are untouched.
    pub fn take(&mut self, key: &K) -> (r: Option<(K, V)>)
        requires
            old(self).wf(),
        ensures
            final(self).wf(),
            final(self).spec_capacity() == old(self).spec_capacity(),
            final(self).spec_hits() == old(self).spec_hits(),
            final(self).spec_misses() == old(self).spec_misses(),
            match r {
                Some(p) => {
                    let i = key_index(old(self)@, key@);
                    &&& has_key(old(self)@, key@)
                    &&& p == old(self)@[i]
                    &&& final(self)@ == old(self)@.remove(i)
                    &&& final(self)@.len() == old(self)@.len() - 1
                    &&& !has_key(final(self)@, key@)
                },
                None => !has_key(old(self)@, key@) && final(self)@ == old(self)@,
            },
    {
        self.map.remove(key)
    }

    /// Look the value up without reordering; the hit or miss counter advances.
    pub fn get(&mut self, key: &K) -> (r: Option<&V>)
        requires
            old(self).wf(),
        ensures
            final(self).wf(),
            final(self)@ == old(self)@,
            final(self).spec_capacity() == old(self).spec_capacity(),
            match r {
                Some(v) => {
                    &&& has_key(old(self)@, key@)
                    &&& *v == old(self)@[key_index(old(self)@, key@)].1
                    &&& final(self).spec_hits() == sat_inc(old(self).spec_hits())
                    &&& final(self).spec_misses() == old(self).spec_misses()
                },
                None => {
                    &&& !has_key(old(self)@, key@)
                    &&& final(self).spec_hits() == old(self).spec_hits()
                    &&& final(self).spec_misses() == sat_inc(old(self).spec_misses())
                },
            },
    {
        if self.map.contains(key) {
            if self.hits != u64::MAX {
                self.hits = self.hits + 1;
            }
            self.map.get(key)
        } else {
            if self.misses != u64::MAX {
                self.misses = self.misses + 1;
            }
            None
        }
    }

    /// Mutable lookup without reordering; the hit or miss counter advances.
    pub fn get_mut(&mut self, key: &K) -> (r: Option<&mut V>)
        requires
            old(self).wf(),
        ensures
            final(self).spec_capacity() == old(self).spec_capacity(),
            final(self).wf(),
            match r {
                Some(v) => {
                    let i = key_index(old(self)@, key@);
                    &&& has_key(old(self)@, key@)
                    &&& *v == old(self)@[i].1
                    &&& final(self)@ == old(self)@.update(i, (old(self)@[i].0, *final(v)))
                    &&& final(self).spec_hits() == sat_inc(old(self).spec_hits())
                    &&& final(self).spec_misses() == old(self).spec_misses()
                },
                None => {
                    &&& !has_key(old(self)@, key@)
                    &&& final(self)@ == old(self)@
                    &&& final(self).spec_hits() == old(self).spec_hits()
                    &&& final(self).spec_misses() == sat_inc(old(self).spec_misses())
                },
            },
    {
        if self.map.contains(key) {
            if self.hits != u64::MAX {
                self.hits = self.hits + 1;
            }
            self.map.get_mut(key)
        } else {
            if self.misses != u64::MAX {
                self.misses = self.misses + 1;
            }
            None
        }
    }

    /// Move the entry with key `key` to the back and return it; the one
    /// reordering primitive that is not an insertion. Counters are untouched.
    pub fn renew(&mut self, key: &K) -> (r: Option<(&K, &V)>)
        requires
            old(self).wf(),
        ensures
            final(self).wf(),
            final(self).spec_capacity() == old(self).spec_capacity(),
            final(self).spec_hits() == old(self).spec_hits(),
            final(self).spec_misses() == old(self).spec_misses(),
            match r {
                Some(p) => {
                    let i = key_index(old(self)@, key@);
                    &&& has_key(old(self)@, key@)
                    &&& final(self)@ == old(self)@.remove(i).push(old(self)@[i])
                    &&& *p.0 == old(self)@[i].0
                    &&& *p.1 == old(self)@[i].1
                },
                None => !has_key(old(self)@, key@) && final(self)@ == old(self)@,
            },
    {
        self.map.move_to_back(key)
    }

    /// Make room for one new entry: at capacity, the front entry is removed
    /// and returned. The capacity must be positive; the unverified path for a
    /// zero-capacity cache fails fatally at run time.
    fn check_size(&mut self) -> (r: Option<(K, V)>)
        requires
            old(self).wf(),
            old(self).spec_capacity() > 0,
        ensures
            final(self).wf(),
            final(self).spec_capacity() == old(self).spec_capacity(),
            final(self).spec_hits() == old(self).spec_hits(),
            final(self).spec_misses() == old(self).spec_misses(),
            if old(self)@.len() >= old(self).spec_capacity() {
                r == Some(old(self)@[0]) && final(self)@ == old(self)@.remove(0)
            } else {
                r is None && final(self)@ == old(self)@
            },
    {
        if self.map.len() >= self.capacity {
            match self.map.pop_front() {
                Some(p) => Some(p),
                None => vstd::pervasive::unreached(),
            }
        } else {
            None
        }
    }

    /// Insert `(key, value)`. A new key at capacity evicts the front entry
    /// first and returns it; a present key is relocated to the back with the
    /// new value and nothing is evicted.
    pub fn put(&mut self, key: K, value: V) -> (r: Option<(K, V)>)
        requires
            old(self).wf(),
            old(self).spec_capacity() > 0,
        ensures
            final(self).wf(),
            final(self).spec_capacity() == old(self).spec_capacity(),
            final(self).spec_hits() == old(self).spec_hits(),
            final(self).spec_misses() == old(self).spec_misses(),
            final(self)@ == fifo_put_entries(old(self)@, old(self).spec_capacity(), key, value),
            r == fifo_put_evicted(old(self)@, old(self).spec_capacity(), key),
    {
        let ghost s = self@;
        let res = if self.map.contains(&key) {
            None
        } else {
            self.check_size()
        };
        proof {
            if !has_key(s, key@) && s.len() >= self.spec_capacity() {
                lemma_remove_keeps_keys(s, 0);
            }
        }
        self.map.push_back(key, value);
        res
    }

    /// The same eviction-then-insert as `put`, returning references to the
    /// entry just placed instead of any evicted pair.
    pub fn put_and_return(&mut self, key: K, value: V) -> (r: (&K, &V))
        requires
            old(self).wf(),
            old(self).spec_capacity() > 0,
        ensures
            final(self).wf(),
            final(self).spec_capacity() == old(self).spec_capacity(),
            final(self).spec_hits() == old(self).spec_hits(),
            final(self).spec_misses() == old(self).spec_misses(),
            final(self)@ == fifo_put_entries(old(self)@, old(self).spec_capacity(), key, value),
            *r.0 == key,
            *r.1 == value,
    {
        let ghost s = self@;
        if !self.map.contains(&key) {
            self.check_size();
        }
        proof {
            if !has_key(s, key@) && s.len() >= self.spec_capacity() {
                lemma_remove_keeps_keys(s, 0);
            }
        }
        self.map.push_back_and_return(key, value)
    }

    /// The number of entries held.
    pub fn len(&self) -> (r: usize)
        ensures
            r == self@.len(),
    {
        self.map.len()
    }

    /// The capacity fixed at construction.
    pub fn capacity(&self) -> (r: usize)
        ensures
            r == self.spec_capacity(),
    {
        self.capacity
    }

    /// How many lookups found their key so far.
    pub fn hits(&self) -> (r: u64)
        ensures
            r == self.spec_hits(),
    {
        self.hits
    }

    /// How many lookups missed so far.
    pub fn misses(&self) -> (r: u64)
        ensures
            r == self.spec_misses(),
    {
        self.misses
    }

    /// The hit ratio as a percentage with two decimal places, rounded half
    /// away from zero. At least one lookup must have happened: with no
    /// accesses the ratio is undefined.
    pub fn hits_ratio_str(&self) -> (r: String)
        requires
            self.spec_hits() + self.spec_misses() > 0,
        ensures
            r@ == percent_str(
                rounded_percent_hundredths(self.spec_hits() as int, self.spec_misses() as int),
            ),
    {
        let h = self.hits as u128;
        let m = self.misses as u128;
        let total = h + m;
        let p = (h * 10000 + total / 2) / total;
        format_percent(p / 100, p % 100)
    }

    pub fn contains(&self, key: &K) -> (r: bool)
        ensures
            r == has_key(self@, key@),
    {
        self.map.contains(key)
    }

    pub fn is_empty(&self) -> (r: bool)
        ensures
            r == (self@.len() == 0),
    {
        self.map.is_empty()
    }

    /// Drop every entry; capacity and counters are kept.
    pub fn clear(&mut self)
        ensures
            final(self).wf(),
            final(self)@ == Seq::<(K, V)>::empty(),
            final(self).spec_capacity() == old(self).spec_capacity(),
            final(self).spec_hits() == old(self).spec_hits(),
            final(self).spec_misses() == old(self).spec_misses(),
    {
        self.map.clear()
    }

    /// The value of the oldest entry.
    pub fn front(&self) -> (r: Option<&V>)
        ensures
            match r {
                Some(v) => self@.len() > 0 && *v == self@[0].1,
                None => self@.len() == 0,
            },
    {
        match self.map.front() {
            Some(p) => Some(p.1),
            None => None,
        }
    }

    /// The value of the newest entry.
    pub fn back(&self) -> (r: Option<&V>)
        ensures
            match r {
                Some(v) => self@.len() > 0 && *v == self@[self@.len() - 1].1,
                None => self@.len() == 0,
            },
    {
        match self.map.back() {
            Some(p) => Some(p.1),
            None => None,
        }
    }

    /// The value at order rank `pos` from the front, zero-indexed.
    pub fn pos(&self, pos: usize) -> (r: Option<&V>)
        ensures
            match r {
                Some(v) => pos < self@.len() && *v == self@[pos as int].1,
                None => pos >= self@.len(),
            },
    {
        match self.map.position(pos) {
            Some(p) => Some(p.1),
            None => None,
        }
    }
}

impl<K: CacheKey, V> Default for FIFOCache<K, V> {
    /// A cache of capacity zero: it holds nothing and every `put` into it is a
    /// configuration defect.
    fn default() -> (r: Self)
        ensures
            r.wf(),
            r@ == Seq::<(K, V)>::empty(),
            r.spec_capacity() == 0,
            r.spec_hits() == 0,
            r.spec_misses() == 0,
    {
        FIFOCache { capacity: 0, map: OrderedMap::with_capacity(0), hits: 0, misses: 0 }
    }
}

/// Relies on std's `format!`: `{}` renders an unsigned integer in decimal,
/// most significant digit first, and `{:02}` pads with a leading zero to two
/// digits.
#[verifier::external_body]
fn format_percent(whole: u128, frac: u128) -> (r: String)
    requires
        frac < 100,
    ensures
        r@ == dec_str(whole as int).push('.').push(digit_char(frac as int / 10)).push(
            digit_char(frac as int % 10),
        ).push('%'),
{
    format!("{}.{:02}%", whole, frac)
}

} // verus!
