use caches::fifo::FIFOCache;
use caches::lru_1::{LruCache, PutStrategy};
use caches::lru_2q::Lru2qCache;

#[test]
fn len_never_exceeds_capacity() {
    let mut l = LruCache::new(3);
    for i in 0..10 {
        l.put(i, i);
        assert!(l.len() <= l.capacity());
    }
    l.get(&7);
    l.take(&8);
    l.put(20, 20);
    assert!(l.len() <= l.capacity());

    let mut f = FIFOCache::new(3);
    for i in 0..10 {
        f.put(i, i);
        assert!(f.len() <= f.capacity());
    }
    f.renew(&8);
    f.clear();
    f.put(1, 1);
    assert!(f.len() <= f.capacity());
}

#[test]
fn fifo_order_after_eviction() {
    let mut c = FIFOCache::new(3);
    c.put(1, "a");
    c.put(2, "b");
    c.put(3, "c");
    let evicted = c.put(4, "d");
    assert_eq!(evicted, Some((1, "a")));
    assert_eq!(c.front(), Some(&"b"));
    assert_eq!(c.get(&1), None);
}

#[test]
fn lru_eviction_default_strategy() {
    let mut c = LruCache::new(2);
    c.put(1, "a");
    c.get(&1);
    c.put(2, "b");
    c.get(&2);
    c.get(&1); // key 2 is now least recently used
    let first_evicted = c.put(3, "c");
    assert_eq!(first_evicted, Some((2, "b")));
    c.put(1, "a"); // re-add under strategy Add: relocated to the back
    let second_evicted = c.put(4, "d");
    assert_eq!(second_evicted, Some((3, "c")));
    assert!(c.contains(&1));
    assert!(c.contains(&4));
    assert_eq!(c.len(), 2);
}

#[test]
fn lru_move_strategy_keeps_value() {
    let mut c = LruCache::with_put_strategy(2, PutStrategy::Move);
    c.put(7, "v1");
    c.put(8, "x");
    c.put(7, "v2"); // the supplied value is discarded, 7 moves to the back
    assert_eq!(c.pos(0), Some(&"x"));
    assert_eq!(c.back(), Some(&"v1"));
    assert_eq!(c.get(&7), Some(&"v1"));
}

#[test]
fn lru_replace_strategy_keeps_position() {
    let mut c = LruCache::with_put_strategy(2, PutStrategy::Replace);
    c.put(1, "a");
    c.put(2, "b");
    c.put(1, "z"); // overwrite in place, position unchanged
    assert_eq!(c.pos(0), Some(&"z"));
    assert_eq!(c.pos(1), Some(&"b"));
}

#[test]
fn lru_strategy_can_be_switched() {
    let mut c = LruCache::new(2);
    c.put(1, "a");
    c.put(2, "b");
    c.put_strategy(PutStrategy::Move);
    c.put(1, "ignored");
    assert_eq!(c.back(), Some(&"a"));
}

#[test]
fn lru_popped_count_tracks_evictions_only() {
    let mut c = LruCache::new(1);
    c.put(1, "a");
    assert_eq!(c.popped_count(), 0);
    c.put(2, "b"); // capacity-triggered eviction
    assert_eq!(c.popped_count(), 1);
    c.put(2, "c"); // strategy-triggered relocation: not counted
    assert_eq!(c.popped_count(), 1);
}

#[test]
fn take_then_get_misses() {
    let mut c = LruCache::new(3);
    c.put(1, "a");
    c.put(2, "b");
    assert_eq!(c.take(&1), Some((1, "a")));
    assert_eq!(c.len(), 1);
    assert_eq!(c.get(&1), None);
}

#[test]
fn clear_on_empty_is_idempotent() {
    let mut f = FIFOCache::<u64, u64>::new(4);
    f.clear();
    assert_eq!(f.len(), 0);
    assert_eq!(f.capacity(), 4);

    let mut l = LruCache::<u64, u64>::new(4);
    l.clear();
    assert_eq!(l.len(), 0);
    assert_eq!(l.capacity(), 4);

    let mut q = Lru2qCache::<u64, u64>::new(4);
    q.clear();
    assert_eq!(q.len(), 0);
    assert_eq!(q.capacity(), 4);
}

#[test]
fn fifo_put_and_return_returns_new_entry() {
    let mut c = FIFOCache::new(1);
    let (k, v) = c.put_and_return(1, "a");
    assert_eq!((*k, *v), (1, "a"));
    let (k2, v2) = c.put_and_return(2, "b"); // evicts key 1, pair dropped
    assert_eq!((*k2, *v2), (2, "b"));
    assert_eq!(c.len(), 1);
    assert!(c.contains(&2));
    assert!(!c.contains(&1));
}

#[test]
fn lru_put_and_return_variants() {
    let mut add = LruCache::new(2);
    assert_eq!(add.put_and_return(1, "a"), Some((&1, &"a"))); // new key: the fresh entry
    assert_eq!(add.put_and_return(1, "b"), Some((&1, &"b")));

    let mut replace = LruCache::with_put_strategy(2, PutStrategy::Replace);
    replace.put(1, "a");
    replace.put(2, "b");
    assert_eq!(replace.put_and_return(1, "z"), Some((&1, &"z")));
    assert_eq!(replace.pos(0), Some(&"z"));

    let mut mv = LruCache::with_put_strategy(2, PutStrategy::Move);
    mv.put(1, "a");
    mv.put(2, "b");
    assert_eq!(mv.put_and_return(1, "z"), Some((&1, &"a")));
    assert_eq!(mv.back(), Some(&"a"));
}

#[test]
fn two_queue_promotion_and_asymmetry() {
    let mut q = Lru2qCache::new(2);
    q.put(1, "a");
    q.put(2, "b");
    assert_eq!(q.get(&1), Some(&"a")); // admission hit: migrated to protected
    assert_eq!(q.len(), 2);
    assert_eq!(q.get(&1), None); // admission miss: protected not consulted
    assert_eq!(q.front(), Some(&"a")); // least recent protected entry
    assert_eq!(q.back(), Some(&"b")); // newest admission entry
}

#[test]
fn two_queue_get_or_init() {
    let mut q = Lru2qCache::new(2);
    assert_eq!(q.get_or_init(5, || "e"), Some(&"e")); // true miss: initialized
    assert_eq!(q.len(), 1);
    assert_eq!(q.get_or_init(5, || "x"), Some(&"e")); // admission hit: promoted
    assert_eq!(q.get_or_init(5, || "y"), None); // protected-only key: unreachable
    assert_eq!(q.len(), 1);
}

#[test]
fn two_queue_put_overflows_admission_only() {
    let mut q = Lru2qCache::new(1);
    q.put(1, "a");
    assert_eq!(q.get(&1), Some(&"a")); // promote 1
    q.put(2, "b");
    let evicted = q.put(3, "c"); // admission overflow evicts 2; protected keeps 1
    assert_eq!(evicted, Some((2, "b")));
    assert_eq!(q.len(), 2);
    assert_eq!(q.front(), Some(&"a"));
    let (k, v) = q.put_and_return(4, "d");
    assert_eq!((*k, *v), (4, "d"));
}

#[test]
fn string_keys_compare_by_contents() {
    let mut c = FIFOCache::new(2);
    c.put(String::from("alpha"), 1);
    c.put(String::from("beta"), 2);
    assert_eq!(c.get(&String::from("alpha")), Some(&1));
    assert_eq!(c.get(&String::from("gamma")), None);
    assert_eq!(c.take(&String::from("beta")), Some((String::from("beta"), 2)));
}

#[test]
fn hits_ratio_str_rounds_to_two_places() {
    let mut c = FIFOCache::new(2);
    c.put(1, "a");
    c.get(&1);
    assert_eq!(c.hits_ratio_str(), "100.00%");
    c.get(&9);
    assert_eq!(c.hits_ratio_str(), "50.00%");
    c.get(&9);
    c.get(&9);
    assert_eq!(c.hits_ratio_str(), "25.00%");
    c.get(&1);
    c.get(&1);
    assert_eq!(c.hits_ratio_str(), "50.00%");
}
