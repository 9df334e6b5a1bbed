//! In-memory key-value caches with three eviction disciplines: strict
//! insertion order ([`fifo::FIFOCache`]), recency of use ([`lru_1::LruCache`]),
//! and a two-tier admission/promotion scheme ([`lru_2q::Lru2qCache`]).
//!
//! All three are layered over one order-preserving associative container,
//! [`ordered_map::OrderedMap`], which pairs hash-style lookup by key with an
//! explicit linear order (front = oldest, back = newest). Each public
//! operation carries a contract over the container's mathematical model, a
//! sequence of key-value pairs with pairwise distinct keys.

pub mod fifo;
pub mod keys;
pub mod lru_1;
pub mod lru_2q;
pub mod ordered_map;


