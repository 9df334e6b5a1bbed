//! Key comparison for the cache containers.
//!
//! Every cache looks entries up by key. Lookups compare keys by their
//! mathematical value, written `k@` (the view): two keys are the same entry
//! exactly when their views agree. The [`CacheKey`] trait asks a key type for
//! an executable equality test that decides that view equality.

use vstd::prelude::*;

verus! {

/// A type usable as a cache key: it carries a mathematical value (its view)
/// and an executable equality test that decides view equality.
pub trait CacheKey: View + Sized {
    /// Decide whether `self` and `other` denote the same key.
    fn key_eq(&self, other: &Self) -> (b: bool)
        ensures
            b <==> self@ == other@,
    ;
}

impl CacheKey for u8 {
    fn key_eq(&self, other: &Self) -> (b: bool)
        ensures
            b <==> self@ == other@,
    {
        *self == *other
    }
}

impl CacheKey for u16 {
    fn key_eq(&self, other: &Self) -> (b: bool)
        ensures
            b <==> self@ == other@,
    {
        *self == *other
    }
}

impl CacheKey for u32 {
    fn key_eq(&self, other: &Self) -> (b: bool)
        ensures
            b <==> self@ == other@,
    {
        *self == *other
    }
}

impl CacheKey for u64 {
    fn key_eq(&self, other: &Self) -> (b: bool)
        ensures
            b <==> self@ == other@,
    {
        *self == *other
    }
}

impl CacheKey for usize {
    fn key_eq(&self, other: &Self) -> (b: bool)
        ensures
            b <==> self@ == other@,
    {
        *self == *other
    }
}

impl CacheKey for i32 {
    fn key_eq(&self, other: &Self) -> (b: bool)
        ensures
            b <==> self@ == other@,
    {
        *self == *other
    }
}

impl CacheKey for i64 {
    fn key_eq(&self, other: &Self) -> (b: bool)
        ensures
            b <==> self@ == other@,
    {
        *self == *other
    }
}

/// Relies on str's `PartialEq`: two string slices are equal exactly when
/// their character sequences are equal.
#[verifier::external_body]
fn str_eq(a: &str, b: &str) -> (r: bool)
    ensures
        r <==> a@ == b@,
{
    a == b
}

impl CacheKey for &str {
    fn key_eq(&self, other: &Self) -> (b: bool)
        ensures
            b <==> self@ == other@,
    {
        str_eq(self, other)
    }
}

impl CacheKey for String {
    fn key_eq(&self, other: &Self) -> (b: bool)
        ensures
            b <==> self@ == other@,
    {
        self.eq(other)
    }
}

} // verus!
