//! The memory level of the cache: an `lru::LruCache` from keys to shared
//! entries, modelled as the sequence of its (key, entry) pairs from the most
//! recently used to the least recently used.

use vstd::prelude::*;
use std::sync::Arc;
use crate::entry::CacheEntry;

verus! {

/// `lru::LruCache`, declared so that it can be held in verified code.
#[verifier::external_type_specification]
#[verifier::external_body]
#[verifier::reject_recursive_types(K)]
#[verifier::reject_recursive_types(V)]
#[verifier::reject_recursive_types(S)]
pub struct ExLruCache<K, V, S>(lru::LruCache<K, V, S>);

/// The hasher `lru::LruCache` uses by default.
#[verifier::external_type_specification]
#[verifier::external_body]
pub struct ExLruDefaultHasher(lru::DefaultHasher);

/// The contents of an LRU cache, most recently used first.
pub uninterp spec fn lru_entries(cache: lru::LruCache<String, Arc<CacheEntry>>) -> Seq<(Seq<char>, Arc<CacheEntry>)>;

/// The capacity an LRU cache was created with.
pub uninterp spec fn lru_capacity(cache: lru::LruCache<String, Arc<CacheEntry>>) -> nat;

/// No key occurs twice.
pub open spec fn keys_distinct<V>(e: Seq<(Seq<char>, V)>) -> bool {
    forall|i: int, j: int| 0 <= i < e.len() && 0 <= j < e.len() && i != j ==> #[trigger] e[i].0 != #[trigger] e[j].0
}

/// `k` is one of the keys.
pub open spec fn has_key<V>(e: Seq<(Seq<char>, V)>, k: Seq<char>) -> bool {
    exists|i: int| 0 <= i < e.len() && #[trigger] e[i].0 == k
}

/// The position of key `k` (meaningful where `has_key(e, k)`).
pub open spec fn key_position<V>(e: Seq<(Seq<char>, V)>, k: Seq<char>) -> int {
    choose|i: int| 0 <= i < e.len() && #[trigger] e[i].0 == k
}

/// The value stored under `k`, if any.
pub open spec fn lookup<V>(e: Seq<(Seq<char>, V)>, k: Seq<char>) -> Option<V> {
    if has_key(e, k) {
        Some(e[key_position(e, k)].1)
    } else {
        None
    }
}

/// The contents after reading `k`: a present key becomes the most recently used.
pub open spec fn after_get<V>(e: Seq<(Seq<char>, V)>, k: Seq<char>) -> Seq<(Seq<char>, V)> {
    if has_key(e, k) {
        let i = key_position(e, k);
        seq![e[i]] + e.remove(i)
    } else {
        e
    }
}

/// The contents after storing `v` under `k` in a cache of capacity `cap`:
/// the pair becomes the most recently used; it replaces an older value under
/// the same key, or else, in a full cache, the least recently used pair.
pub open spec fn after_put<V>(e: Seq<(Seq<char>, V)>, cap: nat, k: Seq<char>, v: V) -> Seq<(Seq<char>, V)> {
    if has_key(e, k) {
        seq![(k, v)] + e.remove(key_position(e, k))
    } else if e.len() == cap {
        seq![(k, v)] + e.drop_last()
    } else {
        seq![(k, v)] + e
    }
}

/// The contents after removing `k`.
pub open spec fn after_pop<V>(e: Seq<(Seq<char>, V)>, k: Seq<char>) -> Seq<(Seq<char>, V)> {
    if has_key(e, k) {
        e.remove(key_position(e, k))
    } else {
        e
    }
}

/// The state every LRU cache of the library is in: distinct keys, at most
/// `cap` of them, and a positive capacity.
pub open spec fn lru_valid<V>(e: Seq<(Seq<char>, V)>, cap: nat) -> bool {
    &&& keys_distinct(e)
    &&& e.len() <= cap
    &&& cap > 0
}

/// `lru::LruCache::new`, with the capacity as a positive `usize`.
/// Trusted: the new cache is empty and remembers `cap` as its capacity.
#[verifier::external_body]
pub(crate) fn lru_new(cap: usize) -> (cache: lru::LruCache<String, Arc<CacheEntry>>)
    requires
        cap > 0,
    ensures
        lru_entries(cache) == Seq::<(Seq<char>, Arc<CacheEntry>)>::empty(),
        lru_capacity(cache) == cap,
{
    lru::LruCache::new(std::num::NonZeroUsize::new(cap).unwrap())
}

/// `lru::LruCache::get`, handing out a shared handle to the entry.
/// Trusted: a present key is moved to the most recently used place and its
/// entry returned; otherwise nothing changes and `None` is returned.
#[verifier::external_body]
pub(crate) fn lru_get(cache: &mut lru::LruCache<String, Arc<CacheEntry>>, k: &str) -> (found: Option<Arc<CacheEntry>>)
    requires
        lru_valid(lru_entries(*old(cache)), lru_capacity(*old(cache))),
    ensures
        lru_entries(*final(cache)) == after_get(lru_entries(*old(cache)), k@),
        lru_capacity(*final(cache)) == lru_capacity(*old(cache)),
        found == lookup(lru_entries(*old(cache)), k@),
{
    cache.get(k).cloned()
}

/// `lru::LruCache::put`.
/// Trusted: the pair becomes the most recently used, replacing the old value
/// under `k` (which is returned) or, when the cache is full, evicting the
/// least recently used pair (and returning `None`).
#[verifier::external_body]
pub(crate) fn lru_put(cache: &mut lru::LruCache<String, Arc<CacheEntry>>, k: String, v: Arc<CacheEntry>) -> (replaced: Option<Arc<CacheEntry>>)
    requires
        lru_valid(lru_entries(*old(cache)), lru_capacity(*old(cache))),
    ensures
        lru_entries(*final(cache)) == after_put(lru_entries(*old(cache)), lru_capacity(*old(cache)), k@, v),
        lru_capacity(*final(cache)) == lru_capacity(*old(cache)),
        replaced == lookup(lru_entries(*old(cache)), k@),
{
    cache.put(k, v)
}

/// `lru::LruCache::pop`.
/// Trusted: removes the pair under `k`, returning its entry, or changes
/// nothing and returns `None`.
#[verifier::external_body]
pub(crate) fn lru_pop(cache: &mut lru::LruCache<String, Arc<CacheEntry>>, k: &str) -> (removed: Option<Arc<CacheEntry>>)
    requires
        lru_valid(lru_entries(*old(cache)), lru_capacity(*old(cache))),
    ensures
        lru_entries(*final(cache)) == after_pop(lru_entries(*old(cache)), k@),
        lru_capacity(*final(cache)) == lru_capacity(*old(cache)),
        removed == lookup(lru_entries(*old(cache)), k@),
{
    cache.pop(k)
}

/// `lru::LruCache::clear`.
/// Trusted: the cache is left empty with its capacity.
#[verifier::external_body]
pub(crate) fn lru_clear(cache: &mut lru::LruCache<String, Arc<CacheEntry>>)
    ensures
        lru_entries(*final(cache)) == Seq::<(Seq<char>, Arc<CacheEntry>)>::empty(),
        lru_capacity(*final(cache)) == lru_capacity(*old(cache)),
{
    cache.clear()
}

/// `lru::LruCache::len`.
/// Trusted: the number of pairs held.
#[verifier::external_body]
pub(crate) fn lru_len(cache: &lru::LruCache<String, Arc<CacheEntry>>) -> (n: usize)
    ensures
        n == lru_entries(*cache).len(),
{
    cache.len()
}

/// The keys of `lru::LruCache::iter`, in its most-recently-used-first order.
/// Trusted: one key per pair, in the order of the model.
#[verifier::external_body]
pub(crate) fn lru_keys(cache: &lru::LruCache<String, Arc<CacheEntry>>) -> (keys: Vec<String>)
    ensures
        keys@.len() == lru_entries(*cache).len(),
        forall|i: int| 0 <= i < keys@.len() ==> #[trigger] keys@[i]@ == lru_entries(*cache)[i].0,
{
    cache.iter().map(|(k, _)| k.clone()).collect()
}

/// The position of a present key is where the key is.
pub proof fn lemma_key_position<V>(e: Seq<(Seq<char>, V)>, k: Seq<char>)
    requires
        has_key(e, k),
    ensures
        0 <= key_position(e, k) < e.len(),
        e[key_position(e, k)].0 == k,
{
}

/// With distinct keys, the key found at `i` has position `i`.
pub proof fn lemma_position_unique<V>(e: Seq<(Seq<char>, V)>, i: int)
    requires
        keys_distinct(e),
        0 <= i < e.len(),
    ensures
        has_key(e, e[i].0),
        key_position(e, e[i].0) == i,
{
    assert(has_key(e, e[i].0));
}

/// Every operation keeps the cache valid.
pub proof fn lemma_ops_keep_valid<V>(e: Seq<(Seq<char>, V)>, cap: nat, k: Seq<char>, v: V)
    requires
        lru_valid(e, cap),
    ensures
        lru_valid(after_get(e, k), cap),
        lru_valid(after_put(e, cap, k, v), cap),
        lru_valid(after_pop(e, k), cap),
        after_get(e, k).len() == e.len(),
        has_key(e, k) ==> after_pop(e, k).len() == e.len() - 1,
{
    if has_key(e, k) {
        let i = key_position(e, k);
        let r = e.remove(i);
        assert forall|a: int, b: int| 0 <= a < r.len() && 0 <= b < r.len() && a != b implies #[trigger] r[a].0 != #[trigger] r[b].0 by {
            let a2 = if a < i { a } else { a + 1 };
            let b2 = if b < i { b } else { b + 1 };
            assert(r[a] == e[a2]);
            assert(r[b] == e[b2]);
        }
        let g = seq![e[i]] + r;
        assert forall|a: int, b: int| 0 <= a < g.len() && 0 <= b < g.len() && a != b implies #[trigger] g[a].0 != #[trigger] g[b].0 by {
            if a == 0 && b > 0 {
                let b2 = if b - 1 < i { b - 1 } else { b };
                assert(g[b] == e[b2]);
            } else if b == 0 && a > 0 {
                let a2 = if a - 1 < i { a - 1 } else { a };
                assert(g[a] == e[a2]);
            } else if a > 0 && b > 0 {
                assert(g[a] == r[a - 1]);
                assert(g[b] == r[b - 1]);
            }
        }
        let p = seq![(k, v)] + r;
        assert forall|a: int, b: int| 0 <= a < p.len() && 0 <= b < p.len() && a != b implies #[trigger] p[a].0 != #[trigger] p[b].0 by {
            if a == 0 && b > 0 {
                let b2 = if b - 1 < i { b - 1 } else { b };
                assert(p[b] == e[b2]);
            } else if b == 0 && a > 0 {
                let a2 = if a - 1 < i { a - 1 } else { a };
                assert(p[a] == e[a2]);
            } else if a > 0 && b > 0 {
                assert(p[a] == r[a - 1]);
                assert(p[b] == r[b - 1]);
            }
        }
    } else {
        let d = if e.len() == cap { e.drop_last() } else { e };
        let p = seq![(k, v)] + d;
        assert forall|a: int, b: int| 0 <= a < p.len() && 0 <= b < p.len() && a != b implies #[trigger] p[a].0 != #[trigger] p[b].0 by {
            if a == 0 && b > 0 {
                assert(p[b] == e[b - 1]);
            } else if b == 0 && a > 0 {
                assert(p[a] == e[a - 1]);
            } else if a > 0 && b > 0 {
                assert(p[a] == e[a - 1]);
                assert(p[b] == e[b - 1]);
            }
        }
    }
}

} // verus!
