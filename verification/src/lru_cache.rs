//! The `lru` crate's cache, as the vote aggregation uses it: a bounded set of
//! block keys that forgets the least recently inserted one when it is full.

use lru::LruCache;
use vstd::prelude::*;

verus! {

#[verifier::external_type_specification]
#[verifier::external_body]
#[verifier::reject_recursive_types(K)]
#[verifier::reject_recursive_types(V)]
#[verifier::reject_recursive_types(S)]
pub struct ExLruCache<K, V, S>(LruCache<K, V, S>);

#[verifier::external_type_specification]
#[verifier::external_body]
pub struct ExDefaultHasher(lru::DefaultHasher);

/// The keys held by `cache`, from the least to the most recently used.
pub uninterp spec fn lru_keys(cache: LruCache<u64, ()>) -> Seq<u64>;

/// The number of keys that `cache` was made to hold at most.
pub uninterp spec fn lru_capacity(cache: LruCache<u64, ()>) -> nat;

/// The keys after putting `k` into a cache that held `keys` and holds at most
/// `capacity`: a key already held moves to the most recent end; a new key is
/// appended, after the least recently used key is dropped when the cache is full;
/// a cache of capacity zero takes nothing.
pub open spec fn keys_after_put(keys: Seq<u64>, capacity: nat, k: u64) -> Seq<u64> {
    if keys.contains(k) {
        keys.remove(keys.index_of(k)).push(k)
    } else if capacity == 0 {
        keys
    } else if keys.len() == capacity {
        keys.drop_first().push(k)
    } else {
        keys.push(k)
    }
}

/// Putting a key into a cache with room for at least one key keeps its keys
/// distinct and within its capacity, and makes the key the most recently used.
pub proof fn lemma_put_keeps_keys_distinct(keys: Seq<u64>, capacity: nat, k: u64)
    requires
        keys.no_duplicates(),
        keys.len() <= capacity,
        capacity > 0,
    ensures
        keys_after_put(keys, capacity, k).no_duplicates(),
        keys_after_put(keys, capacity, k).len() <= capacity,
        keys_after_put(keys, capacity, k).len() > 0,
        keys_after_put(keys, capacity, k).last() == k,
        keys_after_put(keys, capacity, k).contains(k),
{
    let after = keys_after_put(keys, capacity, k);
    if keys.contains(k) {
        let i = keys.index_of(k);
        let rest = keys.remove(i);
        assert(rest.len() == keys.len() - 1);
        assert forall|j: int| 0 <= j < rest.len() implies rest[j] == (if j < i {
            keys[j]
        } else {
            keys[j + 1]
        }) by {}
        assert forall|a: int, b: int| 0 <= a < b < after.len() implies after[a] != after[b] by {
            if b == after.len() - 1 {
                assert(after[b] == k);
                if a < i {
                    assert(keys[a] != keys[i]);
                } else {
                    assert(keys[a + 1] != keys[i]);
                }
            } else {
                let ka = if a < i { a } else { a + 1 };
                let kb = if b < i { b } else { b + 1 };
                assert(keys[ka] != keys[kb]);
            }
        }
    } else if keys.len() == capacity {
        let rest = keys.drop_first();
        assert forall|a: int, b: int| 0 <= a < b < after.len() implies after[a] != after[b] by {
            if b == after.len() - 1 {
                assert(keys[a + 1] != k);
            } else {
                assert(keys[a + 1] != keys[b + 1]);
            }
        }
    } else {
        assert forall|a: int, b: int| 0 <= a < b < after.len() implies after[a] != after[b] by {
            if b == after.len() - 1 {
                assert(keys[a] != k);
            }
        }
    }
    assert(after[after.len() - 1] == k);
}

/// After a put, a held key is the key put or a key held before.
pub proof fn lemma_put_holds_only(keys: Seq<u64>, capacity: nat, k: u64, x: u64)
    requires
        keys_after_put(keys, capacity, k).contains(x),
    ensures
        x == k || keys.contains(x),
{
    let after = keys_after_put(keys, capacity, k);
    let j = choose|j: int| 0 <= j < after.len() && after[j] == x;
    if keys.contains(k) {
        let i = keys.index_of(k);
        if j < after.len() - 1 {
            if j < i {
                assert(keys[j] == x);
            } else {
                assert(keys[j + 1] == x);
            }
        }
    } else if capacity == 0 {
        assert(keys[j] == x);
    } else if keys.len() == capacity {
        if j < after.len() - 1 {
            assert(keys[j + 1] == x);
        }
    } else {
        if j < after.len() - 1 {
            assert(keys[j] == x);
        }
    }
}

/// The keys after putting each key of `ks` in turn, first to last.
pub open spec fn keys_after_puts(keys: Seq<u64>, capacity: nat, ks: Seq<u64>) -> Seq<u64>
    decreases ks.len(),
{
    if ks.len() == 0 {
        keys
    } else {
        keys_after_put(keys_after_puts(keys, capacity, ks.drop_last()), capacity, ks.last())
    }
}

/// A held key that is not the one a full cache would evict stays held through a
/// put, with at most one more key more recent than it.
proof fn lemma_put_keeps_held(keys: Seq<u64>, capacity: nat, k: u64, p: int) -> (q: int)
    requires
        keys.no_duplicates(),
        keys.len() <= capacity,
        0 <= p < keys.len(),
        keys.len() - 1 - p < capacity - 1,
    ensures
        0 <= q < keys_after_put(keys, capacity, k).len(),
        keys_after_put(keys, capacity, k)[q] == keys[p],
        keys_after_put(keys, capacity, k).len() - 1 - q <= keys.len() - 1 - p + 1,
{
    let after = keys_after_put(keys, capacity, k);
    if keys.contains(k) {
        let i = keys.index_of(k);
        if i == p {
            after.len() - 1
        } else if i < p {
            assert(after[p - 1] == keys[p]);
            p - 1
        } else {
            assert(after[p] == keys[p]);
            p
        }
    } else if keys.len() == capacity {
        assert(after[p - 1] == keys[p]);
        p - 1
    } else {
        assert(after[p] == keys[p]);
        p
    }
}

/// A held key stays held through fewer puts than the keys more recent than it
/// leave room for.
proof fn lemma_puts_keep_held(keys: Seq<u64>, capacity: nat, ks: Seq<u64>, p: int) -> (q: int)
    requires
        keys.no_duplicates(),
        keys.len() <= capacity,
        0 <= p < keys.len(),
        keys.len() - 1 - p + ks.len() < capacity,
    ensures
        keys_after_puts(keys, capacity, ks).no_duplicates(),
        keys_after_puts(keys, capacity, ks).len() <= capacity,
        0 <= q < keys_after_puts(keys, capacity, ks).len(),
        keys_after_puts(keys, capacity, ks)[q] == keys[p],
        keys_after_puts(keys, capacity, ks).len() - 1 - q <= keys.len() - 1 - p + ks.len(),
    decreases ks.len(),
{
    if ks.len() == 0 {
        p
    } else {
        let before = keys_after_puts(keys, capacity, ks.drop_last());
        let q0 = lemma_puts_keep_held(keys, capacity, ks.drop_last(), p);
        lemma_put_keeps_keys_distinct(before, capacity, ks.last());
        lemma_put_keeps_held(before, capacity, ks.last(), q0)
    }
}

/// A key just put into a cache of capacity `capacity` stays held through any
/// `capacity - 1` further puts.
pub proof fn lemma_put_key_survives(keys: Seq<u64>, capacity: nat, k: u64, later: Seq<u64>)
    requires
        keys.no_duplicates(),
        keys.len() <= capacity,
        later.len() < capacity,
    ensures
        keys_after_puts(keys_after_put(keys, capacity, k), capacity, later).contains(k),
{
    let after = keys_after_put(keys, capacity, k);
    lemma_put_keeps_keys_distinct(keys, capacity, k);
    let q = lemma_puts_keep_held(after, capacity, later, after.len() - 1);
    assert(keys_after_puts(after, capacity, later)[q] == k);
}

/// `lru::LruCache::new(capacity)`: an empty cache that holds at most `capacity`
/// keys.
#[verifier::external_body]
pub(crate) fn lru_new(capacity: usize) -> (cache: LruCache<u64, ()>)
    ensures
        lru_keys(cache) == Seq::<u64>::empty(),
        lru_capacity(cache) == capacity,
{
    LruCache::new(capacity)
}

/// `lru::LruCache::contains(&k)`: whether `k` is held; it does not change which
/// key was used last.
#[verifier::external_body]
pub(crate) fn lru_contains(cache: &LruCache<u64, ()>, k: u64) -> (held: bool)
    ensures
        held == lru_keys(*cache).contains(k),
{
    cache.contains(&k)
}

/// `lru::LruCache::put(k, ())`: makes `k` the most recently used key, evicting
/// the least recently used one when a new key meets a full cache.
#[verifier::external_body]
pub(crate) fn lru_put(cache: &mut LruCache<u64, ()>, k: u64)
    ensures
        lru_capacity(*final(cache)) == lru_capacity(*old(cache)),
        lru_keys(*final(cache)) == keys_after_put(
            lru_keys(*old(cache)),
            lru_capacity(*old(cache)),
            k,
        ),
{
    cache.put(k, ());
}

} // verus!
