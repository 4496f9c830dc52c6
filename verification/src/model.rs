//! The table as mathematics: a sequence of `BUCKETS` chains, each a sequence
//! of key-value pairs, with lookup and insertion as functions on it.

use crate::chain::{
    chain_get, chain_has_key, chain_keys_distinct, chain_put, lemma_chain_put_get,
    lemma_chain_put_keys,
};
use crate::hash::{djb2_fold, DJB2_SEED};
use crate::key::Key;
use vstd::prelude::*;

verus! {

/// Number of buckets in the table.
pub const BUCKETS: usize = 256;

/// The bucket that `key` belongs to: its hash, reduced modulo the number of buckets.
pub open spec fn bucket_index<K: Key>(key: K) -> int {
    (djb2_fold(DJB2_SEED, key.bytes()) % (BUCKETS as u64)) as int
}

/// The table that holds no pair.
pub open spec fn empty_table<K, V>() -> Seq<Seq<(K, V)>> {
    Seq::new(BUCKETS as nat, |b: int| Seq::empty())
}

/// The value stored under `key`: the one of the first pair with that key in
/// the key's bucket.
pub open spec fn table_get<K: Key, V>(chains: Seq<Seq<(K, V)>>, key: K) -> Option<V> {
    chain_get(chains[bucket_index(key)], key)
}

/// The table after `value` was stored under `key`: only the key's bucket
/// changes, by `chain_put`.
pub open spec fn table_put<K: Key, V>(chains: Seq<Seq<(K, V)>>, key: K, value: V) -> Seq<
    Seq<(K, V)>,
> {
    chains.update(bucket_index(key), chain_put(chains[bucket_index(key)], key, value))
}

/// The table after the pairs of `pairs` were stored one after the other, first to last.
pub open spec fn table_put_all<K: Key, V>(chains: Seq<Seq<(K, V)>>, pairs: Seq<(K, V)>) -> Seq<
    Seq<(K, V)>,
>
    decreases pairs.len(),
{
    if pairs.len() == 0 {
        chains
    } else {
        table_put(table_put_all(chains, pairs.drop_last()), pairs.last().0, pairs.last().1)
    }
}

/// The table as a map from the keys that it holds to their values.
pub open spec fn table_view<K: Key, V>(chains: Seq<Seq<(K, V)>>) -> Map<K, V> {
    Map::new(|k: K| table_get(chains, k) is Some, |k: K| table_get(chains, k)->0)
}

/// What the table keeps true of its chains: there are `BUCKETS` of them, a
/// chain holds no key twice, and every key stands in the chain of its bucket.
pub open spec fn table_wf<K: Key, V>(chains: Seq<Seq<(K, V)>>) -> bool {
    &&& chains.len() == BUCKETS
    &&& forall|b: int| 0 <= b < chains.len() ==> chain_keys_distinct(#[trigger] chains[b])
    &&& forall|b: int, i: int|
        0 <= b < chains.len() && 0 <= i < chains[b].len() ==> bucket_index(
            (#[trigger] chains[b][i]).0,
        ) == b
}

/// A bucket index is a position in the table.
pub proof fn lemma_bucket_index_range<K: Key>(key: K)
    ensures
        0 <= bucket_index(key) < BUCKETS,
{
}

/// After `value` was stored under `key`, the table gives `value` for `key`
/// and, for every other key, what it gave before.
pub proof fn lemma_put_get<K: Key, V>(chains: Seq<Seq<(K, V)>>, key: K, value: V, other: K)
    requires
        chains.len() == BUCKETS,
    ensures
        table_get(table_put(chains, key, value), other) == (if other == key {
            Some(value)
        } else {
            table_get(chains, other)
        }),
{
    lemma_chain_put_get(chains[bucket_index(key)], key, value, other);
}

/// Storing under a key is `Map::insert` on the view.
pub proof fn lemma_put_view<K: Key, V>(chains: Seq<Seq<(K, V)>>, key: K, value: V)
    requires
        chains.len() == BUCKETS,
    ensures
        table_view(table_put(chains, key, value)) == table_view(chains).insert(key, value),
{
    let put = table_put(chains, key, value);
    assert forall|k: K| table_get(put, k) == (if k == key {
        Some(value)
    } else {
        table_get(chains, k)
    }) by {
        lemma_put_get(chains, key, value, k);
    }
}

/// The empty table holds no key and is well formed.
pub proof fn lemma_empty_table<K: Key, V>()
    ensures
        table_view(empty_table::<K, V>()) == Map::<K, V>::empty(),
        table_wf(empty_table::<K, V>()),
{
    assert forall|k: K| table_get(empty_table::<K, V>(), k) is None by {
        lemma_bucket_index_range(k);
    }
}

/// Storing under a key keeps the table well formed.
pub proof fn lemma_put_wf<K: Key, V>(chains: Seq<Seq<(K, V)>>, key: K, value: V)
    requires
        table_wf(chains),
    ensures
        table_wf(table_put(chains, key, value)),
{
    let b = bucket_index(key);
    let put = table_put(chains, key, value);
    lemma_chain_put_keys(chains[b], key, value);
    assert forall|i: int| 0 <= i < put[b].len() implies bucket_index((#[trigger] put[b][i]).0)
        == b by {
        assert(chain_has_key(put[b], put[b][i].0));
    }
}

} // verus!
