//! What holds of the table whatever is stored in it, stated over the model
//! that the contracts of the table's functions use.

use crate::chain::{chain_keys_distinct, lemma_chain_find, lemma_chain_put_twice};
use crate::key::Key;
use crate::model::{
    bucket_index, empty_table, lemma_bucket_index_range, lemma_empty_table, lemma_put_get,
    lemma_put_wf, table_get, table_put, table_put_all, table_view, table_wf, BUCKETS,
};
use vstd::laws_eq::obeys_concrete_eq;
use vstd::prelude::*;
use vstd::std_specs::cmp::PartialEqSpec;

verus! {

/// Keys that `==` takes for equal belong to the same bucket.
pub proof fn lemma_equal_keys_same_bucket<K: Key>(a: K, b: K)
    requires
        a.eq_spec(&b),
    ensures
        bucket_index(a) == bucket_index(b),
{
    K::eq_is_identity();
    reveal(obeys_concrete_eq);
}

/// Two computations of a key's bucket index give the same index.
pub proof fn lemma_bucket_index_deterministic<K: Key>(key: K, first: usize, second: usize)
    requires
        first == bucket_index(key),
        second == bucket_index(key),
    ensures
        first == second,
{
}

/// After a value was stored under a key, looking the key up gives that value.
pub proof fn lemma_round_trip<K: Key, V>(chains: Seq<Seq<(K, V)>>, key: K, value: V)
    requires
        chains.len() == BUCKETS,
    ensures
        table_get(table_put(chains, key, value), key) == Some(value),
        table_view(table_put(chains, key, value)).contains_key(key),
        table_view(table_put(chains, key, value))[key] == value,
{
    lemma_put_get(chains, key, value, key);
}

/// Storing under a key changes what is found under no other key.
pub proof fn lemma_other_keys_kept<K: Key, V>(
    chains: Seq<Seq<(K, V)>>,
    key: K,
    value: V,
    other: K,
)
    requires
        chains.len() == BUCKETS,
        other != key,
    ensures
        table_get(table_put(chains, key, value), other) == table_get(chains, other),
{
    lemma_put_get(chains, key, value, other);
}

/// Storing under one key twice: the second time the table still gives the
/// first value, afterwards it gives the second, and the table is what
/// storing the second value alone would have left. No second pair with the
/// key was added.
pub proof fn lemma_put_twice<K: Key, V>(chains: Seq<Seq<(K, V)>>, key: K, first: V, second: V)
    requires
        chains.len() == BUCKETS,
    ensures
        table_get(table_put(chains, key, first), key) == Some(first),
        table_get(table_put(table_put(chains, key, first), key, second), key) == Some(second),
        table_put(table_put(chains, key, first), key, second) == table_put(chains, key, second),
{
    lemma_put_get(chains, key, first, key);
    lemma_put_get(table_put(chains, key, first), key, second, key);
    lemma_chain_put_twice(chains[bucket_index(key)], key, first, second);
}

/// Storing pairs keeps the number of buckets.
pub proof fn lemma_put_all_len<K: Key, V>(chains: Seq<Seq<(K, V)>>, pairs: Seq<(K, V)>)
    requires
        chains.len() == BUCKETS,
    ensures
        table_put_all(chains, pairs).len() == BUCKETS,
    decreases pairs.len(),
{
    if pairs.len() > 0 {
        lemma_put_all_len(chains, pairs.drop_last());
        lemma_bucket_index_range(pairs.last().0);
    }
}

/// Storing pairs with distinct keys that all belong to bucket `b`, none of
/// them in the table yet, puts them in front of the chain of `b`, the last
/// one stored first, and leaves the other chains as they were.
pub proof fn lemma_put_all_fresh<K: Key, V>(chains: Seq<Seq<(K, V)>>, pairs: Seq<(K, V)>, b: int)
    requires
        chains.len() == BUCKETS,
        0 <= b < BUCKETS,
        chain_keys_distinct(pairs),
        forall|i: int| 0 <= i < pairs.len() ==> bucket_index((#[trigger] pairs[i]).0) == b,
        forall|i: int, j: int|
            0 <= i < pairs.len() && 0 <= j < chains[b].len() ==> (#[trigger] pairs[i]).0 != (
            #[trigger] chains[b][j]).0,
    ensures
        table_put_all(chains, pairs) == chains.update(b, pairs.reverse() + chains[b]),
    decreases pairs.len(),
{
    if pairs.len() > 0 {
        let init = pairs.drop_last();
        let last = pairs.last();
        lemma_put_all_fresh(chains, init, b);
        // The chain that the earlier pairs left does not hold the key of the last one.
        let chain = init.reverse() + chains[b];
        lemma_chain_find(chain, last.0);
        assert(seq![last] + chain =~= pairs.reverse() + chains[b]);
    }
}

/// Storing `n` pairs with distinct keys that all belong to one bucket in an
/// empty table gives that bucket a chain of `n` pairs: none is lost and none
/// is there twice. The chain holds the pairs with the last one stored first,
/// and the other buckets stay empty.
pub proof fn lemma_distinct_keys_fill_chain<K: Key, V>(pairs: Seq<(K, V)>, b: int)
    requires
        0 <= b < BUCKETS,
        chain_keys_distinct(pairs),
        forall|i: int| 0 <= i < pairs.len() ==> bucket_index((#[trigger] pairs[i]).0) == b,
    ensures
        table_put_all(empty_table(), pairs)[b].len() == pairs.len(),
        table_put_all(empty_table(), pairs)[b] == pairs.reverse(),
        forall|c: int|
            0 <= c < BUCKETS && c != b ==> (#[trigger] table_put_all(empty_table(), pairs)[c]).len()
                == 0,
{
    lemma_put_all_fresh(empty_table::<K, V>(), pairs, b);
}

/// Whatever pairs are stored in a well-formed table, in whatever order and
/// with whatever keys repeated, the table stays well formed: no chain holds
/// a key twice.
pub proof fn lemma_put_all_wf<K: Key, V>(chains: Seq<Seq<(K, V)>>, pairs: Seq<(K, V)>)
    requires
        table_wf(chains),
    ensures
        table_wf(table_put_all(chains, pairs)),
        forall|b: int|
            0 <= b < BUCKETS ==> chain_keys_distinct(#[trigger] table_put_all(chains, pairs)[b]),
    decreases pairs.len(),
{
    if pairs.len() > 0 {
        lemma_put_all_wf(chains, pairs.drop_last());
        lemma_put_wf(table_put_all(chains, pairs.drop_last()), pairs.last().0, pairs.last().1);
    }
}

/// A table filled from empty holds no key twice in a chain.
pub proof fn lemma_filled_table_wf<K: Key, V>(pairs: Seq<(K, V)>)
    ensures
        table_wf(table_put_all(empty_table(), pairs)),
        forall|b: int|
            0 <= b < BUCKETS ==> chain_keys_distinct(
                #[trigger] table_put_all(empty_table(), pairs)[b],
            ),
{
    lemma_empty_table::<K, V>();
    lemma_put_all_wf(empty_table::<K, V>(), pairs);
}

/// After pairs were stored, the table gives for the key of a pair the value
/// of that pair, if no later pair has the same key.
pub proof fn lemma_put_all_get_stored<K: Key, V>(
    chains: Seq<Seq<(K, V)>>,
    pairs: Seq<(K, V)>,
    i: int,
)
    requires
        chains.len() == BUCKETS,
        0 <= i < pairs.len(),
        forall|j: int| i < j < pairs.len() ==> pairs[j].0 != pairs[i].0,
    ensures
        table_get(table_put_all(chains, pairs), pairs[i].0) == Some(pairs[i].1),
    decreases pairs.len(),
{
    let init = pairs.drop_last();
    let last = pairs.last();
    lemma_put_all_len(chains, init);
    lemma_put_get(table_put_all(chains, init), last.0, last.1, pairs[i].0);
    if i < pairs.len() - 1 {
        lemma_put_all_get_stored(chains, init, i);
    }
}

/// A key that none of the stored pairs has is looked up as it was before
/// they were stored.
pub proof fn lemma_put_all_get_other<K: Key, V>(
    chains: Seq<Seq<(K, V)>>,
    pairs: Seq<(K, V)>,
    key: K,
)
    requires
        chains.len() == BUCKETS,
        forall|i: int| 0 <= i < pairs.len() ==> (#[trigger] pairs[i]).0 != key,
    ensures
        table_get(table_put_all(chains, pairs), key) == table_get(chains, key),
    decreases pairs.len(),
{
    if pairs.len() > 0 {
        let init = pairs.drop_last();
        let last = pairs.last();
        lemma_put_all_get_other(chains, init, key);
        lemma_put_all_len(chains, init);
        lemma_put_get(table_put_all(chains, init), last.0, last.1, key);
    }
}

/// A key that was never stored is not found: the empty table holds no key,
/// and a table filled from empty holds only the keys of the pairs stored.
pub proof fn lemma_absent_key_not_found<K: Key, V>(pairs: Seq<(K, V)>, key: K)
    requires
        forall|i: int| 0 <= i < pairs.len() ==> (#[trigger] pairs[i]).0 != key,
    ensures
        table_get(empty_table::<K, V>(), key) is None,
        table_get(table_put_all(empty_table(), pairs), key) is None,
        !table_view(table_put_all(empty_table(), pairs)).contains_key(key),
{
    lemma_bucket_index_range(key);
    lemma_put_all_get_other(empty_table::<K, V>(), pairs, key);
}

} // verus!
