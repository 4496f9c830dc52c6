//! Looking a key up in a chain of pairs, and storing a value under a key,
//! as functions on sequences.

use vstd::laws_eq::obeys_concrete_eq;
use vstd::prelude::*;
use vstd::std_specs::cmp::PartialEqSpec;

verus! {

/// Whether `i` is the first position of `chain` whose key `==` takes for
/// equal to `key`.
pub open spec fn chain_first_match<K: PartialEq, V>(chain: Seq<(K, V)>, key: K, i: int) -> bool {
    &&& 0 <= i < chain.len()
    &&& chain[i].0.eq_spec(&key)
    &&& forall|j: int| 0 <= j < i ==> !(#[trigger] chain[j]).0.eq_spec(&key)
}

/// Whether `==` takes no key of `chain` for equal to `key`.
pub open spec fn chain_no_match<K: PartialEq, V>(chain: Seq<(K, V)>, key: K) -> bool {
    forall|i: int| 0 <= i < chain.len() ==> !(#[trigger] chain[i]).0.eq_spec(&key)
}

/// The position of the first pair of `chain` whose key is `key`.
pub open spec fn chain_find<K, V>(chain: Seq<(K, V)>, key: K) -> Option<int>
    decreases chain.len(),
{
    if chain.len() == 0 {
        None
    } else if chain[0].0 == key {
        Some(0)
    } else {
        match chain_find(chain.drop_first(), key) {
            Some(i) => Some(i + 1),
            None => None,
        }
    }
}

/// The value of the first pair of `chain` whose key is `key`.
pub open spec fn chain_get<K, V>(chain: Seq<(K, V)>, key: K) -> Option<V> {
    match chain_find(chain, key) {
        Some(i) => Some(chain[i].1),
        None => None,
    }
}

/// `chain` after `value` was stored under `key`: written over the value of
/// the first pair with that key, or put in front as a new pair.
pub open spec fn chain_put<K, V>(chain: Seq<(K, V)>, key: K, value: V) -> Seq<(K, V)> {
    match chain_find(chain, key) {
        Some(i) => chain.update(i, (key, value)),
        None => seq![(key, value)] + chain,
    }
}

/// Whether some pair of `chain` has the key `key`.
pub open spec fn chain_has_key<K, V>(chain: Seq<(K, V)>, key: K) -> bool {
    exists|i: int| 0 <= i < chain.len() && (#[trigger] chain[i]).0 == key
}

/// Whether no key occurs in two pairs of `chain`.
pub open spec fn chain_keys_distinct<K, V>(chain: Seq<(K, V)>) -> bool {
    forall|i: int, j: int| 0 <= i < j < chain.len() ==> chain[i].0 != chain[j].0
}

/// `chain_find` gives the least position with the key, and `None` exactly
/// when no pair has it.
pub proof fn lemma_chain_find<K, V>(chain: Seq<(K, V)>, key: K)
    ensures
        (match chain_find(chain, key) {
            Some(i) => {
                &&& 0 <= i < chain.len()
                &&& chain[i].0 == key
                &&& forall|j: int| 0 <= j < i ==> chain[j].0 != key
            },
            None => forall|j: int| 0 <= j < chain.len() ==> chain[j].0 != key,
        }),
    decreases chain.len(),
{
    if chain.len() > 0 && chain[0].0 != key {
        let rest = chain.drop_first();
        lemma_chain_find(rest, key);
        match chain_find(rest, key) {
            Some(i) => {
                assert forall|j: int| 0 <= j < i + 1 implies chain[j].0 != key by {
                    if j > 0 {
                        assert(chain[j] == rest[j - 1]);
                    }
                }
            },
            None => {
                assert forall|j: int| 0 <= j < chain.len() implies chain[j].0 != key by {
                    if j > 0 {
                        assert(chain[j] == rest[j - 1]);
                    }
                }
            },
        }
    }
}

/// A position that holds the key and has no pair with the key before it is
/// the one that `chain_find` gives.
pub proof fn lemma_chain_find_is<K, V>(chain: Seq<(K, V)>, key: K, i: int)
    requires
        0 <= i < chain.len(),
        chain[i].0 == key,
        forall|j: int| 0 <= j < i ==> chain[j].0 != key,
    ensures
        chain_find(chain, key) == Some(i),
{
    lemma_chain_find(chain, key);
}

/// Where `==` tells keys apart exactly, the first position that it takes
/// for a match is the position that `chain_find` gives.
pub proof fn lemma_chain_match_is_find<K: PartialEq, V>(chain: Seq<(K, V)>, key: K)
    requires
        obeys_concrete_eq::<K>(),
    ensures
        forall|i: int| chain_first_match(chain, key, i) <==> chain_find(chain, key) == Some(i),
        chain_no_match(chain, key) <==> chain_find(chain, key) is None,
{
    reveal(obeys_concrete_eq);
    lemma_chain_find(chain, key);
    assert forall|i: int| chain_first_match(chain, key, i) implies chain_find(chain, key) == Some(
        i,
    ) by {
        lemma_chain_find_is(chain, key, i);
    }
}

/// After `value` was stored under `key`, looking up `key` gives `value`, and
/// looking up any other key gives what it gave before.
pub proof fn lemma_chain_put_get<K, V>(chain: Seq<(K, V)>, key: K, value: V, other: K)
    ensures
        chain_get(chain_put(chain, key, value), other) == (if other == key {
            Some(value)
        } else {
            chain_get(chain, other)
        }),
{
    let put = chain_put(chain, key, value);
    lemma_chain_find(chain, key);
    lemma_chain_find(chain, other);
    match chain_find(chain, key) {
        Some(i) => {
            match chain_find(chain, other) {
                Some(j) => {
                    lemma_chain_find_is(put, other, j);
                },
                None => {
                    lemma_chain_find(put, other);
                },
            }
        },
        None => {
            assert(put.drop_first() =~= chain);
        },
    }
}

/// Storing under a key keeps the keys of a chain distinct. The chain grows
/// by one pair if the key is new to it, and keeps its length if not; its
/// keys are then `key` and the keys that it had.
pub proof fn lemma_chain_put_keys<K, V>(chain: Seq<(K, V)>, key: K, value: V)
    ensures
        chain_keys_distinct(chain) ==> chain_keys_distinct(chain_put(chain, key, value)),
        chain_put(chain, key, value).len() == (if chain_find(chain, key) is Some {
            chain.len()
        } else {
            chain.len() + 1
        }),
        forall|k: K|
            #[trigger] chain_has_key(chain_put(chain, key, value), k) <==> k == key
                || chain_has_key(chain, k),
{
    let put = chain_put(chain, key, value);
    lemma_chain_find(chain, key);
    // A pair at place `i` of the old chain stands at place `i + shift` of the new one.
    let shift: int = if chain_find(chain, key) is Some {
        0
    } else {
        1
    };
    assert forall|k: K| #[trigger] chain_has_key(put, k) <==> k == key || chain_has_key(
        chain,
        k,
    ) by {
        if chain_has_key(chain, k) {
            let i = choose|i: int| 0 <= i < chain.len() && (#[trigger] chain[i]).0 == k;
            assert(put[i + shift].0 == k);
        }
        if shift == 1 {
            assert(put[0].0 == key);
        }
    }
}

/// Storing twice under one key leaves what storing the second value alone
/// would have left: the first value is gone, and no second pair was added.
pub proof fn lemma_chain_put_twice<K, V>(chain: Seq<(K, V)>, key: K, first: V, second: V)
    ensures
        chain_put(chain_put(chain, key, first), key, second) == chain_put(chain, key, second),
{
    let once = chain_put(chain, key, first);
    lemma_chain_find(chain, key);
    match chain_find(chain, key) {
        Some(i) => {
            lemma_chain_find_is(once, key, i);
        },
        None => {
            lemma_chain_find_is(once, key, 0);
        },
    }
}

} // verus!
