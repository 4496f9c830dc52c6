//! A bucket: the chain of the pairs whose keys fall into one slot of the table.

use crate::chain::{
    chain_first_match, chain_get, chain_no_match, chain_put, lemma_chain_match_is_find,
};
use crate::linked_list::{LinkedList, LinkedListIter, LinkedListIterMut};
use vstd::laws_eq::obeys_concrete_eq;
use vstd::prelude::*;
use vstd::std_specs::cmp::PartialEqSpec;

verus! {

/// A bucket of the table: a chain of key-value pairs.
pub struct Entry<K: Clone, V: Clone> {
    pub(crate) data: LinkedList<(K, V)>,
}

impl<K: Clone, V: Clone> View for Entry<K, V> {
    type V = Seq<(K, V)>;

    /// The pairs, from the head of the chain to its end.
    closed spec fn view(&self) -> Seq<(K, V)> {
        self.data@
    }
}

impl<K: Clone, V: Clone> Clone for Entry<K, V> {
    /// A bucket with as many pairs, each a clone of the pair at its place.
    fn clone(&self) -> (r: Self)
        ensures
            r@.len() == self@.len(),
            forall|i: int| 0 <= i < self@.len() ==> cloned::<(K, V)>(#[trigger] self@[i], r@[i]),
    {
        Entry { data: self.data.clone() }
    }
}

impl<K: PartialEq<K> + Clone, V: Clone> Entry<K, V> {
    /// A bucket that holds no pair.
    pub(crate) fn empty() -> (r: Self)
        ensures
            r@ == Seq::<(K, V)>::empty(),
    {
        Entry { data: LinkedList::Nil }
    }

    /// A bucket that holds the one pair `(key, value)`.
    pub fn new(key: K, value: V) -> (r: Self)
        ensures
            r@ == seq![(key, value)],
    {
        let r = Entry { data: LinkedList::Elem((key, value), Box::new(LinkedList::Nil)) };
        assert(r.data@ =~= seq![(key, value)] + LinkedList::<(K, V)>::Nil@);
        r
    }

    /// Walk the pairs from the head of the chain.
    pub fn iter(&self) -> (it: LinkedListIter<'_, (K, V)>)
        ensures
            it@ == self@,
    {
        self.data.iter()
    }

    /// The value of the first pair whose key `==` takes for equal to `key`.
    ///
    /// Where `==` tells keys apart exactly, that is the value that
    /// `chain_get` gives. Where nothing is known of `==`, the result is
    /// still the value of a pair of the chain.
    pub fn get(&self, key: &K) -> (r: Option<&V>)
        ensures
            K::obeys_eq_spec() ==> (match r {
                Some(v) => exists|i: int|
                    chain_first_match(self@, *key, i) && *v == (#[trigger] self@[i]).1,
                None => chain_no_match(self@, *key),
            }),
            obeys_concrete_eq::<K>() ==> (match r {
                Some(v) => chain_get(self@, *key) == Some(*v),
                None => chain_get(self@, *key) is None,
            }),
            r matches Some(v) ==> exists|i: int|
                0 <= i < self@.len() && (#[trigger] self@[i]).1 == *v,
    {
        let mut it = self.data.iter();
        let ghost mut n: int = 0;
        loop
            invariant
                0 <= n <= self@.len(),
                it@ == self@.skip(n),
                K::obeys_eq_spec() ==> forall|j: int|
                    0 <= j < n ==> !(#[trigger] self@[j]).0.eq_spec(key),
            decreases it@.len(),
        {
            match it.next() {
                Some(pair) => {
                    if pair.0 == *key {
                        proof {
                            assert(self@[n] == *pair);
                            if K::obeys_eq_spec() {
                                assert(chain_first_match(self@, *key, n));
                            }
                            if obeys_concrete_eq::<K>() {
                                reveal(obeys_concrete_eq);
                                lemma_chain_match_is_find(self@, *key);
                            }
                        }
                        return Some(&pair.1);
                    }
                    proof {
                        n = n + 1;
                    }
                },
                None => {
                    proof {
                        if obeys_concrete_eq::<K>() {
                            reveal(obeys_concrete_eq);
                            lemma_chain_match_is_find(self@, *key);
                        }
                    }
                    return None;
                },
            }
        }
    }

    /// Walk the pairs from the head of the chain, handing out each for writing.
    pub fn iter_mut(&mut self) -> (it: LinkedListIterMut<'_, (K, V)>)
        ensures
            it.ll matches Some(ll) && ll@ == old(self)@ && final(ll)@ == final(self)@,
    {
        self.data.iter_mut()
    }

    /// The value of the first pair whose key `==` takes for equal to `key`,
    /// for writing.
    ///
    /// Where `==` tells keys apart exactly, writing through the result is
    /// `chain_put`. Whatever `==` does, nothing but the value of one pair can
    /// change through the result, and nothing changes if the result is `None`.
    pub fn get_mut(&mut self, key: &K) -> (r: Option<&mut V>)
        ensures
            K::obeys_eq_spec() ==> (match r {
                Some(v) => exists|i: int|
                    {
                        &&& chain_first_match(old(self)@, *key, i)
                        &&& *v == (#[trigger] old(self)@[i]).1
                        &&& final(self)@ == old(self)@.update(i, (old(self)@[i].0, *final(v)))
                    },
                None => chain_no_match(old(self)@, *key),
            }),
            obeys_concrete_eq::<K>() ==> (match r {
                Some(v) => {
                    &&& chain_get(old(self)@, *key) == Some(*v)
                    &&& final(self)@ == chain_put(old(self)@, *key, *final(v))
                },
                None => chain_get(old(self)@, *key) is None,
            }),
            (match r {
                Some(v) => exists|i: int|
                    {
                        &&& 0 <= i < old(self)@.len()
                        &&& *v == (#[trigger] old(self)@[i]).1
                        &&& final(self)@ == old(self)@.update(i, (old(self)@[i].0, *final(v)))
                    },
                None => final(self)@ == old(self)@,
            }),
    {
        let mut it = self.data.iter_mut();
        let ghost mut n: int = 0;
        loop
            invariant
                0 <= n <= old(self)@.len(),
                it.ll matches Some(ll) && ll@ == old(self)@.skip(n) && after_borrow(self.data)@
                    == old(self)@.take(n) + final(ll)@,
                K::obeys_eq_spec() ==> forall|j: int|
                    0 <= j < n ==> !(#[trigger] old(self)@[j]).0.eq_spec(key),
            decreases old(self)@.len() - n,
        {
            match it.next() {
                Some(pair) => {
                    let ghost after = it.ll->0;
                    proof {
                        assert(old(self)@.skip(n)[0] == *pair);
                        assert((seq![*pair] + after@).drop_first() =~= after@);
                    }
                    if pair.0 == *key {
                        proof {
                            if K::obeys_eq_spec() {
                                assert(chain_first_match(old(self)@, *key, n));
                            }
                            if obeys_concrete_eq::<K>() {
                                reveal(obeys_concrete_eq);
                                lemma_chain_match_is_find(old(self)@, *key);
                            }
                        }
                        return Some(&mut pair.1);
                    }
                    proof {
                        n = n + 1;
                    }
                },
                None => {
                    proof {
                        if obeys_concrete_eq::<K>() {
                            reveal(obeys_concrete_eq);
                            lemma_chain_match_is_find(old(self)@, *key);
                        }
                    }
                    return None;
                },
            }
        }
    }

    /// Put the pair `(key, value)` in front of the chain.
    pub fn push(self, key: K, value: V) -> (r: Self)
        ensures
            r@ == seq![(key, value)] + self@,
    {
        Entry { data: self.data.push((key, value)) }
    }
}

} // verus!
