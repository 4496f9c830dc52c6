//! The hash table: a fixed array of buckets, addressed by the hash of the key.

use crate::chain::lemma_chain_find;
use crate::entry::Entry;
use crate::hash::Djb2;
use crate::key::Key;
use crate::model::{
    bucket_index, empty_table, lemma_empty_table, lemma_put_view, lemma_put_wf, table_get,
    table_put, table_view, table_wf, BUCKETS,
};
use core::hash::Hasher;
use vstd::prelude::*;

verus! {

/// A hash table with `BUCKETS` buckets. Each bucket chains the pairs whose
/// keys hash to its index; the number of buckets never changes.
pub struct HashMap<K: Clone, V: Clone> {
    data: [Entry<K, V>; BUCKETS],
}

impl<K: Key + PartialEq + Clone, V: Clone> View for HashMap<K, V> {
    type V = Map<K, V>;

    /// The keys that the table holds, each with its value.
    open spec fn view(&self) -> Map<K, V> {
        table_view(self.chains())
    }
}

impl<K: Key + PartialEq + Clone, V: Clone> HashMap<K, V> {
    /// The chains of the buckets, in the order of their indices.
    pub closed spec fn chains(&self) -> Seq<Seq<(K, V)>> {
        Seq::new(BUCKETS as nat, |b: int| self.data[b]@)
    }

    /// Whether no chain holds a key twice and every key stands in the chain
    /// of its bucket. `new` makes such a table and no method ends it.
    pub open spec fn well_formed(&self) -> bool {
        table_wf(self.chains())
    }

    /// There are `BUCKETS` chains.
    pub proof fn lemma_chains_len(&self)
        ensures
            self.chains().len() == BUCKETS,
    {
    }

    /// Make a table that holds no pair.
    pub fn new() -> (r: Self)
        ensures
            r.chains() == empty_table::<K, V>(),
            r@ == Map::<K, V>::empty(),
            r.well_formed(),
    {
        let r = HashMap {
            data: [
                Entry::empty(), Entry::empty(), Entry::empty(), Entry::empty(),
                Entry::empty(), Entry::empty(), Entry::empty(), Entry::empty(),
                Entry::empty(), Entry::empty(), Entry::empty(), Entry::empty(),
                Entry::empty(), Entry::empty(), Entry::empty(), Entry::empty(),
                Entry::empty(), Entry::empty(), Entry::empty(), Entry::empty(),
                Entry::empty(), Entry::empty(), Entry::empty(), Entry::empty(),
                Entry::empty(), Entry::empty(), Entry::empty(), Entry::empty(),
                Entry::empty(), Entry::empty(), Entry::empty(), Entry::empty(),
                Entry::empty(), Entry::empty(), Entry::empty(), Entry::empty(),
                Entry::empty(), Entry::empty(), Entry::empty(), Entry::empty(),
                Entry::empty(), Entry::empty(), Entry::empty(), Entry::empty(),
                Entry::empty(), Entry::empty(), Entry::empty(), Entry::empty(),
                Entry::empty(), Entry::empty(), Entry::empty(), Entry::empty(),
                Entry::empty(), Entry::empty(), Entry::empty(), Entry::empty(),
                Entry::empty(), Entry::empty(), Entry::empty(), Entry::empty(),
                Entry::empty(), Entry::empty(), Entry::empty(), Entry::empty(),
                Entry::empty(), Entry::empty(), Entry::empty(), Entry::empty(),
                Entry::empty(), Entry::empty(), Entry::empty(), Entry::empty(),
                Entry::empty(), Entry::empty(), Entry::empty(), Entry::empty(),
                Entry::empty(), Entry::empty(), Entry::empty(), Entry::empty(),
                Entry::empty(), Entry::empty(), Entry::empty(), Entry::empty(),
                Entry::empty(), Entry::empty(), Entry::empty(), Entry::empty(),
                Entry::empty(), Entry::empty(), Entry::empty(), Entry::empty(),
                Entry::empty(), Entry::empty(), Entry::empty(), Entry::empty(),
                Entry::empty(), Entry::empty(), Entry::empty(), Entry::empty(),
                Entry::empty(), Entry::empty(), Entry::empty(), Entry::empty(),
                Entry::empty(), Entry::empty(), Entry::empty(), Entry::empty(),
                Entry::empty(), Entry::empty(), Entry::empty(), Entry::empty(),
                Entry::empty(), Entry::empty(), Entry::empty(), Entry::empty(),
                Entry::empty(), Entry::empty(), Entry::empty(), Entry::empty(),
                Entry::empty(), Entry::empty(), Entry::empty(), Entry::empty(),
                Entry::empty(), Entry::empty(), Entry::empty(), Entry::empty(),
                Entry::empty(), Entry::empty(), Entry::empty(), Entry::empty(),
                Entry::empty(), Entry::empty(), Entry::empty(), Entry::empty(),
                Entry::empty(), Entry::empty(), Entry::empty(), Entry::empty(),
                Entry::empty(), Entry::empty(), Entry::empty(), Entry::empty(),
                Entry::empty(), Entry::empty(), Entry::empty(), Entry::empty(),
                Entry::empty(), Entry::empty(), Entry::empty(), Entry::empty(),
                Entry::empty(), Entry::empty(), Entry::empty(), Entry::empty(),
                Entry::empty(), Entry::empty(), Entry::empty(), Entry::empty(),
                Entry::empty(), Entry::empty(), Entry::empty(), Entry::empty(),
                Entry::empty(), Entry::empty(), Entry::empty(), Entry::empty(),
                Entry::empty(), Entry::empty(), Entry::empty(), Entry::empty(),
                Entry::empty(), Entry::empty(), Entry::empty(), Entry::empty(),
                Entry::empty(), Entry::empty(), Entry::empty(), Entry::empty(),
                Entry::empty(), Entry::empty(), Entry::empty(), Entry::empty(),
                Entry::empty(), Entry::empty(), Entry::empty(), Entry::empty(),
                Entry::empty(), Entry::empty(), Entry::empty(), Entry::empty(),
                Entry::empty(), Entry::empty(), Entry::empty(), Entry::empty(),
                Entry::empty(), Entry::empty(), Entry::empty(), Entry::empty(),
                Entry::empty(), Entry::empty(), Entry::empty(), Entry::empty(),
                Entry::empty(), Entry::empty(), Entry::empty(), Entry::empty(),
                Entry::empty(), Entry::empty(), Entry::empty(), Entry::empty(),
                Entry::empty(), Entry::empty(), Entry::empty(), Entry::empty(),
                Entry::empty(), Entry::empty(), Entry::empty(), Entry::empty(),
                Entry::empty(), Entry::empty(), Entry::empty(), Entry::empty(),
                Entry::empty(), Entry::empty(), Entry::empty(), Entry::empty(),
                Entry::empty(), Entry::empty(), Entry::empty(), Entry::empty(),
                Entry::empty(), Entry::empty(), Entry::empty(), Entry::empty(),
                Entry::empty(), Entry::empty(), Entry::empty(), Entry::empty(),
                Entry::empty(), Entry::empty(), Entry::empty(), Entry::empty(),
                Entry::empty(), Entry::empty(), Entry::empty(), Entry::empty(),
                Entry::empty(), Entry::empty(), Entry::empty(), Entry::empty(),
                Entry::empty(), Entry::empty(), Entry::empty(), Entry::empty(),
            ],
        };
        proof {
            lemma_empty_table::<K, V>();
        }
        r
    }

    /// The index of the bucket that `key` belongs to.
    pub fn get_entry(key: &K) -> (res: usize)
        ensures
            res == bucket_index(*key),
            res < BUCKETS,
    {
        let mut s = Djb2::new();
        key.hash(&mut s);
        (s.finish() % BUCKETS as u64) as usize
    }

    /// The bucket at `index`, or `None` where the table has no such bucket.
    pub fn bucket(&self, index: usize) -> (r: Option<&Entry<K, V>>)
        ensures
            (match r {
                Some(entry) => index < BUCKETS && entry@ == self.chains()[index as int],
                None => index >= BUCKETS,
            }),
    {
        if index < BUCKETS {
            Some(&self.data[index])
        } else {
            None
        }
    }

    /// The value stored under `key`, if the table holds the key.
    pub fn get(&self, key: &K) -> (r: Option<&V>)
        ensures
            (match r {
                Some(v) => table_get(self.chains(), *key) == Some(*v),
                None => table_get(self.chains(), *key) is None,
            }),
            (match r {
                Some(v) => self@.contains_key(*key) && self@[*key] == *v,
                None => !self@.contains_key(*key),
            }),
    {
        let n = Self::get_entry(key);
        proof {
            K::eq_is_identity();
        }
        self.data[n].get(key)
    }

    /// The value stored under `key`, for writing, if the table holds the
    /// key. Writing through the result stores the new value under `key`;
    /// nothing else in the table changes.
    pub fn get_mut(&mut self, key: &K) -> (r: Option<&mut V>)
        ensures
            (match r {
                Some(v) => {
                    &&& table_get(old(self).chains(), *key) == Some(*v)
                    &&& final(self).chains() == table_put(old(self).chains(), *key, *final(v))
                    &&& final(self)@ == old(self)@.insert(*key, *final(v))
                },
                None => {
                    &&& table_get(old(self).chains(), *key) is None
                    &&& final(self).chains() == old(self).chains()
                    &&& final(self)@ == old(self)@
                },
            }),
            old(self).well_formed() ==> final(self).well_formed(),
    {
        let n = Self::get_entry(key);
        proof {
            K::eq_is_identity();
            lemma_chain_find(old(self).chains()[n as int], *key);
        }
        let r = self.data[n].get_mut(key);
        proof {
            if r is Some {
                lemma_put_view(old(self).chains(), *key, *final(r->0));
                if old(self).well_formed() {
                    lemma_put_wf(old(self).chains(), *key, *final(r->0));
                }
            }
        }
        r
    }

    /// Store `val` under `key` and return the value that was stored under
    /// the key before, if there was one.
    ///
    /// If the table holds the key, the value is written over in place. If
    /// not, the pair is put in front of the chain of the key's bucket.
    pub fn insert(&mut self, key: K, val: V) -> (r: Option<V>)
        ensures
            r == table_get(old(self).chains(), key),
            r == (if old(self)@.contains_key(key) {
                Some(old(self)@[key])
            } else {
                None
            }),
            final(self).chains() == table_put(old(self).chains(), key, val),
            final(self)@ == old(self)@.insert(key, val),
            old(self).well_formed() ==> final(self).well_formed(),
    {
        proof {
            lemma_put_view(old(self).chains(), key, val);
            if old(self).well_formed() {
                lemma_put_wf(old(self).chains(), key, val);
            }
        }
        match self.get_mut(&key) {
            Some(r) => {
                let mut val = val;
                core::mem::swap(r, &mut val);
                return Some(val);
            },
            None => {},
        }
        let n = Self::get_entry(&key);
        let mut entry = Entry::empty();
        core::mem::swap(&mut entry, &mut self.data[n]);
        self.data[n] = entry.push(key, val);
        None
    }
}

} // verus!
