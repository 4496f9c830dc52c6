//! A fixed-capacity hash table with chained buckets.
//!
//! A [`HashMap`] owns [`BUCKETS`] buckets. A key is reduced to a bucket index
//! by feeding its bytes to the [`Djb2`] hasher and taking the hash modulo the
//! number of buckets; the bucket ([`Entry`]) keeps the pairs that fell into
//! it in a singly linked chain ([`LinkedList`]), the pair stored last in
//! front. The table never grows, shrinks or removes a key.
//!
//! The modules, from the leaves up:
//!
//! - [`linked_list`]: the chain and the two walks over it;
//! - [`hash`]: the byte hash;
//! - [`key`]: what a key type has to offer, and the integer types as keys;
//! - [`chain`]: lookup and storing in a chain, as functions on sequences;
//! - [`entry`]: the bucket;
//! - [`model`]: the table as a sequence of chains, and as a map;
//! - [`table`]: the table itself;
//! - [`laws`]: what holds of the table whatever is stored in it.
//!
//! Every function states what it returns and changes over these models. A
//! key type has to tell keys apart exactly with `==`; see [`Key`].

use vstd::prelude::*;

pub mod chain;
pub mod entry;
pub mod hash;
pub mod key;
pub mod laws;
pub mod linked_list;
pub mod model;
pub mod table;

pub use entry::Entry;
pub use hash::{Djb2, DJB2_SEED};
pub use key::Key;
pub use linked_list::{LinkedList, LinkedListIter, LinkedListIterMut};
pub use model::BUCKETS;
pub use table::HashMap;

verus! {

/// Run a table through a short script: store under two keys, look both up,
/// store again under the first, and look up a key that was never stored.
/// Every outcome stated here is proved, so the script holds of every run.
pub fn test() {
    let mut ht: HashMap<i32, i32> = HashMap::new();

    let none = ht.insert(1, 42);
    assert(none is None);
    let first = ht.get(&1);
    assert(first == Some(&42i32));

    let none = ht.insert(288, 666);
    assert(none is None);
    let second = ht.get(&288);
    assert(second == Some(&666i32));
    let first = ht.get(&1);
    assert(first == Some(&42i32));

    let old = ht.insert(1, 99);
    assert(old == Some(42i32));
    let first = ht.get(&1);
    assert(first == Some(&99i32));

    let absent = ht.get(&7);
    assert(absent is None);
}

} // verus!
