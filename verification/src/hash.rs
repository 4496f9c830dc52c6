//! The byte hash that picks a key's bucket.

use core::hash::Hasher;
use vstd::prelude::*;

verus! {

/// The state of a hasher that has seen no byte yet.
pub const DJB2_SEED: u64 = 5381;

/// The state after one more byte: 33 times the state plus the byte, cut to 64 bits.
pub open spec fn djb2_step(state: u64, byte: u8) -> u64 {
    ((state * 33 + byte) % 0x1_0000_0000_0000_0000) as u64
}

/// The state after `bytes` were fed, first to last, to a hasher in `state`.
pub open spec fn djb2_fold(state: u64, bytes: Seq<u8>) -> u64 {
    bytes.fold_left(state, |s: u64, b: u8| djb2_step(s, b))
}

/// Feeding two runs of bytes one after the other is feeding their concatenation.
pub proof fn lemma_djb2_fold_concat(state: u64, first: Seq<u8>, second: Seq<u8>)
    ensures
        djb2_fold(state, first + second) == djb2_fold(djb2_fold(state, first), second),
    decreases second.len(),
{
    if second.len() > 0 {
        lemma_djb2_fold_concat(state, first, second.drop_last());
        assert((first + second).drop_last() =~= first + second.drop_last());
    }
}

/// The DJB2 byte hash with a 64-bit state.
pub struct Djb2 {
    state: u64,
}

impl View for Djb2 {
    type V = u64;

    /// The state reached so far.
    closed spec fn view(&self) -> u64 {
        self.state
    }
}

impl Djb2 {
    /// A hasher that has seen no byte.
    pub fn new() -> (r: Self)
        ensures
            r@ == DJB2_SEED,
    {
        Djb2 { state: DJB2_SEED }
    }
}

impl Hasher for Djb2 {
    /// The hash of the bytes written so far.
    fn finish(&self) -> (r: u64)
        ensures
            r == self@,
    {
        self.state
    }

    /// Feed `bytes` to the hasher, first to last.
    fn write(&mut self, bytes: &[u8])
        ensures
            final(self)@ == djb2_fold(old(self)@, bytes@),
    {
        let mut i: usize = 0;
        while i < bytes.len()
            invariant
                i <= bytes.len(),
                self@ == djb2_fold(old(self)@, bytes@.take(i as int)),
            decreases bytes.len() - i,
        {
            let b: u8 = bytes[i];
            proof {
                assert(bytes@.take(i + 1).drop_last() =~= bytes@.take(i as int));
            }
            self.state = self.state.wrapping_mul(33).wrapping_add(b as u64);
            i += 1;
        }
    }
}

} // verus!
