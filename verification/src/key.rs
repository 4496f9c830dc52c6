//! What a type has to offer to serve as a key of the table, and the integer
//! types as keys. A number is hashed by its bytes in little-endian order, a
//! signed number by the bytes of its two's complement.

use crate::hash::{djb2_fold, Djb2};
use core::hash::Hasher;
use vstd::laws_eq::obeys_concrete_eq;
use vstd::prelude::*;

verus! {

/// A key of the table: it has a canonical byte representation, which `hash`
/// feeds to the hasher, and `==` that tells keys apart exactly.
///
/// Equal keys are one key, so they have the same bytes and the same hash.
/// An implementation states the bytes and proves both claims, so a type is
/// made a key in code that is verified together with the table.
pub trait Key: PartialEq + Sized {
    /// The canonical byte representation of the key.
    spec fn bytes(&self) -> Seq<u8>;

    /// `==` is specified for the type and holds of two keys exactly when
    /// they are the same key.
    proof fn eq_is_identity()
        ensures
            obeys_concrete_eq::<Self>(),
    ;

    /// Feed the canonical bytes of the key to `state`.
    fn hash(&self, state: &mut Djb2)
        ensures
            final(state)@ == djb2_fold(old(state)@, self.bytes()),
    ;
}

impl Key for u8 {
    /// The byte itself.
    open spec fn bytes(&self) -> Seq<u8> {
        seq![*self]
    }

    proof fn eq_is_identity() {
    }

    fn hash(&self, state: &mut Djb2) {
        let bytes: [u8; 1] = [*self];
        state.write(bytes.as_slice());
        proof {
            assert(bytes@ =~= self.bytes());
        }
    }
}

impl Key for u16 {
    /// The two bytes of the number, least significant first.
    open spec fn bytes(&self) -> Seq<u8> {
        seq![
            (*self % 0x100) as u8,
            (*self / 0x100) as u8,
        ]
    }

    proof fn eq_is_identity() {
    }

    fn hash(&self, state: &mut Djb2) {
        let x: u16 = *self;
        let bytes: [u8; 2] = [
            (x % 0x100) as u8,
            (x / 0x100) as u8,
        ];
        state.write(bytes.as_slice());
        proof {
            assert(bytes@ =~= self.bytes());
        }
    }
}

impl Key for u32 {
    /// The four bytes of the number, least significant first.
    open spec fn bytes(&self) -> Seq<u8> {
        seq![
            (*self % 0x100) as u8,
            (*self / 0x100 % 0x100) as u8,
            (*self / 0x1_0000 % 0x100) as u8,
            (*self / 0x100_0000) as u8,
        ]
    }

    proof fn eq_is_identity() {
    }

    fn hash(&self, state: &mut Djb2) {
        let x: u32 = *self;
        let bytes: [u8; 4] = [
            (x % 0x100) as u8,
            (x / 0x100 % 0x100) as u8,
            (x / 0x1_0000 % 0x100) as u8,
            (x / 0x100_0000) as u8,
        ];
        state.write(bytes.as_slice());
        proof {
            assert(bytes@ =~= self.bytes());
        }
    }
}

impl Key for u64 {
    /// The eight bytes of the number, least significant first.
    open spec fn bytes(&self) -> Seq<u8> {
        seq![
            (*self % 0x100) as u8,
            (*self / 0x100 % 0x100) as u8,
            (*self / 0x1_0000 % 0x100) as u8,
            (*self / 0x100_0000 % 0x100) as u8,
            (*self / 0x1_0000_0000 % 0x100) as u8,
            (*self / 0x100_0000_0000 % 0x100) as u8,
            (*self / 0x1_0000_0000_0000 % 0x100) as u8,
            (*self / 0x100_0000_0000_0000) as u8,
        ]
    }

    proof fn eq_is_identity() {
    }

    fn hash(&self, state: &mut Djb2) {
        let x: u64 = *self;
        let bytes: [u8; 8] = [
            (x % 0x100) as u8,
            (x / 0x100 % 0x100) as u8,
            (x / 0x1_0000 % 0x100) as u8,
            (x / 0x100_0000 % 0x100) as u8,
            (x / 0x1_0000_0000 % 0x100) as u8,
            (x / 0x100_0000_0000 % 0x100) as u8,
            (x / 0x1_0000_0000_0000 % 0x100) as u8,
            (x / 0x100_0000_0000_0000) as u8,
        ];
        state.write(bytes.as_slice());
        proof {
            assert(bytes@ =~= self.bytes());
        }
    }
}

impl Key for u128 {
    /// The sixteen bytes of the number, least significant first.
    open spec fn bytes(&self) -> Seq<u8> {
        seq![
            (*self % 0x100) as u8,
            (*self / 0x100 % 0x100) as u8,
            (*self / 0x1_0000 % 0x100) as u8,
            (*self / 0x100_0000 % 0x100) as u8,
            (*self / 0x1_0000_0000 % 0x100) as u8,
            (*self / 0x100_0000_0000 % 0x100) as u8,
            (*self / 0x1_0000_0000_0000 % 0x100) as u8,
            (*self / 0x100_0000_0000_0000 % 0x100) as u8,
            (*self / 0x1_0000_0000_0000_0000 % 0x100) as u8,
            (*self / 0x100_0000_0000_0000_0000 % 0x100) as u8,
            (*self / 0x1_0000_0000_0000_0000_0000 % 0x100) as u8,
            (*self / 0x100_0000_0000_0000_0000_0000 % 0x100) as u8,
            (*self / 0x1_0000_0000_0000_0000_0000_0000 % 0x100) as u8,
            (*self / 0x100_0000_0000_0000_0000_0000_0000 % 0x100) as u8,
            (*self / 0x1_0000_0000_0000_0000_0000_0000_0000 % 0x100) as u8,
            (*self / 0x100_0000_0000_0000_0000_0000_0000_0000) as u8,
        ]
    }

    proof fn eq_is_identity() {
    }

    fn hash(&self, state: &mut Djb2) {
        let x: u128 = *self;
        let bytes: [u8; 16] = [
            (x % 0x100) as u8,
            (x / 0x100 % 0x100) as u8,
            (x / 0x1_0000 % 0x100) as u8,
            (x / 0x100_0000 % 0x100) as u8,
            (x / 0x1_0000_0000 % 0x100) as u8,
            (x / 0x100_0000_0000 % 0x100) as u8,
            (x / 0x1_0000_0000_0000 % 0x100) as u8,
            (x / 0x100_0000_0000_0000 % 0x100) as u8,
            (x / 0x1_0000_0000_0000_0000 % 0x100) as u8,
            (x / 0x100_0000_0000_0000_0000 % 0x100) as u8,
            (x / 0x1_0000_0000_0000_0000_0000 % 0x100) as u8,
            (x / 0x100_0000_0000_0000_0000_0000 % 0x100) as u8,
            (x / 0x1_0000_0000_0000_0000_0000_0000 % 0x100) as u8,
            (x / 0x100_0000_0000_0000_0000_0000_0000 % 0x100) as u8,
            (x / 0x1_0000_0000_0000_0000_0000_0000_0000 % 0x100) as u8,
            (x / 0x100_0000_0000_0000_0000_0000_0000_0000) as u8,
        ];
        state.write(bytes.as_slice());
        proof {
            assert(bytes@ =~= self.bytes());
        }
    }
}

impl Key for usize {
    /// The eight bytes of the number as a 64-bit number, least significant first.
    open spec fn bytes(&self) -> Seq<u8> {
        (*self as u64).bytes()
    }

    proof fn eq_is_identity() {
    }

    fn hash(&self, state: &mut Djb2) {
        (*self as u64).hash(state)
    }
}

impl Key for i8 {
    /// The byte of the number in two's complement.
    open spec fn bytes(&self) -> Seq<u8> {
        (*self as u8).bytes()
    }

    proof fn eq_is_identity() {
    }

    fn hash(&self, state: &mut Djb2) {
        (*self as u8).hash(state)
    }
}

impl Key for i16 {
    /// The two bytes of the number in two's complement, least significant first.
    open spec fn bytes(&self) -> Seq<u8> {
        (*self as u16).bytes()
    }

    proof fn eq_is_identity() {
    }

    fn hash(&self, state: &mut Djb2) {
        (*self as u16).hash(state)
    }
}

impl Key for i32 {
    /// The four bytes of the number in two's complement, least significant first.
    open spec fn bytes(&self) -> Seq<u8> {
        (*self as u32).bytes()
    }

    proof fn eq_is_identity() {
    }

    fn hash(&self, state: &mut Djb2) {
        (*self as u32).hash(state)
    }
}

impl Key for i64 {
    /// The eight bytes of the number in two's complement, least significant first.
    open spec fn bytes(&self) -> Seq<u8> {
        (*self as u64).bytes()
    }

    proof fn eq_is_identity() {
    }

    fn hash(&self, state: &mut Djb2) {
        (*self as u64).hash(state)
    }
}

impl Key for i128 {
    /// The sixteen bytes of the number in two's complement, least significant first.
    open spec fn bytes(&self) -> Seq<u8> {
        (*self as u128).bytes()
    }

    proof fn eq_is_identity() {
    }

    fn hash(&self, state: &mut Djb2) {
        (*self as u128).hash(state)
    }
}

impl Key for isize {
    /// The eight bytes of the number as a 64-bit number in two's complement, least
    /// significant first.
    open spec fn bytes(&self) -> Seq<u8> {
        (*self as i64).bytes()
    }

    proof fn eq_is_identity() {
    }

    fn hash(&self, state: &mut Djb2) {
        (*self as i64).hash(state)
    }
}

} // verus!
