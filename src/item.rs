//! Items that an immutable sequence can hold, and the hash of a sequence.
use vstd::prelude::*;
use vstd::wrapping::u64_specs::{wrapping_add, wrapping_mul};

verus! {

/// Starting value of a sequence hash.
pub const HASH_SEED: u64 = 0xcbf2_9ce4_8422_2325;

/// Multiplier that folds one word into a running hash.
pub const HASH_FACTOR: u64 = 0x0000_0100_0000_01b3;

/// One step of the hash: folds the word `w` into the running hash `h`.
pub open spec fn mix(h: u64, w: u64) -> u64 {
    wrapping_add(wrapping_mul(h, HASH_FACTOR), w)
}

/// An item of an immutable sequence: it can be copied, compared and folded
/// into a hash.
pub trait SeqItem: Copy + Sized {
    /// The word that this item contributes to a sequence hash.
    spec fn word(self) -> u64;

    fn hash_word(&self) -> (r: u64)
        ensures
            r == self.word(),
    ;

    fn same(&self, other: &Self) -> (r: bool)
        ensures
            r == (*self == *other),
    ;
}

/// The hash of a whole sequence: the seed, with each item's word folded in
/// from first to last.
#[verifier::opaque]
pub open spec fn seq_hash<T: SeqItem>(s: Seq<T>) -> u64
    decreases s.len(),
{
    if s.len() == 0 {
        HASH_SEED
    } else {
        mix(seq_hash(s.drop_last()), s.last().word())
    }
}

/// An object is referred to by an opaque handle.
impl SeqItem for u64 {
    open spec fn word(self) -> u64 {
        self
    }

    fn hash_word(&self) -> (r: u64) {
        *self
    }

    fn same(&self, other: &Self) -> (r: bool) {
        *self == *other
    }
}

/// One pushed object, with the sequence number that its push drew.
#[derive(Clone, Copy, Debug, PartialEq, Eq, Structural)]
pub struct Entry {
    pub seq: u64,
    pub obj: u64,
}

impl SeqItem for Entry {
    open spec fn word(self) -> u64 {
        mix(mix(HASH_SEED, self.seq), self.obj)
    }

    fn hash_word(&self) -> (r: u64) {
        HASH_SEED.wrapping_mul(HASH_FACTOR).wrapping_add(self.seq).wrapping_mul(
            HASH_FACTOR,
        ).wrapping_add(self.obj)
    }

    fn same(&self, other: &Self) -> (r: bool) {
        self.seq == other.seq && self.obj == other.obj
    }
}

} // verus!
