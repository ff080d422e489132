//! An immutable ordered sequence with structural equality and a hash that is
//! computed once, when the sequence is built.
use crate::item::{seq_hash, SeqItem, HASH_SEED};
use vstd::prelude::*;

verus! {

/// An immutable ordered sequence. No operation changes an existing value;
/// those that derive a sequence from another build a new one.
pub struct FrozenSequence<T: SeqItem> {
    items: Vec<T>,
    hash_cache: u64,
}

impl<T: SeqItem> View for FrozenSequence<T> {
    type V = Seq<T>;

    closed spec fn view(&self) -> Seq<T> {
        self.items@
    }
}

/// Computes the hash of `items` from first to last.
fn compute_hash<T: SeqItem>(items: &Vec<T>) -> (r: u64)
    ensures
        r == seq_hash(items@),
{
    let mut h: u64 = HASH_SEED;
    let mut i: usize = 0;
    proof {
        reveal(seq_hash);
    }
    while i < items.len()
        invariant
            i <= items@.len(),
            h == seq_hash(items@.take(i as int)),
        decreases items@.len() - i,
    {
        proof {
            assert(items@.take(i as int + 1).drop_last() =~= items@.take(i as int));
            reveal(seq_hash);
        }
        h = h.wrapping_mul(crate::item::HASH_FACTOR).wrapping_add(items[i].hash_word());
        i = i + 1;
    }
    proof {
        assert(items@.take(i as int) =~= items@);
    }
    h
}

impl<T: SeqItem> FrozenSequence<T> {
    #[verifier::type_invariant]
    spec fn hash_is_cached(self) -> bool {
        self.hash_cache == seq_hash(self.items@)
    }

    /// Builds a sequence that holds `items`, in their order.
    pub fn new(items: Vec<T>) -> (r: Self)
        ensures
            r@ == items@,
    {
        let h = compute_hash(&items);
        FrozenSequence { items, hash_cache: h }
    }

    /// The empty sequence.
    pub fn empty() -> (r: Self)
        ensures
            r@ == Seq::<T>::empty(),
    {
        Self::new(Vec::new())
    }

    pub fn len(&self) -> (r: usize)
        ensures
            r == self@.len(),
    {
        self.items.len()
    }

    pub fn is_empty(&self) -> (r: bool)
        ensures
            r == (self@.len() == 0),
    {
        self.items.len() == 0
    }

    /// The item at `index`, or `None` past the end.
    pub fn get(&self, index: usize) -> (r: Option<T>)
        ensures
            index < self@.len() ==> r == Some(self@[index as int]),
            index >= self@.len() ==> r is None,
    {
        if index < self.items.len() {
            Some(self.items[index])
        } else {
            None
        }
    }

    /// The items from `start` up to `end` (not included) as a new sequence.
    /// Bounds past the end are taken as the end, and a start past the stop
    /// gives the empty sequence.
    pub fn slice(&self, start: usize, end: usize) -> (r: Self)
        ensures
            ({
                let n = self@.len() as int;
                let hi = if end as int > n { n } else { end as int };
                let lo = if start as int > hi { hi } else { start as int };
                r@ == self@.subrange(lo, hi)
            }),
    {
        let n = self.items.len();
        let hi = if end > n { n } else { end };
        let lo = if start > hi { hi } else { start };
        let mut out: Vec<T> = Vec::new();
        let mut i: usize = lo;
        while i < hi
            invariant
                lo <= i <= hi,
                hi <= self.items@.len(),
                out@ == self.items@.subrange(lo as int, i as int),
            decreases hi - i,
        {
            out.push(self.items[i]);
            i = i + 1;
            proof {
                assert(out@ =~= self.items@.subrange(lo as int, i as int));
            }
        }
        Self::new(out)
    }

    /// Whether `item` is one of the items.
    pub fn contains(&self, item: &T) -> (r: bool)
        ensures
            r == self@.contains(*item),
    {
        let mut i: usize = 0;
        while i < self.items.len()
            invariant
                i <= self.items@.len(),
                forall|j: int| 0 <= j < i ==> self.items@[j] != *item,
            decreases self.items@.len() - i,
        {
            if self.items[i].same(item) {
                return true;
            }
            i = i + 1;
        }
        false
    }

    /// The items, first to last. Each call gives a fresh vector.
    pub fn to_vec(&self) -> (r: Vec<T>)
        ensures
            r@ == self@,
    {
        let mut out: Vec<T> = Vec::new();
        let mut i: usize = 0;
        while i < self.items.len()
            invariant
                i <= self.items@.len(),
                out@ == self.items@.take(i as int),
            decreases self.items@.len() - i,
        {
            out.push(self.items[i]);
            i = i + 1;
            proof {
                assert(out@ =~= self.items@.take(i as int));
            }
        }
        proof {
            assert(self.items@.take(i as int) =~= self.items@);
        }
        out
    }

    /// The items, last to first. Each call gives a fresh vector.
    pub fn reversed(&self) -> (r: Vec<T>)
        ensures
            r@ == self@.reverse(),
    {
        let mut out: Vec<T> = Vec::new();
        let mut i: usize = self.items.len();
        while i > 0
            invariant
                i <= self.items@.len(),
                out@.len() == self.items@.len() - i,
                forall|j: int|
                    0 <= j < out@.len() ==> out@[j] == self.items@[self.items@.len() - 1 - j],
            decreases i,
        {
            i = i - 1;
            out.push(self.items[i]);
        }
        proof {
            assert(out@ =~= self.items@.reverse());
        }
        out
    }

    /// Structural equality: the same items in the same order.
    pub fn equals(&self, other: &Self) -> (r: bool)
        ensures
            r == (self@ == other@),
    {
        if self.items.len() != other.items.len() {
            return false;
        }
        let mut i: usize = 0;
        while i < self.items.len()
            invariant
                i <= self.items@.len(),
                self.items@.len() == other.items@.len(),
                forall|j: int| 0 <= j < i ==> self.items@[j] == other.items@[j],
            decreases self.items@.len() - i,
        {
            if !self.items[i].same(&other.items[i]) {
                return false;
            }
            i = i + 1;
        }
        proof {
            assert(self.items@ =~= other.items@);
        }
        true
    }

    /// The hash, computed when the sequence was built. Equal sequences have
    /// equal hashes.
    pub fn hash(&self) -> (r: u64)
        ensures
            r == seq_hash(self@),
    {
        proof {
            use_type_invariant(self);
        }
        self.hash_cache
    }

    /// A new sequence that holds these items followed by `item`.
    pub fn pushed(&self, item: T) -> (r: Self)
        ensures
            r@ == self@.push(item),
    {
        let mut items = self.to_vec();
        items.push(item);
        Self::new(items)
    }

    /// The last item and a new sequence of the items before it, or `None` if
    /// the sequence is empty.
    pub fn split_last(&self) -> (r: Option<(T, Self)>)
        ensures
            self@.len() == 0 ==> r is None,
            self@.len() > 0 ==> (r matches Some((last, rest)) && last == self@.last() && rest@
                == self@.drop_last()),
    {
        let n = self.items.len();
        if n == 0 {
            None
        } else {
            let rest = self.slice(0, n - 1);
            proof {
                assert(self@.subrange(0, n - 1) =~= self@.drop_last());
            }
            Some((self.items[n - 1], rest))
        }
    }
}

impl<T: SeqItem> Clone for FrozenSequence<T> {
    fn clone(&self) -> (r: Self)
        ensures
            r@ == self@,
    {
        proof {
            use_type_invariant(self);
        }
        let items = self.to_vec();
        FrozenSequence { items, hash_cache: self.hash_cache }
    }
}

} // verus!
