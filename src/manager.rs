//! The stack manager: a process-wide stack, the per-context stacks, one
//! sequence counter for both, and a bounded cache of merges keyed by context
//! snapshots.
use crate::contextvar::ContextVar;
use crate::frozen::FrozenSequence;
use crate::item::{seq_hash, Entry};
use crate::merge::{increasing_below, merge_objects, merged_objects};
use vstd::prelude::*;

verus! {

/// How many merges the cache holds at most. A miss on a full cache clears it
/// before the new merge goes in.
pub const MAX_CONTEXT_OBJECT_CACHE: usize = 256;

/// Why a pop failed.
#[derive(Clone, Copy, Debug, PartialEq, Eq, Structural)]
pub enum StackError {
    /// The context stack was empty.
    NoContextObjects,
    /// The process-wide stack was empty.
    NoApplicationObjects,
}

/// One cached merge: a context snapshot and the objects of its merge with
/// the process-wide stack, most recently pushed first.
struct CacheEntry {
    key: FrozenSequence<Entry>,
    objects: FrozenSequence<u64>,
}

/// The context stack as one execution context sees it.
pub type ContextStack = ContextVar<FrozenSequence<Entry>>;

/// The snapshot that `ctx` currently holds; empty if it holds none.
pub open spec fn snapshot(ctx: ContextStack) -> Seq<Entry> {
    match ctx.current() {
        Some(s) => s@,
        None => Seq::empty(),
    }
}

/// Whether `key` is the key of one of the cache's merges.
pub open spec fn cache_has(cache: Seq<(Seq<Entry>, Seq<u64>)>, key: Seq<Entry>) -> bool {
    exists|i: int| 0 <= i < cache.len() && (#[trigger] cache[i]).0 == key
}

/// The process-wide stack, the sequence counter and the merge cache.
pub struct ContextStackManager {
    global: Vec<Entry>,
    cache: Vec<CacheEntry>,
    stack_count: u64,
}

impl ContextStackManager {
    /// The process-wide stack, bottom first.
    pub closed spec fn global_stack(&self) -> Seq<Entry> {
        self.global@
    }

    /// The sequence number that the next push draws.
    pub closed spec fn stack_count(&self) -> u64 {
        self.stack_count
    }

    /// The cached merges, as pairs of snapshot and objects, oldest first.
    pub closed spec fn cache(&self) -> Seq<(Seq<Entry>, Seq<u64>)> {
        self.cache@.map_values(|e: CacheEntry| (e.key@, e.objects@))
    }

    /// The manager's invariant: the process-wide stack is ordered by push
    /// and drew its numbers from the counter, the cache is within its bound,
    /// and each cached merge is the merge of its key with the current
    /// process-wide stack.
    pub open spec fn wf(&self) -> bool {
        &&& increasing_below(self.global_stack(), self.stack_count())
        &&& self.cache().len() <= MAX_CONTEXT_OBJECT_CACHE
        &&& forall|i: int|
            0 <= i < self.cache().len() ==> (#[trigger] self.cache()[i]).1 == merged_objects(
                self.global_stack(),
                self.cache()[i].0,
            )
    }

    /// Whether `ctx` is a context stack of this manager: it holds a
    /// snapshot, ordered by push, whose numbers the counter drew.
    pub open spec fn valid_context(&self, ctx: ContextStack) -> bool {
        &&& ctx.current() is Some
        &&& increasing_below(snapshot(ctx), self.stack_count())
    }

    /// A manager with both stacks empty, the counter at zero and no cached
    /// merge.
    pub fn new() -> (r: Self)
        ensures
            r.wf(),
            r.global_stack() == Seq::<Entry>::empty(),
            r.stack_count() == 0,
            r.cache() == Seq::<(Seq<Entry>, Seq<u64>)>::empty(),
    {
        let r = ContextStackManager { global: Vec::new(), cache: Vec::new(), stack_count: 0 };
        proof {
            assert(r.cache() =~= Seq::<(Seq<Entry>, Seq<u64>)>::empty());
        }
        r
    }

    /// The context stack of a new execution context: unset, with the empty
    /// snapshot as its default.
    pub fn new_context(&self) -> (r: ContextStack)
        ensures
            r.value() is None,
            r.current() matches Some(s) && s@ == Seq::<Entry>::empty(),
            self.valid_context(r),
    {
        ContextVar::new_with_default(FrozenSequence::empty())
    }

    /// Draws the next sequence number.
    fn stackop(&mut self) -> (r: u64)
        requires
            old(self).stack_count < u64::MAX,
        ensures
            r == old(self).stack_count,
            final(self).stack_count == old(self).stack_count + 1,
            final(self).global == old(self).global,
            final(self).cache == old(self).cache,
    {
        let r = self.stack_count;
        self.stack_count = self.stack_count + 1;
        r
    }

    /// The position of the cached merge whose key is `key`, if any.
    fn find_cached(&self, key: &FrozenSequence<Entry>) -> (r: Option<usize>)
        ensures
            r matches Some(k) ==> k < self.cache().len() && self.cache()[k as int].0 == key@,
            r is None ==> !cache_has(self.cache(), key@),
    {
        let h = key.hash();
        let mut k: usize = 0;
        while k < self.cache.len()
            invariant
                k <= self.cache@.len(),
                h == seq_hash(key@),
                forall|i: int| 0 <= i < k ==> self.cache()[i].0 != key@,
            decreases self.cache@.len() - k,
        {
            let entry = &self.cache[k];
            let ghost entry_key = entry.key@;
            proof {
                assert(self.cache()[k as int].0 == entry_key);
            }
            // Equal keys have equal hashes, so a differing hash rules the
            // entry out without comparing items.
            if entry.key.hash() == h && entry.key.equals(key) {
                return Some(k);
            }
            assert(entry_key != key@);
            k = k + 1;
        }
        None
    }

    /// The objects of both stacks as `ctx` sees them, most recently pushed
    /// first. A merge already in the cache for this snapshot is handed out;
    /// else the merge is computed and cached, and a full cache is cleared
    /// first.
    pub fn iter_context_objects(&mut self, ctx: &ContextStack) -> (r: Vec<u64>)
        requires
            old(self).wf(),
            ctx.current() is Some,
        ensures
            final(self).wf(),
            r@ == merged_objects(old(self).global_stack(), snapshot(*ctx)),
            final(self).global_stack() == old(self).global_stack(),
            final(self).stack_count() == old(self).stack_count(),
            cache_has(old(self).cache(), snapshot(*ctx)) ==> final(self).cache()
                == old(self).cache(),
            !cache_has(old(self).cache(), snapshot(*ctx)) && old(self).cache().len()
                >= MAX_CONTEXT_OBJECT_CACHE ==> final(self).cache() == seq![(snapshot(*ctx), r@)],
            !cache_has(old(self).cache(), snapshot(*ctx)) && old(self).cache().len()
                < MAX_CONTEXT_OBJECT_CACHE ==> final(self).cache() == old(self).cache().push(
                (snapshot(*ctx), r@),
            ),
    {
        let key = match ctx.get(None) {
            Some(s) => s,
            None => {
                proof {
                    assert(false);
                }
                return Vec::new();
            },
        };
        match self.find_cached(key) {
            Some(k) => {
                let r = self.cache[k].objects.to_vec();
                proof {
                    assert(self.cache()[k as int].1 == self.cache@[k as int].objects@);
                }
                r
            },
            None => {
                if self.cache.len() >= MAX_CONTEXT_OBJECT_CACHE {
                    self.cache.clear();
                }
                let key_items = key.to_vec();
                let objects = merge_objects(&self.global, &key_items);
                let entry = CacheEntry {
                    key: key.clone(),
                    objects: FrozenSequence::new(objects.clone()),
                };
                let ghost before = self.cache();
                self.cache.push(entry);
                proof {
                    assert(self.cache() =~= before.push((key@, objects@)));
                    if old(self).cache().len() >= MAX_CONTEXT_OBJECT_CACHE {
                        assert(before =~= Seq::<(Seq<Entry>, Seq<u64>)>::empty());
                        assert(self.cache() =~= seq![(key@, objects@)]);
                    }
                }
                objects
            },
        }
    }

    /// Pushes `obj` on the context stack of `ctx`, with the next sequence
    /// number. The old snapshot is left as it was; `ctx` gets a new one.
    pub fn push_context(&mut self, ctx: &mut ContextStack, obj: u64)
        requires
            old(self).wf(),
            old(self).stack_count() < u64::MAX,
            old(ctx).current() is Some,
        ensures
            final(self).wf(),
            final(self).global_stack() == old(self).global_stack(),
            final(self).stack_count() == old(self).stack_count() + 1,
            final(self).cache() == old(self).cache(),
            final(ctx).value() is Some,
            final(ctx).default_value() == old(ctx).default_value(),
            snapshot(*final(ctx)) == snapshot(*old(ctx)).push(
                Entry { seq: old(self).stack_count(), obj },
            ),
            old(self).valid_context(*old(ctx)) ==> final(self).valid_context(*final(ctx)),
            forall|c: ContextStack| #[trigger]
                old(self).valid_context(c) ==> final(self).valid_context(c),
    {
        let seq = self.stackop();
        let stack = match ctx.get(None) {
            Some(s) => s.pushed(Entry { seq, obj }),
            None => {
                proof {
                    assert(false);
                }
                FrozenSequence::empty()
            },
        };
        let _token = ctx.set(stack);
    }

    /// Pops the most recent object off the context stack of `ctx`. On an
    /// empty context stack it fails and changes nothing.
    pub fn pop_context(&self, ctx: &mut ContextStack) -> (r: Result<u64, StackError>)
        requires
            old(ctx).current() is Some,
        ensures
            snapshot(*old(ctx)).len() == 0 ==> r == Err::<u64, StackError>(
                StackError::NoContextObjects,
            ) && *final(ctx) == *old(ctx),
            snapshot(*old(ctx)).len() > 0 ==> r == Ok::<u64, StackError>(
                snapshot(*old(ctx)).last().obj,
            ) && final(ctx).value() is Some
                && final(ctx).default_value() == old(ctx).default_value()
                && snapshot(*final(ctx)) == snapshot(*old(ctx)).drop_last(),
            self.valid_context(*old(ctx)) ==> self.valid_context(*final(ctx)),
    {
        let split = match ctx.get(None) {
            Some(s) => s.split_last(),
            None => None,
        };
        match split {
            None => Err(StackError::NoContextObjects),
            Some((popped, remaining)) => {
                let _token = ctx.set(remaining);
                Ok(popped.obj)
            },
        }
    }

    /// Pushes `obj` on the process-wide stack, with the next sequence
    /// number, and clears the cache.
    pub fn push_application(&mut self, obj: u64)
        requires
            old(self).wf(),
            old(self).stack_count() < u64::MAX,
        ensures
            final(self).wf(),
            final(self).global_stack() == old(self).global_stack().push(
                Entry { seq: old(self).stack_count(), obj },
            ),
            final(self).stack_count() == old(self).stack_count() + 1,
            final(self).cache().len() == 0,
            forall|c: ContextStack| #[trigger]
                old(self).valid_context(c) ==> final(self).valid_context(c),
    {
        let seq = self.stackop();
        self.global.push(Entry { seq, obj });
        self.cache.clear();
        proof {
            assert(self.cache() =~= Seq::<(Seq<Entry>, Seq<u64>)>::empty());
        }
    }

    /// Pops the most recent object off the process-wide stack and clears the
    /// cache. On an empty process-wide stack it fails and changes nothing.
    pub fn pop_application(&mut self) -> (r: Result<u64, StackError>)
        requires
            old(self).wf(),
        ensures
            final(self).wf(),
            old(self).global_stack().len() == 0 ==> r == Err::<u64, StackError>(
                StackError::NoApplicationObjects,
            ) && *final(self) == *old(self),
            old(self).global_stack().len() > 0 ==> r == Ok::<u64, StackError>(
                old(self).global_stack().last().obj,
            ) && final(self).global_stack() == old(self).global_stack().drop_last()
                && final(self).stack_count() == old(self).stack_count()
                && final(self).cache().len() == 0,
            forall|c: ContextStack| #[trigger]
                old(self).valid_context(c) ==> final(self).valid_context(c),
    {
        if self.global.len() == 0 {
            return Err(StackError::NoApplicationObjects);
        }
        match self.global.pop() {
            None => Err(StackError::NoApplicationObjects),
            Some(e) => {
                self.cache.clear();
                proof {
                    assert(self.cache() =~= Seq::<(Seq<Entry>, Seq<u64>)>::empty());
                }
                Ok(e.obj)
            },
        }
    }

    /// The context stack of a new execution context created from the one
    /// that `ctx` belongs to: a copy of its snapshot, and from then on
    /// independent of it.
    pub fn fork_context(ctx: &ContextStack) -> (r: ContextStack)
        ensures
            r.current() is Some == ctx.current() is Some,
            snapshot(r) == snapshot(*ctx),
    {
        ctx.fork()
    }

    /// The process-wide stack, bottom first.
    pub fn get_global(&self) -> (r: Vec<Entry>)
        ensures
            r@ == self.global_stack(),
    {
        self.global.clone()
    }

    /// The sequence number that the next push draws.
    pub fn get_stack_count(&self) -> (r: u64)
        ensures
            r == self.stack_count(),
    {
        self.stack_count
    }

    /// How many merges the cache holds.
    pub fn get_cache_len(&self) -> (r: usize)
        ensures
            r == self.cache().len(),
    {
        self.cache.len()
    }
}

} // verus!
