//! Laws that relate several operations of the library.
use crate::frozen::FrozenSequence;
use crate::item::{seq_hash, Entry, SeqItem};
use crate::merge::{
    decreasing, disjoint_seqs, increasing, lemma_merge_ordered, merge_entries, merged_objects,
};
use vstd::prelude::*;

verus! {

/// Pushing an entry on a context snapshot and popping it again gives back
/// the pushed object and a snapshot equal to the one before the push.
pub proof fn lemma_push_pop_round_trip(s: Seq<Entry>, seq: u64, obj: u64)
    ensures
        s.push(Entry { seq, obj }).last().obj == obj,
        s.push(Entry { seq, obj }).drop_last() == s,
{
    assert(s.push(Entry { seq, obj }).drop_last() =~= s);
}

/// Two immutable sequences built from the same items in the same order are
/// equal and have the same hash; the hash depends on the items alone.
pub proof fn lemma_equal_items_equal_hash<T: SeqItem>(a: FrozenSequence<T>, b: FrozenSequence<T>)
    requires
        a@.len() == b@.len(),
        forall|i: int| 0 <= i < a@.len() ==> a@[i] == b@[i],
    ensures
        a@ == b@,
        seq_hash(a@) == seq_hash(b@),
{
    assert(a@ =~= b@);
}

/// An entry whose number exceeds every number of the process-wide stack
/// and is pushed on the context stack comes first in the merge; one whose
/// number exceeds every number of the context stack and is pushed on the
/// process-wide stack comes first as well.
pub proof fn lemma_most_recent_first(g: Seq<Entry>, c: Seq<Entry>, e: Entry)
    ensures
        (forall|i: int| 0 <= i < g.len() ==> g[i].seq < e.seq) ==> merged_objects(
            g,
            c.push(e),
        )[0] == e.obj,
        (forall|i: int| 0 <= i < c.len() ==> c[i].seq < e.seq) ==> merged_objects(
            g.push(e),
            c,
        )[0] == e.obj,
{
    let gp = g.push(e);
    let cp = c.push(e);
    assert(gp.last() == e);
    assert(gp.drop_last() =~= g);
    assert(cp.last() == e);
    assert(cp.drop_last() =~= c);
    if forall|i: int| 0 <= i < g.len() ==> g[i].seq < e.seq {
        if g.len() > 0 {
            assert(g.last().seq < e.seq);
        }
        assert(merge_entries(g, cp)[0] == e);
    }
    if forall|i: int| 0 <= i < c.len() ==> c[i].seq < e.seq {
        if c.len() > 0 {
            assert(c.last().seq < e.seq);
        }
        assert(merge_entries(gp, c)[0] == e);
    }
}

/// Two execution contexts forked from one snapshot `base` push the entries
/// `ea` and `eb`: each merge holds its own entry and not the other's, and
/// both hold every entry of the process-wide stack, in descending order.
pub proof fn lemma_isolation(g: Seq<Entry>, base: Seq<Entry>, ea: Entry, eb: Entry)
    requires
        increasing(g),
        increasing(base.push(ea)),
        increasing(base.push(eb)),
        disjoint_seqs(g, base.push(ea)),
        disjoint_seqs(g, base.push(eb)),
        ea.seq != eb.seq,
    ensures
        merge_entries(g, base.push(ea)).contains(ea),
        !merge_entries(g, base.push(ea)).contains(eb),
        merge_entries(g, base.push(eb)).contains(eb),
        !merge_entries(g, base.push(eb)).contains(ea),
        forall|x: Entry|
            g.contains(x) ==> merge_entries(g, base.push(ea)).contains(x) && merge_entries(
                g,
                base.push(eb),
            ).contains(x),
        decreasing(merge_entries(g, base.push(ea))),
        decreasing(merge_entries(g, base.push(eb))),
{
    let sa = base.push(ea);
    let sb = base.push(eb);
    lemma_merge_ordered(g, sa);
    lemma_merge_ordered(g, sb);
    assert(sa[sa.len() - 1] == ea);
    assert(sb[sb.len() - 1] == eb);
    assert(!g.contains(eb)) by {
        if g.contains(eb) {
            let i = choose|i: int| 0 <= i < g.len() && g[i] == eb;
            assert(g[i].seq != sb[sb.len() - 1].seq);
        }
    }
    assert(!g.contains(ea)) by {
        if g.contains(ea) {
            let i = choose|i: int| 0 <= i < g.len() && g[i] == ea;
            assert(g[i].seq != sa[sa.len() - 1].seq);
        }
    }
    assert(!sa.contains(eb)) by {
        if sa.contains(eb) {
            let i = choose|i: int| 0 <= i < sa.len() && sa[i] == eb;
            if i < sa.len() - 1 {
                assert(sb[i] == sa[i]);
                assert(sb[i].seq < sb[sb.len() - 1].seq);
            }
        }
    }
    assert(!sb.contains(ea)) by {
        if sb.contains(ea) {
            let i = choose|i: int| 0 <= i < sb.len() && sb[i] == ea;
            if i < sb.len() - 1 {
                assert(sa[i] == sb[i]);
                assert(sa[i].seq < sa[sa.len() - 1].seq);
            }
        }
    }
}

} // verus!
