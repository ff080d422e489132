//! The merge of the process-wide stack with one context stack: every entry
//! of both, most recently pushed first.
use crate::item::Entry;
use vstd::prelude::*;

verus! {

/// Sequence numbers strictly increase along `s`, and all lie below `bound`.
pub open spec fn increasing_below(s: Seq<Entry>, bound: u64) -> bool {
    &&& forall|i: int, j: int| 0 <= i < j < s.len() ==> s[i].seq < s[j].seq
    &&& forall|i: int| 0 <= i < s.len() ==> s[i].seq < bound
}

/// Sequence numbers strictly increase along `s`.
pub open spec fn increasing(s: Seq<Entry>) -> bool {
    forall|i: int, j: int| 0 <= i < j < s.len() ==> s[i].seq < s[j].seq
}

/// Sequence numbers strictly decrease along `s`.
pub open spec fn decreasing(s: Seq<Entry>) -> bool {
    forall|i: int, j: int| 0 <= i < j < s.len() ==> s[i].seq > s[j].seq
}

/// No sequence number occurs in both `a` and `b`.
pub open spec fn disjoint_seqs(a: Seq<Entry>, b: Seq<Entry>) -> bool {
    forall|i: int, j: int| 0 <= i < a.len() && 0 <= j < b.len() ==> a[i].seq != b[j].seq
}

/// The entries of the process-wide stack `g` and of the context stack `c`,
/// by descending sequence number: of the two last entries the one with the
/// higher number comes first, the process-wide one where they tie.
pub open spec fn merge_entries(g: Seq<Entry>, c: Seq<Entry>) -> Seq<Entry>
    decreases g.len() + c.len(),
{
    if g.len() == 0 && c.len() == 0 {
        Seq::empty()
    } else if c.len() == 0 || (g.len() > 0 && g.last().seq >= c.last().seq) {
        seq![g.last()] + merge_entries(g.drop_last(), c)
    } else {
        seq![c.last()] + merge_entries(g, c.drop_last())
    }
}

/// The objects of `s`, in order.
pub open spec fn objects_of(s: Seq<Entry>) -> Seq<u64> {
    s.map_values(|e: Entry| e.obj)
}

/// The objects of the merge of `g` and `c`, most recently pushed first.
pub open spec fn merged_objects(g: Seq<Entry>, c: Seq<Entry>) -> Seq<u64> {
    objects_of(merge_entries(g, c))
}

/// The merge holds every entry of both stacks and nothing else, one place
/// each, and where both stacks are ordered by push and share no sequence
/// number, the most recently pushed entry comes first.
pub proof fn lemma_merge_ordered(g: Seq<Entry>, c: Seq<Entry>)
    requires
        increasing(g),
        increasing(c),
        disjoint_seqs(g, c),
    ensures
        merge_entries(g, c).len() == g.len() + c.len(),
        forall|x: Entry| #[trigger]
            merge_entries(g, c).contains(x) <==> g.contains(x) || c.contains(x),
        decreasing(merge_entries(g, c)),
    decreases g.len() + c.len(),
{
    let m = merge_entries(g, c);
    if g.len() == 0 && c.len() == 0 {
    } else if c.len() == 0 || (g.len() > 0 && g.last().seq >= c.last().seq) {
        let g2 = g.drop_last();
        let top = g.last();
        lemma_merge_ordered(g2, c);
        let rest = merge_entries(g2, c);
        assert(m == seq![top] + rest);
        assert(g =~= g2.push(top));
        assert forall|x: Entry| rest.contains(x) implies x.seq < top.seq by {
            if g2.contains(x) {
                let i = choose|i: int| 0 <= i < g2.len() && g2[i] == x;
                assert(g[i] == x);
            } else {
                let j = choose|j: int| 0 <= j < c.len() && c[j] == x;
                assert(c[j].seq <= c.last().seq);
                assert(g[g.len() - 1] == top);
            }
        }
        assert forall|x: Entry| #[trigger] m.contains(x) <==> g.contains(x) || c.contains(x) by {
            if m.contains(x) {
                let i = choose|i: int| 0 <= i < m.len() && m[i] == x;
                if i > 0 {
                    assert(rest[i - 1] == x);
                    assert(rest.contains(x));
                    if g2.contains(x) {
                        let k = choose|k: int| 0 <= k < g2.len() && g2[k] == x;
                        assert(g[k] == x);
                    }
                } else {
                    assert(g[g.len() - 1] == x);
                }
            }
            if g.contains(x) {
                let i = choose|i: int| 0 <= i < g.len() && g[i] == x;
                if i < g.len() - 1 {
                    assert(g2[i] == x);
                    assert(rest.contains(x));
                    let k = choose|k: int| 0 <= k < rest.len() && rest[k] == x;
                    assert(m[k + 1] == x);
                } else {
                    assert(m[0] == x);
                }
            }
            if c.contains(x) {
                assert(rest.contains(x));
                let k = choose|k: int| 0 <= k < rest.len() && rest[k] == x;
                assert(m[k + 1] == x);
            }
        }
        assert forall|i: int, j: int| 0 <= i < j < m.len() implies m[i].seq > m[j].seq by {
            assert(m[j] == rest[j - 1]);
            assert(rest.contains(rest[j - 1]));
            if i > 0 {
                assert(m[i] == rest[i - 1]);
            }
        }
    } else {
        let c2 = c.drop_last();
        let top = c.last();
        lemma_merge_ordered(g, c2);
        let rest = merge_entries(g, c2);
        assert(m == seq![top] + rest);
        assert(c =~= c2.push(top));
        assert forall|x: Entry| rest.contains(x) implies x.seq < top.seq by {
            if c2.contains(x) {
                let i = choose|i: int| 0 <= i < c2.len() && c2[i] == x;
                assert(c[i] == x);
            } else {
                let j = choose|j: int| 0 <= j < g.len() && g[j] == x;
                assert(g[j].seq <= g.last().seq);
                assert(g[g.len() - 1].seq < top.seq);
            }
        }
        assert forall|x: Entry| #[trigger] m.contains(x) <==> g.contains(x) || c.contains(x) by {
            if m.contains(x) {
                let i = choose|i: int| 0 <= i < m.len() && m[i] == x;
                if i > 0 {
                    assert(rest[i - 1] == x);
                    assert(rest.contains(x));
                    if c2.contains(x) {
                        let k = choose|k: int| 0 <= k < c2.len() && c2[k] == x;
                        assert(c[k] == x);
                    }
                } else {
                    assert(c[c.len() - 1] == x);
                }
            }
            if c.contains(x) {
                let i = choose|i: int| 0 <= i < c.len() && c[i] == x;
                if i < c.len() - 1 {
                    assert(c2[i] == x);
                    assert(rest.contains(x));
                    let k = choose|k: int| 0 <= k < rest.len() && rest[k] == x;
                    assert(m[k + 1] == x);
                } else {
                    assert(m[0] == x);
                }
            }
            if g.contains(x) {
                assert(rest.contains(x));
                let k = choose|k: int| 0 <= k < rest.len() && rest[k] == x;
                assert(m[k + 1] == x);
            }
        }
        assert forall|i: int, j: int| 0 <= i < j < m.len() implies m[i].seq > m[j].seq by {
            assert(m[j] == rest[j - 1]);
            assert(rest.contains(rest[j - 1]));
            if i > 0 {
                assert(m[i] == rest[i - 1]);
            }
        }
    }
}

/// Computes `merged_objects(g, c)` from the ends of both stacks.
pub fn merge_objects(g: &Vec<Entry>, c: &Vec<Entry>) -> (r: Vec<u64>)
    ensures
        r@ == merged_objects(g@, c@),
{
    let mut out: Vec<u64> = Vec::new();
    let mut i: usize = g.len();
    let mut j: usize = c.len();
    proof {
        assert(g@.take(i as int) =~= g@);
        assert(c@.take(j as int) =~= c@);
        assert(out@ + merged_objects(g@, c@) =~= merged_objects(g@, c@));
    }
    while i > 0 || j > 0
        invariant
            i <= g@.len(),
            j <= c@.len(),
            out@ + merged_objects(g@.take(i as int), c@.take(j as int)) == merged_objects(g@, c@),
        decreases i + j,
    {
        let ghost gi = g@.take(i as int);
        let ghost cj = c@.take(j as int);
        if j == 0 || (i > 0 && g[i - 1].seq >= c[j - 1].seq) {
            let e = g[i - 1];
            proof {
                assert(gi.last() == e);
                assert(gi.drop_last() =~= g@.take(i - 1));
                let rest = merge_entries(g@.take(i - 1), cj);
                assert(merge_entries(gi, cj) == seq![e] + rest);
                assert(objects_of(seq![e] + rest) =~= seq![e.obj] + objects_of(rest));
                assert(out@.push(e.obj) + objects_of(rest) =~= out@ + (seq![e.obj] + objects_of(
                    rest,
                )));
            }
            out.push(e.obj);
            i = i - 1;
        } else {
            let e = c[j - 1];
            proof {
                assert(cj.last() == e);
                assert(cj.drop_last() =~= c@.take(j - 1));
                let rest = merge_entries(gi, c@.take(j - 1));
                assert(merge_entries(gi, cj) == seq![e] + rest);
                assert(objects_of(seq![e] + rest) =~= seq![e.obj] + objects_of(rest));
                assert(out@.push(e.obj) + objects_of(rest) =~= out@ + (seq![e.obj] + objects_of(
                    rest,
                )));
            }
            out.push(e.obj);
            j = j - 1;
        }
    }
    proof {
        assert(merge_entries(g@.take(0), c@.take(0)) =~= Seq::<Entry>::empty());
        assert(out@ + merged_objects(g@.take(0), c@.take(0)) =~= out@);
    }
    out
}

} // verus!
