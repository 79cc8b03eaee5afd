use vstd::prelude::*;

use crate::geom::Aabb;
use crate::geom::box_contains;
use crate::geom::box_union;
use crate::geom::boxes_overlap;
use crate::geom::lemma_contains_overlaps;
use crate::geom::overlaps;

verus! {

/// One entry of the spatial index: a tight bounding box, the same box as
/// the margin-inflated bound (no slack is used), and the position of the
/// matching enemy in this frame's enemy collection.
#[derive(Clone, Copy, PartialEq, Eq, Structural, Debug)]
pub struct Value {
    pub aabb: Aabb,
    pub fat_aabb: Aabb,
    pub index: u16,
}

impl Value {
    pub fn new(aabb: Aabb, pos: u16) -> (r: Value)
        ensures
            r.aabb == aabb,
            r.fat_aabb == aabb,
            r.index == pos,
    {
        Value { fat_aabb: aabb, aabb, index: pos }
    }

    pub fn bound(&self) -> (r: &Aabb)
        ensures
            *r == self.aabb,
    {
        &self.aabb
    }

    pub fn get_bound_with_margin(&self) -> (r: Aabb)
        ensures
            r == self.fat_aabb,
    {
        self.fat_aabb
    }
}

/// The entries whose fat bound meets `q`, in their original order.
pub open spec fn box_filter(s: Seq<Value>, q: Aabb) -> Seq<Value>
    decreases s.len(),
{
    if s.len() == 0 {
        Seq::empty()
    } else {
        let rest = box_filter(s.drop_last(), q);
        if overlaps(s.last().fat_aabb, q) {
            rest.push(s.last())
        } else {
            rest
        }
    }
}

/// Every entry's fat box lies inside `b`.
pub open spec fn all_within(s: Seq<Value>, b: Aabb) -> bool {
    forall|i: int| 0 <= i < s.len() ==> box_contains(b, #[trigger] s[i].fat_aabb)
}

/// A query box that misses a bound that covers every entry matches nothing.
proof fn lemma_box_filter_all_miss(s: Seq<Value>, b: Aabb, q: Aabb)
    requires
        all_within(s, b),
        !overlaps(b, q),
    ensures
        box_filter(s, q) == Seq::<Value>::empty(),
    decreases s.len(),
{
    if s.len() > 0 {
        assert(all_within(s.drop_last(), b));
        lemma_box_filter_all_miss(s.drop_last(), b, q);
        if overlaps(s.last().fat_aabb, q) {
            lemma_contains_overlaps(b, s.last().fat_aabb, q);
        }
    }
}

/// Filtering distributes over concatenation.
proof fn lemma_box_filter_concat(s1: Seq<Value>, s2: Seq<Value>, q: Aabb)
    ensures
        box_filter(s1 + s2, q) == box_filter(s1, q) + box_filter(s2, q),
    decreases s2.len(),
{
    if s2.len() == 0 {
        assert(s1 + s2 =~= s1);
        assert(box_filter(s1, q) + box_filter(s2, q) =~= box_filter(s1, q));
    } else {
        lemma_box_filter_concat(s1, s2.drop_last(), q);
        assert((s1 + s2).drop_last() =~= s1 + s2.drop_last());
        assert((s1 + s2).last() == s2.last());
        if overlaps(s2.last().fat_aabb, q) {
            assert(box_filter(s1, q) + box_filter(s2.drop_last(), q).push(s2.last()) =~= (
            box_filter(s1, q) + box_filter(s2.drop_last(), q)).push(s2.last()));
        }
    }
}

/// What the filter keeps: each kept entry is one of the entries and
/// meets the query box, and each entry that meets the query box is kept.
pub proof fn lemma_box_filter_members(s: Seq<Value>, q: Aabb)
    ensures
        forall|k: int|
            0 <= k < box_filter(s, q).len() ==> s.contains(#[trigger] box_filter(s, q)[k])
                && overlaps(box_filter(s, q)[k].fat_aabb, q),
        forall|j: int|
            0 <= j < s.len() && overlaps(#[trigger] s[j].fat_aabb, q) ==> box_filter(s,
            q).contains(s[j]),
    decreases s.len(),
{
    if s.len() > 0 {
        lemma_box_filter_members(s.drop_last(), q);
        let prev = box_filter(s.drop_last(), q);
        let cur = box_filter(s, q);
        assert forall|k: int| 0 <= k < cur.len() implies s.contains(#[trigger] cur[k]) && overlaps(
            cur[k].fat_aabb,
            q,
        ) by {
            if k < prev.len() {
                assert(cur[k] == prev[k]);
                assert(s.drop_last().contains(prev[k]));
                let j = choose|j: int| 0 <= j < s.drop_last().len() && s.drop_last()[j] == prev[k];
                assert(s[j] == cur[k]);
            } else {
                assert(cur[k] == s.last());
                assert(s[s.len() - 1] == cur[k]);
            }
        }
        assert forall|j: int|
            0 <= j < s.len() && overlaps(#[trigger] s[j].fat_aabb, q) implies cur.contains(
            s[j]) by {
            if j < s.len() - 1 {
                assert(s.drop_last()[j] == s[j]);
                assert(prev.contains(s[j]));
                let k = choose|k: int| 0 <= k < prev.len() && prev[k] == s[j];
                assert(cur[k] == s[j]);
            } else {
                assert(cur[cur.len() - 1] == s[j]);
            }
        }
    }
}

enum Tree {
    Leaf(Value),
    Node(Aabb, Box<Tree>, Box<Tree>),
}

impl Tree {
    /// The entries under this subtree, left to right.
    spec fn entries(self) -> Seq<Value>
        decreases self,
    {
        match self {
            Tree::Leaf(v) => seq![v],
            Tree::Node(_, l, r) => l.entries() + r.entries(),
        }
    }

    /// The bounding box stored at the top of this subtree.
    spec fn top_box(self) -> Aabb {
        match self {
            Tree::Leaf(v) => v.fat_aabb,
            Tree::Node(b, _, _) => b,
        }
    }

    /// Each node's box contains the fat box of every entry below it.
    spec fn wf(self) -> bool
        decreases self,
    {
        match self {
            Tree::Leaf(_) => true,
            Tree::Node(b, l, r) => l.wf() && r.wf() && all_within(l.entries() + r.entries(), b),
        }
    }

    fn top(&self) -> (r: Aabb)
        ensures
            r == self.top_box(),
    {
        match self {
            Tree::Leaf(v) => v.fat_aabb,
            Tree::Node(b, _, _) => *b,
        }
    }

    fn query_into(&self, q: &Aabb, out: &mut Vec<Value>)
        requires
            self.wf(),
        ensures
            final(out)@ == old(out)@ + box_filter(self.entries(), *q),
        decreases self,
    {
        match self {
            Tree::Leaf(v) => {
                proof {
                    assert(seq![*v].drop_last() =~= Seq::<Value>::empty());
                    assert(seq![*v].last() == *v);
                    assert(box_filter(Seq::<Value>::empty(), *q) =~= Seq::<Value>::empty());
                }
                if boxes_overlap(&v.fat_aabb, q) {
                    out.push(*v);
                    proof {
                        assert(out@ =~= old(out)@ + box_filter(self.entries(), *q));
                    }
                } else {
                    proof {
                        assert(out@ =~= old(out)@ + box_filter(self.entries(), *q));
                    }
                }
            },
            Tree::Node(b, l, r) => {
                if boxes_overlap(b, q) {
                    l.query_into(q, out);
                    r.query_into(q, out);
                    proof {
                        lemma_box_filter_concat(l.entries(), r.entries(), *q);
                        assert(out@ =~= old(out)@ + box_filter(self.entries(), *q));
                    }
                } else {
                    proof {
                        lemma_box_filter_all_miss(l.entries() + r.entries(), *b, *q);
                        assert(out@ =~= old(out)@ + box_filter(self.entries(), *q));
                    }
                }
            },
        }
    }
}

/// A bounding-volume tree over enemy boxes, rebuilt from scratch every
/// frame and discarded at its end; queries are the broad phase of the
/// tick's collision tests.
pub struct SpatialIndex {
    root: Option<Tree>,
}

impl SpatialIndex {
    /// The entries the index was built from, in build order.
    pub closed spec fn entries(self) -> Seq<Value> {
        match self.root {
            Option::Some(t) => t.entries(),
            Option::None => Seq::empty(),
        }
    }

    /// The internal bounds really cover the entries below them.
    pub closed spec fn wf(self) -> bool {
        match self.root {
            Option::Some(t) => t.wf(),
            Option::None => true,
        }
    }

    /// Builds the tree over the given entries by recursive halving.
    pub fn build(values: &Vec<Value>) -> (r: SpatialIndex)
        ensures
            r.wf(),
            r.entries() == values@,
    {
        if values.len() == 0 {
            let r = SpatialIndex { root: Option::None };
            proof {
                assert(r.entries() =~= values@);
            }
            r
        } else {
            let t = build_range(values, 0, values.len());
            proof {
                assert(values@.subrange(0, values@.len() as int) =~= values@);
            }
            SpatialIndex { root: Option::Some(t) }
        }
    }

    /// The broad phase: exactly the entries whose fat bound meets `q`,
    /// in build order.  On an index built from nothing the result is
    /// empty for every query box.
    pub fn query(&self, q: &Aabb) -> (out: Vec<Value>)
        requires
            self.wf(),
        ensures
            out@ == box_filter(self.entries(), *q),
    {
        let mut out: Vec<Value> = Vec::new();
        match &self.root {
            Option::None => {},
            Option::Some(t) => {
                t.query_into(q, &mut out);
            },
        }
        out
    }
}

fn build_range(values: &Vec<Value>, lo: usize, hi: usize) -> (t: Tree)
    requires
        lo < hi <= values@.len(),
    ensures
        t.wf(),
        t.entries() == values@.subrange(lo as int, hi as int),
        all_within(t.entries(), t.top_box()),
    decreases hi - lo,
{
    if hi - lo == 1 {
        let v = values[lo];
        proof {
            assert(seq![v] =~= values@.subrange(lo as int, hi as int));
        }
        Tree::Leaf(v)
    } else {
        let mid = lo + (hi - lo) / 2;
        let left = build_range(values, lo, mid);
        let right = build_range(values, mid, hi);
        let lb = left.top();
        let rb = right.top();
        let b = box_union(&lb, &rb);
        proof {
            let es = left.entries() + right.entries();
            assert forall|i: int| 0 <= i < es.len() implies box_contains(
                b,
                #[trigger] es[i].fat_aabb,
            ) by {
                if i < left.entries().len() {
                    assert(es[i] == left.entries()[i]);
                } else {
                    assert(es[i] == right.entries()[i - left.entries().len()]);
                }
            }
            assert(es =~= values@.subrange(lo as int, hi as int));
        }
        Tree::Node(b, Box::new(left), Box::new(right))
    }
}

/// An index built from no entries answers every query with nothing.
pub proof fn lemma_empty_query(q: Aabb)
    ensures
        box_filter(Seq::<Value>::empty(), q) == Seq::<Value>::empty(),
{
}

} // verus!
