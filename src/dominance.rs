use vstd::prelude::*;
use vstd::set_lib::{lemma_len_subset, lemma_int_range, set_int_range};
use crate::context::Context;
use crate::ir::{BlockRef, Op, ValueKind};

verus! {

impl Context {
    /// `p` is a walk along control-flow edges that starts at block `e` and
    /// never enters block `a`.
    pub open spec fn avoiding_walk(&self, p: Seq<BlockRef>, e: BlockRef, a: BlockRef) -> bool {
        &&& p.len() >= 1
        &&& p[0] == e
        &&& forall|k: int| 0 <= k < p.len() ==> #[trigger] p[k] != a
        &&& forall|k: int| 0 <= k < p.len() - 1 ==> self.is_pred(#[trigger] p[k], p[k + 1])
    }

    /// Block `b` can be reached from block `e` without entering block `a`.
    pub open spec fn reaches_avoiding(&self, e: BlockRef, a: BlockRef, b: BlockRef) -> bool {
        exists|p: Seq<BlockRef>| #[trigger] self.avoiding_walk(p, e, a) && p.last() == b
    }

    /// Block `e` is the entry of function `f`: its first block.
    pub open spec fn is_entry(&self, e: BlockRef, f: usize) -> bool {
        &&& e.index < self.blocks@.len()
        &&& self.blocks@[e.index as int].func == f
        &&& forall|c: int| 0 <= c < e.index ==> (#[trigger] self.blocks@[c]).func != f
    }

    /// Block `a` dominates block `b` in function `f`: every walk from the
    /// entry of `f` to `b` passes through `a`.
    pub open spec fn dominates(&self, a: BlockRef, b: BlockRef, f: usize) -> bool {
        forall|e: BlockRef| #[trigger] self.is_entry(e, f) ==> !self.reaches_avoiding(e, a, b)
    }

    /// Only blocks of the context have predecessors.
    pub proof fn lemma_pred_valid(&self, x: BlockRef, y: BlockRef)
        requires
            self.wf(),
            self.is_pred(x, y),
        ensures
            x.index < self.blocks@.len(),
            y.index < self.blocks@.len(),
    {
        let j = choose|j: int| self.inst_in(j, x) && self.jumps_to(j, y);
        let v = self.values@[j];
        assert(crate::context::value_kind_ok(v.kind, self.nt(), self.nv(), self.nb(), self.nf(), self.nm()));
        if let ValueKind::Inst { op, .. } = v.kind {
            if let Op::Switch(_, d, cases) = op {
                if d != y {
                    let k = choose|k: int| 0 <= k < cases@.len() && (#[trigger] cases@[k]).1 == y;
                    assert(cases@[k].1.index < self.nb());
                }
            }
        }
    }

    /// A walk that avoids `a` ends in a block of a set that holds the start
    /// and is closed under the edges that do not enter `a`.
    pub proof fn lemma_walk_reached(&self, p: Seq<BlockRef>, e: BlockRef, a: BlockRef, reach: Seq<bool>)
        requires
            self.wf(),
            self.avoiding_walk(p, e, a),
            e.index < self.blocks@.len(),
            reach.len() == self.blocks@.len(),
            reach[e.index as int],
            forall|x: BlockRef, y: BlockRef|
                x.index < reach.len() && reach[x.index as int] && y != a && #[trigger] self.is_pred(x, y)
                    ==> reach[y.index as int],
        ensures
            p.last().index < self.blocks@.len(),
            reach[p.last().index as int],
        decreases p.len(),
    {
        if p.len() > 1 {
            let q = p.drop_last();
            assert forall|k: int| 0 <= k < q.len() - 1 implies self.is_pred(#[trigger] q[k], q[k + 1]) by {
                assert(self.is_pred(p[k], p[k + 1]));
            }
            assert(forall|k: int| 0 <= k < q.len() ==> #[trigger] q[k] == p[k]);
            assert(self.avoiding_walk(q, e, a));
            self.lemma_walk_reached(q, e, a, reach);
            let x = p[p.len() - 2];
            let y = p[p.len() - 1];
            assert(self.is_pred(x, y));
            self.lemma_pred_valid(x, y);
            assert(y != a);
        }
    }

    /// Marks the blocks that can be reached from `e` without entering `a`.
    pub(crate) fn reach_avoiding(&self, e: BlockRef, a: BlockRef) -> (r: Vec<bool>)
        requires
            self.wf(),
            e.index < self.blocks@.len(),
        ensures
            r@.len() == self.blocks@.len(),
            forall|y: int| 0 <= y < r@.len() ==> (r@[y] <==> self.reaches_avoiding(e, a, BlockRef { index: y as usize })),
    {
        let nb = self.blocks.len();
        let mut reach: Vec<bool> = Vec::new();
        let mut i: usize = 0;
        while i < nb
            invariant
                i <= nb,
                reach@.len() == i,
                forall|k: int| 0 <= k < i ==> !reach@[k],
            decreases nb - i,
        {
            reach.push(false);
            i = i + 1;
        }
        let mut order: Vec<usize> = Vec::new();
        let ghost mut marked: Set<int> = Set::empty();
        let ghost mut paths: Map<int, Seq<BlockRef>> = Map::empty();
        if e != a {
            reach.set(e.index, true);
            order.push(e.index);
            proof {
                marked = marked.insert(e.index as int);
                paths = paths.insert(e.index as int, seq![e]);
                assert(order@[0] == e.index);
            }
        }
        proof {
            lemma_int_range(0, nb as int);
        }
        let mut next: usize = 0;
        while next < order.len()
            invariant
                self.wf(),
                nb == self.blocks@.len(),
                e.index < nb,
                reach@.len() == nb,
                next <= order@.len(),
                marked.finite(),
                set_int_range(0, nb as int).finite(),
                set_int_range(0, nb as int).len() == nb,
                marked.subset_of(set_int_range(0, nb as int)),
                marked.len() <= nb,
                forall|y: int| 0 <= y < nb ==> (reach@[y] <==> marked.contains(y)),
                forall|q: int| 0 <= q < order@.len() ==> (#[trigger] order@[q]) < nb && marked.contains(order@[q] as int),
                forall|y: int| #[trigger] marked.contains(y) ==> exists|q: int| 0 <= q < order@.len() && order@[q] == y,
                forall|y: int|
                    #[trigger] marked.contains(y) ==> paths.contains_key(y) && self.avoiding_walk(paths[y], e, a)
                        && paths[y].last() == (BlockRef { index: y as usize }),
                forall|q: int, y: BlockRef|
                    0 <= q < next && y.index < nb && y != a && #[trigger] self.is_pred(BlockRef { index: order@[q] }, y)
                        ==> reach@[y.index as int],
                e != a ==> reach@[e.index as int],
            decreases 2 * (nb - marked.len()) + (order@.len() - next),
        {
            let x = order[next];
            let ghost m0 = 2 * (nb - marked.len()) + order@.len();
            let mut y: usize = 0;
            while y < nb
                invariant
                    self.wf(),
                    nb == self.blocks@.len(),
                    e.index < nb,
                    reach@.len() == nb,
                    next < order@.len(),
                    x == order@[next as int],
                    y <= nb,
                    marked.finite(),
                    set_int_range(0, nb as int).finite(),
                    set_int_range(0, nb as int).len() == nb,
                    marked.subset_of(set_int_range(0, nb as int)),
                    marked.len() <= nb,
                    2 * (nb - marked.len()) + order@.len() <= m0,
                    forall|z: int| 0 <= z < nb ==> (reach@[z] <==> marked.contains(z)),
                    forall|q: int| 0 <= q < order@.len() ==> (#[trigger] order@[q]) < nb && marked.contains(order@[q] as int),
                    forall|z: int| #[trigger] marked.contains(z) ==> exists|q: int| 0 <= q < order@.len() && order@[q] == z,
                    forall|z: int|
                        #[trigger] marked.contains(z) ==> paths.contains_key(z) && self.avoiding_walk(paths[z], e, a)
                            && paths[z].last() == (BlockRef { index: z as usize }),
                    forall|q: int, z: BlockRef|
                        0 <= q < next && z.index < nb && z != a && #[trigger] self.is_pred(BlockRef { index: order@[q] }, z)
                            ==> reach@[z.index as int],
                    forall|z: BlockRef|
                        z.index < y && z != a && #[trigger] self.is_pred(BlockRef { index: x }, z) ==> reach@[z.index as int],
                    e != a ==> reach@[e.index as int],
                decreases nb - y,
            {
                let target = BlockRef { index: y };
                if !reach[y] && target != a && self.check_is_pred(BlockRef { index: x }, target) {
                    let ghost old_marked = marked;
                    let ghost old_order = order@;
                    proof {
                        assert(!marked.contains(y as int));
                        assert(marked.insert(y as int).len() == marked.len() + 1);
                        assert(marked.insert(y as int).subset_of(set_int_range(0, nb as int)));
                        lemma_len_subset(marked.insert(y as int), set_int_range(0, nb as int));
                        let px = paths[x as int];
                        let py = px.push(target);
                        assert(marked.contains(x as int));
                        assert forall|k: int| 0 <= k < py.len() - 1 implies self.is_pred(#[trigger] py[k], py[k + 1]) by {
                            if k < px.len() - 1 {
                                assert(py[k] == px[k] && py[k + 1] == px[k + 1]);
                            } else {
                                assert(py[k] == px.last());
                            }
                        }
                        assert(forall|k: int| 0 <= k < px.len() ==> #[trigger] py[k] == px[k]);
                        assert(self.avoiding_walk(py, e, a));
                        paths = paths.insert(y as int, py);
                        marked = marked.insert(y as int);
                    }
                    reach.set(y, true);
                    order.push(y);
                    proof {
                        assert(order@[order@.len() - 1] == y);
                        assert forall|z: int| #[trigger] marked.contains(z) implies exists|q: int| 0 <= q < order@.len() && order@[q] == z by {
                            if z != y as int {
                                assert(old_marked.contains(z));
                                let q = choose|q: int| 0 <= q < old_order.len() && old_order[q] == z;
                                assert(order@[q] == old_order[q]);
                            } else {
                                assert(order@[order@.len() - 1] == z);
                            }
                        }
                    }
                }
                y = y + 1;
            }
            next = next + 1;
        }
        proof {
            assert forall|y: int| 0 <= y < reach@.len() implies (reach@[y] <==> self.reaches_avoiding(e, a, BlockRef { index: y as usize })) by {
                let b = BlockRef { index: y as usize };
                if reach@[y] {
                    assert(marked.contains(y));
                    assert(self.avoiding_walk(paths[y], e, a));
                }
                if self.reaches_avoiding(e, a, b) {
                    let p = choose|p: Seq<BlockRef>| #[trigger] self.avoiding_walk(p, e, a) && p.last() == b;
                    assert(p[0] != a);
                    assert forall|x: BlockRef, z: BlockRef|
                        x.index < reach@.len() && reach@[x.index as int] && z != a && #[trigger] self.is_pred(x, z)
                            implies reach@[z.index as int] by {
                        self.lemma_pred_valid(x, z);
                        assert(marked.contains(x.index as int));
                        let q = choose|q: int| 0 <= q < order@.len() && order@[q] == x.index as int;
                        assert(BlockRef { index: order@[q] } == x);
                    }
                    self.lemma_walk_reached(p, e, a, reach@);
                }
            }
        }
        reach
    }

    /// Whether block `a` dominates block `b` in function `f`.
    pub(crate) fn check_dominates(&self, a: BlockRef, b: BlockRef, f: usize) -> (r: bool)
        requires
            self.wf(),
            b.index < self.blocks@.len(),
        ensures
            r == self.dominates(a, b, f),
    {
        let mut c: usize = 0;
        let mut found = false;
        while c < self.blocks.len() && !found
            invariant
                c <= self.blocks@.len(),
                found ==> c < self.blocks@.len() && self.blocks@[c as int].func == f,
                forall|k: int| 0 <= k < c ==> (#[trigger] self.blocks@[k]).func != f,
            decreases self.blocks@.len() - c + (if found { 0int } else { 1int }),
        {
            if self.blocks[c].func == f {
                found = true;
            } else {
                c = c + 1;
            }
        }
        if !found {
            proof {
                assert forall|e: BlockRef| !#[trigger] self.is_entry(e, f) by {
                    if e.index < self.blocks@.len() {
                        assert(self.blocks@[e.index as int].func != f);
                    }
                }
            }
            return true;
        }
        let e = BlockRef { index: c };
        let reach = self.reach_avoiding(e, a);
        proof {
            assert(self.is_entry(e, f));
            assert forall|e2: BlockRef| #[trigger] self.is_entry(e2, f) implies e2 == e by {
                if e2.index < c {
                    assert(self.blocks@[e2.index as int].func != f);
                }
                if e2.index > c {
                    assert(self.blocks@[c as int].func != f);
                }
            }
            assert(reach@[b.index as int] == self.reaches_avoiding(e, a, BlockRef { index: b.index }));
        }
        !reach[b.index]
    }
}

} // verus!
