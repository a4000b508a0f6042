use vstd::prelude::*;

verus! {

use crate::vec3::Vec3;
use crate::vec3::V3;
use crate::ray::Ray;
use crate::ray::ray_wf;
use crate::aabb::AABB;
use crate::aabb::Axis;
use crate::aabb::B3;
use crate::aabb::box_wf;
use crate::aabb::box_center;
use crate::aabb::box_contains_box;
use crate::aabb::slab_passes;
use crate::aabb::lemma_slab_monotone;
use crate::aabb::lemma_surround_contains;
use crate::aabb::lemma_contains_trans;
use crate::hit::Hit;
use crate::hit::HitG;
use crate::hit::HitResult;
use crate::hit::opt_m;
use crate::hit::opt_hit_matches;
use crate::hit::closer_hit;
use crate::hit::first_hit;
use crate::hit::lemma_first_hit_none;
use crate::hit::lemma_first_hit_concat;
use crate::hit::lemma_first_hit_props;
use crate::hit::bounding_box_of;
use crate::vec3::in_coord_range;
use crate::num::FP_ONE;
use vstd::seq_lib::lemma_multiset_commutative;

/// One node of the bounding volume hierarchy, stored in a flat arena and
/// addressed by index. A leaf (`count > 0`) points at a contiguous run of
/// one or two objects; an internal node (`count == 0`) points at its two
/// children, which were built before it and so stand earlier in the arena.
#[derive(Clone, Copy, Debug)]
pub struct BvhNode {
    /// The bounding box of everything below this node.
    pub bb: AABB,
    /// A leaf's first object index, or an internal node's left child.
    pub left: usize,
    /// An internal node's right child; unused in a leaf.
    pub right: usize,
    /// The number of objects in a leaf; zero marks an internal node.
    pub count: usize,
    /// For an internal node, how many objects lie under the left child:
    /// where the subtree's object run is split between the children.
    pub lsize: usize,
}

/// A bounding volume hierarchy over a finalized list of objects: a binary
/// tree of boxes that prunes intersection queries, built once and immutable
/// afterwards. Many independent queries may read it concurrently.
///
/// The arena is filled bottom-up — children before parents, every node final
/// when pushed — and then renumbered in one pass so that the root always
/// stands at index 0.
#[derive(Clone, Debug)]
pub struct BvhTree<T: Hit> {
    /// The node arena; the root is index 0.
    pub nodes: Vec<BvhNode>,
    /// The objects, owned by the tree in build order.
    pub objects: Vec<T>,
    /// The index of the root node: always 0 in a well-formed tree.
    pub root: usize,
}

/// The subtree at node `i` indexes exactly the objects `lo..hi`, and its
/// box contains each of their boxes. The measure is the object range, so
/// the judgment does not care where in the arena the children stand.
pub open spec fn node_ok<T: Hit>(
    nodes: Seq<BvhNode>,
    objs: Seq<T>,
    i: int,
    lo: int,
    hi: int,
) -> bool
    decreases
            (if lo < hi {
                hi - lo
            } else {
                0int
            }),
{
    &&& 0 <= i < nodes.len()
    &&& 0 <= lo < hi <= objs.len()
    &&& box_wf(nodes[i].bb.m())
    &&& (forall|j: int|
        lo <= j < hi ==> box_contains_box(nodes[i].bb.m(), (#[trigger] objs[j]).bbox_spec()))
    &&& if nodes[i].count > 0 {
        &&& nodes[i].left == lo
        &&& hi - lo == nodes[i].count
        &&& (nodes[i].count == 1 || nodes[i].count == 2)
    } else {
        let l = nodes[i].left as int;
        let r = nodes[i].right as int;
        let mid = lo + nodes[i].lsize;
        &&& 0 <= l < nodes.len()
        &&& 0 <= r < nodes.len()
        &&& lo < mid < hi
        &&& node_ok(nodes, objs, l, lo, mid)
        &&& node_ok(nodes, objs, r, mid, hi)
    }
}

/// The tree invariant: the root stands at index 0 and its subtree covers
/// the whole object list; every object is well formed.
pub open spec fn tree_wf<T: Hit>(t: BvhTree<T>) -> bool {
    &&& t.objects@.len() > 0
    &&& t.root == 0
    &&& node_ok(t.nodes@, t.objects@, 0, 0, t.objects@.len() as int)
    &&& forall|j: int| 0 <= j < t.objects@.len() ==> (#[trigger] t.objects@[j]).wf()
}

/// A subtree judgment only reads the arena up to the node and the objects up
/// to `hi`, so appending to either array preserves it.
pub proof fn lemma_node_ok_frame<T: Hit>(
    n1: Seq<BvhNode>,
    o1: Seq<T>,
    n2: Seq<BvhNode>,
    o2: Seq<T>,
    i: int,
    lo: int,
    hi: int,
)
    requires
        0 <= i,
        node_ok(n1, o1, i, lo, hi),
        n1.len() <= n2.len(),
        o1.len() <= o2.len(),
        forall|k: int| 0 <= k < n1.len() ==> n2[k] == n1[k],
        forall|k: int| 0 <= k < o1.len() ==> o2[k] == o1[k],
    ensures
        node_ok(n2, o2, i, lo, hi),
    decreases hi - lo,
{
    if n1[i].count == 0 {
        let l = n1[i].left as int;
        let r = n1[i].right as int;
        let mid = lo + n1[i].lsize;
        lemma_node_ok_frame(n1, o1, n2, o2, l, lo, mid);
        lemma_node_ok_frame(n1, o1, n2, o2, r, mid, hi);
    }
}

/// Entry `j` of the renumbered arena mirrors entry `len - 1 - j` of the
/// built one: same box and leaf data, child indices reflected.
pub open spec fn reversed_entry(n1: Seq<BvhNode>, n2: Seq<BvhNode>, j: int) -> bool {
    let k = n1.len() - 1 - j;
    &&& n2[j].bb == n1[k].bb
    &&& n2[j].count == n1[k].count
    &&& n2[j].lsize == n1[k].lsize
    &&& (n1[k].count == 0 ==> {
        &&& (n1[k].left < n1.len() ==> n2[j].left == n1.len() - 1 - n1[k].left)
        &&& (n1[k].left >= n1.len() ==> n2[j].left == n1[k].left)
        &&& (n1[k].right < n1.len() ==> n2[j].right == n1.len() - 1 - n1[k].right)
        &&& (n1[k].right >= n1.len() ==> n2[j].right == n1[k].right)
    })
    &&& (n1[k].count != 0 ==> n2[j].left == n1[k].left && n2[j].right == n1[k].right)
}

/// A subtree judgment carries over to the renumbered arena, at the
/// reflected index.
pub proof fn lemma_node_ok_reversed<T: Hit>(
    n1: Seq<BvhNode>,
    n2: Seq<BvhNode>,
    objs: Seq<T>,
    i: int,
    lo: int,
    hi: int,
)
    requires
        node_ok(n1, objs, i, lo, hi),
        n2.len() == n1.len(),
        forall|j: int| 0 <= j < n2.len() ==> #[trigger] reversed_entry(n1, n2, j),
    ensures
        node_ok(n2, objs, n1.len() - 1 - i, lo, hi),
    decreases hi - lo,
{
    let j = n1.len() - 1 - i;
    assert(reversed_entry(n1, n2, j));
    if n1[i].count == 0 {
        let l = n1[i].left as int;
        let r = n1[i].right as int;
        let mid = lo + n1[i].lsize;
        lemma_node_ok_reversed(n1, n2, objs, l, lo, mid);
        lemma_node_ok_reversed(n1, n2, objs, r, mid, hi);
    }
}

impl<T: Hit> BvhTree<T> {
    /// Builds the hierarchy from a finalized object list, consuming it. The
    /// list must not be empty: a zero-primitive scene is a configuration
    /// error, and the caller checks it before building.
    pub fn from_hittables(list: Vec<T>) -> (tree: BvhTree<T>)
        requires
            list@.len() > 0,
            forall|j: int| 0 <= j < list@.len() ==> (#[trigger] list@[j]).wf(),
        ensures
            tree_wf(tree),
            tree.objects@.to_multiset() == list@.to_multiset(),
            tree.objects@.len() == list@.len(),
    {
        let ghost orig = list@;
        let mut tree = BvhTree { nodes: Vec::new(), objects: Vec::new(), root: 0 };
        let root = tree.add_node(list);
        proof {
            assert(tree.objects@.subrange(0, tree.objects@.len() as int) =~= tree.objects@);
        }
        // Renumber the arena so the root takes slot 0, as the data model
        // fixes it: reverse the node order and reflect the child indices.
        let n = tree.nodes.len();
        let ghost built = tree.nodes@;
        let mut rev: Vec<BvhNode> = Vec::new();
        let mut k: usize = 0;
        while k < n
            invariant
                n == built.len(),
                root as int == n - 1,
                tree.nodes@ == built,
                0 <= k <= n,
                rev@.len() == k as int,
                forall|j: int| 0 <= j < k ==> #[trigger] reversed_entry(built, rev@, j),
            decreases n - k,
        {
            let old = tree.nodes[n - 1 - k];
            let node = if old.count == 0 {
                BvhNode {
                    bb: old.bb,
                    left: if old.left < n {
                        n - 1 - old.left
                    } else {
                        old.left
                    },
                    right: if old.right < n {
                        n - 1 - old.right
                    } else {
                        old.right
                    },
                    count: 0,
                    lsize: old.lsize,
                }
            } else {
                old
            };
            let ghost snap = rev@;
            rev.push(node);
            proof {
                assert forall|j: int| 0 <= j < k + 1 implies #[trigger] reversed_entry(
                    built,
                    rev@,
                    j,
                ) by {
                    if j < k {
                        assert(reversed_entry(built, snap, j));
                        assert(rev@[j] == snap[j]);
                    } else {
                        assert(rev@[j] == node);
                    }
                }
            }
            k = k + 1;
        }
        proof {
            lemma_node_ok_reversed(built, rev@, tree.objects@, n - 1, 0, tree.objects@.len() as int);
        }
        let BvhTree { nodes: _, objects, root: _ } = tree;
        BvhTree { nodes: rev, objects, root: 0 }
    }

    /// Builds the subtree for one object list: sorts it by centroid along
    /// the longest axis of its bounding box, stores one or two objects as a
    /// leaf, and otherwise splits at the (evenness-adjusted) median and
    /// builds the two halves before their parent.
    fn add_node(&mut self, list: Vec<T>) -> (idx: usize)
        requires
            list@.len() > 0,
            forall|j: int| 0 <= j < list@.len() ==> (#[trigger] list@[j]).wf(),
        ensures
            final(self).nodes@.len() > old(self).nodes@.len(),
            idx == final(self).nodes@.len() - 1,
            final(self).objects@.len() == old(self).objects@.len() + list@.len(),
            final(self).objects@.subrange(0, old(self).objects@.len() as int) == old(
                self,
            ).objects@,
            final(self).nodes@.subrange(0, old(self).nodes@.len() as int) == old(self).nodes@,
            final(self).root == old(self).root,
            node_ok(
                final(self).nodes@,
                final(self).objects@,
                idx as int,
                old(self).objects@.len() as int,
                final(self).objects@.len() as int,
            ),
            final(self).objects@.subrange(
                old(self).objects@.len() as int,
                final(self).objects@.len() as int,
            ).to_multiset() == list@.to_multiset(),
            forall|j: int|
                old(self).objects@.len() <= j < final(self).objects@.len() ==> (
                #[trigger] final(self).objects@[j]).wf(),
        decreases list@.len(),
    {
        broadcast use vstd::seq_lib::group_to_multiset_ensures, vstd::multiset::group_multiset_axioms;

        let ghost lo = self.objects@.len() as int;
        // Sort by centroid along the longest axis of the list's box, so each
        // split tends to produce tight child boxes.
        let bbo = bounding_box_of(&list);
        let bb_all = match bbo {
            Some(b) => b,
            None => {
                proof {
                    assert(false);
                }
                AABB { start: Vec3 { x: 0, y: 0, z: 0 }, end: Vec3 { x: 0, y: 0, z: 0 } }
            },
        };
        let axis = bb_all.longest_axis();
        let mut sorted = sort_by_centroid(list, axis);

        if sorted.len() == 1 {
            let ghost snap = sorted@;
            let first = sorted.pop().unwrap();
            let bbo1 = first.bounding_box();
            let bb = match bbo1 {
                Some(b) => b,
                None => {
                    proof {
                        first.lemma_hit_props(
                            V3 { x: 0, y: 0, z: 0 },
                            V3 { x: 0, y: 0, z: 0 },
                            0,
                            0,
                        );
                        assert(false);
                    }
                    AABB { start: Vec3 { x: 0, y: 0, z: 0 }, end: Vec3 { x: 0, y: 0, z: 0 } }
                },
            };
            proof {
                first.lemma_hit_props(V3 { x: 0, y: 0, z: 0 }, V3 { x: 0, y: 0, z: 0 }, 0, 0);
                assert(snap =~= seq![snap[0]]);
            }
            self.objects.push(first);
            let lo_x = self.objects.len() - 1;
            self.nodes.push(BvhNode { bb, left: lo_x, right: 0, count: 1, lsize: 0 });
            proof {
                assert(self.objects@.subrange(lo, lo + 1) =~= seq![self.objects@[lo]]);
                assert(self.objects@.subrange(0, lo) =~= old(self).objects@);
                assert(self.nodes@.subrange(0, old(self).nodes@.len() as int) =~= old(
                    self,
                ).nodes@);
            }
            return self.nodes.len() - 1;
        }
        if sorted.len() == 2 {
            let ghost snap = sorted@;
            let second = sorted.pop().unwrap();
            let first = sorted.pop().unwrap();
            proof {
                first.lemma_hit_props(V3 { x: 0, y: 0, z: 0 }, V3 { x: 0, y: 0, z: 0 }, 0, 0);
                second.lemma_hit_props(V3 { x: 0, y: 0, z: 0 }, V3 { x: 0, y: 0, z: 0 }, 0, 0);
            }
            let bb1 = match first.bounding_box() {
                Some(b) => b,
                None => {
                    proof {
                        assert(false);
                    }
                    AABB { start: Vec3 { x: 0, y: 0, z: 0 }, end: Vec3 { x: 0, y: 0, z: 0 } }
                },
            };
            let bb2 = match second.bounding_box() {
                Some(b) => b,
                None => {
                    proof {
                        assert(false);
                    }
                    AABB { start: Vec3 { x: 0, y: 0, z: 0 }, end: Vec3 { x: 0, y: 0, z: 0 } }
                },
            };
            let bb = AABB::surrounding_box(&bb1, &bb2);
            proof {
                lemma_surround_contains(bb1.m(), bb2.m());
                assert(snap =~= seq![snap[0], snap[1]]);
            }
            self.objects.push(first);
            self.objects.push(second);
            let lo_x = self.objects.len() - 2;
            self.nodes.push(BvhNode { bb, left: lo_x, right: 0, count: 2, lsize: 0 });
            proof {
                assert(self.objects@.subrange(lo, lo + 2) =~= seq![
                    self.objects@[lo],
                    self.objects@[lo + 1],
                ]);
                assert(snap.to_multiset() =~= seq![snap[0], snap[1]].to_multiset());
                assert(self.objects@.subrange(lo, lo + 2).to_multiset() =~= snap.to_multiset());
                assert(self.objects@.subrange(0, lo) =~= old(self).objects@);
                assert(self.nodes@.subrange(0, old(self).nodes@.len() as int) =~= old(
                    self,
                ).nodes@);
            }
            return self.nodes.len() - 1;
        }

        // Split so that each half keeps an even count where possible.
        let len = sorted.len();
        let half = len / 2;
        let k = if half % 2 == 0 {
            half
        } else {
            half + 1
        };
        let ghost whole = sorted@;
        let mut right_list: Vec<T> = Vec::new();
        while sorted.len() > k
            invariant
                1 <= k < whole.len(),
                k <= sorted@.len() <= whole.len(),
                sorted@.len() + right_list@.len() == whole.len(),
                sorted@.to_multiset().add(right_list@.to_multiset()) == whole.to_multiset(),
                forall|j: int| 0 <= j < sorted@.len() ==> (#[trigger] sorted@[j]).wf(),
                forall|j: int| 0 <= j < right_list@.len() ==> (#[trigger] right_list@[j]).wf(),
            decreases sorted@.len(),
        {
            let ghost s_pre = sorted@;
            let ghost r_pre = right_list@;
            let x = sorted.pop().unwrap();
            right_list.push(x);
            proof {
                let e = s_pre[s_pre.len() - 1];
                assert(s_pre.contains(e));
                vstd::seq_lib::to_multiset_contains(s_pre, e);
                assert(sorted@ =~= s_pre.remove(s_pre.len() - 1));
                vstd::seq_lib::to_multiset_remove(s_pre, s_pre.len() - 1);
                vstd::seq_lib::to_multiset_build(r_pre, e);
                assert(right_list@ == r_pre.push(e));
                assert(sorted@.to_multiset().add(right_list@.to_multiset())
                    =~= whole.to_multiset());
            }
        }
        let ghost left_seq = sorted@;
        let ghost right_seq = right_list@;

        let ghost nodes0 = self.nodes@;
        let ghost objs0 = self.objects@;
        let li = self.add_node(sorted);
        let ghost nodes1 = self.nodes@;
        let ghost objs1 = self.objects@;
        let ghost mid = self.objects@.len() as int;
        let ri = self.add_node(right_list);
        proof {
            lemma_node_ok_frame(
                nodes1,
                objs1,
                self.nodes@,
                self.objects@,
                li as int,
                lo,
                mid,
            );
        }
        let bbl = self.nodes[li].bb;
        let bbr = self.nodes[ri].bb;
        let bb = AABB::surrounding_box(&bbl, &bbr);
        let lsize = k;
        let ghost pre_nodes = self.nodes@;
        self.nodes.push(BvhNode { bb, left: li, right: ri, count: 0, lsize });
        let idx = self.nodes.len() - 1;
        proof {
            let nodes2 = self.nodes@;
            let objs2 = self.objects@;
            let hi = objs2.len() as int;
            assert(nodes2 =~= pre_nodes.push(BvhNode { bb, left: li, right: ri, count: 0, lsize }));
            lemma_node_ok_frame(
                pre_nodes,
                objs2,
                nodes2,
                objs2,
                li as int,
                lo,
                mid,
            );
            lemma_node_ok_frame(
                pre_nodes,
                objs2,
                nodes2,
                objs2,
                ri as int,
                mid,
                hi,
            );
            lemma_surround_contains(bbl.m(), bbr.m());
            assert forall|j: int| lo <= j < hi implies box_contains_box(
                nodes2[idx as int].bb.m(),
                (#[trigger] objs2[j]).bbox_spec(),
            ) by {
                if j < mid {
                    lemma_contains_trans(bb.m(), bbl.m(), objs2[j].bbox_spec());
                } else {
                    lemma_contains_trans(bb.m(), bbr.m(), objs2[j].bbox_spec());
                }
            }
            assert(node_ok(nodes2, objs2, idx as int, lo, hi));
            // The stored objects are the two halves in order; together they
            // carry the same multiset as the original list.
            assert(objs2.subrange(lo, hi) =~= objs2.subrange(lo, mid) + objs2.subrange(mid, hi));
            lemma_multiset_commutative(objs2.subrange(lo, mid), objs2.subrange(mid, hi));
            assert(objs2.subrange(lo, mid) =~= objs1.subrange(lo, mid));
            assert(objs2.subrange(lo, hi).to_multiset() =~= whole.to_multiset());
            assert(self.objects@.subrange(0, lo) =~= old(self).objects@);
            assert(self.nodes@.subrange(0, old(self).nodes@.len() as int) =~= old(self).nodes@);
            assert forall|j: int| lo <= j < hi implies (#[trigger] objs2[j]).wf() by {
                if j < mid {
                    assert(objs2.subrange(0, mid as int) == objs1);
                    assert(objs1[j] == objs2[j]);
                }
            }
        }
        idx
    }

    /// The recursive traversal: prune at the node's box, delegate at leaves,
    /// and take the closer of the two children's results inside.
    fn hit_node(
        &self,
        idx: usize,
        ray: &Ray,
        t_min: i64,
        t_max: i64,
        Ghost(lo): Ghost<int>,
        Ghost(hi): Ghost<int>,
    ) -> (r: Option<HitResult>)
        requires
            node_ok(self.nodes@, self.objects@, idx as int, lo, hi),
            forall|j: int| 0 <= j < self.objects@.len() ==> (#[trigger] self.objects@[j]).wf(),
            ray_wf(*ray),
        ensures
            opt_hit_matches(
                r,
                first_hit(
                    self.objects@.subrange(lo, hi),
                    ray.origin.m(),
                    ray.direction.m(),
                    t_min as int,
                    t_max as int,
                ),
            ),
        decreases hi - lo,
    {
        let ghost o = ray.origin.m();
        let ghost d = ray.direction.m();
        let ghost sub = self.objects@.subrange(lo, hi);
        let node = self.nodes[idx];

        // Prune: if the ray misses the node's box it misses everything the
        // box contains, because each object's hit implies its own slab test
        // and the node's box contains the object's box.
        if node.bb.hit(ray, t_min, t_max).is_none() {
            proof {
                assert forall|j: int| 0 <= j < sub.len() implies (#[trigger] sub[j]).hit_spec(
                    o,
                    d,
                    t_min as int,
                    t_max as int,
                ) is None by {
                    let obj = self.objects@[lo + j];
                    obj.lemma_hit_props(o, d, t_min as int, t_max as int);
                    if obj.hit_spec(o, d, t_min as int, t_max as int) is Some {
                        lemma_slab_monotone(
                            obj.bbox_spec(),
                            node.bb.m(),
                            o,
                            d,
                            t_min as int,
                            t_max as int,
                        );
                    }
                }
                lemma_first_hit_none(sub, o, d, t_min as int, t_max as int);
            }
            return None;
        }

        if node.count == 1 {
            let r = self.objects[node.left].hit(ray, t_min, t_max);
            proof {
                assert(sub.len() == 1);
                assert(sub[0] == self.objects@[lo]);
                assert(sub.drop_first() =~= Seq::<T>::empty());
                assert(first_hit(Seq::<T>::empty(), o, d, t_min as int, t_max as int) is None);
            }
            return r;
        }
        if node.count == 2 {
            let n_objs = self.objects.len();
            proof {
                assert(node.left as int == lo && hi - lo == 2 && hi <= n_objs);
            }
            let lh = self.objects[node.left].hit(ray, t_min, t_max);
            let rh = self.objects[node.left + 1].hit(ray, t_min, t_max);
            proof {
                assert(sub.len() == 2);
                assert(sub[0] == self.objects@[lo]);
                assert(sub.drop_first() =~= seq![self.objects@[lo + 1]]);
                assert(sub.drop_first()[0] == self.objects@[lo + 1]);
                assert(sub.drop_first().drop_first() =~= Seq::<T>::empty());
                assert(first_hit(Seq::<T>::empty(), o, d, t_min as int, t_max as int) is None);
            }
            return closer_exec(lh, rh);
        }

        let ghost mid = lo + node.lsize;
        let lh = self.hit_node(node.left, ray, t_min, t_max, Ghost(lo), Ghost(mid));
        let rh = self.hit_node(node.right, ray, t_min, t_max, Ghost(mid), Ghost(hi));
        proof {
            lemma_first_hit_concat(
                self.objects@.subrange(lo, mid),
                self.objects@.subrange(mid, hi),
                o,
                d,
                t_min as int,
                t_max as int,
            );
            assert(sub =~= self.objects@.subrange(lo, mid) + self.objects@.subrange(mid, hi));
        }
        closer_exec(lh, rh)
    }
}

/// The closer of two optional hits, ties to the second.
fn closer_exec(a: Option<HitResult>, b: Option<HitResult>) -> (r: Option<HitResult>)
    ensures
        opt_m(r) == closer_hit(opt_m(a), opt_m(b)),
{
    match (a, b) {
        (Some(x), Some(y)) => {
            if x.ray_param < y.ray_param {
                Some(x)
            } else {
                Some(y)
            }
        },
        (Some(x), None) => Some(x),
        (None, y) => y,
    }
}

impl<T: Hit> Hit for BvhTree<T> {
    open spec fn wf(&self) -> bool {
        tree_wf(*self)
    }

    open spec fn bbox_spec(&self) -> B3 {
        self.nodes@[self.root as int].bb.m()
    }

    open spec fn hit_spec(&self, o: V3, d: V3, tmin: int, tmax: int) -> Option<HitG> {
        first_hit(self.objects@, o, d, tmin, tmax)
    }

    open spec fn center_spec(&self) -> V3 {
        box_center(self.nodes@[self.root as int].bb.m())
    }

    proof fn lemma_hit_props(&self, o: V3, d: V3, tmin: int, tmax: int) {
        lemma_first_hit_props(self.objects@, o, d, tmin, tmax);
        match first_hit(self.objects@, o, d, tmin, tmax) {
            Some(h) => {
                let j = choose|j: int|
                    0 <= j < self.objects@.len() && #[trigger] self.objects@[j].hit_spec(
                        o,
                        d,
                        tmin,
                        tmax,
                    ) == Some(h);
                self.objects@[j].lemma_hit_props(o, d, tmin, tmax);
                lemma_slab_monotone(
                    self.objects@[j].bbox_spec(),
                    self.nodes@[self.root as int].bb.m(),
                    o,
                    d,
                    tmin,
                    tmax,
                );
            },
            None => {},
        }
    }

    /// Queries the hierarchy for the nearest hit: provably the same answer
    /// as testing every object one by one and keeping the closest.
    fn hit(&self, ray: &Ray, t_min: i64, t_max: i64) -> (r: Option<HitResult>) {
        let r = self.hit_node(
            self.root,
            ray,
            t_min,
            t_max,
            Ghost(0),
            Ghost(self.objects@.len() as int),
        );
        proof {
            assert(self.objects@.subrange(0, self.objects@.len() as int) =~= self.objects@);
        }
        r
    }

    fn bounding_box(&self) -> (r: Option<AABB>) {
        Some(self.nodes[self.root].bb)
    }

    fn center(&self) -> (r: Vec3) {
        self.nodes[self.root].bb.center()
    }
}

impl<T: Hit> BvhTree<T> {
    /// The left child of an internal node.
    pub fn get_left_node_index(&self, idx: usize) -> (r: usize)
        requires
            idx < self.nodes@.len(),
            self.nodes@[idx as int].count == 0,
        ensures
            r == self.nodes@[idx as int].left,
    {
        self.nodes[idx].left
    }

    /// The right child of an internal node.
    pub fn get_right_node_index(&self, idx: usize) -> (r: usize)
        requires
            idx < self.nodes@.len(),
            self.nodes@[idx as int].count == 0,
        ensures
            r == self.nodes@[idx as int].right,
    {
        self.nodes[idx].right
    }
}

/// Sorts the objects by their centroid along the given axis, by repeatedly
/// extracting the least; only the multiset of objects matters to the
/// index's answers, the order matters to its speed.
fn sort_by_centroid<T: Hit>(list: Vec<T>, axis: Axis) -> (r: Vec<T>)
    requires
        forall|j: int| 0 <= j < list@.len() ==> (#[trigger] list@[j]).wf(),
    ensures
        r@.to_multiset() == list@.to_multiset(),
        r@.len() == list@.len(),
        forall|j: int| 0 <= j < r@.len() ==> (#[trigger] r@[j]).wf(),
{
    broadcast use vstd::seq_lib::group_to_multiset_ensures, vstd::multiset::group_multiset_axioms;

    let ghost orig = list@;
    let mut src = list;
    let mut out: Vec<T> = Vec::new();
    while src.len() > 0
        invariant
            out@.to_multiset().add(src@.to_multiset()) == orig.to_multiset(),
            out@.len() + src@.len() == orig.len(),
            forall|j: int| 0 <= j < src@.len() ==> (#[trigger] src@[j]).wf(),
            forall|j: int| 0 <= j < out@.len() ==> (#[trigger] out@[j]).wf(),
        decreases src@.len(),
    {
        let mut best: usize = 0;
        let mut best_key = axis_key(&src[0], axis);
        let mut i: usize = 1;
        while i < src.len()
            invariant
                0 <= best < i <= src@.len(),
                src@.len() > 0,
                forall|j: int| 0 <= j < src@.len() ==> (#[trigger] src@[j]).wf(),
            decreases src@.len() - i,
        {
            let key = axis_key(&src[i], axis);
            if key < best_key {
                best = i;
                best_key = key;
            }
            i = i + 1;
        }
        let ghost s_pre = src@;
        let ghost o_pre = out@;
        let x = src.remove(best);
        out.push(x);
        proof {
            let e = s_pre[best as int];
            assert(s_pre.contains(e));
            vstd::seq_lib::to_multiset_contains(s_pre, e);
            vstd::seq_lib::to_multiset_remove(s_pre, best as int);
            assert(src@ == s_pre.remove(best as int));
            vstd::seq_lib::to_multiset_build(o_pre, e);
            assert(out@ == o_pre.push(e));
            assert(out@.to_multiset().add(src@.to_multiset()) =~= orig.to_multiset());
        }
    }
    out
}

/// One coordinate of an object's centroid.
fn axis_key<T: Hit>(obj: &T, axis: Axis) -> (r: i64)
    requires
        obj.wf(),
{
    let c = obj.center();
    match axis {
        Axis::X => c.x,
        Axis::Y => c.y,
        Axis::Z => c.z,
    }
}


/// An executable check of the box invariant, for diagnostic entry points
/// that take untrusted node indices.
fn box_ok_exec(b: &AABB) -> (r: bool)
    ensures
        r == box_wf(b.m()),
{
    let c = crate::num::COORD_MAX;
    b.start.x <= b.end.x && b.start.y <= b.end.y && b.start.z <= b.end.z && -c <= b.start.x
        && b.start.x <= c && -c <= b.start.y && b.start.y <= c && -c <= b.start.z && b.start.z <= c
        && -c <= b.end.x && b.end.x <= c && -c <= b.end.y && b.end.y <= c && -c <= b.end.z
        && b.end.z <= c
}


/// The diagnostic colors: full red, green and blue on the fixed-point grid.
pub open spec fn debug_red() -> V3 {
    V3 { x: FP_ONE as int, y: 0, z: 0 }
}

pub open spec fn debug_green() -> V3 {
    V3 { x: 0, y: FP_ONE as int, z: 0 }
}

pub open spec fn debug_blue() -> V3 {
    V3 { x: 0, y: 0, z: FP_ONE as int }
}

/// The diagnostic depth channel: the inverse of a positive hit parameter,
/// zero otherwise.
pub open spec fn inv_depth(t: int) -> int {
    if t <= 0 {
        0
    } else {
        crate::num::tdiv((FP_ONE as int) * (FP_ONE as int), t)
    }
}

/// A probe of a bare box: its slab entry parameter, with no normal.
pub open spec fn probe_of_box(b: B3, o: V3, d: V3, tmin: int, tmax: int) -> Option<(int, V3)> {
    if slab_passes(b, o, d, tmin, tmax) {
        Some((crate::aabb::slab_entry(b, o, d, tmin), V3 { x: 0, y: 0, z: 0 }))
    } else {
        None
    }
}

/// A probe of one object: its hit parameter and normal.
pub open spec fn probe_of_obj<T: Hit>(
    objs: Seq<T>,
    i: int,
    o: V3,
    d: V3,
    tmin: int,
    tmax: int,
) -> Option<(int, V3)> {
    match objs[i].hit_spec(o, d, tmin, tmax) {
        Some(h) => Some((h.t, h.normal)),
        None => None,
    }
}

/// What the two sides below a probed node answer: child boxes for an
/// internal node, the one or two objects for a leaf; out-of-range or
/// malformed references answer nothing.
pub open spec fn debug_probes<T: Hit>(
    t: BvhTree<T>,
    idx: int,
    o: V3,
    d: V3,
    tmin: int,
    tmax: int,
) -> (Option<(int, V3)>, Option<(int, V3)>) {
    let node = t.nodes@[idx];
    if node.count == 0 {
        if node.left >= t.nodes@.len() || node.right >= t.nodes@.len() {
            (None, None)
        } else {
            let lb = t.nodes@[node.left as int].bb.m();
            let rb = t.nodes@[node.right as int].bb.m();
            (
                if box_wf(lb) {
                    probe_of_box(lb, o, d, tmin, tmax)
                } else {
                    None
                },
                if box_wf(rb) {
                    probe_of_box(rb, o, d, tmin, tmax)
                } else {
                    None
                },
            )
        }
    } else if node.count == 1 {
        if node.left >= t.objects@.len() {
            (None, None)
        } else {
            (probe_of_obj(t.objects@, node.left as int, o, d, tmin, tmax), None)
        }
    } else {
        if node.left >= t.objects@.len() || node.left as int + 1 >= t.objects@.len() {
            (None, None)
        } else {
            (
                probe_of_obj(t.objects@, node.left as int, o, d, tmin, tmax),
                probe_of_obj(t.objects@, node.left as int + 1, o, d, tmin, tmax),
            )
        }
    }
}

/// The whole diagnostic view of one node: black for a bad probe or a missed
/// box, red for a hit box whose sides both miss, green when the left side
/// answers closer, blue when the right does; the normal and inverse depth
/// come from the winning side.
pub open spec fn debug_view<T: Hit>(
    t: BvhTree<T>,
    idx: int,
    o: V3,
    d: V3,
    tmin: int,
    tmax: int,
) -> (V3, V3, V3, int) {
    let zero = V3 { x: 0, y: 0, z: 0 };
    if idx >= t.nodes@.len() {
        (zero, zero, zero, 0)
    } else {
        let bb = t.nodes@[idx].bb.m();
        if !box_wf(bb) {
            (zero, zero, zero, 0)
        } else if !slab_passes(bb, o, d, tmin, tmax) {
            (zero, zero, zero, 0)
        } else {
            match debug_probes(t, idx, o, d, tmin, tmax) {
                (Some(lh), Some(rh)) => if lh.0 < rh.0 {
                    (debug_green(), debug_green(), lh.1, inv_depth(lh.0))
                } else {
                    (debug_blue(), debug_blue(), rh.1, inv_depth(rh.0))
                },
                (Some(lh), None) => (debug_green(), debug_green(), lh.1, inv_depth(lh.0)),
                (None, Some(rh)) => (debug_blue(), debug_blue(), rh.1, inv_depth(rh.0)),
                (None, None) => (
                    debug_red(),
                    debug_red(),
                    zero,
                    inv_depth(crate::aabb::slab_entry(bb, o, d, tmin)),
                ),
            }
        }
    }
}

impl<T: Hit> BvhTree<T> {
    /// A diagnostic view of one node: red where the node's box is hit, green
    /// or blue for whichever side below answers closer, black where the ray
    /// misses; the depth channel carries the inverse hit parameter. Any node
    /// index may be probed; malformed probes yield black.
    pub fn debug_hit(&self, idx: usize, ray: &Ray, t_min: i64, t_max: i64) -> (r: (
        Vec3,
        Vec3,
        Vec3,
        i64,
    ))
        requires
            tree_wf(*self),
            ray_wf(*ray),
        ensures
            (r.0.m(), r.1.m(), r.2.m(), r.3 as int) == debug_view(
                *self,
                idx as int,
                ray.origin.m(),
                ray.direction.m(),
                t_min as int,
                t_max as int,
            ),
            in_coord_range(r.0.m()),
            in_coord_range(r.1.m()),
            in_coord_range(r.2.m()),
            0 <= r.3,
    {
        let black = Vec3 { x: 0, y: 0, z: 0 };
        if idx >= self.nodes.len() {
            return (black, black, black, 0);
        }
        let node = self.nodes[idx];
        if !box_ok_exec(&node.bb) {
            return (black, black, black, 0);
        }
        let root_hit = node.bb.hit(ray, t_min, t_max);
        let (mut color, mut albedo, mut normal, mut depth) = match root_hit {
            Some(span) => {
                (Vec3::rgb(255, 0, 0), Vec3::rgb(255, 0, 0), black, inv_param(span.0))
            },
            None => (black, black, black, 0),
        };
        if root_hit.is_none() {
            return (color, albedo, normal, depth);
        }
        // Ask the two sides below this node which answers closer.
        let (left_hit, right_hit): (Option<(i64, Vec3)>, Option<(i64, Vec3)>) = if node.count == 0 {
            if node.left >= self.nodes.len() || node.right >= self.nodes.len() {
                (None, None)
            } else {
                let lb = self.nodes[node.left].bb;
                let rb = self.nodes[node.right].bb;
                let lh = if box_ok_exec(&lb) {
                    match lb.hit(ray, t_min, t_max) {
                        Some(span) => Some((span.0, black)),
                        None => None,
                    }
                } else {
                    None
                };
                let rh = if box_ok_exec(&rb) {
                    match rb.hit(ray, t_min, t_max) {
                        Some(span) => Some((span.0, black)),
                        None => None,
                    }
                } else {
                    None
                };
                (lh, rh)
            }
        } else if node.count == 1 {
            if node.left >= self.objects.len() {
                (None, None)
            } else {
                (obj_probe(&self.objects, node.left, ray, t_min, t_max), None)
            }
        } else {
            if node.left >= self.objects.len() || node.left + 1 >= self.objects.len() {
                (None, None)
            } else {
                (
                    obj_probe(&self.objects, node.left, ray, t_min, t_max),
                    obj_probe(&self.objects, node.left + 1, ray, t_min, t_max),
                )
            }
        };
        match (left_hit, right_hit) {
            (Some(lh), Some(rh)) => {
                if lh.0 < rh.0 {
                    color = Vec3::rgb(0, 255, 0);
                    albedo = color;
                    normal = lh.1;
                    depth = inv_param(lh.0);
                } else {
                    color = Vec3::rgb(0, 0, 255);
                    albedo = color;
                    normal = rh.1;
                    depth = inv_param(rh.0);
                }
            },
            (Some(lh), None) => {
                color = Vec3::rgb(0, 255, 0);
                albedo = color;
                normal = lh.1;
                depth = inv_param(lh.0);
            },
            (None, Some(rh)) => {
                color = Vec3::rgb(0, 0, 255);
                albedo = color;
                normal = rh.1;
                depth = inv_param(rh.0);
            },
            (None, None) => {},
        }
        (color, albedo, normal, depth)
    }
}

/// The hit parameter and normal of one object, for the diagnostic view.
fn obj_probe<T: Hit>(objects: &Vec<T>, i: usize, ray: &Ray, t_min: i64, t_max: i64) -> (r: Option<
    (i64, Vec3),
>)
    requires
        i < objects@.len(),
        (objects@[i as int]).wf(),
        ray_wf(*ray),
    ensures
        match (
            r,
            probe_of_obj(
                objects@,
                i as int,
                ray.origin.m(),
                ray.direction.m(),
                t_min as int,
                t_max as int,
            ),
        ) {
            (Some(p), Some(q)) => p.0 == q.0 && p.1.m() == q.1 && in_coord_range(p.1.m()),
            (None, None) => true,
            _ => false,
        },
{
    proof {
        objects@[i as int].lemma_hit_props(
            ray.origin.m(),
            ray.direction.m(),
            t_min as int,
            t_max as int,
        );
    }
    match objects[i].hit(ray, t_min, t_max) {
        Some(h) => Some((h.ray_param, h.normal)),
        None => None,
    }
}

/// The inverse of a positive hit parameter, the diagnostic depth channel.
fn inv_param(t: i64) -> (r: i64)
    ensures
        r == inv_depth(t as int),
        0 <= r,
{
    if t <= 0 {
        return 0;
    }
    proof {
        crate::num::lemma_mul_abs_bound(
            crate::num::FP_ONE as int,
            crate::num::FP_ONE as int,
            crate::num::FP_ONE as int,
            crate::num::FP_ONE as int,
        );
        crate::num::lemma_tdiv_bounds(
            crate::num::FP_ONE as int * crate::num::FP_ONE as int,
            t as int,
        );
    }
    crate::num::div_i128(
        (crate::num::FP_ONE as i128) * (crate::num::FP_ONE as i128),
        t as i128,
    ) as i64
}

} // verus!
