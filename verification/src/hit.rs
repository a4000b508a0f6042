use vstd::prelude::*;

verus! {

use std::sync::Arc;
use crate::vec3::Vec3;
use crate::vec3::V3;
use crate::vec3::in_coord_range;
use crate::ray::Ray;
use crate::ray::ray_wf;
use crate::aabb::AABB;
use crate::aabb::B3;
use crate::aabb::box_wf;
use crate::aabb::slab_passes;
use crate::material::Material;

/// The outcome of one successful ray/surface intersection.
#[derive(Clone, Debug)]
pub struct HitResult {
    /// The distance along the ray, in fixed-point units.
    pub ray_param: i64,
    /// The point the ray met the surface at.
    pub hit_position: Vec3,
    /// The surface normal there; not guaranteed unit length.
    pub normal: Vec3,
    /// The material of the surface; absent for pure bounding volumes.
    pub material: Option<Arc<Material>>,
    /// Texture coordinates, when the surface carries them.
    pub uv_coords: Option<(i64, i64)>,
}

/// The mathematical value of a hit.
pub struct HitG {
    pub t: int,
    pub pos: V3,
    pub normal: V3,
    pub mat: Option<Material>,
    pub uv: Option<(int, int)>,
}

impl HitResult {
    /// The mathematical model of this hit.
    pub open spec fn m(self) -> HitG {
        HitG {
            t: self.ray_param as int,
            pos: self.hit_position.m(),
            normal: self.normal.m(),
            mat: match self.material {
                Some(m) => Some(*m),
                None => None,
            },
            uv: match self.uv_coords {
                Some(uv) => Some((uv.0 as int, uv.1 as int)),
                None => None,
            },
        }
    }
}

/// The model of an optional hit.
pub open spec fn opt_m(r: Option<HitResult>) -> Option<HitG> {
    match r {
        Some(h) => Some(h.m()),
        None => None,
    }
}

/// An executable hit agrees with a specified one.
pub open spec fn opt_hit_matches(r: Option<HitResult>, g: Option<HitG>) -> bool {
    opt_m(r) == g
}

/// Anything a ray can be tested against: the intersection contract shared by
/// every primitive and by the spatial index itself.
pub trait Hit: Sized {
    /// The object's structural invariant.
    spec fn wf(&self) -> bool;

    /// The box the whole object lies in.
    spec fn bbox_spec(&self) -> B3;

    /// What `hit` returns, as a function of the ray and the query window.
    spec fn hit_spec(&self, o: V3, d: V3, tmin: int, tmax: int) -> Option<HitG>;

    /// Where the object's centroid lies (used only as a BVH sort key).
    spec fn center_spec(&self) -> V3;

    /// The bounding box is well formed, and a hit is only ever reported
    /// within the query window and when the slab test of the bounding box
    /// passes: the box test never gives a false negative. Every reported hit
    /// carries a well-formed material, texture coordinates, and a position
    /// and normal within coordinate range.
    proof fn lemma_hit_props(&self, o: V3, d: V3, tmin: int, tmax: int)
        requires
            self.wf(),
        ensures
            box_wf(self.bbox_spec()),
            match self.hit_spec(o, d, tmin, tmax) {
                Some(h) => {
                    &&& slab_passes(self.bbox_spec(), o, d, tmin, tmax)
                    &&& tmin <= h.t <= tmax
                    &&& h.mat is Some
                    &&& crate::material::material_wf(h.mat->Some_0)
                    &&& h.uv is Some
                    &&& in_coord_range(h.pos)
                    &&& in_coord_range(h.normal)
                },
                None => true,
            },
    ;

    /// The nearest intersection of the ray with this object within the
    /// window `[t_min, t_max]`, or `None`.
    fn hit(&self, ray: &Ray, t_min: i64, t_max: i64) -> (r: Option<HitResult>)
        requires
            self.wf(),
            ray_wf(*ray),
        ensures
            opt_hit_matches(
                r,
                self.hit_spec(ray.origin.m(), ray.direction.m(), t_min as int, t_max as int),
            ),
    ;

    /// The bounding box of this object. `None` never comes from the shapes
    /// of this crate; the option mirrors unbounded objects.
    fn bounding_box(&self) -> (r: Option<AABB>)
        requires
            self.wf(),
        ensures
            match r {
                Some(b) => b.m() == self.bbox_spec(),
                None => false,
            },
    ;

    /// The centroid, the BVH's sort key.
    fn center(&self) -> (r: Vec3)
        requires
            self.wf(),
        ensures
            r.m() == self.center_spec(),
    ;
}

/// The closer of two optional hits; on a tie the second wins, as the
/// index's traversal decides ties toward the later subtree.
pub open spec fn closer_hit(a: Option<HitG>, b: Option<HitG>) -> Option<HitG> {
    match (a, b) {
        (Some(x), Some(y)) => if x.t < y.t {
            Some(x)
        } else {
            Some(y)
        },
        (Some(x), None) => a,
        (None, _) => b,
    }
}

/// The nearest hit of a ray over a sequence of objects, tested one by one:
/// the reference the spatial index is proved against.
pub open spec fn first_hit<T: Hit>(xs: Seq<T>, o: V3, d: V3, tmin: int, tmax: int) -> Option<HitG>
    decreases xs.len(),
{
    if xs.len() == 0 {
        None
    } else {
        closer_hit(xs[0].hit_spec(o, d, tmin, tmax), first_hit(xs.drop_first(), o, d, tmin, tmax))
    }
}

/// Taking the closer hit is associative.
pub proof fn lemma_closer_assoc(a: Option<HitG>, b: Option<HitG>, c: Option<HitG>)
    ensures
        closer_hit(closer_hit(a, b), c) == closer_hit(a, closer_hit(b, c)),
{
}

/// The nearest hit over a concatenation is the closer of the two halves'
/// nearest hits.
pub proof fn lemma_first_hit_concat<T: Hit>(
    xs: Seq<T>,
    ys: Seq<T>,
    o: V3,
    d: V3,
    tmin: int,
    tmax: int,
)
    ensures
        first_hit(xs + ys, o, d, tmin, tmax) == closer_hit(
            first_hit(xs, o, d, tmin, tmax),
            first_hit(ys, o, d, tmin, tmax),
        ),
    decreases xs.len(),
{
    if xs.len() == 0 {
        assert(xs + ys =~= ys);
    } else {
        assert((xs + ys).drop_first() =~= xs.drop_first() + ys);
        lemma_first_hit_concat(xs.drop_first(), ys, o, d, tmin, tmax);
        lemma_closer_assoc(
            xs[0].hit_spec(o, d, tmin, tmax),
            first_hit(xs.drop_first(), o, d, tmin, tmax),
            first_hit(ys, o, d, tmin, tmax),
        );
    }
}

/// When no object in the sequence is hit, the nearest hit is `None`.
pub proof fn lemma_first_hit_none<T: Hit>(xs: Seq<T>, o: V3, d: V3, tmin: int, tmax: int)
    requires
        forall|j: int| 0 <= j < xs.len() ==> #[trigger] xs[j].hit_spec(o, d, tmin, tmax) is None,
    ensures
        first_hit(xs, o, d, tmin, tmax) is None,
    decreases xs.len(),
{
    if xs.len() > 0 {
        lemma_first_hit_none(xs.drop_first(), o, d, tmin, tmax);
    }
}

/// A nearest hit lies within the query window, and some object yields it.
pub proof fn lemma_first_hit_props<T: Hit>(xs: Seq<T>, o: V3, d: V3, tmin: int, tmax: int)
    requires
        forall|j: int| 0 <= j < xs.len() ==> (#[trigger] xs[j]).wf(),
    ensures
        match first_hit(xs, o, d, tmin, tmax) {
            Some(h) => {
                &&& tmin <= h.t <= tmax
                &&& h.mat is Some
                &&& crate::material::material_wf(h.mat->Some_0)
                &&& h.uv is Some
                &&& in_coord_range(h.pos)
                &&& in_coord_range(h.normal)
                &&& exists|j: int|
                    0 <= j < xs.len() && #[trigger] xs[j].hit_spec(o, d, tmin, tmax) == Some(h)
            },
            None => true,
        },
    decreases xs.len(),
{
    if xs.len() > 0 {
        xs[0].lemma_hit_props(o, d, tmin, tmax);
        lemma_first_hit_props(xs.drop_first(), o, d, tmin, tmax);
        match first_hit(xs, o, d, tmin, tmax) {
            Some(h) => {
                if xs[0].hit_spec(o, d, tmin, tmax) == Some(h) {
                    assert(xs[0].hit_spec(o, d, tmin, tmax) == Some(h));
                } else {
                    let rest = first_hit(xs.drop_first(), o, d, tmin, tmax);
                    assert(rest == Some(h));
                    let j = choose|j: int|
                        0 <= j < xs.drop_first().len() && #[trigger] xs.drop_first()[j].hit_spec(
                            o,
                            d,
                            tmin,
                            tmax,
                        ) == Some(h);
                    assert(xs[j + 1].hit_spec(o, d, tmin, tmax) == Some(h));
                }
            },
            None => {},
        }
    }
}

/// The nearest hit of a ray against a list of objects, by testing each in
/// turn and keeping the closest.
pub fn hit_list<T: Hit>(objects: &Vec<T>, ray: &Ray, t_min: i64, t_max: i64) -> (r: Option<
    HitResult,
>)
    requires
        forall|j: int| 0 <= j < objects@.len() ==> (#[trigger] objects@[j]).wf(),
        ray_wf(*ray),
    ensures
        opt_hit_matches(
            r,
            first_hit(objects@, ray.origin.m(), ray.direction.m(), t_min as int, t_max as int),
        ),
{
    let ghost o = ray.origin.m();
    let ghost d = ray.direction.m();
    let mut best: Option<HitResult> = None;
    let mut i: usize = 0;
    proof {
        assert(objects@.skip(0) =~= objects@);
    }
    while i < objects.len()
        invariant
            0 <= i <= objects@.len(),
            forall|j: int| 0 <= j < objects@.len() ==> (#[trigger] objects@[j]).wf(),
            ray_wf(*ray),
            o == ray.origin.m(),
            d == ray.direction.m(),
            closer_hit(
                opt_m(best),
                first_hit(objects@.skip(i as int), o, d, t_min as int, t_max as int),
            ) == first_hit(objects@, o, d, t_min as int, t_max as int),
        decreases objects@.len() - i,
    {
        let ghost rest = objects@.skip(i as int);
        assert(rest[0] == objects@[i as int]);
        assert(rest.drop_first() =~= objects@.skip(i as int + 1));
        let h = objects[i].hit(ray, t_min, t_max);
        proof {
            lemma_closer_assoc(
                opt_m(best),
                objects@[i as int].hit_spec(o, d, t_min as int, t_max as int),
                first_hit(objects@.skip(i as int + 1), o, d, t_min as int, t_max as int),
            );
        }
        match h {
            Some(hh) => {
                match &best {
                    Some(b) => {
                        if !(b.ray_param < hh.ray_param) {
                            best = Some(hh);
                        }
                    },
                    None => {
                        best = Some(hh);
                    },
                }
            },
            None => {},
        }
        i = i + 1;
    }
    proof {
        assert(objects@.skip(objects@.len() as int) =~= Seq::<T>::empty());
    }
    best
}

/// The per-axis min/max fold of a nonempty run of object boxes: the first
/// box, surrounded in turn by each later one.
pub open spec fn boxes_union<T: Hit>(xs: Seq<T>) -> B3
    recommends
        xs.len() > 0,
    decreases xs.len(),
{
    if xs.len() <= 1 {
        xs[0].bbox_spec()
    } else {
        crate::aabb::surround(boxes_union(xs.drop_last()), xs.last().bbox_spec())
    }
}

/// The bounding box of a whole list of objects: exactly the fold of their
/// boxes' per-axis minima and maxima. An empty list has no box.
pub fn bounding_box_of<T: Hit>(objects: &Vec<T>) -> (r: Option<AABB>)
    requires
        forall|j: int| 0 <= j < objects@.len() ==> (#[trigger] objects@[j]).wf(),
    ensures
        objects@.len() == 0 <==> r is None,
        match r {
            Some(b) => {
                &&& b.m() == boxes_union(objects@)
                &&& box_wf(b.m())
                &&& forall|j: int|
                    0 <= j < objects@.len() ==> crate::aabb::box_contains_box(
                        b.m(),
                        (#[trigger] objects@[j]).bbox_spec(),
                    )
            },
            None => true,
        },
{
    if objects.len() == 0 {
        return None;
    }
    proof {
        objects@[0].lemma_hit_props(
            V3 { x: 0, y: 0, z: 0 },
            V3 { x: 0, y: 0, z: 0 },
            0,
            0,
        );
    }
    let first = objects[0].bounding_box();
    let mut bb = first.unwrap();
    let mut i: usize = 1;
    proof {
        assert(objects@.take(1)[0] == objects@[0]);
    }
    while i < objects.len()
        invariant
            1 <= i <= objects@.len(),
            forall|j: int| 0 <= j < objects@.len() ==> (#[trigger] objects@[j]).wf(),
            box_wf(bb.m()),
            bb.m() == boxes_union(objects@.take(i as int)),
            forall|j: int|
                0 <= j < i ==> crate::aabb::box_contains_box(
                    bb.m(),
                    (#[trigger] objects@[j]).bbox_spec(),
                ),
        decreases objects@.len() - i,
    {
        proof {
            assert(objects@.take(i as int + 1).drop_last() =~= objects@.take(i as int));
            assert(objects@.take(i as int + 1).last() == objects@[i as int]);
        }
        proof {
            objects@[i as int].lemma_hit_props(
                V3 { x: 0, y: 0, z: 0 },
                V3 { x: 0, y: 0, z: 0 },
                0,
                0,
            );
        }
        let next = objects[i].bounding_box();
        let nb = next.unwrap();
        proof {
            crate::aabb::lemma_surround_contains(bb.m(), nb.m());
            let sb = crate::aabb::surround(bb.m(), nb.m());
            assert forall|j: int| 0 <= j < i + 1 implies crate::aabb::box_contains_box(
                sb,
                (#[trigger] objects@[j]).bbox_spec(),
            ) by {
                if j < i {
                    crate::aabb::lemma_contains_trans(sb, bb.m(), objects@[j].bbox_spec());
                } else {
                    crate::aabb::lemma_contains_trans(sb, nb.m(), objects@[j].bbox_spec());
                }
            }
        }
        bb = AABB::surrounding_box(&bb, &nb);
        i = i + 1;
    }
    proof {
        assert(objects@.take(objects@.len() as int) =~= objects@);
    }
    Some(bb)
}


/// The nearest hit is minimal: no object in the sequence is hit at a
/// smaller parameter, and if any object is hit at all there is a nearest
/// hit.
pub proof fn lemma_first_hit_min<T: Hit>(xs: Seq<T>, o: V3, d: V3, tmin: int, tmax: int)
    ensures
        forall|j: int|
            0 <= j < xs.len() ==> match (
                #[trigger] xs[j].hit_spec(o, d, tmin, tmax),
                first_hit(xs, o, d, tmin, tmax),
            ) {
                (Some(hj), Some(h)) => h.t <= hj.t,
                (Some(hj), None) => false,
                _ => true,
            },
    decreases xs.len(),
{
    if xs.len() > 0 {
        lemma_first_hit_min(xs.drop_first(), o, d, tmin, tmax);
        assert forall|j: int| 0 <= j < xs.len() implies match (
            #[trigger] xs[j].hit_spec(o, d, tmin, tmax),
            first_hit(xs, o, d, tmin, tmax),
        ) {
            (Some(hj), Some(h)) => h.t <= hj.t,
            (Some(hj), None) => false,
            _ => true,
        } by {
            if j > 0 {
                assert(xs.drop_first()[j - 1] == xs[j]);
            }
        }
    }
}

/// The law of the finalized index (seen through the brute-force reference):
/// the nearest hit parameter does not depend on the order the objects were
/// inserted in. Two sequences holding the same objects agree on whether a
/// ray hits, and at which parameter.
pub proof fn lemma_first_hit_order_invariant<T: Hit>(
    xs: Seq<T>,
    ys: Seq<T>,
    o: V3,
    d: V3,
    tmin: int,
    tmax: int,
)
    requires
        xs.to_multiset() == ys.to_multiset(),
    ensures
        match (first_hit(xs, o, d, tmin, tmax), first_hit(ys, o, d, tmin, tmax)) {
            (Some(a), Some(b)) => a.t == b.t,
            (None, None) => true,
            _ => false,
        },
{
    broadcast use vstd::seq_lib::group_to_multiset_ensures;

    lemma_first_hit_min(xs, o, d, tmin, tmax);
    lemma_first_hit_min(ys, o, d, tmin, tmax);
    lemma_first_hit_some_transfer(xs, ys, o, d, tmin, tmax);
    lemma_first_hit_some_transfer(ys, xs, o, d, tmin, tmax);
}

/// Half of the order-invariance argument: a hit in one sequence bounds the
/// other's nearest hit from above.
proof fn lemma_first_hit_some_transfer<T: Hit>(
    xs: Seq<T>,
    ys: Seq<T>,
    o: V3,
    d: V3,
    tmin: int,
    tmax: int,
)
    requires
        xs.to_multiset() == ys.to_multiset(),
    ensures
        match first_hit(xs, o, d, tmin, tmax) {
            Some(a) => match first_hit(ys, o, d, tmin, tmax) {
                Some(b) => b.t <= a.t,
                None => false,
            },
            None => true,
        },
{
    broadcast use vstd::seq_lib::group_to_multiset_ensures;

    lemma_first_hit_min(ys, o, d, tmin, tmax);
    match first_hit(xs, o, d, tmin, tmax) {
        Some(a) => {
            lemma_first_hit_witness(xs, o, d, tmin, tmax);
            let i = choose|i: int|
                0 <= i < xs.len() && #[trigger] xs[i].hit_spec(o, d, tmin, tmax) == Some(a);
            assert(xs.contains(xs[i]));
            assert(xs.to_multiset().count(xs[i]) > 0);
            assert(ys.to_multiset().count(xs[i]) > 0);
            assert(ys.contains(xs[i]));
            let j = choose|j: int| 0 <= j < ys.len() && ys[j] == xs[i];
            assert(ys[j].hit_spec(o, d, tmin, tmax) == Some(a));
        },
        None => {},
    }
}

/// A nearest hit comes from some object of the sequence.
proof fn lemma_first_hit_witness<T: Hit>(xs: Seq<T>, o: V3, d: V3, tmin: int, tmax: int)
    ensures
        match first_hit(xs, o, d, tmin, tmax) {
            Some(h) => exists|i: int|
                0 <= i < xs.len() && #[trigger] xs[i].hit_spec(o, d, tmin, tmax) == Some(h),
            None => true,
        },
    decreases xs.len(),
{
    if xs.len() > 0 {
        lemma_first_hit_witness(xs.drop_first(), o, d, tmin, tmax);
        match first_hit(xs, o, d, tmin, tmax) {
            Some(h) => {
                if xs[0].hit_spec(o, d, tmin, tmax) == Some(h) {
                } else {
                    let i = choose|i: int|
                        0 <= i < xs.drop_first().len() && #[trigger] xs.drop_first()[i].hit_spec(
                            o,
                            d,
                            tmin,
                            tmax,
                        ) == Some(h);
                    assert(xs[i + 1].hit_spec(o, d, tmin, tmax) == Some(h));
                }
            },
            None => {},
        }
    }
}

} // verus!
