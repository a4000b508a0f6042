use vstd::prelude::*;

verus! {

use crate::num::FP_ONE;
use crate::vec3::Vec3;
use crate::vec3::V3;
use crate::vec3::in_coord_range;
use crate::ray::Ray;
use crate::ray::ray_wf;
use vstd::arithmetic::mul::lemma_mul_inequality;

/// One of the three coordinate axes.
#[derive(Clone, Copy, Debug, PartialEq, Eq, Structural)]
pub enum Axis {
    X,
    Y,
    Z,
}

/// An axis-aligned bounding box, stored as its two extreme corners with the
/// invariant `start[i] <= end[i]` on every axis. Degenerate (zero-volume)
/// boxes are legal.
#[derive(Clone, Copy, Debug, PartialEq, Eq, Structural)]
pub struct AABB {
    /// The corner with the smallest coordinate on every axis.
    pub start: Vec3,
    /// The corner with the largest coordinate on every axis.
    pub end: Vec3,
}

/// The mathematical value of a box: its two corners.
pub struct B3 {
    pub lo: V3,
    pub hi: V3,
}

impl AABB {
    /// The mathematical model of this box.
    pub open spec fn m(self) -> B3 {
        B3 { lo: self.start.m(), hi: self.end.m() }
    }
}

/// The box invariant: ordered corners, both within coordinate range.
pub open spec fn box_wf(b: B3) -> bool {
    &&& b.lo.x <= b.hi.x
    &&& b.lo.y <= b.hi.y
    &&& b.lo.z <= b.hi.z
    &&& in_coord_range(b.lo)
    &&& in_coord_range(b.hi)
}

/// `outer` contains `inner`: every point of `inner` is a point of `outer`.
pub open spec fn box_contains_box(outer: B3, inner: B3) -> bool {
    &&& outer.lo.x <= inner.lo.x && inner.hi.x <= outer.hi.x
    &&& outer.lo.y <= inner.lo.y && inner.hi.y <= outer.hi.y
    &&& outer.lo.z <= inner.lo.z && inner.hi.z <= outer.hi.z
}

/// The point `p` lies inside the box `b`.
pub open spec fn box_contains_point(b: B3, p: V3) -> bool {
    &&& b.lo.x <= p.x <= b.hi.x
    &&& b.lo.y <= p.y <= b.hi.y
    &&& b.lo.z <= p.z <= b.hi.z
}

/// The smallest box containing both arguments: the per-axis min of the low
/// corners and max of the high corners.
pub open spec fn surround(a: B3, b: B3) -> B3 {
    B3 {
        lo: V3 {
            x: if a.lo.x <= b.lo.x { a.lo.x } else { b.lo.x },
            y: if a.lo.y <= b.lo.y { a.lo.y } else { b.lo.y },
            z: if a.lo.z <= b.lo.z { a.lo.z } else { b.lo.z },
        },
        hi: V3 {
            x: if a.hi.x >= b.hi.x { a.hi.x } else { b.hi.x },
            y: if a.hi.y >= b.hi.y { a.hi.y } else { b.hi.y },
            z: if a.hi.z >= b.hi.z { a.hi.z } else { b.hi.z },
        },
    }
}

/// The axis along which the box is widest; ties fall to the later axis, as
/// the chained comparison decides.
pub open spec fn longest_axis_spec(b: B3) -> Axis {
    let dx = b.hi.x - b.lo.x;
    let dy = b.hi.y - b.lo.y;
    let dz = b.hi.z - b.lo.z;
    if dx > dy && dx > dz {
        Axis::X
    } else if dy > dz {
        Axis::Y
    } else {
        Axis::Z
    }
}

impl AABB {
    /// Creates a new box from its two corners, which must already be
    /// ordered on every axis.
    pub fn new(start: Vec3, end: Vec3) -> (r: AABB)
        requires
            box_wf(B3 { lo: start.m(), hi: end.m() }),
        ensures
            r.start == start,
            r.end == end,
            box_wf(r.m()),
    {
        AABB { start, end }
    }

    /// Returns the smallest box which surrounds both given boxes.
    pub fn surrounding_box(box1: &AABB, box2: &AABB) -> (r: AABB)
        requires
            box_wf(box1.m()),
            box_wf(box2.m()),
        ensures
            r.m() == surround(box1.m(), box2.m()),
            box_wf(r.m()),
    {
        AABB {
            start: Vec3 {
                x: if box1.start.x <= box2.start.x { box1.start.x } else { box2.start.x },
                y: if box1.start.y <= box2.start.y { box1.start.y } else { box2.start.y },
                z: if box1.start.z <= box2.start.z { box1.start.z } else { box2.start.z },
            },
            end: Vec3 {
                x: if box1.end.x >= box2.end.x { box1.end.x } else { box2.end.x },
                y: if box1.end.y >= box2.end.y { box1.end.y } else { box2.end.y },
                z: if box1.end.z >= box2.end.z { box1.end.z } else { box2.end.z },
            },
        }
    }

    /// The axis along which this box is widest.
    pub fn longest_axis(&self) -> (r: Axis)
        requires
            box_wf(self.m()),
        ensures
            r == longest_axis_spec(self.m()),
    {
        let dx = self.end.x - self.start.x;
        let dy = self.end.y - self.start.y;
        let dz = self.end.z - self.start.z;
        if dx > dy && dx > dz {
            Axis::X
        } else if dy > dz {
            Axis::Y
        } else {
            Axis::Z
        }
    }

    /// The center of the box.
    pub fn center(&self) -> (r: Vec3)
        requires
            box_wf(self.m()),
        ensures
            r.m() == box_center(self.m()),
            in_coord_range(r.m()),
    {
        Vec3 {
            x: self.start.x + (self.end.x - self.start.x) / 2,
            y: self.start.y + (self.end.y - self.start.y) / 2,
            z: self.start.z + (self.end.z - self.start.z) / 2,
        }
    }
}

/// The center of a box: halfway between the corners on every axis.
pub open spec fn box_center(b: B3) -> V3 {
    V3 {
        x: b.lo.x + (b.hi.x - b.lo.x) / 2,
        y: b.lo.y + (b.hi.y - b.lo.y) / 2,
        z: b.lo.z + (b.hi.z - b.lo.z) / 2,
    }
}

/// The union contains both of its arguments (the first half of the law of
/// the surrounding box).
pub proof fn lemma_surround_contains(a: B3, b: B3)
    ensures
        box_contains_box(surround(a, b), a),
        box_contains_box(surround(a, b), b),
{
}

/// The union is the tightest box containing both: any box that contains
/// both arguments contains their union.
pub proof fn lemma_surround_tightest(a: B3, b: B3, c: B3)
    requires
        box_contains_box(c, a),
        box_contains_box(c, b),
    ensures
        box_contains_box(c, surround(a, b)),
{
}

/// Taking the surrounding box is commutative.
pub proof fn lemma_surround_commutative(a: B3, b: B3)
    ensures
        surround(a, b) == surround(b, a),
{
}

/// Taking the surrounding box is associative.
pub proof fn lemma_surround_associative(a: B3, b: B3, c: B3)
    ensures
        surround(surround(a, b), c) == surround(a, surround(b, c)),
{
}

/// Containment of boxes is transitive.
pub proof fn lemma_contains_trans(a: B3, b: B3, c: B3)
    requires
        box_contains_box(a, b),
        box_contains_box(b, c),
    ensures
        box_contains_box(a, c),
{
}

// --- The slab test ----------------------------------------------------
//
// A ray parameter t (in fixed-point units) lies inside the slab of one axis
// when lo_num/den <= t <= hi_num/den, with den positive. The test below
// decides, by exact cross-multiplied comparisons, whether the three slab
// intervals and the query window [t_min, t_max] have a common point. A ray
// parallel to an axis (direction component zero) must start between that
// axis' planes, else the box is missed.

/// The numerator of the lower slab bound of one axis (`d != 0`).
pub open spec fn axis_lo_num(s: int, e: int, o: int, d: int) -> int {
    if d > 0 {
        (s - o) * (FP_ONE as int)
    } else {
        (o - e) * (FP_ONE as int)
    }
}

/// The numerator of the upper slab bound of one axis (`d != 0`).
pub open spec fn axis_hi_num(s: int, e: int, o: int, d: int) -> int {
    if d > 0 {
        (e - o) * (FP_ONE as int)
    } else {
        (o - s) * (FP_ONE as int)
    }
}

/// The (positive) denominator of the slab bounds of one axis (`d != 0`).
pub open spec fn axis_den(d: int) -> int {
    if d > 0 {
        d
    } else {
        -d
    }
}

/// One axis against the query window: a parallel ray must start between the
/// planes; otherwise the window must meet the slab interval.
pub open spec fn axis_window_ok(s: int, e: int, o: int, d: int, tmin: int, tmax: int) -> bool {
    if d == 0 {
        s <= o <= e
    } else {
        tmin * axis_den(d) <= axis_hi_num(s, e, o, d) && axis_lo_num(s, e, o, d) <= tmax * axis_den(
            d,
        )
    }
}

/// The lower bound of axis 1 does not exceed the upper bound of axis 2
/// (trivially true when either axis is parallel: the window check covers it).
pub open spec fn axes_cross_ok(
    s1: int,
    e1: int,
    o1: int,
    d1: int,
    s2: int,
    e2: int,
    o2: int,
    d2: int,
) -> bool {
    d1 != 0 && d2 != 0 ==> axis_lo_num(s1, e1, o1, d1) * axis_den(d2) <= axis_hi_num(
        s2,
        e2,
        o2,
        d2,
    ) * axis_den(d1)
}

/// The slab test: the ray meets the box somewhere in the window
/// `[t_min, t_max]`. Exact, with no rounding; a necessary condition for any
/// primitive inside the box to be hit.
pub open spec fn slab_passes(b: B3, o: V3, d: V3, tmin: int, tmax: int) -> bool {
    &&& tmin <= tmax
    &&& axis_window_ok(b.lo.x, b.hi.x, o.x, d.x, tmin, tmax)
    &&& axis_window_ok(b.lo.y, b.hi.y, o.y, d.y, tmin, tmax)
    &&& axis_window_ok(b.lo.z, b.hi.z, o.z, d.z, tmin, tmax)
    &&& axes_cross_ok(b.lo.x, b.hi.x, o.x, d.x, b.lo.y, b.hi.y, o.y, d.y)
    &&& axes_cross_ok(b.lo.x, b.hi.x, o.x, d.x, b.lo.z, b.hi.z, o.z, d.z)
    &&& axes_cross_ok(b.lo.y, b.hi.y, o.y, d.y, b.lo.x, b.hi.x, o.x, d.x)
    &&& axes_cross_ok(b.lo.y, b.hi.y, o.y, d.y, b.lo.z, b.hi.z, o.z, d.z)
    &&& axes_cross_ok(b.lo.z, b.hi.z, o.z, d.z, b.lo.x, b.hi.x, o.x, d.x)
    &&& axes_cross_ok(b.lo.z, b.hi.z, o.z, d.z, b.lo.y, b.hi.y, o.y, d.y)
}

/// The reported entry parameter: the query's lower edge raised to the floor
/// of each non-parallel axis' lower slab bound.
pub open spec fn slab_entry(b: B3, o: V3, d: V3, tmin: int) -> int {
    let tx = if d.x == 0 {
        tmin
    } else {
        axis_lo_num(b.lo.x, b.hi.x, o.x, d.x) / axis_den(d.x)
    };
    let ty = if d.y == 0 {
        tmin
    } else {
        axis_lo_num(b.lo.y, b.hi.y, o.y, d.y) / axis_den(d.y)
    };
    let tz = if d.z == 0 {
        tmin
    } else {
        axis_lo_num(b.lo.z, b.hi.z, o.z, d.z) / axis_den(d.z)
    };
    let m1 = if tx >= tmin { tx } else { tmin };
    let m2 = if ty >= m1 { ty } else { m1 };
    if tz >= m2 { tz } else { m2 }
}

/// The reported exit parameter: the query's upper edge lowered to the floor
/// of each non-parallel axis' upper slab bound.
pub open spec fn slab_exit(b: B3, o: V3, d: V3, tmax: int) -> int {
    let tx = if d.x == 0 {
        tmax
    } else {
        axis_hi_num(b.lo.x, b.hi.x, o.x, d.x) / axis_den(d.x)
    };
    let ty = if d.y == 0 {
        tmax
    } else {
        axis_hi_num(b.lo.y, b.hi.y, o.y, d.y) / axis_den(d.y)
    };
    let tz = if d.z == 0 {
        tmax
    } else {
        axis_hi_num(b.lo.z, b.hi.z, o.z, d.z) / axis_den(d.z)
    };
    let m1 = if tx <= tmax { tx } else { tmax };
    let m2 = if ty <= m1 { ty } else { m1 };
    if tz <= m2 { tz } else { m2 }
}

/// The slab parameters of one axis, as 64-bit numerators over a positive
/// denominator.
fn axis_params(s: i64, e: i64, o: i64, d: i64) -> (r: (i64, i64, i64))
    requires
        d != 0,
        -0x4000_0000 <= s <= 0x4000_0000,
        -0x4000_0000 <= e <= 0x4000_0000,
        -0x4000_0000 <= o <= 0x4000_0000,
        -0x4000_0000 <= d <= 0x4000_0000,
    ensures
        r.0 == axis_lo_num(s as int, e as int, o as int, d as int),
        r.1 == axis_hi_num(s as int, e as int, o as int, d as int),
        r.2 == axis_den(d as int),
        0 < r.2 <= 0x4000_0000,
        -0x8000_0000_0000 <= r.0 <= 0x8000_0000_0000,
        -0x8000_0000_0000 <= r.1 <= 0x8000_0000_0000,
{
    if d > 0 {
        ((s - o) * FP_ONE, (e - o) * FP_ONE, d)
    } else {
        ((o - e) * FP_ONE, (o - s) * FP_ONE, -d)
    }
}

impl AABB {
    /// The slab test against this box: `Some((entry, exit))` when the ray
    /// meets the box within the window `[t_min, t_max]`, `None` when it
    /// misses. A ray exactly parallel to a slab and outside it is rejected.
    pub fn hit(&self, ray: &Ray, t_min: i64, t_max: i64) -> (r: Option<(i64, i64)>)
        requires
            box_wf(self.m()),
            ray_wf(*ray),
        ensures
            r is Some <==> slab_passes(
                self.m(),
                ray.origin.m(),
                ray.direction.m(),
                t_min as int,
                t_max as int,
            ),
            r is Some ==> r->Some_0.0 == slab_entry(
                self.m(),
                ray.origin.m(),
                ray.direction.m(),
                t_min as int,
            ),
            r is Some ==> r->Some_0.1 == slab_exit(
                self.m(),
                ray.origin.m(),
                ray.direction.m(),
                t_max as int,
            ),
    {
        if t_min > t_max {
            return None;
        }
        let o = ray.origin;
        let d = ray.direction;
        let mut entry: i64 = t_min;
        let mut exit: i64 = t_max;

        // Each axis in turn: reject a parallel ray outside the slab, check
        // the window, and fold the floor-rounded bounds into entry and exit.
        let px = if d.x != 0 {
            let (ln, hn, den) = axis_params(self.start.x, self.end.x, o.x, d.x);
            if !window_ok(ln, hn, den, t_min, t_max) {
                return None;
            }
            let lf = crate::num::fdiv_i128(ln as i128, den as i128) as i64;
            let hf = crate::num::fdiv_i128(hn as i128, den as i128) as i64;
            if lf > entry {
                entry = lf;
            }
            if hf < exit {
                exit = hf;
            }
            Some((ln, hn, den))
        } else {
            if !(self.start.x <= o.x && o.x <= self.end.x) {
                return None;
            }
            None
        };
        let py = if d.y != 0 {
            let (ln, hn, den) = axis_params(self.start.y, self.end.y, o.y, d.y);
            if !window_ok(ln, hn, den, t_min, t_max) {
                return None;
            }
            let lf = crate::num::fdiv_i128(ln as i128, den as i128) as i64;
            let hf = crate::num::fdiv_i128(hn as i128, den as i128) as i64;
            if lf > entry {
                entry = lf;
            }
            if hf < exit {
                exit = hf;
            }
            Some((ln, hn, den))
        } else {
            if !(self.start.y <= o.y && o.y <= self.end.y) {
                return None;
            }
            None
        };
        let pz = if d.z != 0 {
            let (ln, hn, den) = axis_params(self.start.z, self.end.z, o.z, d.z);
            if !window_ok(ln, hn, den, t_min, t_max) {
                return None;
            }
            let lf = crate::num::fdiv_i128(ln as i128, den as i128) as i64;
            let hf = crate::num::fdiv_i128(hn as i128, den as i128) as i64;
            if lf > entry {
                entry = lf;
            }
            if hf < exit {
                exit = hf;
            }
            Some((ln, hn, den))
        } else {
            if !(self.start.z <= o.z && o.z <= self.end.z) {
                return None;
            }
            None
        };

        // The six cross comparisons between distinct axes.
        if !cross_ok(px, py) || !cross_ok(px, pz) || !cross_ok(py, px) || !cross_ok(py, pz)
            || !cross_ok(pz, px) || !cross_ok(pz, py) {
            return None;
        }
        Some((entry, exit))
    }
}

/// One axis' slab interval meets the query window.
fn window_ok(ln: i64, hn: i64, den: i64, t_min: i64, t_max: i64) -> (r: bool)
    requires
        den > 0,
    ensures
        r == (t_min * den <= hn && ln <= t_max * den),
{
    proof {
        crate::num::lemma_mul_i64_fits(t_min as int, den as int);
        crate::num::lemma_mul_i64_fits(t_max as int, den as int);
    }
    (t_min as i128) * (den as i128) <= hn as i128 && ln as i128 <= (t_max as i128) * (den as i128)
}

/// The cross comparison: the lower bound of the first axis does not exceed
/// the upper bound of the second. `None` stands for a parallel axis, which
/// imposes no bound.
fn cross_ok(a: Option<(i64, i64, i64)>, b: Option<(i64, i64, i64)>) -> (r: bool)
    ensures
        r == match (a, b) {
            (Some(pa), Some(pb)) => pa.0 * pb.2 <= pb.1 * pa.2,
            _ => true,
        },
{
    match (a, b) {
        (Some(pa), Some(pb)) => {
            proof {
                crate::num::lemma_mul_i64_fits(pa.0 as int, pb.2 as int);
                crate::num::lemma_mul_i64_fits(pb.1 as int, pa.2 as int);
            }
            (pa.0 as i128) * (pb.2 as i128) <= (pb.1 as i128) * (pa.2 as i128)
        },
        _ => true,
    }
}


/// A helper for the monotonicity of the slab test over one axis: growing
/// the box lowers the lower bound and raises the upper bound.
proof fn lemma_axis_bounds_monotone(s1: int, e1: int, s2: int, e2: int, o: int, d: int)
    requires
        d != 0,
        s2 <= s1,
        e1 <= e2,
    ensures
        axis_lo_num(s2, e2, o, d) <= axis_lo_num(s1, e1, o, d),
        axis_hi_num(s1, e1, o, d) <= axis_hi_num(s2, e2, o, d),
{
}

/// One cross condition carries over to a larger box on both sides.
proof fn lemma_cross_monotone(
    s1: int, e1: int, o1: int, d1: int,
    s2: int, e2: int, o2: int, d2: int,
    t1: int, u1: int, t2: int, u2: int,
)
    requires
        d1 != 0,
        d2 != 0,
        axis_lo_num(s1, e1, o1, d1) * axis_den(d2) <= axis_hi_num(s2, e2, o2, d2) * axis_den(d1),
        axis_lo_num(t1, u1, o1, d1) <= axis_lo_num(s1, e1, o1, d1),
        axis_hi_num(s2, e2, o2, d2) <= axis_hi_num(t2, u2, o2, d2),
    ensures
        axis_lo_num(t1, u1, o1, d1) * axis_den(d2) <= axis_hi_num(t2, u2, o2, d2) * axis_den(d1),
{
    lemma_mul_inequality(
        axis_lo_num(t1, u1, o1, d1),
        axis_lo_num(s1, e1, o1, d1),
        axis_den(d2),
    );
    lemma_mul_inequality(
        axis_hi_num(s2, e2, o2, d2),
        axis_hi_num(t2, u2, o2, d2),
        axis_den(d1),
    );
}

/// Monotonicity of the slab test: a ray that meets a box within the window
/// also meets every containing box there. The bounding-box test is thus a
/// sound pruning criterion: it never gives a false negative.
pub proof fn lemma_slab_monotone(b1: B3, b2: B3, o: V3, d: V3, tmin: int, tmax: int)
    requires
        box_contains_box(b2, b1),
        slab_passes(b1, o, d, tmin, tmax),
    ensures
        slab_passes(b2, o, d, tmin, tmax),
{
    if d.x != 0 {
        lemma_axis_bounds_monotone(b1.lo.x, b1.hi.x, b2.lo.x, b2.hi.x, o.x, d.x);
    }
    if d.y != 0 {
        lemma_axis_bounds_monotone(b1.lo.y, b1.hi.y, b2.lo.y, b2.hi.y, o.y, d.y);
    }
    if d.z != 0 {
        lemma_axis_bounds_monotone(b1.lo.z, b1.hi.z, b2.lo.z, b2.hi.z, o.z, d.z);
    }
    if d.x != 0 && d.y != 0 {
        lemma_cross_monotone(
            b1.lo.x, b1.hi.x, o.x, d.x, b1.lo.y, b1.hi.y, o.y, d.y,
            b2.lo.x, b2.hi.x, b2.lo.y, b2.hi.y,
        );
        lemma_cross_monotone(
            b1.lo.y, b1.hi.y, o.y, d.y, b1.lo.x, b1.hi.x, o.x, d.x,
            b2.lo.y, b2.hi.y, b2.lo.x, b2.hi.x,
        );
    }
    if d.x != 0 && d.z != 0 {
        lemma_cross_monotone(
            b1.lo.x, b1.hi.x, o.x, d.x, b1.lo.z, b1.hi.z, o.z, d.z,
            b2.lo.x, b2.hi.x, b2.lo.z, b2.hi.z,
        );
        lemma_cross_monotone(
            b1.lo.z, b1.hi.z, o.z, d.z, b1.lo.x, b1.hi.x, o.x, d.x,
            b2.lo.z, b2.hi.z, b2.lo.x, b2.hi.x,
        );
    }
    if d.y != 0 && d.z != 0 {
        lemma_cross_monotone(
            b1.lo.y, b1.hi.y, o.y, d.y, b1.lo.z, b1.hi.z, o.z, d.z,
            b2.lo.y, b2.hi.y, b2.lo.z, b2.hi.z,
        );
        lemma_cross_monotone(
            b1.lo.z, b1.hi.z, o.z, d.z, b1.lo.y, b1.hi.y, o.y, d.y,
            b2.lo.z, b2.hi.z, b2.lo.y, b2.hi.y,
        );
    }
    if d.x != 0 {
        lemma_mul_inequality(tmin, tmax, axis_den(d.x));
    }
}

} // verus!
