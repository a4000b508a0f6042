use vstd::prelude::*;

verus! {

use std::sync::Arc;
use crate::num::FP_ONE;
use crate::num::COORD_MAX;
use crate::num::tdiv;
use crate::num::fxdiv;
use crate::num::fxmul;
use crate::num::sqrt_floor;
use crate::num::is_sqrt_floor;
use crate::num::isqrt_u128;
use crate::num::div_i128;
use crate::num::lemma_mul_abs_bound;
use crate::num::lemma_tdiv_bounds;
use crate::num::lemma_tdiv_abs_le;
use crate::num::lemma_fxmul_range;
use crate::vec3::Vec3;
use crate::vec3::V3;
use crate::vec3::v3_cross;
use crate::vec3::v3_bounded;
use crate::vec3::in_coord_range;
use crate::vec3::clamp_coord;
use crate::vec3::clamp_unit;
use crate::ray::Ray;
use crate::ray::ray_wf;
use crate::ray::ray_at;
use crate::aabb::AABB;
use crate::aabb::B3;
use crate::aabb::box_wf;
use crate::aabb::box_center;
use crate::aabb::slab_passes;
use crate::material::Material;
use crate::material::material_wf;
use crate::hit::Hit;
use crate::hit::HitG;
use crate::hit::HitResult;
use crate::hit::opt_hit_matches;

/// The raw (unscaled) dot product of two mathematical vectors.
pub open spec fn rdot(a: V3, b: V3) -> int {
    a.x * b.x + a.y * b.y + a.z * b.z
}

/// The raw (unscaled) cross product of two mathematical vectors.
pub open spec fn rcross(a: V3, b: V3) -> V3 {
    V3 { x: a.y * b.z - a.z * b.y, y: a.z * b.x - a.x * b.z, z: a.x * b.y - a.y * b.x }
}

/// The diamond angle of the plane vector `(x, y)`: a piecewise-rational,
/// monotone stand-in for `atan2` on the fixed-point grid, ranging over
/// `[0, 4)` full units as the true angle ranges over a full turn.
pub open spec fn diamond_fx(y: int, x: int) -> int {
    if x == 0 && y == 0 {
        0
    } else {
        let ax = if x >= 0 { x } else { -x };
        let ay = if y >= 0 { y } else { -y };
        let s = ax + ay;
        if y >= 0 && x >= 0 {
            fxdiv(y, s)
        } else if y >= 0 {
            FP_ONE + fxdiv(ax, s)
        } else if x < 0 {
            2 * FP_ONE + fxdiv(ay, s)
        } else {
            3 * FP_ONE + fxdiv(x, s)
        }
    }
}

/// The spherical UV coordinates this crate derives from a surface normal:
/// the diamond angle around the y axis for `u`, and the height for `v`,
/// both mapped into the unit square.
pub open spec fn sphere_uv(n: V3) -> (int, int) {
    let u = FP_ONE - tdiv(diamond_fx(n.z, n.x), 4);
    let v = tdiv(FP_ONE - clamp_unit(n.y), 2);
    (u, v)
}

// --- Sphere -------------------------------------------------------------

/// A sphere in space. A negative radius is legal and flips the reported
/// normals inward (useful for hollow spheres).
#[derive(Clone, Debug)]
pub struct Sphere {
    /// The center (or position) of the sphere.
    pub center: Vec3,
    /// The radius, in fixed-point units; never zero.
    pub radius: i64,
    /// The material of the surface.
    pub material: Arc<Material>,
}

/// The sphere invariant: a nonzero radius, and the whole ball within
/// coordinate range.
pub open spec fn sphere_wf(s: Sphere) -> bool {
    &&& s.radius != 0
    &&& -COORD_MAX <= s.radius <= COORD_MAX
    &&& in_coord_range(s.center.m())
    &&& sphere_box_wf_range(s)
    &&& material_wf(*s.material)
}

/// The sphere's bounding box corners stay within coordinate range.
pub open spec fn sphere_box_wf_range(s: Sphere) -> bool {
    let r = sphere_abs_radius(s);
    &&& -(COORD_MAX as int) <= s.center.m().x - r && s.center.m().x + r <= COORD_MAX as int
    &&& -(COORD_MAX as int) <= s.center.m().y - r && s.center.m().y + r <= COORD_MAX as int
    &&& -(COORD_MAX as int) <= s.center.m().z - r && s.center.m().z + r <= COORD_MAX as int
}

/// The magnitude of the radius.
pub open spec fn sphere_abs_radius(s: Sphere) -> int {
    if s.radius >= 0 {
        s.radius as int
    } else {
        -(s.radius as int)
    }
}

/// The box around the sphere: the center pushed out by the radius on every
/// axis.
pub open spec fn sphere_box(s: Sphere) -> B3 {
    let c = s.center.m();
    let r = sphere_abs_radius(s);
    B3 {
        lo: V3 { x: c.x - r, y: c.y - r, z: c.z - r },
        hi: V3 { x: c.x + r, y: c.y + r, z: c.z + r },
    }
}

/// The sphere's outward (or, for a negative radius, inward) normal at a
/// point, clamped into coordinate range.
pub open spec fn sphere_normal(s: Sphere, pos: V3) -> V3 {
    let c = s.center.m();
    V3 {
        x: clamp_coord(fxdiv(pos.x - c.x, s.radius as int)),
        y: clamp_coord(fxdiv(pos.y - c.y, s.radius as int)),
        z: clamp_coord(fxdiv(pos.z - c.z, s.radius as int)),
    }
}

/// What a sphere intersection returns: the quadratic `|o + t d - c|^2 = r^2`
/// is solved exactly over the integers; the smaller root is taken when it
/// falls inside the window, the larger as the fallback. The slab test of the
/// sphere's own box is a built-in precondition of any hit.
pub open spec fn sphere_hit_spec(s: Sphere, o: V3, d: V3, tmin: int, tmax: int) -> Option<HitG> {
    if !slab_passes(sphere_box(s), o, d, tmin, tmax) {
        None
    } else {
        let c = s.center.m();
        let oc = V3 { x: o.x - c.x, y: o.y - c.y, z: o.z - c.z };
        let qa = rdot(d, d);
        let qb = rdot(oc, d);
        let qc = rdot(oc, oc) - (s.radius as int) * (s.radius as int);
        if qa <= 0 {
            None
        } else {
            let disc = qb * qb - qa * qc;
            if disc < 0 {
                None
            } else {
                let root = sqrt_floor(disc);
                let t1 = tdiv((-qb - root) * (FP_ONE as int), qa);
                let t2 = tdiv((-qb + root) * (FP_ONE as int), qa);
                let t = if tmin <= t1 <= tmax {
                    t1
                } else {
                    t2
                };
                if !(tmin <= t <= tmax) {
                    None
                } else {
                    let pos = ray_at(o, d, t);
                    let n = sphere_normal(s, pos);
                    Some(
                        HitG {
                            t,
                            pos,
                            normal: n,
                            mat: Some(*s.material),
                            uv: Some(sphere_uv(n)),
                        },
                    )
                }
            }
        }
    }
}

/// The spherical UV coordinates this crate assigns to a direction or
/// normal: both components land in the unit interval.
pub fn uv_from_normal(n: Vec3) -> (r: (i64, i64))
    requires
        in_coord_range(n.m()),
    ensures
        (r.0 as int, r.1 as int) == sphere_uv(n.m()),
        0 <= r.0 <= FP_ONE,
        0 <= r.1 <= FP_ONE,
{
    let dia = diamond_exec(n.z, n.x);
    let u = FP_ONE - ((dia as u64 / 4) as i64);
    let ny = if n.y < -FP_ONE {
        -FP_ONE
    } else if n.y > FP_ONE {
        FP_ONE
    } else {
        n.y
    };
    let v = (((FP_ONE - ny) as u64) / 2) as i64;
    proof {
        lemma_tdiv_nonneg_div(dia as int, 4);
        lemma_tdiv_nonneg_div(FP_ONE - ny as int, 2);
    }
    (u, v)
}

/// One clamped fixed-point quotient of a coordinate difference by a nonzero
/// scalar: a component of a sphere normal.
fn normal_axis(p: i64, c: i64, r: i64) -> (q: i64)
    requires
        r != 0,
        -0x4000_0000 <= p <= 0x4000_0000,
        -0x4000_0000 <= c <= 0x4000_0000,
    ensures
        q == clamp_coord(fxdiv(p as int - c as int, r as int)),
{
    proof {
        lemma_mul_abs_bound(p as int - c as int, FP_ONE as int, 0x8000_0000, FP_ONE as int);
        lemma_tdiv_bounds((p as int - c as int) * (FP_ONE as int), r as int);
    }
    let q = div_i128(((p as i128) - (c as i128)) * (FP_ONE as i128), r as i128);
    if q < -0x4000_0000 {
        -0x4000_0000
    } else if q > 0x4000_0000 {
        0x4000_0000
    } else {
        q as i64
    }
}

/// The diamond angle of `(x, y)`, in fixed-point units within `[0, 4]`.
fn diamond_exec(y: i64, x: i64) -> (r: i64)
    requires
        -0x4000_0000 <= y <= 0x4000_0000,
        -0x4000_0000 <= x <= 0x4000_0000,
    ensures
        r == diamond_fx(y as int, x as int),
        0 <= r <= 4 * FP_ONE,
{
    if x == 0 && y == 0 {
        return 0;
    }
    let ax = if x >= 0 {
        x
    } else {
        -x
    };
    let ay = if y >= 0 {
        y
    } else {
        -y
    };
    let s = ax + ay;
    if y >= 0 && x >= 0 {
        quad_div(y, s)
    } else if y >= 0 {
        FP_ONE + quad_div(ax, s)
    } else if x < 0 {
        2 * FP_ONE + quad_div(ay, s)
    } else {
        3 * FP_ONE + quad_div(x, s)
    }
}

/// The fixed-point quotient of one quadrant: `0 <= a <= s`, so the result
/// lies in `[0, 1]`.
fn quad_div(a: i64, s: i64) -> (r: i64)
    requires
        0 < s <= 0x1_0000_0000,
        0 <= a <= s,
    ensures
        r == fxdiv(a as int, s as int),
        0 <= r <= FP_ONE,
{
    proof {
        lemma_mul_abs_bound(a as int, FP_ONE as int, s as int, FP_ONE as int);
        lemma_tdiv_bounds(a as int * FP_ONE as int, s as int);
        vstd::arithmetic::div_mod::lemma_fundamental_div_mod(a as int * FP_ONE as int, s as int);
        vstd::arithmetic::div_mod::lemma_mod_bound(a as int * FP_ONE as int, s as int);
        assert((a as int * FP_ONE as int) / (s as int) <= FP_ONE as int) by (nonlinear_arith)
            requires
                0 <= a <= s,
                s > 0,
                a as int * FP_ONE as int == s as int * ((a as int * FP_ONE as int) / (s as int)) + (
                a as int * FP_ONE as int) % (s as int),
                0 <= (a as int * FP_ONE as int) % (s as int) < s as int,
        ;
    }
    div_i128((a as i128) * (FP_ONE as i128), s as i128) as i64
}

impl Hit for Sphere {
    open spec fn wf(&self) -> bool {
        sphere_wf(*self)
    }

    open spec fn bbox_spec(&self) -> B3 {
        sphere_box(*self)
    }

    open spec fn hit_spec(&self, o: V3, d: V3, tmin: int, tmax: int) -> Option<HitG> {
        sphere_hit_spec(*self, o, d, tmin, tmax)
    }

    open spec fn center_spec(&self) -> V3 {
        self.center.m()
    }

    proof fn lemma_hit_props(&self, o: V3, d: V3, tmin: int, tmax: int) {
    }

    fn hit(&self, ray: &Ray, t_min: i64, t_max: i64) -> (r: Option<HitResult>) {
        let bb = AABB {
            start: Vec3 {
                x: self.center.x - abs_i64(self.radius),
                y: self.center.y - abs_i64(self.radius),
                z: self.center.z - abs_i64(self.radius),
            },
            end: Vec3 {
                x: self.center.x + abs_i64(self.radius),
                y: self.center.y + abs_i64(self.radius),
                z: self.center.z + abs_i64(self.radius),
            },
        };
        if bb.hit(ray, t_min, t_max).is_none() {
            return None;
        }
        let o = ray.origin;
        let d = ray.direction;
        let ocx: i128 = (o.x as i128) - (self.center.x as i128);
        let ocy: i128 = (o.y as i128) - (self.center.y as i128);
        let ocz: i128 = (o.z as i128) - (self.center.z as i128);
        proof {
            lemma_quadratic_bounds(self.center.m(), o.m(), d.m(), self.radius as int);
        }
        let qa: i128 = (d.x as i128) * (d.x as i128) + (d.y as i128) * (d.y as i128) + (
        d.z as i128) * (d.z as i128);
        let qb: i128 = ocx * (d.x as i128) + ocy * (d.y as i128) + ocz * (d.z as i128);
        let qc: i128 = ocx * ocx + ocy * ocy + ocz * ocz - (self.radius as i128) * (
        self.radius as i128);
        if qa <= 0 {
            return None;
        }
        let disc: i128 = qb * qb - qa * qc;
        if disc < 0 {
            return None;
        }
        let root = isqrt_u128(disc as u128);
        proof {
            assert(root <= 0x2_0000_0000_0000_0000u128) by (nonlinear_arith)
                requires
                    (root as int) * (root as int) <= disc as int,
                    disc as int <= 0x4b00_0000_0000_0000_0000_0000_0000_0000,
                    root >= 0,
            ;
        }
        let sq = root as i128;
        proof {
            lemma_mul_abs_bound(
                -(qb as int) - sq as int,
                FP_ONE as int,
                0x3_0000_0000_0000_0000,
                FP_ONE as int,
            );
            lemma_mul_abs_bound(
                -(qb as int) + sq as int,
                FP_ONE as int,
                0x3_0000_0000_0000_0000,
                FP_ONE as int,
            );
            lemma_tdiv_bounds((-(qb as int) - sq as int) * (FP_ONE as int), qa as int);
            lemma_tdiv_bounds((-(qb as int) + sq as int) * (FP_ONE as int), qa as int);
        }
        let t1 = div_i128((-qb - sq) * (FP_ONE as i128), qa);
        let t2 = div_i128((-qb + sq) * (FP_ONE as i128), qa);
        let tm = t_min as i128;
        let tx = t_max as i128;
        let t = if tm <= t1 && t1 <= tx {
            t1
        } else {
            t2
        };
        if !(tm <= t && t <= tx) {
            return None;
        }
        let t64 = t as i64;
        let pos = ray.point_at(t64);
        let n = Vec3 {
            x: normal_axis(pos.x, self.center.x, self.radius),
            y: normal_axis(pos.y, self.center.y, self.radius),
            z: normal_axis(pos.z, self.center.z, self.radius),
        };
        let uv = uv_from_normal(n);
        Some(
            HitResult {
                ray_param: t64,
                hit_position: pos,
                normal: n,
                material: Some(self.material.clone()),
                uv_coords: Some(uv),
            },
        )
    }

    fn bounding_box(&self) -> (r: Option<AABB>) {
        Some(
            AABB {
                start: Vec3 {
                    x: self.center.x - abs_i64(self.radius),
                    y: self.center.y - abs_i64(self.radius),
                    z: self.center.z - abs_i64(self.radius),
                },
                end: Vec3 {
                    x: self.center.x + abs_i64(self.radius),
                    y: self.center.y + abs_i64(self.radius),
                    z: self.center.z + abs_i64(self.radius),
                },
            },
        )
    }

    fn center(&self) -> (r: Vec3) {
        self.center
    }
}

/// The magnitude of a small scalar.
fn abs_i64(x: i64) -> (r: i64)
    requires
        -0x4000_0000 <= x <= 0x4000_0000,
    ensures
        x >= 0 ==> r == x,
        x < 0 ==> r == -x,
        0 <= r <= 0x4000_0000,
{
    if x >= 0 {
        x
    } else {
        -x
    }
}

/// Truncating division of a nonnegative value by a positive constant equals
/// the `/` of executable code.
proof fn lemma_tdiv_nonneg_div(x: int, d: int)
    requires
        x >= 0,
        d > 0,
    ensures
        tdiv(x, d) == x / d,
{
}

/// All the 128-bit intermediates of the sphere quadratic stay in range for
/// coordinate-range inputs.
proof fn lemma_quadratic_bounds(c: V3, o: V3, d: V3, radius: int)
    requires
        in_coord_range(c),
        in_coord_range(o),
        in_coord_range(d),
        -0x4000_0000 <= radius <= 0x4000_0000,
    ensures
        ({
            let oc = V3 { x: o.x - c.x, y: o.y - c.y, z: o.z - c.z };
            let qa = rdot(d, d);
            let qb = rdot(oc, d);
            let qc = rdot(oc, oc) - radius * radius;
            &&& -0x1000_0000_0000_0000 <= d.x * d.x <= 0x1000_0000_0000_0000
            &&& -0x1000_0000_0000_0000 <= d.y * d.y <= 0x1000_0000_0000_0000
            &&& -0x1000_0000_0000_0000 <= d.z * d.z <= 0x1000_0000_0000_0000
            &&& -0x2000_0000_0000_0000 <= oc.x * d.x <= 0x2000_0000_0000_0000
            &&& -0x2000_0000_0000_0000 <= oc.y * d.y <= 0x2000_0000_0000_0000
            &&& -0x2000_0000_0000_0000 <= oc.z * d.z <= 0x2000_0000_0000_0000
            &&& -0x4000_0000_0000_0000 <= oc.x * oc.x <= 0x4000_0000_0000_0000
            &&& -0x4000_0000_0000_0000 <= oc.y * oc.y <= 0x4000_0000_0000_0000
            &&& -0x4000_0000_0000_0000 <= oc.z * oc.z <= 0x4000_0000_0000_0000
            &&& -0x1000_0000_0000_0000 <= radius * radius <= 0x1000_0000_0000_0000
            &&& -0x3000_0000_0000_0000 <= qa <= 0x3000_0000_0000_0000
            &&& -0x6000_0000_0000_0000 <= qb <= 0x6000_0000_0000_0000
            &&& -0xd000_0000_0000_0000 <= qc <= 0xd000_0000_0000_0000
            &&& -0x2400_0000_0000_0000_0000_0000_0000_0000 <= qb * qb
                <= 0x2400_0000_0000_0000_0000_0000_0000_0000
            &&& -0x2700_0000_0000_0000_0000_0000_0000_0000 <= qa * qc
                <= 0x2700_0000_0000_0000_0000_0000_0000_0000
            &&& -0x4b00_0000_0000_0000_0000_0000_0000_0000 <= qb * qb - qa * qc
                <= 0x4b00_0000_0000_0000_0000_0000_0000_0000
        }),
{
    let oc = V3 { x: o.x - c.x, y: o.y - c.y, z: o.z - c.z };
    let cm = 0x4000_0000 as int;
    lemma_mul_abs_bound(d.x, d.x, cm, cm);
    lemma_mul_abs_bound(d.y, d.y, cm, cm);
    lemma_mul_abs_bound(d.z, d.z, cm, cm);
    lemma_mul_abs_bound(oc.x, d.x, 2 * cm, cm);
    lemma_mul_abs_bound(oc.y, d.y, 2 * cm, cm);
    lemma_mul_abs_bound(oc.z, d.z, 2 * cm, cm);
    lemma_mul_abs_bound(oc.x, oc.x, 2 * cm, 2 * cm);
    lemma_mul_abs_bound(oc.y, oc.y, 2 * cm, 2 * cm);
    lemma_mul_abs_bound(oc.z, oc.z, 2 * cm, 2 * cm);
    lemma_mul_abs_bound(radius, radius, cm, cm);
    let qa = rdot(d, d);
    let qb = rdot(oc, d);
    let qc = rdot(oc, oc) - radius * radius;
    lemma_mul_abs_bound(qb, qb, 0x6000_0000_0000_0000, 0x6000_0000_0000_0000);
    lemma_mul_abs_bound(qa, qc, 0x3000_0000_0000_0000, 0xd000_0000_0000_0000);
    assert(0x6000_0000_0000_0000 * 0x6000_0000_0000_0000int
        <= 0x2400_0000_0000_0000_0000_0000_0000_0000int) by (nonlinear_arith);
    assert(0x3000_0000_0000_0000 * 0xd000_0000_0000_0000int
        <= 0x2700_0000_0000_0000_0000_0000_0000_0000int) by (nonlinear_arith);
}


// --- Triangle -----------------------------------------------------------

/// One corner of a triangle: a position, and optionally a vertex normal and
/// texture coordinates to interpolate across the face.
#[derive(Clone, Copy, Debug)]
pub struct Vertex {
    pub position: Vec3,
    pub normal: Option<Vec3>,
    pub uv_coords: Option<(i64, i64)>,
}

impl Vertex {
    pub fn new(position: Vec3, normal: Option<Vec3>, uv_coords: Option<(i64, i64)>) -> (r: Vertex)
        ensures
            r.position == position,
            r.normal == normal,
            r.uv_coords == uv_coords,
    {
        Vertex { position, normal, uv_coords }
    }
}

/// A triangle, given by its three vertices. Barycentric coordinates are
/// found by the closed-form inverse of the 2x2 system over the two spanning
/// edges, so non-orthogonal edges are handled exactly.
#[derive(Clone, Debug)]
pub struct Triangle {
    pub a: Vertex,
    pub b: Vertex,
    pub c: Vertex,
    pub material: Arc<Material>,
}

/// One vertex within range: position a legal coordinate, the optional
/// normal likewise, the optional texture coordinates within a few units.
pub open spec fn vertex_wf(v: Vertex) -> bool {
    &&& in_coord_range(v.position.m())
    &&& match v.normal {
        Some(n) => in_coord_range(n.m()),
        None => true,
    }
    &&& match v.uv_coords {
        Some(uv) => -16 * FP_ONE <= uv.0 <= 16 * FP_ONE && -16 * FP_ONE <= uv.1 <= 16 * FP_ONE,
        None => true,
    }
}

/// The triangle invariant.
pub open spec fn tri_wf(t: Triangle) -> bool {
    &&& vertex_wf(t.a)
    &&& vertex_wf(t.b)
    &&& vertex_wf(t.c)
    &&& material_wf(*t.material)
}

/// The smaller of two scalars.
pub open spec fn imin(a: int, b: int) -> int {
    if a <= b { a } else { b }
}

/// The larger of two scalars.
pub open spec fn imax(a: int, b: int) -> int {
    if a >= b { a } else { b }
}

/// The box around the triangle: the per-axis extremes of its corners.
pub open spec fn tri_box(t: Triangle) -> B3 {
    let pa = t.a.position.m();
    let pb = t.b.position.m();
    let pc = t.c.position.m();
    B3 {
        lo: V3 {
            x: imin(imin(pa.x, pb.x), pc.x),
            y: imin(imin(pa.y, pb.y), pc.y),
            z: imin(imin(pa.z, pb.z), pc.z),
        },
        hi: V3 {
            x: imax(imax(pa.x, pb.x), pc.x),
            y: imax(imax(pa.y, pb.y), pc.y),
            z: imax(imax(pa.z, pb.z), pc.z),
        },
    }
}

/// The first spanning edge, from corner a to corner b.
pub open spec fn tri_span_a(t: Triangle) -> V3 {
    V3 {
        x: t.b.position.m().x - t.a.position.m().x,
        y: t.b.position.m().y - t.a.position.m().y,
        z: t.b.position.m().z - t.a.position.m().z,
    }
}

/// The second spanning edge, from corner a to corner c.
pub open spec fn tri_span_b(t: Triangle) -> V3 {
    V3 {
        x: t.c.position.m().x - t.a.position.m().x,
        y: t.c.position.m().y - t.a.position.m().y,
        z: t.c.position.m().z - t.a.position.m().z,
    }
}

/// The blend `w0 a + w1 b + w2 c` of three scalars by fixed-point weights,
/// clamped into coordinate range.
pub open spec fn bary_blend(w0: int, w1: int, w2: int, a: int, b: int, c: int) -> int {
    clamp_coord(fxmul(w0, a) + fxmul(w1, b) + fxmul(w2, c))
}

/// The shading normal of a triangle at barycentric coordinates `(u, v)`:
/// the interpolated vertex normals where all three corners carry one, the
/// normalised face normal otherwise, so the first-hit normal feature stays
/// near the unit range.
pub open spec fn tri_shade_normal(t: Triangle, u: int, v: int) -> V3 {
    match (t.a.normal, t.b.normal, t.c.normal) {
        (Some(an), Some(bn), Some(cn)) => {
            let w0 = FP_ONE - u - v;
            V3 {
                x: bary_blend(w0, u, v, an.m().x, bn.m().x, cn.m().x),
                y: bary_blend(w0, u, v, an.m().y, bn.m().y, cn.m().y),
                z: bary_blend(w0, u, v, an.m().z, bn.m().z, cn.m().z),
            }
        },
        _ => {
            let n = v3_cross(tri_span_a(t), tri_span_b(t));
            crate::vec3::v3_norm(
                V3 { x: clamp_coord(n.x), y: clamp_coord(n.y), z: clamp_coord(n.z) },
            )
        },
    }
}

/// The texture coordinates of a triangle at barycentric `(u, v)`: the
/// interpolated vertex coordinates where all corners carry them, the
/// barycentric coordinates themselves otherwise.
pub open spec fn tri_uv(t: Triangle, u: int, v: int) -> (int, int) {
    match (t.a.uv_coords, t.b.uv_coords, t.c.uv_coords) {
        (Some(au), Some(bu), Some(cu)) => {
            let w0 = FP_ONE - u - v;
            (
                fxmul(w0, au.0 as int) + fxmul(u, bu.0 as int) + fxmul(v, cu.0 as int),
                fxmul(w0, au.1 as int) + fxmul(u, bu.1 as int) + fxmul(v, cu.1 as int),
            )
        },
        _ => (u, v),
    }
}

/// What a triangle intersection returns: the plane parameter from the plane
/// equation, then the barycentric coordinates by Cramer's rule over the two
/// spanning edges; the hit stands only if `u, v >= 0` and `u + v <= 1`.
/// Degenerate geometry (a ray parallel to the plane, or coincident corners)
/// yields no intersection. The slab test of the triangle's own box is a
/// built-in precondition of any hit.
pub open spec fn tri_hit_spec(t: Triangle, o: V3, d: V3, tmin: int, tmax: int) -> Option<HitG> {
    if !slab_passes(tri_box(t), o, d, tmin, tmax) {
        None
    } else {
        let ap = t.a.position.m();
        let sa = tri_span_a(t);
        let sb = tri_span_b(t);
        let n = rcross(sa, sb);
        let den = rdot(d, n);
        if den == 0 {
            None
        } else {
            let oa = V3 { x: o.x - ap.x, y: o.y - ap.y, z: o.z - ap.z };
            let tt = tdiv(-rdot(oa, n) * (FP_ONE as int), den);
            if !(tmin <= tt <= tmax) {
                None
            } else {
                let pos = ray_at(o, d, tt);
                let rel = V3 { x: pos.x - ap.x, y: pos.y - ap.y, z: pos.z - ap.z };
                let ada = crate::vec3::v3_dot(sa, sa);
                let bdb = crate::vec3::v3_dot(sb, sb);
                let rda = crate::vec3::v3_dot(rel, sa);
                let rdb = crate::vec3::v3_dot(rel, sb);
                let adb = crate::vec3::v3_dot(sa, sb);
                let dd = adb * adb - ada * bdb;
                if dd == 0 {
                    None
                } else {
                    let u = tdiv((adb * rdb - bdb * rda) * (FP_ONE as int), dd);
                    let v = tdiv((adb * rda - ada * rdb) * (FP_ONE as int), dd);
                    if u < 0 || v < 0 || u + v > FP_ONE {
                        None
                    } else {
                        Some(
                            HitG {
                                t: tt,
                                pos,
                                normal: tri_shade_normal(t, u, v),
                                mat: Some(*t.material),
                                uv: Some(tri_uv(t, u, v)),
                            },
                        )
                    }
                }
            }
        }
    }
}

/// The 128-bit intermediates of the triangle intersection stay in range for
/// coordinate-range corners.
proof fn lemma_tri_bounds(sa: V3, sb: V3, oa: V3, rel: V3, d: V3)
    requires
        v3_bounded(sa, 0x8000_0000),
        v3_bounded(sb, 0x8000_0000),
        v3_bounded(oa, 0x8000_0000),
        v3_bounded(rel, 0x8000_0000),
        v3_bounded(d, 0x4000_0000),
    ensures
        ({
            let n = rcross(sa, sb);
            &&& -0x4000_0000_0000_0000 <= sa.y * sb.z <= 0x4000_0000_0000_0000
            &&& -0x4000_0000_0000_0000 <= sa.z * sb.y <= 0x4000_0000_0000_0000
            &&& -0x4000_0000_0000_0000 <= sa.z * sb.x <= 0x4000_0000_0000_0000
            &&& -0x4000_0000_0000_0000 <= sa.x * sb.z <= 0x4000_0000_0000_0000
            &&& -0x4000_0000_0000_0000 <= sa.x * sb.y <= 0x4000_0000_0000_0000
            &&& -0x4000_0000_0000_0000 <= sa.y * sb.x <= 0x4000_0000_0000_0000
            &&& v3_bounded(n, 0x8000_0000_0000_0000)
            &&& -0x2000_0000_0000_0000_0000_0000 <= d.x * n.x <= 0x2000_0000_0000_0000_0000_0000
            &&& -0x2000_0000_0000_0000_0000_0000 <= d.y * n.y <= 0x2000_0000_0000_0000_0000_0000
            &&& -0x2000_0000_0000_0000_0000_0000 <= d.z * n.z <= 0x2000_0000_0000_0000_0000_0000
            &&& -0x6000_0000_0000_0000_0000_0000 <= rdot(d, n) <= 0x6000_0000_0000_0000_0000_0000
            &&& -0x4000_0000_0000_0000_0000_0000 <= oa.x * n.x <= 0x4000_0000_0000_0000_0000_0000
            &&& -0x4000_0000_0000_0000_0000_0000 <= oa.y * n.y <= 0x4000_0000_0000_0000_0000_0000
            &&& -0x4000_0000_0000_0000_0000_0000 <= oa.z * n.z <= 0x4000_0000_0000_0000_0000_0000
            &&& -0xc000_0000_0000_0000_0000_0000 <= rdot(oa, n) <= 0xc000_0000_0000_0000_0000_0000
        }),
{
    let n = rcross(sa, sb);
    let w = 0x8000_0000 as int;
    lemma_mul_abs_bound(sa.y, sb.z, w, w);
    lemma_mul_abs_bound(sa.z, sb.y, w, w);
    lemma_mul_abs_bound(sa.z, sb.x, w, w);
    lemma_mul_abs_bound(sa.x, sb.z, w, w);
    lemma_mul_abs_bound(sa.x, sb.y, w, w);
    lemma_mul_abs_bound(sa.y, sb.x, w, w);
    lemma_mul_abs_bound(d.x, n.x, 0x4000_0000, 0x8000_0000_0000_0000);
    lemma_mul_abs_bound(d.y, n.y, 0x4000_0000, 0x8000_0000_0000_0000);
    lemma_mul_abs_bound(d.z, n.z, 0x4000_0000, 0x8000_0000_0000_0000);
    lemma_mul_abs_bound(oa.x, n.x, w, 0x8000_0000_0000_0000);
    lemma_mul_abs_bound(oa.y, n.y, w, 0x8000_0000_0000_0000);
    lemma_mul_abs_bound(oa.z, n.z, w, 0x8000_0000_0000_0000);
}

/// The fixed-point dot product of two edge-sized vectors is small.
proof fn lemma_dot_small(a: V3, b: V3)
    requires
        v3_bounded(a, 0x8000_0000),
        v3_bounded(b, 0x8000_0000),
    ensures
        -0xc000_0000_0000_0000 <= a.x * b.x + a.y * b.y + a.z * b.z <= 0xc000_0000_0000_0000,
        -0x4000_0000_0000_0000 <= a.x * b.x <= 0x4000_0000_0000_0000,
        -0x4000_0000_0000_0000 <= a.y * b.y <= 0x4000_0000_0000_0000,
        -0x4000_0000_0000_0000 <= a.z * b.z <= 0x4000_0000_0000_0000,
        -0xc000_0000_0000 <= crate::vec3::v3_dot(a, b) <= 0xc000_0000_0000,
{
    let w = 0x8000_0000 as int;
    lemma_mul_abs_bound(a.x, b.x, w, w);
    lemma_mul_abs_bound(a.y, b.y, w, w);
    lemma_mul_abs_bound(a.z, b.z, w, w);
    lemma_tdiv_abs_le(
        a.x * b.x + a.y * b.y + a.z * b.z,
        0xc000_0000_0000_0000,
        FP_ONE as int,
    );
    assert(0xc000_0000_0000_0000int / 65536int == 0xc000_0000_0000int) by (nonlinear_arith);
}

impl Hit for Triangle {
    open spec fn wf(&self) -> bool {
        tri_wf(*self)
    }

    open spec fn bbox_spec(&self) -> B3 {
        tri_box(*self)
    }

    open spec fn hit_spec(&self, o: V3, d: V3, tmin: int, tmax: int) -> Option<HitG> {
        tri_hit_spec(*self, o, d, tmin, tmax)
    }

    open spec fn center_spec(&self) -> V3 {
        box_center(tri_box(*self))
    }

    proof fn lemma_hit_props(&self, o: V3, d: V3, tmin: int, tmax: int) {
    }

    fn hit(&self, ray: &Ray, t_min: i64, t_max: i64) -> (r: Option<HitResult>) {
        let bbo = self.bounding_box();
        let bb = match bbo {
            Some(b) => b,
            None => {
                proof {
                    assert(false);
                }
                AABB { start: Vec3 { x: 0, y: 0, z: 0 }, end: Vec3 { x: 0, y: 0, z: 0 } }
            },
        };
        if bb.hit(ray, t_min, t_max).is_none() {
            return None;
        }
        let o = ray.origin;
        let d = ray.direction;
        let pa = self.a.position;
        let sax: i128 = (self.b.position.x as i128) - (pa.x as i128);
        let say: i128 = (self.b.position.y as i128) - (pa.y as i128);
        let saz: i128 = (self.b.position.z as i128) - (pa.z as i128);
        let sbx: i128 = (self.c.position.x as i128) - (pa.x as i128);
        let sby: i128 = (self.c.position.y as i128) - (pa.y as i128);
        let sbz: i128 = (self.c.position.z as i128) - (pa.z as i128);
        proof {
            lemma_tri_bounds(
                tri_span_a(*self),
                tri_span_b(*self),
                V3 {
                    x: o.m().x - pa.m().x,
                    y: o.m().y - pa.m().y,
                    z: o.m().z - pa.m().z,
                },
                V3 { x: 0, y: 0, z: 0 },
                d.m(),
            );
        }
        let nx: i128 = say * sbz - saz * sby;
        let ny: i128 = saz * sbx - sax * sbz;
        let nz: i128 = sax * sby - say * sbx;
        let den: i128 = (d.x as i128) * nx + (d.y as i128) * ny + (d.z as i128) * nz;
        if den == 0 {
            return None;
        }
        let oax: i128 = (o.x as i128) - (pa.x as i128);
        let oay: i128 = (o.y as i128) - (pa.y as i128);
        let oaz: i128 = (o.z as i128) - (pa.z as i128);
        let tnum: i128 = -(oax * nx + oay * ny + oaz * nz);
        proof {
            lemma_mul_abs_bound(
                tnum as int,
                FP_ONE as int,
                0xc000_0000_0000_0000_0000_0000,
                FP_ONE as int,
            );
            lemma_tdiv_bounds(tnum as int * FP_ONE as int, den as int);
        }
        let tt = div_i128(tnum * (FP_ONE as i128), den);
        let tm = t_min as i128;
        let tx = t_max as i128;
        if !(tm <= tt && tt <= tx) {
            return None;
        }
        let t64 = tt as i64;
        let pos = ray.point_at(t64);
        let relx: i128 = (pos.x as i128) - (pa.x as i128);
        let rely: i128 = (pos.y as i128) - (pa.y as i128);
        let relz: i128 = (pos.z as i128) - (pa.z as i128);
        proof {
            lemma_tri_bounds(
                tri_span_a(*self),
                tri_span_b(*self),
                V3 {
                    x: o.m().x - pa.m().x,
                    y: o.m().y - pa.m().y,
                    z: o.m().z - pa.m().z,
                },
                V3 {
                    x: pos.m().x - pa.m().x,
                    y: pos.m().y - pa.m().y,
                    z: pos.m().z - pa.m().z,
                },
                d.m(),
            );
        }
        proof {
            lemma_dot_small(tri_span_a(*self), tri_span_a(*self));
            lemma_dot_small(tri_span_b(*self), tri_span_b(*self));
            lemma_dot_small(
                V3 { x: pos.m().x - pa.m().x, y: pos.m().y - pa.m().y, z: pos.m().z - pa.m().z },
                tri_span_a(*self),
            );
            lemma_dot_small(
                V3 { x: pos.m().x - pa.m().x, y: pos.m().y - pa.m().y, z: pos.m().z - pa.m().z },
                tri_span_b(*self),
            );
            lemma_dot_small(tri_span_a(*self), tri_span_b(*self));
        }
        let ada = div_i128(sax * sax + say * say + saz * saz, FP_ONE as i128);
        let bdb = div_i128(sbx * sbx + sby * sby + sbz * sbz, FP_ONE as i128);
        let rda = div_i128(relx * sax + rely * say + relz * saz, FP_ONE as i128);
        let rdb = div_i128(relx * sbx + rely * sby + relz * sbz, FP_ONE as i128);
        let adb = div_i128(sax * sbx + say * sby + saz * sbz, FP_ONE as i128);
        proof {
            lemma_mul_abs_bound(adb as int, adb as int, 0xc000_0000_0000, 0xc000_0000_0000);
            lemma_mul_abs_bound(ada as int, bdb as int, 0xc000_0000_0000, 0xc000_0000_0000);
            lemma_mul_abs_bound(adb as int, rdb as int, 0xc000_0000_0000, 0xc000_0000_0000);
            lemma_mul_abs_bound(bdb as int, rda as int, 0xc000_0000_0000, 0xc000_0000_0000);
            lemma_mul_abs_bound(adb as int, rda as int, 0xc000_0000_0000, 0xc000_0000_0000);
            lemma_mul_abs_bound(ada as int, rdb as int, 0xc000_0000_0000, 0xc000_0000_0000);
        }
        let dd: i128 = adb * adb - ada * bdb;
        if dd == 0 {
            return None;
        }
        let unum: i128 = adb * rdb - bdb * rda;
        let vnum: i128 = adb * rda - ada * rdb;
        proof {
            lemma_mul_abs_bound(
                unum as int,
                FP_ONE as int,
                0x2_0000_0000_0000_0000_0000_0000,
                FP_ONE as int,
            );
            lemma_mul_abs_bound(
                vnum as int,
                FP_ONE as int,
                0x2_0000_0000_0000_0000_0000_0000,
                FP_ONE as int,
            );
            lemma_tdiv_bounds(unum as int * FP_ONE as int, dd as int);
            lemma_tdiv_bounds(vnum as int * FP_ONE as int, dd as int);
        }
        let u = div_i128(unum * (FP_ONE as i128), dd);
        let v = div_i128(vnum * (FP_ONE as i128), dd);
        if u < 0 || v < 0 || u + v > FP_ONE as i128 {
            return None;
        }
        let u64v = u as i64;
        let v64v = v as i64;
        let n = tri_shade_normal_exec(self, u64v, v64v);
        let uv = tri_uv_exec(self, u64v, v64v);
        Some(
            HitResult {
                ray_param: t64,
                hit_position: pos,
                normal: n,
                material: Some(self.material.clone()),
                uv_coords: Some(uv),
            },
        )
    }

    fn bounding_box(&self) -> (r: Option<AABB>) {
        let pa = self.a.position;
        let pb = self.b.position;
        let pc = self.c.position;
        Some(
            AABB {
                start: Vec3 {
                    x: min3(pa.x, pb.x, pc.x),
                    y: min3(pa.y, pb.y, pc.y),
                    z: min3(pa.z, pb.z, pc.z),
                },
                end: Vec3 {
                    x: max3(pa.x, pb.x, pc.x),
                    y: max3(pa.y, pb.y, pc.y),
                    z: max3(pa.z, pb.z, pc.z),
                },
            },
        )
    }

    fn center(&self) -> (r: Vec3) {
        let bbo = self.bounding_box();
        let bb = match bbo {
            Some(b) => b,
            None => {
                proof {
                    assert(false);
                }
                AABB { start: Vec3 { x: 0, y: 0, z: 0 }, end: Vec3 { x: 0, y: 0, z: 0 } }
            },
        };
        bb.center()
    }
}

/// The smallest of three scalars.
fn min3(a: i64, b: i64, c: i64) -> (r: i64)
    ensures
        r as int == imin(imin(a as int, b as int), c as int),
{
    let m = if a <= b {
        a
    } else {
        b
    };
    if m <= c {
        m
    } else {
        c
    }
}

/// The largest of three scalars.
fn max3(a: i64, b: i64, c: i64) -> (r: i64)
    ensures
        r as int == imax(imax(a as int, b as int), c as int),
{
    let m = if a >= b {
        a
    } else {
        b
    };
    if m >= c {
        m
    } else {
        c
    }
}

/// The shading normal at barycentric `(u, v)`.
fn tri_shade_normal_exec(t: &Triangle, u: i64, v: i64) -> (r: Vec3)
    requires
        tri_wf(*t),
        0 <= u,
        0 <= v,
        u + v <= FP_ONE,
    ensures
        r.m() == tri_shade_normal(*t, u as int, v as int),
        in_coord_range(r.m()),
{
    match (&t.a.normal, &t.b.normal, &t.c.normal) {
        (Some(an), Some(bn), Some(cn)) => {
            let w0 = FP_ONE - u - v;
            Vec3 {
                x: bary_blend_exec(w0, u, v, an.x, bn.x, cn.x),
                y: bary_blend_exec(w0, u, v, an.y, bn.y, cn.y),
                z: bary_blend_exec(w0, u, v, an.z, bn.z, cn.z),
            }
        },
        _ => {
            let sa = t.b.position.sub(t.a.position);
            let sb = t.c.position.sub(t.a.position);
            proof {
                lemma_mul_abs_bound(sa.m().y, sb.m().z, 0x8000_0000, 0x8000_0000);
                lemma_mul_abs_bound(sa.m().z, sb.m().y, 0x8000_0000, 0x8000_0000);
                lemma_mul_abs_bound(sa.m().z, sb.m().x, 0x8000_0000, 0x8000_0000);
                lemma_mul_abs_bound(sa.m().x, sb.m().z, 0x8000_0000, 0x8000_0000);
                lemma_mul_abs_bound(sa.m().x, sb.m().y, 0x8000_0000, 0x8000_0000);
                lemma_mul_abs_bound(sa.m().y, sb.m().x, 0x8000_0000, 0x8000_0000);
                lemma_tdiv_bounds(sa.m().y * sb.m().z - sa.m().z * sb.m().y, FP_ONE as int);
                lemma_tdiv_bounds(sa.m().z * sb.m().x - sa.m().x * sb.m().z, FP_ONE as int);
                lemma_tdiv_bounds(sa.m().x * sb.m().y - sa.m().y * sb.m().x, FP_ONE as int);
            }
            let nx = div_i128(
                (sa.y as i128) * (sb.z as i128) - (sa.z as i128) * (sb.y as i128),
                FP_ONE as i128,
            );
            let ny = div_i128(
                (sa.z as i128) * (sb.x as i128) - (sa.x as i128) * (sb.z as i128),
                FP_ONE as i128,
            );
            let nz = div_i128(
                (sa.x as i128) * (sb.y as i128) - (sa.y as i128) * (sb.x as i128),
                FP_ONE as i128,
            );
            let raw = Vec3 { x: clamp_c128(nx), y: clamp_c128(ny), z: clamp_c128(nz) };
            raw.normalised()
        },
    }
}

/// Clamps a wide scalar into coordinate range.
fn clamp_c128(x: i128) -> (r: i64)
    ensures
        r as int == clamp_coord(x as int),
{
    if x < -0x4000_0000 {
        -0x4000_0000
    } else if x > 0x4000_0000 {
        0x4000_0000
    } else {
        x as i64
    }
}

/// One clamped barycentric blend of three coordinate-range scalars.
fn bary_blend_exec(w0: i64, w1: i64, w2: i64, a: i64, b: i64, c: i64) -> (r: i64)
    requires
        0 <= w0 <= FP_ONE,
        0 <= w1 <= FP_ONE,
        0 <= w2 <= FP_ONE,
        -0x4000_0000 <= a <= 0x4000_0000,
        -0x4000_0000 <= b <= 0x4000_0000,
        -0x4000_0000 <= c <= 0x4000_0000,
    ensures
        r as int == bary_blend(w0 as int, w1 as int, w2 as int, a as int, b as int, c as int),
{
    proof {
        lemma_fxmul_range(w0 as int, a as int, FP_ONE as int, 0x4000_0000);
        lemma_fxmul_range(w1 as int, b as int, FP_ONE as int, 0x4000_0000);
        lemma_fxmul_range(w2 as int, c as int, FP_ONE as int, 0x4000_0000);
    }
    let s = div_i128((w0 as i128) * (a as i128), FP_ONE as i128) + div_i128(
        (w1 as i128) * (b as i128),
        FP_ONE as i128,
    ) + div_i128((w2 as i128) * (c as i128), FP_ONE as i128);
    clamp_c128(s)
}

/// The interpolated texture coordinates at barycentric `(u, v)`.
fn tri_uv_exec(t: &Triangle, u: i64, v: i64) -> (r: (i64, i64))
    requires
        tri_wf(*t),
        0 <= u,
        0 <= v,
        u + v <= FP_ONE,
    ensures
        (r.0 as int, r.1 as int) == tri_uv(*t, u as int, v as int),
{
    match (&t.a.uv_coords, &t.b.uv_coords, &t.c.uv_coords) {
        (Some(au), Some(bu), Some(cu)) => {
            let w0 = FP_ONE - u - v;
            proof {
                let f = FP_ONE as int;
                lemma_fxmul_range(w0 as int, au.0 as int, f, 16 * f);
                lemma_fxmul_range(u as int, bu.0 as int, f, 16 * f);
                lemma_fxmul_range(v as int, cu.0 as int, f, 16 * f);
                lemma_fxmul_range(w0 as int, au.1 as int, f, 16 * f);
                lemma_fxmul_range(u as int, bu.1 as int, f, 16 * f);
                lemma_fxmul_range(v as int, cu.1 as int, f, 16 * f);
            }
            let uu = div_i128((w0 as i128) * (au.0 as i128), FP_ONE as i128) + div_i128(
                (u as i128) * (bu.0 as i128),
                FP_ONE as i128,
            ) + div_i128((v as i128) * (cu.0 as i128), FP_ONE as i128);
            let vv = div_i128((w0 as i128) * (au.1 as i128), FP_ONE as i128) + div_i128(
                (u as i128) * (bu.1 as i128),
                FP_ONE as i128,
            ) + div_i128((v as i128) * (cu.1 as i128), FP_ONE as i128);
            (uu as i64, vv as i64)
        },
        _ => (u, v),
    }
}


/// The containment law of the triangle: whenever a triangle without its own
/// vertex texture coordinates reports a hit, the barycentric coordinates it
/// carries are nonnegative and sum to at most one — the hit point lies in
/// the simplex.
pub proof fn lemma_triangle_uv_in_simplex(t: Triangle, o: V3, d: V3, tmin: int, tmax: int)
    requires
        t.a.uv_coords is None || t.b.uv_coords is None || t.c.uv_coords is None,
    ensures
        match tri_hit_spec(t, o, d, tmin, tmax) {
            Some(h) => match h.uv {
                Some(uv) => 0 <= uv.0 && 0 <= uv.1 && uv.0 + uv.1 <= FP_ONE,
                None => false,
            },
            None => true,
        },
{
}

} // verus!
