use vstd::prelude::*;

verus! {

use crate::vec3::Vec3;
use crate::vec3::V3;
use crate::vec3::in_coord_range;
use crate::vec3::clamp_coord;
use crate::vec3::clamp_c;
use crate::ray::Ray;
use crate::ray::ray_wf;
use crate::hit::Hit;
use crate::hit::HitG;
use crate::hit::HitResult;
use crate::aabb::AABB;
use crate::aabb::B3;
use crate::surface::Surface;
use crate::quat::Quaternion;
use crate::quat::quat_unit_range;
use crate::quat::quat_len_sq;
use crate::quat::rotate_spec;
use crate::quat::unrotate_spec;

/// An object placed in the world by a rotation and a translation: the
/// incoming ray is carried into the object's frame, and the hit carried
/// back, instead of transforming the object's geometry. A transform wraps
/// any scene object — transforms included — and stands in a scene through
/// the transformed `Surface` variant.
#[derive(Debug)]
pub struct Transform {
    pub object: Box<Surface>,
    pub position: Vec3,
    pub rotation: Quaternion,
    pub scale: i64,
}

/// The transform invariant: a near-unit, invertible rotation, a legal
/// position, and a well-formed inner object.
pub open spec fn transform_wf(t: Transform) -> bool
    decreases t,
{
    &&& crate::surface::surface_wf(*t.object)
    &&& in_coord_range(t.position.m())
    &&& quat_unit_range(t.rotation)
    &&& quat_len_sq(t.rotation) > 0
}

/// The ray carried into the object's frame: translated back by the
/// position, then unrotated; the translated origin is clamped into
/// coordinate range as a guard.
pub open spec fn inverse_ray_spec(t: Transform, o: V3, d: V3) -> (V3, V3) {
    let shifted = V3 {
        x: clamp_coord(o.x - t.position.m().x),
        y: clamp_coord(o.y - t.position.m().y),
        z: clamp_coord(o.z - t.position.m().z),
    };
    (unrotate_spec(t.rotation, shifted), unrotate_spec(t.rotation, d))
}

/// What a transformed intersection returns: the inner object's hit on the
/// carried-in ray, its position rotated and translated back (clamped), its
/// normal rotated back. The slab test of the transform's own box is a
/// built-in precondition of any hit, as for every other scene object.
#[verifier::rlimit(100)]
pub open spec fn transform_hit_spec(t: Transform, o: V3, d: V3, tmin: int, tmax: int) -> Option<
    HitG,
>
    decreases t,
{
    if !crate::aabb::slab_passes(transform_box_spec(t), o, d, tmin, tmax) {
        None
    } else {
        let rr = inverse_ray_spec(t, o, d);
        match crate::surface::surface_hit_spec(*t.object, rr.0, rr.1, tmin, tmax) {
            Some(h) => {
                let rp = rotate_spec(t.rotation, h.pos);
                Some(
                    HitG {
                        t: h.t,
                        pos: V3 {
                            x: clamp_coord(rp.x + t.position.m().x),
                            y: clamp_coord(rp.y + t.position.m().y),
                            z: clamp_coord(rp.z + t.position.m().z),
                        },
                        normal: rotate_spec(t.rotation, h.normal),
                        mat: h.mat,
                        uv: h.uv,
                    },
                )
            },
            None => None,
        }
    }
}

impl Transform {
    /// Places an object at a position with a rotation. The scale is carried
    /// along for its callers but not yet applied by the queries, as the
    /// transform's own remarks warn.
    pub fn new(object: Box<Surface>, position: Vec3, rotation: Quaternion, scale: i64) -> (r:
        Transform)
        requires
            (*object).wf(),
            in_coord_range(position.m()),
            quat_unit_range(rotation),
            quat_len_sq(rotation) > 0,
        ensures
            transform_wf(r),
            r.object == object,
            r.position == position,
            r.rotation == rotation,
            r.scale == scale,
    {
        Transform { object, position, rotation, scale }
    }

    /// The nearest hit of a ray against the transformed object.
    pub fn hit(&self, ray: &Ray, t_min: i64, t_max: i64) -> (r: Option<HitResult>)
        requires
            transform_wf(*self),
            ray_wf(*ray),
        ensures
            crate::hit::opt_hit_matches(
                r,
                transform_hit_spec(
                    *self,
                    ray.origin.m(),
                    ray.direction.m(),
                    t_min as int,
                    t_max as int,
                ),
            ),
        decreases *self,
    {
        // The transform's own box first: the pruning step of any containing
        // index relies on a hit implying this test.
        let bbo = self.bounding_box();
        let bb = match bbo {
            Some(b) => b,
            None => {
                proof {
                    assert(false);
                }
                return None;
            },
        };
        if bb.hit(ray, t_min, t_max).is_none() {
            return None;
        }
        let transformed_ray = self.apply_inverse_transform(ray);
        let inner = self.object.hit(&transformed_ray, t_min, t_max);
        proof {
            crate::surface::lemma_surface_hit_props(
                *self.object,
                transformed_ray.origin.m(),
                transformed_ray.direction.m(),
                t_min as int,
                t_max as int,
            );
        }
        match inner {
            Some(hit) => Some(self.apply_transform(hit)),
            None => None,
        }
    }

    /// Carries a hit found in the object's frame back into the world.
    fn apply_transform(&self, hit: HitResult) -> (r: HitResult)
        requires
            transform_wf(*self),
            in_coord_range(hit.hit_position.m()),
            in_coord_range(hit.normal.m()),
        ensures
            r.ray_param == hit.ray_param,
            r.hit_position.m() == (V3 {
                x: clamp_coord(
                    rotate_spec(self.rotation, hit.hit_position.m()).x + self.position.m().x,
                ),
                y: clamp_coord(
                    rotate_spec(self.rotation, hit.hit_position.m()).y + self.position.m().y,
                ),
                z: clamp_coord(
                    rotate_spec(self.rotation, hit.hit_position.m()).z + self.position.m().z,
                ),
            }),
            r.normal.m() == rotate_spec(self.rotation, hit.normal.m()),
            r.material == hit.material,
            r.uv_coords == hit.uv_coords,
    {
        let rp = self.rotation.rotate_vector(hit.hit_position);
        HitResult {
            ray_param: hit.ray_param,
            hit_position: Vec3 {
                x: clamp_c(rp.x + self.position.x),
                y: clamp_c(rp.y + self.position.y),
                z: clamp_c(rp.z + self.position.z),
            },
            normal: self.rotation.rotate_vector(hit.normal),
            material: hit.material,
            uv_coords: hit.uv_coords,
        }
    }

    /// Carries a ray into the object's frame: the inverse translation, then
    /// the inverse rotation.
    fn apply_inverse_transform(&self, ray: &Ray) -> (r: Ray)
        requires
            transform_wf(*self),
            ray_wf(*ray),
        ensures
            (r.origin.m(), r.direction.m()) == inverse_ray_spec(
                *self,
                ray.origin.m(),
                ray.direction.m(),
            ),
            ray_wf(r),
    {
        let shifted = Vec3 {
            x: clamp_c(ray.origin.x - self.position.x),
            y: clamp_c(ray.origin.y - self.position.y),
            z: clamp_c(ray.origin.z - self.position.z),
        };
        Ray {
            origin: self.rotation.unrotate_vector(shifted),
            direction: self.rotation.unrotate_vector(ray.direction),
        }
    }
}


/// The box around the transformed object: all eight corners of the inner
/// box rotated, their per-axis extremes taken, and the whole shifted by the
/// position (clamped into coordinate range).
pub open spec fn transform_box_spec(t: Transform) -> B3
    decreases t,
{
    let b = crate::surface::surface_box(*t.object);
    let q = t.rotation;
    let p0 = rotate_spec(q, V3 { x: b.lo.x, y: b.lo.y, z: b.lo.z });
    let p1 = rotate_spec(q, V3 { x: b.hi.x, y: b.lo.y, z: b.lo.z });
    let p2 = rotate_spec(q, V3 { x: b.lo.x, y: b.hi.y, z: b.lo.z });
    let p3 = rotate_spec(q, V3 { x: b.hi.x, y: b.hi.y, z: b.lo.z });
    let p4 = rotate_spec(q, V3 { x: b.lo.x, y: b.lo.y, z: b.hi.z });
    let p5 = rotate_spec(q, V3 { x: b.hi.x, y: b.lo.y, z: b.hi.z });
    let p6 = rotate_spec(q, V3 { x: b.lo.x, y: b.hi.y, z: b.hi.z });
    let p7 = rotate_spec(q, V3 { x: b.hi.x, y: b.hi.y, z: b.hi.z });
    let lo = V3 {
        x: min8(p0.x, p1.x, p2.x, p3.x, p4.x, p5.x, p6.x, p7.x),
        y: min8(p0.y, p1.y, p2.y, p3.y, p4.y, p5.y, p6.y, p7.y),
        z: min8(p0.z, p1.z, p2.z, p3.z, p4.z, p5.z, p6.z, p7.z),
    };
    let hi = V3 {
        x: max8(p0.x, p1.x, p2.x, p3.x, p4.x, p5.x, p6.x, p7.x),
        y: max8(p0.y, p1.y, p2.y, p3.y, p4.y, p5.y, p6.y, p7.y),
        z: max8(p0.z, p1.z, p2.z, p3.z, p4.z, p5.z, p6.z, p7.z),
    };
    B3 {
        lo: V3 {
            x: clamp_coord(lo.x + t.position.m().x),
            y: clamp_coord(lo.y + t.position.m().y),
            z: clamp_coord(lo.z + t.position.m().z),
        },
        hi: V3 {
            x: clamp_coord(hi.x + t.position.m().x),
            y: clamp_coord(hi.y + t.position.m().y),
            z: clamp_coord(hi.z + t.position.m().z),
        },
    }
}

/// The least of eight scalars.
pub open spec fn min8(a: int, b: int, c: int, d: int, e: int, f: int, g: int, h: int) -> int {
    imin8(imin8(imin8(a, b), imin8(c, d)), imin8(imin8(e, f), imin8(g, h)))
}

/// The greatest of eight scalars.
pub open spec fn max8(a: int, b: int, c: int, d: int, e: int, f: int, g: int, h: int) -> int {
    imax8(imax8(imax8(a, b), imax8(c, d)), imax8(imax8(e, f), imax8(g, h)))
}

pub open spec fn imin8(a: int, b: int) -> int {
    if a <= b { a } else { b }
}

pub open spec fn imax8(a: int, b: int) -> int {
    if a >= b { a } else { b }
}

impl Transform {
    /// The bounding box of the transformed object; the rotated corners are
    /// no longer axis-aligned, so the box of their extremes is taken.
    #[verifier::rlimit(60)]
    pub fn bounding_box(&self) -> (r: Option<AABB>)
        requires
            transform_wf(*self),
        ensures
            match r {
                Some(bb) => bb.m() == transform_box_spec(*self) && crate::aabb::box_wf(bb.m()),
                None => false,
            },
        decreases *self,
    {
        proof {
            (*self.object).lemma_hit_props(
                V3 { x: 0, y: 0, z: 0 },
                V3 { x: 0, y: 0, z: 0 },
                0,
                0,
            );
        }
        let bbo = self.object.bounding_box();
        let bb = match bbo {
            Some(b) => b,
            None => {
                proof {
                    assert(false);
                }
                AABB { start: Vec3 { x: 0, y: 0, z: 0 }, end: Vec3 { x: 0, y: 0, z: 0 } }
            },
        };
        let q = self.rotation;
        let p0 = q.rotate_vector(Vec3 { x: bb.start.x, y: bb.start.y, z: bb.start.z });
        let p1 = q.rotate_vector(Vec3 { x: bb.end.x, y: bb.start.y, z: bb.start.z });
        let p2 = q.rotate_vector(Vec3 { x: bb.start.x, y: bb.end.y, z: bb.start.z });
        let p3 = q.rotate_vector(Vec3 { x: bb.end.x, y: bb.end.y, z: bb.start.z });
        let p4 = q.rotate_vector(Vec3 { x: bb.start.x, y: bb.start.y, z: bb.end.z });
        let p5 = q.rotate_vector(Vec3 { x: bb.end.x, y: bb.start.y, z: bb.end.z });
        let p6 = q.rotate_vector(Vec3 { x: bb.start.x, y: bb.end.y, z: bb.end.z });
        let p7 = q.rotate_vector(Vec3 { x: bb.end.x, y: bb.end.y, z: bb.end.z });
        let lo = Vec3 {
            x: min2(min2(min2(p0.x, p1.x), min2(p2.x, p3.x)), min2(min2(p4.x, p5.x), min2(p6.x, p7.x))),
            y: min2(min2(min2(p0.y, p1.y), min2(p2.y, p3.y)), min2(min2(p4.y, p5.y), min2(p6.y, p7.y))),
            z: min2(min2(min2(p0.z, p1.z), min2(p2.z, p3.z)), min2(min2(p4.z, p5.z), min2(p6.z, p7.z))),
        };
        let hi = Vec3 {
            x: max2(max2(max2(p0.x, p1.x), max2(p2.x, p3.x)), max2(max2(p4.x, p5.x), max2(p6.x, p7.x))),
            y: max2(max2(max2(p0.y, p1.y), max2(p2.y, p3.y)), max2(max2(p4.y, p5.y), max2(p6.y, p7.y))),
            z: max2(max2(max2(p0.z, p1.z), max2(p2.z, p3.z)), max2(max2(p4.z, p5.z), max2(p6.z, p7.z))),
        };
        Some(
            AABB {
                start: Vec3 {
                    x: clamp_c(lo.x + self.position.x),
                    y: clamp_c(lo.y + self.position.y),
                    z: clamp_c(lo.z + self.position.z),
                },
                end: Vec3 {
                    x: clamp_c(hi.x + self.position.x),
                    y: clamp_c(hi.y + self.position.y),
                    z: clamp_c(hi.z + self.position.z),
                },
            },
        )
    }

    /// The centroid of the transformed object: rotation does not move it,
    /// translation does.
    pub fn center(&self) -> (r: Vec3)
        requires
            transform_wf(*self),
        ensures
            r.m() == (V3 {
                x: clamp_coord((*self.object).center_spec().x + self.position.m().x),
                y: clamp_coord((*self.object).center_spec().y + self.position.m().y),
                z: clamp_coord((*self.object).center_spec().z + self.position.m().z),
            }),
        decreases *self,
    {
        let c = self.object.center();
        Vec3 {
            x: clamp_c_wide(c.x, self.position.x),
            y: clamp_c_wide(c.y, self.position.y),
            z: clamp_c_wide(c.z, self.position.z),
        }
    }
}

/// The clamped sum of two scalars, through wide arithmetic.
fn clamp_c_wide(a: i64, b: i64) -> (r: i64)
    requires
        -0x4000_0000 <= b <= 0x4000_0000,
    ensures
        r as int == clamp_coord(a + b),
{
    let s: i128 = (a as i128) + (b as i128);
    if s < -0x4000_0000 {
        -0x4000_0000
    } else if s > 0x4000_0000 {
        0x4000_0000
    } else {
        s as i64
    }
}

/// The smaller of two scalars.
fn min2(a: i64, b: i64) -> (r: i64)
    ensures
        r as int == imin8(a as int, b as int),
{
    if a <= b {
        a
    } else {
        b
    }
}

/// The larger of two scalars.
fn max2(a: i64, b: i64) -> (r: i64)
    ensures
        r as int == imax8(a as int, b as int),
{
    if a >= b {
        a
    } else {
        b
    }
}

} // verus!
