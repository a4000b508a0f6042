use vstd::prelude::*;

verus! {

use std::sync::Arc;
use crate::vec3::Vec3;
use crate::vec3::V3;
use crate::ray::Ray;
use crate::ray::ray_wf;
use crate::ray::ray_at;
use crate::aabb::AABB;
use crate::aabb::B3;
use crate::hit::Hit;
use crate::hit::HitG;
use crate::hit::HitResult;
use crate::material::Material;
use crate::material::material_wf;
use crate::surface::Surface;

/// The query window used to find the volume's boundary crossings: wide
/// enough to catch crossings behind the ray origin too.
pub const VOLUME_T_SPAN: i64 = 0x4000_0000_0000;

/// The offset past the first boundary crossing where the search for the
/// second begins.
pub const VOLUME_EPSILON: i64 = 7;

/// A participating medium of constant density inside a boundary surface. A
/// ray entering the boundary scatters somewhere inside with probability
/// rising along the traversed distance; the exponential free-path length is
/// drawn by the caller (it needs a logarithm of a random number) and handed
/// in as `hit_distance`.
///
/// Because the scatter point depends on that per-query draw, a volume's
/// intersection is not a function of the ray alone, so it cannot satisfy the
/// deterministic `Hit` contract and cannot stand in a `Surface` scene; it is
/// queried directly, as here, by whoever drives the walk.
#[derive(Debug)]
pub struct ConstantVolume {
    pub boundary: Box<Surface>,
    pub density: i64,
    pub material: Arc<Material>,
}

/// The volume invariant.
pub open spec fn volume_wf(v: ConstantVolume) -> bool {
    &&& (*v.boundary).wf()
    &&& v.density > 0
    &&& material_wf(*v.material)
}

/// What a volume intersection returns, given the sampled free-path length:
/// the ray must cross the boundary twice (entry, then exit); if the sampled
/// length ends inside the crossing interval the scatter event stands there,
/// else the ray passes through unhindered. The reported normal is zero — a
/// medium has no surface direction — and there are no texture coordinates.
pub open spec fn volume_hit_spec(v: ConstantVolume, o: V3, d: V3, hit_distance: int) -> Option<
    HitG,
> {
    match (*v.boundary).hit_spec(o, d, -VOLUME_T_SPAN as int, VOLUME_T_SPAN as int) {
        Some(hit1) => match (*v.boundary).hit_spec(
            o,
            d,
            hit1.t + VOLUME_EPSILON,
            VOLUME_T_SPAN as int,
        ) {
            Some(hit2) => {
                let t1 = if hit1.t >= 0 {
                    hit1.t
                } else {
                    0
                };
                if t1 > hit2.t {
                    None
                } else {
                    let distance = hit2.t - t1;
                    if hit_distance < distance {
                        let tp = t1 + hit_distance;
                        Some(
                            HitG {
                                t: tp,
                                pos: ray_at(o, d, tp),
                                normal: V3 { x: 0, y: 0, z: 0 },
                                mat: Some(*v.material),
                                uv: None,
                            },
                        )
                    } else {
                        None
                    }
                }
            },
            None => None,
        },
        None => None,
    }
}

impl ConstantVolume {
    /// A constant medium of the given density inside the boundary.
    pub fn new(boundary: Box<Surface>, density: i64, material: Arc<Material>) -> (r:
        ConstantVolume)
        requires
            (*boundary).wf(),
            density > 0,
            material_wf(*material),
        ensures
            volume_wf(r),
            r.boundary == boundary,
            r.density == density,
            r.material == material,
    {
        ConstantVolume { boundary, density, material }
    }

    /// The scatter event of a ray in the medium, for the given sampled
    /// free-path length (in fixed-point units of ray parameter).
    pub fn hit_with_distance(&self, ray: &Ray, hit_distance: i64) -> (r: Option<HitResult>)
        requires
            volume_wf(*self),
            ray_wf(*ray),
            0 <= hit_distance,
        ensures
            crate::hit::opt_hit_matches(
                r,
                volume_hit_spec(*self, ray.origin.m(), ray.direction.m(), hit_distance as int),
            ),
    {
        let first = self.boundary.hit(ray, -VOLUME_T_SPAN, VOLUME_T_SPAN);
        let hit1 = match first {
            Some(h) => h,
            None => {
                return None;
            },
        };
        proof {
            (*self.boundary).lemma_hit_props(
                ray.origin.m(),
                ray.direction.m(),
                -VOLUME_T_SPAN as int,
                VOLUME_T_SPAN as int,
            );
        }
        let second = self.boundary.hit(ray, hit1.ray_param + VOLUME_EPSILON, VOLUME_T_SPAN);
        let hit2 = match second {
            Some(h) => h,
            None => {
                return None;
            },
        };
        proof {
            (*self.boundary).lemma_hit_props(
                ray.origin.m(),
                ray.direction.m(),
                hit1.ray_param + VOLUME_EPSILON as int,
                VOLUME_T_SPAN as int,
            );
        }
        let t1 = if hit1.ray_param >= 0 {
            hit1.ray_param
        } else {
            0
        };
        if t1 > hit2.ray_param {
            return None;
        }
        let distance = hit2.ray_param - t1;
        if hit_distance < distance {
            let tp = t1 + hit_distance;
            let pos = ray.point_at(tp);
            Some(
                HitResult {
                    ray_param: tp,
                    hit_position: pos,
                    normal: Vec3 { x: 0, y: 0, z: 0 },
                    material: Some(self.material.clone()),
                    uv_coords: None,
                },
            )
        } else {
            None
        }
    }

    /// The box of the medium is its boundary's box.
    pub fn bounding_box(&self) -> (r: Option<AABB>)
        requires
            volume_wf(*self),
        ensures
            match r {
                Some(b) => b.m() == (*self.boundary).bbox_spec(),
                None => false,
            },
    {
        self.boundary.bounding_box()
    }

    /// The centroid of the medium is its boundary's centroid.
    pub fn center(&self) -> (r: Vec3)
        requires
            volume_wf(*self),
        ensures
            r.m() == (*self.boundary).center_spec(),
    {
        self.boundary.center()
    }
}

} // verus!
