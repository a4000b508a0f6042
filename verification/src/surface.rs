use vstd::prelude::*;

verus! {

use crate::vec3::Vec3;
use crate::vec3::V3;
use crate::vec3::clamp_coord;
use crate::ray::Ray;
use crate::aabb::AABB;
use crate::aabb::B3;
use crate::aabb::box_wf;
use crate::hit::Hit;
use crate::hit::HitG;
use crate::hit::HitResult;
use crate::primitives::Sphere;
use crate::primitives::Triangle;
use crate::primitives::sphere_wf;
use crate::primitives::tri_wf;
use crate::primitives::sphere_box;
use crate::primitives::tri_box;
use crate::primitives::sphere_hit_spec;
use crate::primitives::tri_hit_spec;
use crate::aabb::box_center;
use crate::mesh::Mesh;
use crate::mesh::mesh_wf;
use crate::mesh::mesh_box;
use crate::mesh::mesh_hit_spec;
use crate::transform::Transform;
use crate::transform::transform_wf;
use crate::transform::transform_box_spec;
use crate::transform::transform_hit_spec;

/// A scene object: the closed set of shapes a scene can hold. A closed sum
/// type with a small, stable method set stands in for open dispatch. The
/// transformed variant nests another object, so the type and its
/// specifications are recursive.
#[derive(Debug)]
pub enum Surface {
    Sphere(Sphere),
    Triangle(Triangle),
    Mesh(Mesh),
    Transformed(Transform),
}

/// The invariant of a scene object; a transformed object's whole chain must
/// be well formed.
pub open spec fn surface_wf(s: Surface) -> bool
    decreases s,
{
    match s {
        Surface::Sphere(x) => sphere_wf(x),
        Surface::Triangle(t) => tri_wf(t),
        Surface::Mesh(m) => mesh_wf(m),
        Surface::Transformed(t) => transform_wf(t),
    }
}

/// The box a scene object lies in.
pub open spec fn surface_box(s: Surface) -> B3
    decreases s,
{
    match s {
        Surface::Sphere(x) => sphere_box(x),
        Surface::Triangle(t) => tri_box(t),
        Surface::Mesh(m) => mesh_box(m),
        Surface::Transformed(t) => transform_box_spec(t),
    }
}

/// The centroid of a scene object, the index's sort key.
pub open spec fn surface_center(s: Surface) -> V3
    decreases s,
{
    match s {
        Surface::Sphere(x) => x.center.m(),
        Surface::Triangle(t) => box_center(tri_box(t)),
        Surface::Mesh(m) => m.position.m(),
        Surface::Transformed(t) => V3 {
            x: clamp_coord(surface_center(*t.object).x + t.position.m().x),
            y: clamp_coord(surface_center(*t.object).y + t.position.m().y),
            z: clamp_coord(surface_center(*t.object).z + t.position.m().z),
        },
    }
}

/// What intersecting a scene object returns.
pub open spec fn surface_hit_spec(s: Surface, o: V3, d: V3, tmin: int, tmax: int) -> Option<HitG>
    decreases s,
{
    match s {
        Surface::Sphere(x) => sphere_hit_spec(x, o, d, tmin, tmax),
        Surface::Triangle(t) => tri_hit_spec(t, o, d, tmin, tmax),
        Surface::Mesh(m) => mesh_hit_spec(m, o, d, tmin, tmax),
        Surface::Transformed(t) => transform_hit_spec(t, o, d, tmin, tmax),
    }
}

/// The hit properties of every scene object, the transformed chain
/// included: a well-formed box, and any hit within the window, carrying a
/// well-formed material, texture coordinates, and in-range position and
/// normal, with the object's own slab test passing.
#[verifier::rlimit(100)]
pub proof fn lemma_surface_hit_props(s: Surface, o: V3, d: V3, tmin: int, tmax: int)
    requires
        surface_wf(s),
    ensures
        box_wf(surface_box(s)),
        match surface_hit_spec(s, o, d, tmin, tmax) {
            Some(h) => {
                &&& crate::aabb::slab_passes(surface_box(s), o, d, tmin, tmax)
                &&& tmin <= h.t <= tmax
                &&& h.mat is Some
                &&& crate::material::material_wf(h.mat->Some_0)
                &&& h.uv is Some
                &&& crate::vec3::in_coord_range(h.pos)
                &&& crate::vec3::in_coord_range(h.normal)
            },
            None => true,
        },
    decreases s,
{
    match s {
        Surface::Sphere(x) => x.lemma_hit_props(o, d, tmin, tmax),
        Surface::Triangle(t) => t.lemma_hit_props(o, d, tmin, tmax),
        Surface::Mesh(m) => m.lemma_hit_props(o, d, tmin, tmax),
        Surface::Transformed(t) => {
            let rr = crate::transform::inverse_ray_spec(t, o, d);
            lemma_surface_hit_props(*t.object, rr.0, rr.1, tmin, tmax);
        },
    }
}

impl Hit for Surface {
    open spec fn wf(&self) -> bool {
        surface_wf(*self)
    }

    open spec fn bbox_spec(&self) -> B3 {
        surface_box(*self)
    }

    open spec fn hit_spec(&self, o: V3, d: V3, tmin: int, tmax: int) -> Option<HitG> {
        surface_hit_spec(*self, o, d, tmin, tmax)
    }

    open spec fn center_spec(&self) -> V3 {
        surface_center(*self)
    }

    proof fn lemma_hit_props(&self, o: V3, d: V3, tmin: int, tmax: int) {
        lemma_surface_hit_props(*self, o, d, tmin, tmax);
    }

    fn hit(&self, ray: &Ray, t_min: i64, t_max: i64) -> (r: Option<HitResult>)
        decreases *self,
    {
        match self {
            Surface::Sphere(s) => s.hit(ray, t_min, t_max),
            Surface::Triangle(t) => t.hit(ray, t_min, t_max),
            Surface::Mesh(m) => m.hit(ray, t_min, t_max),
            Surface::Transformed(t) => t.hit(ray, t_min, t_max),
        }
    }

    fn bounding_box(&self) -> (r: Option<AABB>)
        decreases *self,
    {
        match self {
            Surface::Sphere(s) => s.bounding_box(),
            Surface::Triangle(t) => t.bounding_box(),
            Surface::Mesh(m) => m.bounding_box(),
            Surface::Transformed(t) => t.bounding_box(),
        }
    }

    fn center(&self) -> (r: Vec3)
        decreases *self,
    {
        match self {
            Surface::Sphere(s) => s.center(),
            Surface::Triangle(t) => t.center(),
            Surface::Mesh(m) => m.center(),
            Surface::Transformed(t) => t.center(),
        }
    }
}

} // verus!
