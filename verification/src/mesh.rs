use vstd::prelude::*;

verus! {

use crate::vec3::Vec3;
use crate::vec3::V3;
use crate::vec3::in_coord_range;
use crate::vec3::clamp_coord;
use crate::ray::Ray;
use crate::ray::ray_wf;
use crate::aabb::AABB;
use crate::aabb::B3;
use crate::aabb::box_wf;
use crate::aabb::box_center;
use crate::aabb::slab_passes;
use crate::hit::Hit;
use crate::hit::HitG;
use crate::hit::HitResult;
use crate::hit::first_hit;
use crate::hit::lemma_first_hit_props;
use crate::bvh::BvhTree;
use crate::bvh::tree_wf;
use crate::primitives::Triangle;
use crate::primitives::tri_wf;

/// A triangle mesh: a position offset and a bounding volume hierarchy over
/// its faces. The mesh receives its triangles already parsed — reading a
/// model file is the caller's business — and indexes them itself.
#[derive(Clone, Debug)]
pub struct Mesh {
    /// Where the mesh stands; the incoming ray is translated by the
    /// opposite offset instead of moving every face.
    pub position: Vec3,
    /// The faces, behind their own spatial index.
    pub faces: BvhTree<Triangle>,
}

/// The mesh invariant: a legal position and a well-formed face index.
pub open spec fn mesh_wf(m: Mesh) -> bool {
    &&& in_coord_range(m.position.m())
    &&& tree_wf(m.faces)
}

/// The mesh's box: the root box of the face index, shifted by the mesh's
/// position and clamped into coordinate range.
pub open spec fn mesh_box(m: Mesh) -> B3 {
    let rb = m.faces.nodes@[m.faces.root as int].bb.m();
    let p = m.position.m();
    B3 {
        lo: V3 {
            x: clamp_coord(rb.lo.x + p.x),
            y: clamp_coord(rb.lo.y + p.y),
            z: clamp_coord(rb.lo.z + p.z),
        },
        hi: V3 {
            x: clamp_coord(rb.hi.x + p.x),
            y: clamp_coord(rb.hi.y + p.y),
            z: clamp_coord(rb.hi.z + p.z),
        },
    }
}

/// What a mesh intersection returns: the nearest face hit of the translated
/// ray, its position carried back into world space. The slab test of the
/// mesh's own box is a built-in precondition of any hit, and a ray whose
/// translated origin leaves the coordinate range is rejected as a guard.
pub open spec fn mesh_hit_spec(m: Mesh, o: V3, d: V3, tmin: int, tmax: int) -> Option<HitG> {
    if !slab_passes(mesh_box(m), o, d, tmin, tmax) {
        None
    } else {
        let p = m.position.m();
        let ot = V3 { x: o.x - p.x, y: o.y - p.y, z: o.z - p.z };
        if !in_coord_range(ot) {
            None
        } else {
            match first_hit(m.faces.objects@, ot, d, tmin, tmax) {
                Some(h) => Some(
                    HitG {
                        t: h.t,
                        pos: V3 {
                            x: clamp_coord(h.pos.x + p.x),
                            y: clamp_coord(h.pos.y + p.y),
                            z: clamp_coord(h.pos.z + p.z),
                        },
                        normal: h.normal,
                        mat: h.mat,
                        uv: h.uv,
                    },
                ),
                None => None,
            }
        }
    }
}

impl Mesh {
    /// A mesh at the given position, over already-parsed triangles. The face
    /// list must not be empty.
    pub fn new(position: Vec3, faces: Vec<Triangle>) -> (r: Mesh)
        requires
            in_coord_range(position.m()),
            faces@.len() > 0,
            forall|j: int| 0 <= j < faces@.len() ==> tri_wf(#[trigger] faces@[j]),
        ensures
            mesh_wf(r),
            r.position == position,
            r.faces.objects@.to_multiset() == faces@.to_multiset(),
    {
        proof {
            assert(forall|j: int|
                0 <= j < faces@.len() ==> (#[trigger] faces@[j]).wf());
        }
        let bvh = BvhTree::from_hittables(faces);
        Mesh { position, faces: bvh }
    }
}

impl Hit for Mesh {
    open spec fn wf(&self) -> bool {
        mesh_wf(*self)
    }

    open spec fn bbox_spec(&self) -> B3 {
        mesh_box(*self)
    }

    open spec fn hit_spec(&self, o: V3, d: V3, tmin: int, tmax: int) -> Option<HitG> {
        mesh_hit_spec(*self, o, d, tmin, tmax)
    }

    open spec fn center_spec(&self) -> V3 {
        self.position.m()
    }

    proof fn lemma_hit_props(&self, o: V3, d: V3, tmin: int, tmax: int) {
        let p = self.position.m();
        let ot = V3 { x: o.x - p.x, y: o.y - p.y, z: o.z - p.z };
        lemma_first_hit_props(self.faces.objects@, ot, d, tmin, tmax);
    }

    fn hit(&self, ray: &Ray, t_min: i64, t_max: i64) -> (r: Option<HitResult>) {
        // The mesh's own box first: the pruning step of any containing index
        // relies on a hit implying this test.
        let rb = self.faces.nodes[self.faces.root].bb;
        let bb = AABB {
            start: Vec3 {
                x: crate::vec3::clamp_c(rb.start.x + self.position.x),
                y: crate::vec3::clamp_c(rb.start.y + self.position.y),
                z: crate::vec3::clamp_c(rb.start.z + self.position.z),
            },
            end: Vec3 {
                x: crate::vec3::clamp_c(rb.end.x + self.position.x),
                y: crate::vec3::clamp_c(rb.end.y + self.position.y),
                z: crate::vec3::clamp_c(rb.end.z + self.position.z),
            },
        };
        if bb.hit(ray, t_min, t_max).is_none() {
            return None;
        }
        // Offset the ray instead of every face.
        let ox = ray.origin.x - self.position.x;
        let oy = ray.origin.y - self.position.y;
        let oz = ray.origin.z - self.position.z;
        let c = crate::num::COORD_MAX;
        if ox < -c || ox > c || oy < -c || oy > c || oz < -c || oz > c {
            return None;
        }
        let modified_ray = Ray {
            origin: Vec3 { x: ox, y: oy, z: oz },
            direction: ray.direction,
        };
        let inner = self.faces.hit(&modified_ray, t_min, t_max);
        proof {
            lemma_first_hit_props(
                self.faces.objects@,
                modified_ray.origin.m(),
                modified_ray.direction.m(),
                t_min as int,
                t_max as int,
            );
        }
        match inner {
            Some(hit) => {
                // Undo the offsetting to put the hit back in world space.
                Some(
                    HitResult {
                        ray_param: hit.ray_param,
                        hit_position: Vec3 {
                            x: crate::vec3::clamp_c(hit.hit_position.x + self.position.x),
                            y: crate::vec3::clamp_c(hit.hit_position.y + self.position.y),
                            z: crate::vec3::clamp_c(hit.hit_position.z + self.position.z),
                        },
                        normal: hit.normal,
                        material: hit.material,
                        uv_coords: hit.uv_coords,
                    },
                )
            },
            None => None,
        }
    }

    fn bounding_box(&self) -> (r: Option<AABB>) {
        let rb = self.faces.nodes[self.faces.root].bb;
        Some(
            AABB {
                start: Vec3 {
                    x: crate::vec3::clamp_c(rb.start.x + self.position.x),
                    y: crate::vec3::clamp_c(rb.start.y + self.position.y),
                    z: crate::vec3::clamp_c(rb.start.z + self.position.z),
                },
                end: Vec3 {
                    x: crate::vec3::clamp_c(rb.end.x + self.position.x),
                    y: crate::vec3::clamp_c(rb.end.y + self.position.y),
                    z: crate::vec3::clamp_c(rb.end.z + self.position.z),
                },
            },
        )
    }

    fn center(&self) -> (r: Vec3) {
        self.position
    }
}

} // verus!
