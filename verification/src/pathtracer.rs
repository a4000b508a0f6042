use vstd::prelude::*;

verus! {

use std::sync::Arc;
use crate::num::FP_ONE;
use crate::num::COORD_MAX;
use crate::num::tdiv;
use crate::num::fxmul;
use crate::num::div_i128;
use crate::num::lemma_tdiv_bounds;
use crate::num::lemma_mul_i64_fits;
use crate::num::lemma_mul_abs_bound;
use crate::vec3::Vec3;
use crate::vec3::V3;
use crate::vec3::v3_norm;
use crate::vec3::v3_bounded;
use crate::vec3::in_coord_range;
use crate::vec3::clamp_coord;
use crate::vec3::clamp_c;
use crate::ray::Ray;
use crate::ray::ray_wf;
use crate::hit::Hit;
use crate::hit::first_hit;
use crate::hit::lemma_first_hit_order_invariant;
use crate::texture::Texture;
use crate::texture::texture_wf;
use crate::texture::texture_at;
use crate::texture::clamp01;
use crate::material::scatters;
use crate::material::scatter_albedo;
use crate::material::scatter_normal;
use crate::bvh::inv_depth;
use crate::material::emitted_spec;
use crate::surface::Surface;
use crate::bvh::BvhTree;
use crate::bvh::tree_wf;
use crate::camera::Camera;
use crate::camera::camera_wf;
use crate::camera::pixel_ray_spec;
use crate::primitives::sphere_uv;
use crate::primitives::uv_from_normal;
use crate::sampler::rand_unit_fx;

/// The hard cap on path length: a walk is cut after this many bounces, so
/// every walk halts even on pathological geometry. This truncation is a
/// small, known bias, kept for compatibility rather than silently replaced
/// by an unbiased termination rule.
pub const MAX_BOUNCES: u32 = 100;

/// Where along a scattered ray the next query begins: a small offset that
/// keeps a walk from immediately re-finding the surface it just left.
pub const HIT_EPSILON: i64 = 7;

/// The color of the sky in a direction: the environment texture sampled at
/// the spherical coordinates of the normalised direction.
pub open spec fn sky_color(sky: Texture, d: V3) -> V3 {
    let n = v3_norm(d);
    let uv = sphere_uv(n);
    texture_at(sky, uv.0, uv.1)
}

/// The scene and the machinery that renders it: a camera, an environment,
/// and a primitive list that `finalise` seals into an immutable spatial
/// index. After finalization the tracer is read-only and any number of
/// pixel computations may proceed independently.
#[derive(Debug)]
pub struct PathTracer {
    pub width: u32,
    pub height: u32,
    pub samples: u32,
    pub incremental: bool,
    pub camera: Camera,
    pub objects: Vec<Surface>,
    pub sky: Arc<Texture>,
    pub bvh: Option<BvhTree<Surface>>,
    pub debug_index: Option<usize>,
}

/// The tracer invariant.
pub open spec fn tracer_wf(t: PathTracer) -> bool {
    &&& camera_wf(t.camera)
    &&& texture_wf(*t.sky)
    &&& 1 <= t.samples
    &&& t.width == t.camera.width
    &&& t.height == t.camera.height
    &&& (forall|j: int| 0 <= j < t.objects@.len() ==> (#[trigger] t.objects@[j]).wf())
    &&& match t.bvh {
        Some(b) => tree_wf(b),
        None => true,
    }
}


impl PathTracer {
    /// A new tracer over an empty scene. Incremental rendering refines the
    /// image one sample per frame, so it forces one sample per pass.
    pub fn new(
        width: u32,
        height: u32,
        samples: u32,
        incremental: bool,
        camera: Camera,
        sky: Arc<Texture>,
    ) -> (r: PathTracer)
        requires
            camera_wf(camera),
            texture_wf(*sky),
            1 <= samples,
            width == camera.width,
            height == camera.height,
        ensures
            tracer_wf(r),
            r.width == width,
            r.height == height,
            r.samples == (if incremental {
                1u32
            } else {
                samples
            }),
            r.incremental == incremental,
            r.camera == camera,
            r.sky == sky,
            r.objects@.len() == 0,
            r.bvh is None,
            r.debug_index is None,
    {
        let samples_used: u32 = if incremental {
            1
        } else {
            samples
        };
        PathTracer {
            width,
            height,
            samples: samples_used,
            incremental,
            camera,
            objects: Vec::new(),
            sky,
            bvh: None,
            debug_index: None,
        }
    }

    /// Adds one object to the open scene.
    pub fn add_object(&mut self, object: Surface)
        requires
            object.wf(),
            tracer_wf(*old(self)),
        ensures
            tracer_wf(*final(self)),
            final(self).objects@ == old(self).objects@.push(object),
            *final(self) == (PathTracer { objects: final(self).objects, ..*old(self) }),
    {
        self.objects.push(object);
    }

    /// Seals the scene: consumes the primitive list and builds the index
    /// over it. The scene must hold at least one primitive — an empty scene
    /// is a configuration error the caller must rule out.
    pub fn finalise(self) -> (r: PathTracer)
        requires
            tracer_wf(self),
            self.objects@.len() > 0,
        ensures
            tracer_wf(r),
            r.bvh is Some,
            r.bvh->Some_0.objects@.to_multiset() == self.objects@.to_multiset(),
            r.objects@.len() == 0,
            r.camera == self.camera,
            r.sky == self.sky,
            r.width == self.width,
            r.height == self.height,
            r.samples == self.samples,
            r.incremental == self.incremental,
    {
        let PathTracer { width, height, samples, incremental, camera, objects, sky, bvh: _, debug_index } = self;
        let tree = BvhTree::from_hittables(objects);
        PathTracer {
            width,
            height,
            samples,
            incremental,
            camera,
            objects: Vec::new(),
            sky,
            bvh: Some(tree),
            debug_index,
        }
    }

    /// One random walk: repeatedly find the nearest hit, collect the
    /// emission, and follow the material's scattered ray, reweighting the
    /// throughput by the BRDF density over the sampling density; a walk ends
    /// when the ray escapes to the sky, when a material absorbs it, or at
    /// the bounce cap.
    ///
    /// The contract pins down the two walks that use no randomness: a ray
    /// whose first hit is an absorbing material yields exactly that hit's
    /// emission and nothing more — full absorption is black beyond emission —
    /// and a ray that hits nothing yields exactly the sky's color.
    pub fn trace_color(&self, ray: &Ray, object: &BvhTree<Surface>) -> (r: (Vec3, Vec3, Vec3, i64))
        requires
            tracer_wf(*self),
            tree_wf(*object),
            ray_wf(*ray),
        ensures
            match first_hit(
                object.objects@,
                ray.origin.m(),
                ray.direction.m(),
                HIT_EPSILON as int,
                i64::MAX as int,
            ) {
                Some(h) => {
                    &&& (!scatters(h.mat->Some_0) ==> {
                        &&& r.0.m() == emitted_spec(h.mat->Some_0, h.uv)
                        &&& r.1.m() == (V3 { x: 0, y: 0, z: 0 })
                        &&& r.2.m() == (V3 { x: 0, y: 0, z: 0 })
                        &&& r.3 == 0
                    })
                    &&& (scatters(h.mat->Some_0) ==> {
                        &&& r.1.m() == scatter_albedo(h.mat->Some_0, h.uv)
                        &&& r.2.m() == scatter_normal(h.mat->Some_0, h.normal, h.uv)
                        &&& r.3 == inv_depth(h.t)
                    })
                },
                None => {
                    &&& r.0.m() == sky_color(*self.sky, ray.direction.m())
                    &&& r.1.m() == sky_color(*self.sky, ray.direction.m())
                    &&& r.2.m() == crate::vec3::v3_neg(ray.direction.m())
                    &&& r.3 == 0
                },
            },
            in_coord_range(r.0.m()),
            in_coord_range(r.1.m()),
            in_coord_range(r.2.m()),
            0 <= r.3 <= COORD_MAX,
    {
        let ghost fh = first_hit(
            object.objects@,
            ray.origin.m(),
            ray.direction.m(),
            HIT_EPSILON as int,
            i64::MAX as int,
        );
        let mut ray_to_use = *ray;
        let mut throughput = Vec3 { x: FP_ONE, y: FP_ONE, z: FP_ONE };
        let mut out_color = Vec3 { x: 0, y: 0, z: 0 };
        let mut out_albedo: Option<Vec3> = None;
        let mut out_normal: Option<Vec3> = None;
        let mut out_depth: Option<i64> = None;
        let mut bounces: u32 = 0;
        let mut escaped = false;

        while bounces <= MAX_BOUNCES
            invariant_except_break
                tracer_wf(*self),
                tree_wf(*object),
                ray_wf(*ray),
                ray_wf(ray_to_use),
                in_coord_range(out_color.m()),
                in_coord_range(throughput.m()),
                !escaped,
                fh == first_hit(
                    object.objects@,
                    ray.origin.m(),
                    ray.direction.m(),
                    HIT_EPSILON as int,
                    i64::MAX as int,
                ),
                bounces == 0 ==> ray_to_use == *ray && out_color == (Vec3 { x: 0, y: 0, z: 0 })
                    && throughput == (Vec3 { x: FP_ONE, y: FP_ONE, z: FP_ONE }) && out_albedo
                    is None && out_normal is None && out_depth is None,
                bounces > 0 ==> match fh {
                    Some(h) => {
                        &&& h.mat is Some
                        &&& scatters(h.mat->Some_0)
                        &&& match out_albedo {
                            Some(v) => v.m() == scatter_albedo(h.mat->Some_0, h.uv),
                            None => false,
                        }
                        &&& match out_normal {
                            Some(v) => v.m() == scatter_normal(h.mat->Some_0, h.normal, h.uv),
                            None => false,
                        }
                        &&& out_depth == Some(inv_depth(h.t) as i64)
                    },
                    None => false,
                },
                match out_albedo {
                    Some(v) => in_coord_range(v.m()),
                    None => true,
                },
                match out_normal {
                    Some(v) => in_coord_range(v.m()),
                    None => true,
                },
                match out_depth {
                    Some(dv) => 0 <= dv <= COORD_MAX,
                    None => true,
                },
            ensures
                tracer_wf(*self),
                ray_wf(ray_to_use),
                in_coord_range(out_color.m()),
                in_coord_range(throughput.m()),
                match fh {
                    Some(h) => {
                        &&& (!scatters(h.mat->Some_0) ==> {
                            &&& !escaped
                            &&& out_color.m() == emitted_spec(h.mat->Some_0, h.uv)
                            &&& out_albedo is None
                            &&& out_normal is None
                            &&& out_depth is None
                        })
                        &&& (scatters(h.mat->Some_0) ==> {
                            &&& match out_albedo {
                                Some(v) => v.m() == scatter_albedo(h.mat->Some_0, h.uv),
                                None => false,
                            }
                            &&& match out_normal {
                                Some(v) => v.m() == scatter_normal(
                                    h.mat->Some_0,
                                    h.normal,
                                    h.uv,
                                ),
                                None => false,
                            }
                            &&& out_depth == Some(inv_depth(h.t) as i64)
                        })
                        &&& (escaped ==> in_coord_range(out_color.m()))
                    },
                    None => {
                        &&& escaped
                        &&& out_color == (Vec3 { x: 0, y: 0, z: 0 })
                        &&& throughput == (Vec3 { x: FP_ONE, y: FP_ONE, z: FP_ONE })
                        &&& ray_to_use == *ray
                        &&& out_albedo is None
                        &&& out_normal is None
                        &&& out_depth is None
                    },
                },
                match out_albedo {
                    Some(v) => in_coord_range(v.m()),
                    None => true,
                },
                match out_normal {
                    Some(v) => in_coord_range(v.m()),
                    None => true,
                },
                match out_depth {
                    Some(dv) => 0 <= dv <= COORD_MAX,
                    None => true,
                },
            decreases MAX_BOUNCES + 1 - bounces,
        {
            let hit_opt = object.hit(&ray_to_use, HIT_EPSILON, i64::MAX);
            proof {
                object.lemma_hit_props(
                    ray_to_use.origin.m(),
                    ray_to_use.direction.m(),
                    HIT_EPSILON as int,
                    i64::MAX as int,
                );
            }
            let hit = match hit_opt {
                Some(h) => h,
                None => {
                    escaped = true;
                    break ;
                },
            };
            let marc = match &hit.material {
                Some(m) => m,
                None => {
                    proof {
                        assert(false);
                    }
                    break ;
                },
            };
            let emitted = marc.emitted(&hit);
            let ghost pre_color = out_color.m();
            out_color = Vec3 {
                x: clamp_c(out_color.x + mul_unit(throughput.x, emitted.x)),
                y: clamp_c(out_color.y + mul_unit(throughput.y, emitted.y)),
                z: clamp_c(out_color.z + mul_unit(throughput.z, emitted.z)),
            };
            proof {
                if bounces == 0 {
                    crate::num::lemma_fxmul_unit(emitted.m().x);
                    crate::num::lemma_fxmul_unit(emitted.m().y);
                    crate::num::lemma_fxmul_unit(emitted.m().z);
                    assert(out_color.m() == emitted.m());
                }
            }
            let scat = marc.scattered(&ray_to_use, &hit);
            let (albedo, normal, scattered_ray, pdf) = match scat {
                Some(s) => s,
                None => {
                    // Absorbed: the walk ends here, with only the emission
                    // collected.
                    break ;
                },
            };
            if out_albedo.is_none() {
                out_albedo = Some(albedo);
            }
            if out_normal.is_none() {
                out_normal = Some(normal);
            }
            if out_depth.is_none() {
                proof {
                    lemma_mul_abs_bound(
                        FP_ONE as int,
                        FP_ONE as int,
                        FP_ONE as int,
                        FP_ONE as int,
                    );
                    lemma_tdiv_bounds(FP_ONE as int * FP_ONE as int, hit.ray_param as int);
                    vstd::arithmetic::div_mod::lemma_div_is_ordered_by_denominator(
                        FP_ONE as int * FP_ONE as int,
                        HIT_EPSILON as int,
                        hit.ray_param as int,
                    );
                    assert((65536int * 65536int) / 7int <= 0x4000_0000int) by (nonlinear_arith);
                }
                let d = div_i128(
                    (FP_ONE as i128) * (FP_ONE as i128),
                    hit.ray_param as i128,
                ) as i64;
                out_depth = Some(if d >= 0 {
                    d
                } else {
                    0
                });
            }
            if pdf <= 0 {
                // A degenerate sample density is guarded against rather than
                // divided by; the walk is treated as absorbed.
                break ;
            }
            let spdf = marc.scattering_pdf(&ray_to_use, &hit, &scattered_ray);
            throughput = Vec3 {
                x: atten(throughput.x, albedo.x, spdf, pdf),
                y: atten(throughput.y, albedo.y, spdf, pdf),
                z: atten(throughput.z, albedo.z, spdf, pdf),
            };
            ray_to_use = scattered_ray;
            bounces = bounces + 1;
        }

        if escaped {
            // The walk left the scene: sample the environment along the last
            // direction and close the books with it.
            let nd = ray_to_use.direction.normalised();
            let uv = uv_from_normal(nd);
            let skycolor = self.sky.texture(uv);
            let ghost pre = out_color.m();
            out_color = Vec3 {
                x: clamp_c(out_color.x + mul_unit(throughput.x, skycolor.x)),
                y: clamp_c(out_color.y + mul_unit(throughput.y, skycolor.y)),
                z: clamp_c(out_color.z + mul_unit(throughput.z, skycolor.z)),
            };
            proof {
                if fh is None {
                    crate::num::lemma_fxmul_unit(skycolor.m().x);
                    crate::num::lemma_fxmul_unit(skycolor.m().y);
                    crate::num::lemma_fxmul_unit(skycolor.m().z);
                    assert(out_color.m() == sky_color(*self.sky, ray.direction.m()));
                }
            }
            let albedo = match out_albedo {
                Some(v) => v,
                None => skycolor,
            };
            let normal = match out_normal {
                Some(v) => v,
                None => ray_to_use.direction.neg(),
            };
            let depth = match out_depth {
                Some(dv) => dv,
                None => 0,
            };
            (out_color, albedo, normal, depth)
        } else {
            let albedo = match out_albedo {
                Some(v) => v,
                None => Vec3 { x: 0, y: 0, z: 0 },
            };
            let normal = match out_normal {
                Some(v) => v,
                None => Vec3 { x: 0, y: 0, z: 0 },
            };
            let depth = match out_depth {
                Some(dv) => dv,
                None => 0,
            };
            (out_color, albedo, normal, depth)
        }
    }
}

/// The order-invariance of finalization: two finalized scenes holding the
/// same primitives — in whatever insertion order — answer every query with
/// the same nearest-hit parameter, hit for hit and miss for miss.
pub proof fn lemma_finalise_order_invariant(
    a: BvhTree<Surface>,
    b: BvhTree<Surface>,
    o: V3,
    d: V3,
    tmin: int,
    tmax: int,
)
    requires
        tree_wf(a),
        tree_wf(b),
        a.objects@.to_multiset() == b.objects@.to_multiset(),
    ensures
        match (a.hit_spec(o, d, tmin, tmax), b.hit_spec(o, d, tmin, tmax)) {
            (Some(x), Some(y)) => x.t == y.t,
            (None, None) => true,
            _ => false,
        },
{
    lemma_first_hit_order_invariant(a.objects@, b.objects@, o, d, tmin, tmax);
}

/// A fixed-point product of a throughput component (within coordinate
/// range) and a color component (within coordinate range).
fn mul_unit(t: i64, c: i64) -> (r: i64)
    requires
        -COORD_MAX <= t <= COORD_MAX,
        -COORD_MAX <= c <= COORD_MAX,
    ensures
        r == fxmul(t as int, c as int),
        -0x1000_0000_0000 <= r <= 0x1000_0000_0000,
{
    proof {
        crate::num::lemma_fxmul_range(t as int, c as int, COORD_MAX as int, COORD_MAX as int);
        assert((0x4000_0000int * 0x4000_0000int) / 65536int <= 0x1000_0000_0000int)
            by (nonlinear_arith);
    }
    div_i128((t as i128) * (c as i128), FP_ONE as i128) as i64
}

/// One component of the throughput update: the old throughput times the
/// BRDF density times the albedo, divided by the sampling density, clamped
/// into coordinate range.
fn atten(t: i64, albedo: i64, spdf: i64, pdf: i64) -> (r: i64)
    requires
        pdf > 0,
        -COORD_MAX <= t <= COORD_MAX,
        -COORD_MAX <= albedo <= COORD_MAX,
    ensures
        r as int == clamp_coord(
            tdiv(fxmul(t as int, fxmul(spdf as int, albedo as int)) * (FP_ONE as int), pdf as int),
        ),
        -COORD_MAX <= r <= COORD_MAX,
{
    proof {
        lemma_mul_abs_bound(spdf as int, albedo as int, 0x8000_0000_0000_0000, 0x4000_0000);
        crate::num::lemma_tdiv_abs_le(
            spdf as int * albedo as int,
            0x4000_0000_0000_0000_0000_0000,
            FP_ONE as int,
        );
        assert(0x4000_0000_0000_0000_0000_0000int / 65536int
            == 0x4000_0000_0000_0000_0000int) by (nonlinear_arith);
        lemma_mul_abs_bound(
            t as int,
            fxmul(spdf as int, albedo as int),
            0x4000_0000,
            0x4000_0000_0000_0000_0000,
        );
        crate::num::lemma_tdiv_abs_le(
            t as int * fxmul(spdf as int, albedo as int),
            0x1000_0000_0000_0000_0000_0000_0000,
            FP_ONE as int,
        );
        assert(0x1000_0000_0000_0000_0000_0000_0000int / 65536int
            == 0x1000_0000_0000_0000_0000_0000int) by (nonlinear_arith);
        lemma_mul_abs_bound(
            fxmul(t as int, fxmul(spdf as int, albedo as int)),
            FP_ONE as int,
            0x1000_0000_0000_0000_0000_0000,
            FP_ONE as int,
        );
        lemma_tdiv_bounds(
            fxmul(t as int, fxmul(spdf as int, albedo as int)) * (FP_ONE as int),
            pdf as int,
        );
    }
    let b = div_i128((spdf as i128) * (albedo as i128), FP_ONE as i128);
    let v = div_i128((t as i128) * b, FP_ONE as i128);
    let q = div_i128(v * (FP_ONE as i128), pdf as i128);
    if q < -(COORD_MAX as i128) {
        -COORD_MAX
    } else if q > COORD_MAX as i128 {
        COORD_MAX
    } else {
        q as i64
    }
}



/// One walk's contribution to a pixel estimate: the model values of one
/// sample.
pub struct SampleG {
    pub color: V3,
    pub albedo: V3,
    pub normal: V3,
    pub depth: int,
}

/// What one finished walk promises of its outcome for the ray it followed:
/// everything in range, and the two randomness-free walks pinned exactly —
/// an absorbing first hit contributes its emission and nothing more, and a
/// miss contributes the sky color, the sky as first-hit albedo, the
/// reversed direction as normal, and zero inverse depth.
pub open spec fn walk_outcome(sky: Texture, objs: Seq<Surface>, ray: Ray, s: SampleG) -> bool {
    &&& in_coord_range(s.color)
    &&& in_coord_range(s.albedo)
    &&& in_coord_range(s.normal)
    &&& 0 <= s.depth <= COORD_MAX
    &&& match first_hit(
        objs,
        ray.origin.m(),
        ray.direction.m(),
        HIT_EPSILON as int,
        i64::MAX as int,
    ) {
        Some(h) => {
            &&& (!scatters(h.mat->Some_0) ==> {
                &&& s.color == emitted_spec(h.mat->Some_0, h.uv)
                &&& s.albedo == (V3 { x: 0, y: 0, z: 0 })
                &&& s.normal == (V3 { x: 0, y: 0, z: 0 })
                &&& s.depth == 0
            })
            &&& (scatters(h.mat->Some_0) ==> {
                &&& s.albedo == scatter_albedo(h.mat->Some_0, h.uv)
                &&& s.normal == scatter_normal(h.mat->Some_0, h.normal, h.uv)
                &&& s.depth == inv_depth(h.t)
            })
        },
        None => {
            &&& s.color == sky_color(sky, ray.direction.m())
            &&& s.albedo == sky_color(sky, ray.direction.m())
            &&& s.normal == crate::vec3::v3_neg(ray.direction.m())
            &&& s.depth == 0
        },
    }
}

/// The sample came from a walk along an admissible camera ray for the pixel
/// `(x, y)`: some sub-pixel jitter and some lens-disk point produced the ray
/// it followed.
pub open spec fn sample_admissible(
    cam: Camera,
    sky: Texture,
    objs: Seq<Surface>,
    x: u32,
    y: u32,
    s: SampleG,
) -> bool {
    exists|jx: int, jy: int, lens: V3|
        {
            &&& 0 <= jx < FP_ONE
            &&& 0 <= jy < FP_ONE
            &&& v3_bounded(lens, FP_ONE as int)
            &&& lens.z == 0
            &&& crate::vec3::v3_len_sq(lens) <= FP_ONE
            &&& walk_outcome(
                sky,
                objs,
                #[trigger] pixel_ray_spec(
                    cam,
                    x as int * FP_ONE + jx,
                    y as int * FP_ONE + jy,
                    lens,
                ),
                s,
            )
        }
}

/// The componentwise sums of a run of samples.
pub open spec fn sample_sum(outs: Seq<SampleG>) -> SampleG
    decreases outs.len(),
{
    if outs.len() == 0 {
        SampleG {
            color: V3 { x: 0, y: 0, z: 0 },
            albedo: V3 { x: 0, y: 0, z: 0 },
            normal: V3 { x: 0, y: 0, z: 0 },
            depth: 0,
        }
    } else {
        let rest = sample_sum(outs.drop_last());
        SampleG {
            color: crate::vec3::v3_add(rest.color, outs.last().color),
            albedo: crate::vec3::v3_add(rest.albedo, outs.last().albedo),
            normal: crate::vec3::v3_add(rest.normal, outs.last().normal),
            depth: rest.depth + outs.last().depth,
        }
    }
}

/// The componentwise average over `n` samples.
pub open spec fn sample_mean(outs: Seq<SampleG>, n: int) -> SampleG {
    let s = sample_sum(outs);
    SampleG {
        color: V3 { x: tdiv(s.color.x, n), y: tdiv(s.color.y, n), z: tdiv(s.color.z, n) },
        albedo: V3 { x: tdiv(s.albedo.x, n), y: tdiv(s.albedo.y, n), z: tdiv(s.albedo.z, n) },
        normal: V3 { x: tdiv(s.normal.x, n), y: tdiv(s.normal.y, n), z: tdiv(s.normal.z, n) },
        depth: tdiv(s.depth, n),
    }
}

/// The running mean of incremental rendering: the previous frames' value
/// weighted `(frame - 1)/frame` plus this frame's mean weighted `1/frame`.
pub open spec fn frame_blend_scalar(prev: int, mean: int, frame: int) -> int {
    let k = tdiv(FP_ONE as int, frame);
    fxmul(FP_ONE - k, prev) + fxmul(k, mean)
}

/// The running mean, componentwise.
pub open spec fn frame_blend(prev: V3, mean: V3, frame: int) -> V3 {
    V3 {
        x: frame_blend_scalar(prev.x, mean.x, frame),
        y: frame_blend_scalar(prev.y, mean.y, frame),
        z: frame_blend_scalar(prev.z, mean.z, frame),
    }
}

impl PathTracer {
    /// Writes one pixel's color into a row-major buffer of three scalars per
    /// pixel, clamped into the unit interval.
    pub fn set_pixel(&self, buf: &mut Vec<i64>, x: u32, y: u32, color: Vec3)
        requires
            tracer_wf(*self),
            x < self.width,
            y < self.height,
            old(buf)@.len() == 3 * self.width * self.height,
        ensures
            final(buf)@.len() == old(buf)@.len(),
            ({
                let p = 3 * (x + y * self.width as int);
                &&& final(buf)@[p] == clamp01(color.m().x)
                &&& final(buf)@[p + 1] == clamp01(color.m().y)
                &&& final(buf)@[p + 2] == clamp01(color.m().z)
                &&& forall|i: int|
                    0 <= i < old(buf)@.len() && !(p <= i < p + 3) ==> final(buf)@[i] == old(
                        buf,
                    )@[i]
            }),
    {
        proof {
            lemma_pixel_slot(self.width as int, self.height as int, x as int, y as int);
        }
        let position: usize = 3 * (x as usize + y as usize * self.width as usize);
        buf.set(position, clamp01_color(color.x));
        buf.set(position + 1, clamp01_color(color.y));
        buf.set(position + 2, clamp01_color(color.z));
    }

    /// Reads one pixel's color back from a row-major buffer.
    pub fn get_pixel(&self, buf: &Vec<i64>, x: u32, y: u32) -> (r: Vec3)
        requires
            tracer_wf(*self),
            x < self.width,
            y < self.height,
            buf@.len() == 3 * self.width * self.height,
        ensures
            ({
                let p = 3 * (x + y * self.width as int);
                r.m() == (V3 { x: buf@[p] as int, y: buf@[p + 1] as int, z: buf@[p + 2] as int })
            }),
    {
        proof {
            lemma_pixel_slot(self.width as int, self.height as int, x as int, y as int);
        }
        let position: usize = 3 * (x as usize + y as usize * self.width as usize);
        Vec3 { x: buf[position], y: buf[position + 1], z: buf[position + 2] }
    }

    /// The whole estimate for one pixel: `samples` independent walks through
    /// jittered sub-pixel positions, averaged; in incremental mode the
    /// average is blended into the previous frame's value by `1/frame`, so
    /// the buffers hold the running mean over all frames so far. The four
    /// results are the color and the denoiser's three feature values:
    /// first-hit albedo, first-hit normal, and inverse depth.
    ///
    /// The contract ties the result to the walks exactly: there are
    /// `samples` admissible walk outcomes whose componentwise average (or,
    /// in incremental mode, its running-mean blend with `prev`) the result
    /// equals. In particular, when every admissible ray's first hit is an
    /// absorbing material of one constant emission, the plain average is
    /// exactly that emission.
    pub fn render_pixel(&self, x: u32, y: u32, frame: u32, prev: (Vec3, Vec3, Vec3, i64)) -> (r: (
        Vec3,
        Vec3,
        Vec3,
        i64,
    ))
        requires
            tracer_wf(*self),
            self.bvh is Some,
            x < self.width,
            y < self.height,
            1 <= frame,
            in_coord_range(prev.0.m()),
            in_coord_range(prev.1.m()),
            in_coord_range(prev.2.m()),
            -COORD_MAX <= prev.3 <= COORD_MAX,
        ensures
            in_coord_range(r.0.m()),
            in_coord_range(r.1.m()),
            in_coord_range(r.2.m()),
            -COORD_MAX <= r.3 <= COORD_MAX,
            !self.incremental ==> 0 <= r.3,
            exists|outs: Seq<SampleG>|
                #![auto]
                {
                    &&& outs.len() == self.samples as int
                    &&& (forall|j: int|
                        0 <= j < outs.len() ==> sample_admissible(
                            self.camera,
                            *self.sky,
                            self.bvh->Some_0.objects@,
                            x,
                            y,
                            #[trigger] outs[j],
                        ))
                    &&& ({
                        let mean = sample_mean(outs, self.samples as int);
                        if self.incremental {
                            &&& r.0.m() == frame_blend(prev.0.m(), mean.color, frame as int)
                            &&& r.1.m() == frame_blend(prev.1.m(), mean.albedo, frame as int)
                            &&& r.2.m() == frame_blend(prev.2.m(), mean.normal, frame as int)
                            &&& r.3 == frame_blend_scalar(
                                prev.3 as int,
                                mean.depth,
                                frame as int,
                            )
                        } else {
                            &&& r.0.m() == mean.color
                            &&& r.1.m() == mean.albedo
                            &&& r.2.m() == mean.normal
                            &&& r.3 == mean.depth
                        }
                    })
                },
    {
        let bvh = match &self.bvh {
            Some(b) => b,
            None => {
                proof {
                    assert(false);
                }
                return (prev.0, prev.1, prev.2, prev.3);
            },
        };
        let mut sc = Vec3 { x: 0, y: 0, z: 0 };
        let mut sa = Vec3 { x: 0, y: 0, z: 0 };
        let mut sn = Vec3 { x: 0, y: 0, z: 0 };
        let mut sd: i64 = 0;
        let mut s: u32 = 0;
        let n = self.samples;
        let ghost mut outs: Seq<SampleG> = Seq::empty();
        while s < n
            invariant
                tracer_wf(*self),
                tree_wf(*bvh),
                self.bvh is Some,
                *bvh == self.bvh->Some_0,
                n == self.samples,
                x < self.width,
                y < self.height,
                0 <= s <= n,
                outs.len() == s as int,
                forall|j: int|
                    0 <= j < outs.len() ==> sample_admissible(
                        self.camera,
                        *self.sky,
                        self.bvh->Some_0.objects@,
                        x,
                        y,
                        #[trigger] outs[j],
                    ),
                sc.m() == sample_sum(outs).color,
                sa.m() == sample_sum(outs).albedo,
                sn.m() == sample_sum(outs).normal,
                sd == sample_sum(outs).depth,
                v3_bounded(sc.m(), s as int * COORD_MAX as int),
                v3_bounded(sa.m(), s as int * COORD_MAX as int),
                v3_bounded(sn.m(), s as int * COORD_MAX as int),
                0 <= sd <= s as int * COORD_MAX as int,
            decreases n - s,
        {
            let jx = rand_unit_fx();
            let jy = rand_unit_fx();
            let px = x as i64 * FP_ONE + jx;
            let py = y as i64 * FP_ONE + jy;
            let ray = self.camera.get_ray(px, py);
            let (c, a, nn, d) = self.trace_color(&ray, bvh);
            let ghost sg = SampleG {
                color: c.m(),
                albedo: a.m(),
                normal: nn.m(),
                depth: d as int,
            };
            proof {
                assert(walk_outcome(*self.sky, bvh.objects@, ray, sg));
                let lens = choose|lens: V3|
                    {
                        &&& v3_bounded(lens, FP_ONE as int)
                        &&& lens.z == 0
                        &&& crate::vec3::v3_len_sq(lens) <= FP_ONE
                        &&& ray == #[trigger] pixel_ray_spec(
                            self.camera,
                            px as int,
                            py as int,
                            lens,
                        )
                    };
                assert(px as int == x as int * FP_ONE + jx as int);
                assert(walk_outcome(
                    *self.sky,
                    self.bvh->Some_0.objects@,
                    pixel_ray_spec(
                        self.camera,
                        x as int * FP_ONE + jx as int,
                        y as int * FP_ONE + jy as int,
                        lens,
                    ),
                    sg,
                ));
                assert(sample_admissible(
                    self.camera,
                    *self.sky,
                    self.bvh->Some_0.objects@,
                    x,
                    y,
                    sg,
                ));
                assert(outs.push(sg).drop_last() =~= outs);
                assert(outs.push(sg).last() == sg);
            }
            sc = Vec3 { x: sc.x + c.x, y: sc.y + c.y, z: sc.z + c.z };
            sa = Vec3 { x: sa.x + a.x, y: sa.y + a.y, z: sa.z + a.z };
            sn = Vec3 { x: sn.x + nn.x, y: sn.y + nn.y, z: sn.z + nn.z };
            sd = sd + d;
            proof {
                outs = outs.push(sg);
            }
            s = s + 1;
        }
        let fc = avg_color(sc, n);
        let fa = avg_color(sa, n);
        let fn_ = avg_color(sn, n);
        let fd = avg_scalar(sd, n);
        if self.incremental {
            // Blend the new estimate into the previous frames' running mean.
            let k = div_i128(FP_ONE as i128, frame as i128) as i64;
            proof {
                lemma_tdiv_bounds(FP_ONE as int, frame as int);
            }
            let km1 = FP_ONE - k;
            let r = (
                blend_color(prev.0, fc, km1, k),
                blend_color(prev.1, fa, km1, k),
                blend_color(prev.2, fn_, km1, k),
                blend_scalar(prev.3, fd, km1, k),
            );
            r
        } else {
            (fc, fa, fn_, fd)
        }
    }
}

/// The pixel's first slot lies inside the buffer.
proof fn lemma_pixel_slot(w: int, h: int, x: int, y: int)
    requires
        1 <= w <= 0x8000,
        1 <= h <= 0x8000,
        0 <= x < w,
        0 <= y < h,
    ensures
        0 <= 3 * (x + y * w),
        3 * (x + y * w) + 3 <= 3 * w * h,
        x + y * w < 0x4000_0000,
{
    assert(3 * (x + y * w) + 3 <= 3 * w * h && 0 <= 3 * (x + y * w) && x + y * w
        < 0x4000_0000) by (nonlinear_arith)
        requires
            1 <= w <= 0x8000,
            1 <= h <= 0x8000,
            0 <= x < w,
            0 <= y < h,
    ;
}

/// A scalar clamped into the unit interval `[0, 1]`.
fn clamp01_color(v: i64) -> (r: i64)
    ensures
        r == clamp01(v as int),
{
    if v < 0 {
        0
    } else if v > FP_ONE {
        FP_ONE
    } else {
        v
    }
}

/// The average of a component-wise sum of coordinate-range samples.
fn avg_color(sum: Vec3, n: u32) -> (r: Vec3)
    requires
        1 <= n,
        v3_bounded(sum.m(), n as int * COORD_MAX as int),
    ensures
        r.m() == (V3 {
            x: tdiv(sum.m().x, n as int),
            y: tdiv(sum.m().y, n as int),
            z: tdiv(sum.m().z, n as int),
        }),
        in_coord_range(r.m()),
{
    proof {
        lemma_avg_bound(sum.m().x, n as int);
        lemma_avg_bound(sum.m().y, n as int);
        lemma_avg_bound(sum.m().z, n as int);
    }
    Vec3 {
        x: div_i128(sum.x as i128, n as i128) as i64,
        y: div_i128(sum.y as i128, n as i128) as i64,
        z: div_i128(sum.z as i128, n as i128) as i64,
    }
}

/// The average of a scalar sum of bounded samples.
fn avg_scalar(sum: i64, n: u32) -> (r: i64)
    requires
        1 <= n,
        0 <= sum <= n as int * COORD_MAX as int,
    ensures
        r == tdiv(sum as int, n as int),
        0 <= r <= COORD_MAX,
{
    proof {
        lemma_avg_bound(sum as int, n as int);
        lemma_tdiv_bounds(sum as int, n as int);
    }
    div_i128(sum as i128, n as i128) as i64
}

/// An average of coordinate-range values stays within coordinate range.
proof fn lemma_avg_bound(sum: int, n: int)
    requires
        1 <= n,
        -(n * COORD_MAX as int) <= sum <= n * COORD_MAX as int,
    ensures
        -COORD_MAX <= tdiv(sum, n) <= COORD_MAX,
{
    crate::num::lemma_tdiv_abs_le(sum, n * COORD_MAX as int, n);
    vstd::arithmetic::div_mod::lemma_div_multiples_vanish(COORD_MAX as int, n);
    assert(n * COORD_MAX as int == COORD_MAX as int * n) by (nonlinear_arith);
    assert((COORD_MAX as int * n) == (n * COORD_MAX as int));
}

/// A unit-weight blend of two coordinate-range colors, component-wise.
fn blend_color(a: Vec3, b: Vec3, km1: i64, k: i64) -> (r: Vec3)
    requires
        in_coord_range(a.m()),
        in_coord_range(b.m()),
        0 <= k <= FP_ONE,
        km1 == FP_ONE - k,
    ensures
        in_coord_range(r.m()),
        r.m() == (V3 {
            x: fxmul(km1 as int, a.m().x) + fxmul(k as int, b.m().x),
            y: fxmul(km1 as int, a.m().y) + fxmul(k as int, b.m().y),
            z: fxmul(km1 as int, a.m().z) + fxmul(k as int, b.m().z),
        }),
{
    proof {
        crate::texture::lemma_blend_split(a.m().x, b.m().x, k as int);
        crate::texture::lemma_blend_split(a.m().y, b.m().y, k as int);
        crate::texture::lemma_blend_split(a.m().z, b.m().z, k as int);
    }
    Vec3 {
        x: blend_scalar(a.x, b.x, km1, k),
        y: blend_scalar(a.y, b.y, km1, k),
        z: blend_scalar(a.z, b.z, km1, k),
    }
}

/// A unit-weight blend of two coordinate-range scalars.
fn blend_scalar(a: i64, b: i64, km1: i64, k: i64) -> (r: i64)
    requires
        -COORD_MAX <= a <= COORD_MAX,
        -COORD_MAX <= b <= COORD_MAX,
        0 <= k <= FP_ONE,
        km1 == FP_ONE - k,
    ensures
        r == fxmul(km1 as int, a as int) + fxmul(k as int, b as int),
        -COORD_MAX <= r <= COORD_MAX,
{
    proof {
        crate::num::lemma_fxmul_range(km1 as int, a as int, FP_ONE as int, COORD_MAX as int);
        crate::num::lemma_fxmul_range(k as int, b as int, FP_ONE as int, COORD_MAX as int);
        crate::texture::lemma_blend_split(a as int, b as int, k as int);
    }
    div_i128((km1 as i128) * (a as i128), FP_ONE as i128) as i64 + div_i128(
        (k as i128) * (b as i128),
        FP_ONE as i128,
    ) as i64
}

} // verus!
