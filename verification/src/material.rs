use vstd::prelude::*;

verus! {

use std::sync::Arc;
use crate::num::FP_ONE;
use crate::num::fxmul;
use crate::num::fxdiv;
use crate::num::fx_div;
use crate::num::lemma_mul_abs_bound;
use crate::num::lemma_tdiv_abs_le;
use crate::num::lemma_fxmul_range;
use crate::vec3::Vec3;
use crate::vec3::V3;
use crate::vec3::v3_dot;
use crate::vec3::v3_norm;
use crate::vec3::v3_bounded;
use crate::vec3::in_coord_range;
use crate::vec3::clamp_unit;
use crate::vec3::clamp_coord;
use crate::ray::Ray;
use crate::ray::ray_wf;
use crate::hit::HitResult;
use crate::texture::Texture;
use crate::texture::texture_wf;
use crate::texture::texture_at;
use crate::texture::PI_FX;
use crate::onb::ONB;
use crate::onb::onb_of;
use crate::onb::onb_local;
use crate::sampler::random_cosine_direction;

/// The offset a scattered ray's origin is nudged along the surface normal,
/// to avoid immediate self-intersection ("shadow acne"): about 0.001.
pub const SCATTER_EPSILON: i64 = 66;

/// A diffuse surface: light leaves in a cosine-weighted hemisphere.
#[derive(Clone, Debug)]
pub struct Lambertian {
    pub albedo: Arc<Texture>,
    pub normalmap: Option<Arc<Texture>>,
}

/// A metallic surface. Scattering is not implemented: the variant absorbs.
#[derive(Clone, Debug)]
pub struct Metal {
    pub albedo: Arc<Texture>,
    pub normalmap: Option<Arc<Texture>>,
    pub metallic: Arc<Texture>,
    pub roughness: Arc<Texture>,
}

/// A refractive surface. Scattering is not implemented: the variant absorbs.
#[derive(Clone, Debug)]
pub struct Dielectric {
    pub albedo: Arc<Texture>,
    pub normalmap: Option<Arc<Texture>>,
    pub refractive_index: i64,
}

/// A light source: emits and never scatters.
#[derive(Clone, Debug)]
pub struct Emissive {
    pub emitted: Arc<Texture>,
}

/// The phase function of a constant volume: scatters the same in every
/// direction.
#[derive(Clone, Debug)]
pub struct Isotropic {
    pub albedo: Arc<Texture>,
}

/// A surface material: how a hit emits and scatters light.
#[derive(Clone, Debug)]
pub enum Material {
    Lambertian(Lambertian),
    Metal(Metal),
    Dielectric(Dielectric),
    Emissive(Emissive),
    Isotropic(Isotropic),
}

/// All textures of the material are well formed.
pub open spec fn material_wf(m: Material) -> bool {
    match m {
        Material::Lambertian(l) => texture_wf(*l.albedo) && match l.normalmap {
            Some(t) => texture_wf(*t),
            None => true,
        },
        Material::Metal(l) => texture_wf(*l.albedo) && texture_wf(*l.metallic) && texture_wf(
            *l.roughness,
        ) && match l.normalmap {
            Some(t) => texture_wf(*t),
            None => true,
        },
        Material::Dielectric(l) => texture_wf(*l.albedo) && l.refractive_index >= 0 && match l
            .normalmap {
            Some(t) => texture_wf(*t),
            None => true,
        },
        Material::Emissive(e) => texture_wf(*e.emitted),
        Material::Isotropic(i) => texture_wf(*i.albedo),
    }
}

/// Whether the material ever scatters a ray. The metal and dielectric
/// variants are absorbing stubs, and an emitter only emits.
pub open spec fn scatters(m: Material) -> bool {
    m is Lambertian || m is Isotropic
}

/// The radiance a material emits at a hit: zero everywhere but on emissive
/// surfaces, which sample their texture.
pub open spec fn emitted_spec(m: Material, uv: Option<(int, int)>) -> V3 {
    match m {
        Material::Emissive(e) => match uv {
            Some(p) => texture_at(*e.emitted, p.0, p.1),
            None => V3 { x: 0, y: 0, z: 0 },
        },
        _ => V3 { x: 0, y: 0, z: 0 },
    }
}

/// The shading normal: the geometric normal, bent by a tangent-space normal
/// map where the material carries one. The sampled color is decoded from
/// [0,1] to [-1,1] and carried into world space by the basis around the
/// normalised geometric normal.
pub open spec fn mapped_normal_spec(nm: Option<Arc<Texture>>, normal: V3, uv: Option<(int, int)>) -> V3 {
    match nm {
        None => normal,
        Some(t) => match uv {
            None => normal,
            Some(p) => {
                let img = texture_at(*t, p.0, p.1);
                let dec = V3 {
                    x: clamp_unit(2 * img.x - FP_ONE),
                    y: clamp_unit(2 * img.y - FP_ONE),
                    z: clamp_unit(2 * img.z - FP_ONE),
                };
                let w = v3_norm(normal);
                let axes = onb_of(w);
                onb_local(axes.0, axes.1, axes.2, dec)
            },
        },
    }
}

/// The probability density with which a material's BRDF sends light from a
/// hit into the direction `sdir`: `cos(theta)/pi` over the shading normal
/// for a diffuse surface, uniform for an isotropic volume, zero for the
/// absorbing variants.
pub open spec fn scattering_pdf_spec(
    m: Material,
    normal: V3,
    uv: Option<(int, int)>,
    sdir: V3,
) -> int {
    match m {
        Material::Lambertian(l) => {
            let n = v3_norm(mapped_normal_spec(l.normalmap, normal, uv));
            let c = v3_dot(n, v3_norm(sdir));
            if c < 0 {
                0
            } else {
                fxdiv(c, PI_FX as int)
            }
        },
        Material::Isotropic(_) => fxdiv(FP_ONE as int, 4 * PI_FX as int),
        _ => 0,
    }
}

/// The albedo a scattering material reports: its texture at the hit's
/// coordinates for a diffuse surface, at the origin for an isotropic
/// medium; black for the absorbing variants, which report no scatter.
pub open spec fn scatter_albedo(m: Material, uv: Option<(int, int)>) -> V3 {
    match m {
        Material::Lambertian(l) => match uv {
            Some(p) => texture_at(*l.albedo, p.0, p.1),
            None => V3 { x: 0, y: 0, z: 0 },
        },
        Material::Isotropic(i) => texture_at(*i.albedo, 0, 0),
        _ => V3 { x: 0, y: 0, z: 0 },
    }
}

/// The normal a scattering material reports: the shading normal (bent by
/// the normal map, if any) for a diffuse surface, the geometric normal
/// otherwise.
pub open spec fn scatter_normal(m: Material, normal: V3, uv: Option<(int, int)>) -> V3 {
    match m {
        Material::Lambertian(l) => mapped_normal_spec(l.normalmap, normal, uv),
        _ => normal,
    }
}

/// Where a scattered ray starts: the hit position, nudged along the unit
/// shading normal and clamped into coordinate range.
pub open spec fn scatter_origin(pos: V3, n: V3) -> V3 {
    V3 {
        x: clamp_coord(pos.x + fxmul(SCATTER_EPSILON as int, n.x)),
        y: clamp_coord(pos.y + fxmul(SCATTER_EPSILON as int, n.y)),
        z: clamp_coord(pos.z + fxmul(SCATTER_EPSILON as int, n.z)),
    }
}

impl Lambertian {
    pub fn new(albedo: Arc<Texture>, normalmap: Option<Arc<Texture>>) -> (r: Lambertian)
        ensures
            r.albedo == albedo,
            r.normalmap == normalmap,
    {
        Lambertian { albedo, normalmap }
    }
}

impl Metal {
    pub fn new(
        albedo: Arc<Texture>,
        normalmap: Option<Arc<Texture>>,
        metallic: Arc<Texture>,
        roughness: Arc<Texture>,
    ) -> (r: Metal)
        ensures
            r.albedo == albedo,
            r.normalmap == normalmap,
            r.metallic == metallic,
            r.roughness == roughness,
    {
        Metal { albedo, normalmap, metallic, roughness }
    }
}

impl Dielectric {
    pub fn new(albedo: Arc<Texture>, normalmap: Option<Arc<Texture>>, refractive_index: i64) -> (r:
        Dielectric)
        ensures
            r.albedo == albedo,
            r.normalmap == normalmap,
            r.refractive_index == refractive_index,
    {
        Dielectric { albedo, normalmap, refractive_index }
    }
}

impl Emissive {
    pub fn new(emitted: Arc<Texture>) -> (r: Emissive)
        ensures
            r.emitted == emitted,
    {
        Emissive { emitted }
    }
}

impl Isotropic {
    pub fn new(albedo: Arc<Texture>) -> (r: Isotropic)
        ensures
            r.albedo == albedo,
    {
        Isotropic { albedo }
    }
}

/// Schlick's approximation of the Fresnel factor, in fixed point.
pub open spec fn fresnel_schlick_spec(refraction: int, cosine: int) -> int {
    let f = FP_ONE as int;
    let r0 = fxdiv(f - refraction, f + refraction);
    let r0sq = fxmul(r0, r0);
    let p = f - cosine;
    let p5 = fxmul(fxmul(fxmul(fxmul(p, p), p), p), p);
    r0sq + fxmul(f - r0sq, p5)
}

/// Schlick's approximation: how much light a dielectric reflects at the
/// given cosine of incidence.
pub fn fresnel_schlick(refraction: i64, cosine: i64) -> (r: i64)
    requires
        0 <= refraction <= FP_ONE * 16,
        -FP_ONE <= cosine <= FP_ONE,
    ensures
        r == fresnel_schlick_spec(refraction as int, cosine as int),
{
    let ghost f = FP_ONE as int;
    proof {
        crate::num::lemma_fxdiv_unit_bound(f - refraction, f + refraction, 16 * f);
    }
    let r0 = fx_div(FP_ONE - refraction, FP_ONE + refraction);
    proof {
        lemma_fxmul_range(r0 as int, r0 as int, 16 * f, 16 * f);
        assert(((16 * f) * (16 * f)) / f == 256 * f) by (nonlinear_arith)
            requires
                f == 65536,
        ;
    }
    let r0sq = crate::num::fx_mul(r0, r0);
    let p = FP_ONE - cosine;
    proof {
        lemma_fxmul_range(p as int, p as int, 2 * f, 2 * f);
        assert(((2 * f) * (2 * f)) / f == 4 * f) by (nonlinear_arith)
            requires
                f == 65536,
        ;
        lemma_fxmul_range(fxmul(p as int, p as int), p as int, 4 * f, 2 * f);
        assert(((4 * f) * (2 * f)) / f == 8 * f) by (nonlinear_arith)
            requires
                f == 65536,
        ;
        lemma_fxmul_range(fxmul(fxmul(p as int, p as int), p as int), p as int, 8 * f, 2 * f);
        assert(((8 * f) * (2 * f)) / f == 16 * f) by (nonlinear_arith)
            requires
                f == 65536,
        ;
        lemma_fxmul_range(
            fxmul(fxmul(fxmul(p as int, p as int), p as int), p as int),
            p as int,
            16 * f,
            2 * f,
        );
        assert(((16 * f) * (2 * f)) / f == 32 * f) by (nonlinear_arith)
            requires
                f == 65536,
        ;
    }
    let p2 = crate::num::fx_mul(p, p);
    let p3 = crate::num::fx_mul(p2, p);
    let p4 = crate::num::fx_mul(p3, p);
    let p5 = crate::num::fx_mul(p4, p);
    proof {
        lemma_fxmul_range(f - r0sq as int, p5 as int, 257 * f, 32 * f);
        assert(((257 * f) * (32 * f)) / f == 8224 * f) by (nonlinear_arith)
            requires
                f == 65536,
        ;
    }
    let tail = crate::num::fx_mul(FP_ONE - r0sq, p5);
    r0sq + tail
}


/// The shading normal of a hit, bent by the material's normal map when one
/// is present.
pub fn map_normal(normalmap: &Option<Arc<Texture>>, normal: Vec3, uv_coords: (i64, i64)) -> (r:
    Vec3)
    requires
        in_coord_range(normal.m()),
        match normalmap {
            Some(t) => texture_wf(**t),
            None => true,
        },
    ensures
        r.m() == mapped_normal_spec(
            *normalmap,
            normal.m(),
            Some((uv_coords.0 as int, uv_coords.1 as int)),
        ),
        in_coord_range(r.m()),
{
    match normalmap {
        None => normal,
        Some(t) => {
            let img = t.texture(uv_coords);
            let dec = Vec3 {
                x: clamp_u(2 * img.x - FP_ONE),
                y: clamp_u(2 * img.y - FP_ONE),
                z: clamp_u(2 * img.z - FP_ONE),
            };
            let w = normal.normalised();
            let onb = ONB::from_w(w);
            let r = onb.to_local(dec);
            proof {
                assert(978 * FP_ONE as int <= crate::num::COORD_MAX as int);
            }
            r
        },
    }
}

/// Clamps a scalar into the unit range `[-1, 1]`.
fn clamp_u(x: i64) -> (r: i64)
    requires
        -0x1_0000_0000_0000 <= x <= 0x1_0000_0000_0000,
    ensures
        r == clamp_unit(x as int),
{
    if x < -FP_ONE {
        -FP_ONE
    } else if x > FP_ONE {
        FP_ONE
    } else {
        x
    }
}

impl Material {
    /// The radiance the material emits at a hit: zero unless emissive.
    pub fn emitted(&self, hit: &HitResult) -> (r: Vec3)
        requires
            material_wf(*self),
            self is Emissive ==> hit.uv_coords is Some,
        ensures
            r.m() == emitted_spec(*self, hit.m().uv),
            in_coord_range(r.m()),
    {
        match self {
            Material::Emissive(e) => {
                let uv = match hit.uv_coords {
                    Some(uv) => uv,
                    None => (0, 0),
                };
                e.emitted.texture(uv)
            },
            _ => Vec3 { x: 0, y: 0, z: 0 },
        }
    }

    /// The density with which this material's BRDF sends light from the hit
    /// into the scattered ray's direction, independent of how that direction
    /// was sampled.
    pub fn scattering_pdf(&self, _ray: &Ray, hit: &HitResult, scattered_ray: &Ray) -> (r: i64)
        requires
            material_wf(*self),
            in_coord_range(hit.normal.m()),
            in_coord_range(scattered_ray.direction.m()),
            self is Lambertian ==> hit.uv_coords is Some,
        ensures
            r == scattering_pdf_spec(
                *self,
                hit.normal.m(),
                hit.m().uv,
                scattered_ray.direction.m(),
            ),
    {
        match self {
            Material::Lambertian(l) => {
                let uv = match hit.uv_coords {
                    Some(uv) => uv,
                    None => (0, 0),
                };
                let n = map_normal(&l.normalmap, hit.normal, uv);
                let nn = n.normalised();
                let sd = scattered_ray.direction.normalised();
                let c = nn.dot(sd);
                if c < 0 {
                    0
                } else {
                    proof {
                        lemma_mul_abs_bound(c as int, FP_ONE as int, 0x3000_0000_0000, FP_ONE as int);
                        lemma_tdiv_abs_le(
                            c as int * FP_ONE as int,
                            0x3000_0000_0000 * FP_ONE as int,
                            PI_FX as int,
                        );
                        crate::num::lemma_tdiv_bounds(c as int * FP_ONE as int, PI_FX as int);
                    }
                    fx_div(c, PI_FX)
                }
            },
            Material::Isotropic(_) => {
                proof {
                    lemma_mul_abs_bound(FP_ONE as int, FP_ONE as int, FP_ONE as int, FP_ONE as int);
                    crate::num::lemma_tdiv_bounds(FP_ONE as int * FP_ONE as int, 4 * PI_FX as int);
                }
                fx_div(FP_ONE, 4 * PI_FX)
            },
            _ => 0,
        }
    }

    /// Asks the material to scatter an incoming ray at a hit. `None` means
    /// the ray is absorbed and the walk ends there. A diffuse surface draws
    /// a cosine-weighted direction around its shading normal; the returned
    /// density is exactly the density `scattering_pdf` assigns to the drawn
    /// direction, so the two are equal by construction.
    pub fn scattered(&self, _ray: &Ray, hit: &HitResult) -> (r: Option<(Vec3, Vec3, Ray, i64)>)
        requires
            material_wf(*self),
            in_coord_range(hit.normal.m()),
            in_coord_range(hit.hit_position.m()),
            self is Lambertian ==> hit.uv_coords is Some,
        ensures
            r is Some <==> scatters(*self),
            match r {
                Some(s) => {
                    &&& ray_wf(s.2)
                    &&& in_coord_range(s.0.m())
                    &&& in_coord_range(s.1.m())
                    &&& s.3 == scattering_pdf_spec(
                        *self,
                        hit.normal.m(),
                        hit.m().uv,
                        s.2.direction.m(),
                    )
                    &&& match *self {
                        Material::Lambertian(l) => {
                            &&& s.0.m() == scatter_albedo(*self, hit.m().uv)
                            &&& s.1.m() == scatter_normal(*self, hit.normal.m(), hit.m().uv)
                            &&& s.2.origin.m() == scatter_origin(
                                hit.hit_position.m(),
                                v3_norm(s.1.m()),
                            )
                            &&& exists|cd: V3|
                                {
                                    &&& crate::vec3::v3_bounded(cd, 2 * FP_ONE as int)
                                    &&& cd.z >= 0
                                    &&& s.2.direction.m() == #[trigger] onb_local(
                                        onb_of(v3_norm(s.1.m())).0,
                                        onb_of(v3_norm(s.1.m())).1,
                                        onb_of(v3_norm(s.1.m())).2,
                                        cd,
                                    )
                                }
                        },
                        Material::Isotropic(iso) => {
                            &&& s.0.m() == scatter_albedo(*self, hit.m().uv)
                            &&& s.1 == hit.normal
                            &&& s.2.origin == hit.hit_position
                            &&& crate::vec3::v3_len_sq(s.2.direction.m()) <= FP_ONE
                        },
                        _ => false,
                    }
                },
                None => true,
            },
    {
        match self {
            Material::Lambertian(l) => {
                let uv = match hit.uv_coords {
                    Some(uv) => uv,
                    None => (0, 0),
                };
                let albedo = l.albedo.texture(uv);
                let n = map_normal(&l.normalmap, hit.normal, uv);
                let nn = n.normalised();
                let cdir = random_cosine_direction();
                let onb = ONB::from_w(nn);
                let dir = onb.to_local(cdir);
                proof {
                    assert(978 * FP_ONE as int <= crate::num::COORD_MAX as int);
                    lemma_fxmul_range(
                        SCATTER_EPSILON as int,
                        nn.x as int,
                        SCATTER_EPSILON as int,
                        2 * FP_ONE as int,
                    );
                    lemma_fxmul_range(
                        SCATTER_EPSILON as int,
                        nn.y as int,
                        SCATTER_EPSILON as int,
                        2 * FP_ONE as int,
                    );
                    lemma_fxmul_range(
                        SCATTER_EPSILON as int,
                        nn.z as int,
                        SCATTER_EPSILON as int,
                        2 * FP_ONE as int,
                    );
                }
                let origin = Vec3 {
                    x: crate::vec3::clamp_c(hit.hit_position.x + fx_mul_small(SCATTER_EPSILON, nn.x)),
                    y: crate::vec3::clamp_c(hit.hit_position.y + fx_mul_small(SCATTER_EPSILON, nn.y)),
                    z: crate::vec3::clamp_c(hit.hit_position.z + fx_mul_small(SCATTER_EPSILON, nn.z)),
                };
                let sray = Ray { origin, direction: dir };
                proof {
                    assert(dir.m() == onb_local(
                        onb_of(v3_norm(n.m())).0,
                        onb_of(v3_norm(n.m())).1,
                        onb_of(v3_norm(n.m())).2,
                        cdir.m(),
                    ));
                }
                let sd = dir.normalised();
                let c = nn.dot(sd);
                let pdf = if c < 0 {
                    0
                } else {
                    proof {
                        lemma_mul_abs_bound(c as int, FP_ONE as int, 0x3000_0000_0000, FP_ONE as int);
                        lemma_tdiv_abs_le(
                            c as int * FP_ONE as int,
                            0x3000_0000_0000 * FP_ONE as int,
                            PI_FX as int,
                        );
                        crate::num::lemma_tdiv_bounds(c as int * FP_ONE as int, PI_FX as int);
                    }
                    fx_div(c, PI_FX)
                };
                Some((albedo, n, sray, pdf))
            },
            Material::Isotropic(iso) => {
                let albedo = iso.albedo.texture((0, 0));
                let dir = Vec3::random_in_unit_sphere();
                let sray = Ray { origin: hit.hit_position, direction: dir };
                proof {
                    lemma_mul_abs_bound(FP_ONE as int, FP_ONE as int, FP_ONE as int, FP_ONE as int);
                    crate::num::lemma_tdiv_bounds(FP_ONE as int * FP_ONE as int, 4 * PI_FX as int);
                }
                let pdf = fx_div(FP_ONE, 4 * PI_FX);
                Some((albedo, hit.normal, sray, pdf))
            },
            _ => None,
        }
    }
}

/// Fixed-point product of a small constant with a near-unit scalar.
fn fx_mul_small(a: i64, b: i64) -> (r: i64)
    requires
        0 <= a <= 4096,
        -(2 * FP_ONE) <= b <= 2 * FP_ONE,
    ensures
        r == fxmul(a as int, b as int),
{
    proof {
        lemma_fxmul_range(a as int, b as int, 4096, 2 * FP_ONE as int);
    }
    crate::num::fx_mul(a, b)
}

} // verus!
