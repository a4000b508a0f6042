use vstd::prelude::*;

verus! {

use crate::num::FP_ONE;
use crate::num::fx_sqrt;
use crate::num::is_sqrt_floor;
use crate::vec3::Vec3;
use crate::vec3::v3_bounded;
use crate::vec3::v3_len_sq;
use crate::vec3::in_coord_range;
use crate::vec3::V3;

/// Relies on rand::random_range: a uniform draw from the thread-local
/// generator, within the given half-open range.
#[verifier::external_body]
pub(crate) fn rand_unit_fx() -> (r: i64)
    ensures
        0 <= r < FP_ONE,
{
    rand::random_range(0i64..65536i64)
}

/// Relies on rand::random_range: a uniform draw from the thread-local
/// generator, within the given closed range.
#[verifier::external_body]
pub(crate) fn rand_symmetric_fx() -> (r: i64)
    ensures
        -FP_ONE <= r <= FP_ONE,
{
    rand::random_range(-65536i64..=65536i64)
}

/// Relies on rand::random: a coin flip. Nothing is promised of the outcome.
#[verifier::external_body]
pub(crate) fn rand_coin() -> bool {
    rand::random::<bool>()
}

impl Vec3 {
    /// A random point inside the unit sphere, by rejection sampling; after a
    /// bounded number of rejected draws a fixed interior point is returned,
    /// so the function always terminates.
    pub fn random_in_unit_sphere() -> (r: Vec3)
        ensures
            v3_len_sq(r.m()) <= FP_ONE,
            v3_bounded(r.m(), FP_ONE as int),
    {
        let mut i: u32 = 0;
        while i < 32
            decreases 32 - i,
        {
            let v = Vec3 {
                x: rand_symmetric_fx(),
                y: rand_symmetric_fx(),
                z: rand_symmetric_fx(),
            };
            if v.len_squared() <= FP_ONE {
                return v;
            }
            i = i + 1;
        }
        Vec3 { x: 0, y: 0, z: 0 }
    }

    /// A random point inside the unit disk of the xy plane, by the same
    /// bounded rejection sampling.
    pub fn random_in_unit_disk() -> (r: Vec3)
        ensures
            v3_len_sq(r.m()) <= FP_ONE,
            v3_bounded(r.m(), FP_ONE as int),
            r.m().z == 0,
    {
        let mut i: u32 = 0;
        while i < 32
            decreases 32 - i,
        {
            let v = Vec3 { x: rand_symmetric_fx(), y: rand_symmetric_fx(), z: 0 };
            if v.len_squared() <= FP_ONE {
                return v;
            }
            i = i + 1;
        }
        Vec3 { x: 0, y: 0, z: 0 }
    }
}

/// A random direction in the upper unit hemisphere with a cosine-weighted
/// density: a uniform point of the unit disk, lifted onto the sphere.
pub fn random_cosine_direction() -> (r: Vec3)
    ensures
        v3_bounded(r.m(), 2 * FP_ONE as int),
        r.m().z >= 0,
        exists|p: V3|
            {
                &&& p.z == 0
                &&& v3_bounded(p, FP_ONE as int)
                &&& v3_len_sq(p) <= FP_ONE
                &&& r.m() == (V3 {
                    x: p.x,
                    y: p.y,
                    z: #[trigger] crate::num::fxsqrt(FP_ONE - v3_len_sq(p)),
                })
            },
{
    let d = Vec3::random_in_unit_disk();
    let s = d.len_squared();
    let z = fx_sqrt(FP_ONE - s);
    proof {
        let f = FP_ONE as int;
        assert(is_sqrt_floor((f - s) * f, z as int));
        assert(z <= 2 * f) by (nonlinear_arith)
            requires
                0 <= z,
                (z as int) * (z as int) <= (f - s) * f,
                0 <= f - s <= f,
                f == 65536,
        ;
    }
    Vec3 { x: d.x, y: d.y, z }
}

} // verus!
