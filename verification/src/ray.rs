use vstd::prelude::*;

verus! {

use crate::num::FP_ONE;
use crate::num::tdiv;
use crate::num::div_i128;
use crate::num::lemma_mul_i64_fits;
use crate::num::lemma_tdiv_bounds;
use crate::vec3::Vec3;
use crate::vec3::V3;
use crate::vec3::in_coord_range;
use crate::vec3::clamp_coord;

/// A half-line through the scene: an origin and a (not necessarily unit)
/// direction. Immutable once constructed.
#[derive(Clone, Copy, Debug, PartialEq, Eq, Structural)]
pub struct Ray {
    pub origin: Vec3,
    pub direction: Vec3,
}

/// A ray is well formed when both its vectors are legal coordinates.
pub open spec fn ray_wf(r: Ray) -> bool {
    in_coord_range(r.origin.m()) && in_coord_range(r.direction.m())
}

/// The point `origin + t * direction` at the fixed-point parameter `t`, each
/// component clamped into coordinate range as a guard against runaway
/// parameters.
pub open spec fn ray_at(origin: V3, direction: V3, t: int) -> V3 {
    V3 {
        x: clamp_coord(origin.x + tdiv(t * direction.x, FP_ONE as int)),
        y: clamp_coord(origin.y + tdiv(t * direction.y, FP_ONE as int)),
        z: clamp_coord(origin.z + tdiv(t * direction.z, FP_ONE as int)),
    }
}

impl Ray {
    /// Creates a new ray from an origin and a direction.
    pub fn new(origin: Vec3, direction: Vec3) -> (r: Ray)
        ensures
            r.origin == origin,
            r.direction == direction,
    {
        Ray { origin, direction }
    }

    /// Evaluates the ray at parameter `t`.
    pub fn point_at(&self, t: i64) -> (p: Vec3)
        requires
            ray_wf(*self),
        ensures
            p.m() == ray_at(self.origin.m(), self.direction.m(), t as int),
            in_coord_range(p.m()),
    {
        let x = ray_at_axis(self.origin.x, self.direction.x, t);
        let y = ray_at_axis(self.origin.y, self.direction.y, t);
        let z = ray_at_axis(self.origin.z, self.direction.z, t);
        Vec3 { x, y, z }
    }
}

/// One component of a ray evaluation, computed through 128-bit arithmetic
/// and clamped into coordinate range.
fn ray_at_axis(o: i64, d: i64, t: i64) -> (r: i64)
    requires
        -0x4000_0000 <= o <= 0x4000_0000,
        -0x4000_0000 <= d <= 0x4000_0000,
    ensures
        r == clamp_coord(o + tdiv(t as int * d as int, FP_ONE as int)),
{
    proof {
        lemma_mul_i64_fits(t as int, d as int);
        lemma_tdiv_bounds(t as int * d as int, FP_ONE as int);
    }
    let q: i128 = div_i128((t as i128) * (d as i128), FP_ONE as i128);
    let s: i128 = (o as i128) + q;
    if s < -0x4000_0000 {
        -0x4000_0000
    } else if s > 0x4000_0000 {
        0x4000_0000
    } else {
        s as i64
    }
}

} // verus!
