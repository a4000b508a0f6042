use vstd::prelude::*;

verus! {

use crate::num::FP_ONE;
use crate::num::COORD_MAX;
use crate::num::tdiv;
use crate::num::fxmul;
use crate::num::fxdiv;
use crate::num::fxsqrt;
use crate::num::div_i128;
use crate::num::fx_sqrt;
use crate::num::lemma_mul_i64_fits;
use crate::num::lemma_tdiv_bounds;
use crate::num::lemma_mul_abs_bound;
use crate::num::lemma_tdiv_abs_le;
use crate::vec3::Vec3;
use crate::vec3::V3;
use crate::vec3::in_coord_range;
use crate::vec3::clamp_coord;
use crate::vec3::clamp_unit2;

/// A rotation, stored as a quaternion of fixed-point components. Built
/// directly from components — whoever constructs one computes the sines and
/// cosines of its angles, since trigonometry has no place on this grid —
/// and applied to vectors by conjugation.
#[derive(Clone, Copy, Debug, PartialEq, Eq, Structural)]
pub struct Quaternion {
    pub x: i64,
    pub y: i64,
    pub z: i64,
    pub w: i64,
}

/// A near-unit quaternion: every component within two units.
pub open spec fn quat_unit_range(q: Quaternion) -> bool {
    &&& -2 * FP_ONE <= q.x <= 2 * FP_ONE
    &&& -2 * FP_ONE <= q.y <= 2 * FP_ONE
    &&& -2 * FP_ONE <= q.z <= 2 * FP_ONE
    &&& -2 * FP_ONE <= q.w <= 2 * FP_ONE
}

/// The squared length of a quaternion.
pub open spec fn quat_len_sq(q: Quaternion) -> int {
    tdiv(q.x * q.x + q.y * q.y + q.z * q.z + q.w * q.w, FP_ONE as int)
}

/// The Hamilton product of two quaternions, in fixed point.
pub open spec fn quat_mul_spec(a: Quaternion, b: Quaternion) -> (int, int, int, int) {
    qm4(quad(a), quad(b))
}

/// The conjugate: the vector part flipped.
pub open spec fn quat_conj_spec(q: Quaternion) -> (int, int, int, int) {
    (-q.x as int, -q.y as int, -q.z as int, q.w as int)
}

/// The inverse: the conjugate scaled down by the squared length, each
/// component clamped into coordinate range as a guard against a tiny length.
pub open spec fn quat_inverse_spec(q: Quaternion) -> (int, int, int, int) {
    let l = quat_len_sq(q);
    (
        clamp_coord(fxdiv(-q.x as int, l)),
        clamp_coord(fxdiv(-q.y as int, l)),
        clamp_coord(fxdiv(-q.z as int, l)),
        clamp_coord(fxdiv(q.w as int, l)),
    )
}

impl Quaternion {
    /// A quaternion from its four components.
    pub fn new(x: i64, y: i64, z: i64, w: i64) -> (r: Quaternion)
        ensures
            r == (Quaternion { x, y, z, w }),
    {
        Quaternion { x, y, z, w }
    }

    /// The squared length.
    pub fn len_squared(&self) -> (r: i64)
        requires
            quat_unit_range(*self),
        ensures
            r == quat_len_sq(*self),
            0 <= r <= 16 * FP_ONE,
    {
        proof {
            lemma_quat_sq_bounds(*self);
        }
        div_i128(
            (self.x as i128) * (self.x as i128) + (self.y as i128) * (self.y as i128) + (
            self.z as i128) * (self.z as i128) + (self.w as i128) * (self.w as i128),
            FP_ONE as i128,
        ) as i64
    }

    /// The length.
    pub fn len(&self) -> (r: i64)
        requires
            quat_unit_range(*self),
        ensures
            r == fxsqrt(quat_len_sq(*self)),
            0 <= r,
    {
        let sq = self.len_squared();
        fx_sqrt(sq)
    }

    /// The quaternion scaled to (approximately) unit length; unchanged when
    /// its length rounds to zero.
    pub fn normalised(&self) -> (r: Quaternion)
        requires
            quat_unit_range(*self),
        ensures
            quat_unit_range(r),
            ({
                let l = fxsqrt(quat_len_sq(*self));
                if l == 0 {
                    r == *self
                } else {
                    (r.x as int, r.y as int, r.z as int, r.w as int) == (
                        clamp_unit2(fxdiv(self.x as int, l)),
                        clamp_unit2(fxdiv(self.y as int, l)),
                        clamp_unit2(fxdiv(self.z as int, l)),
                        clamp_unit2(fxdiv(self.w as int, l)),
                    )
                }
            }),
    {
        let l = self.len();
        if l == 0 {
            return *self;
        }
        Quaternion {
            x: clamp_u2q(div_i128((self.x as i128) * (FP_ONE as i128), l as i128)),
            y: clamp_u2q(div_i128((self.y as i128) * (FP_ONE as i128), l as i128)),
            z: clamp_u2q(div_i128((self.z as i128) * (FP_ONE as i128), l as i128)),
            w: clamp_u2q(div_i128((self.w as i128) * (FP_ONE as i128), l as i128)),
        }
    }

    /// The conjugate: the rotation the other way.
    pub fn conjugate(&self) -> (r: Quaternion)
        requires
            quat_unit_range(*self),
        ensures
            (r.x as int, r.y as int, r.z as int, r.w as int) == quat_conj_spec(*self),
            quat_unit_range(r),
    {
        Quaternion { x: -self.x, y: -self.y, z: -self.z, w: self.w }
    }

    /// The inverse: the conjugate over the squared length.
    pub fn inverse(&self) -> (r: Quaternion)
        requires
            quat_unit_range(*self),
            quat_len_sq(*self) > 0,
        ensures
            (r.x as int, r.y as int, r.z as int, r.w as int) == quat_inverse_spec(*self),
            in_coord_range(V3 { x: r.x as int, y: r.y as int, z: r.z as int }),
            -COORD_MAX <= r.w <= COORD_MAX,
    {
        let l = self.len_squared();
        proof {
            lemma_mul_i64_fits(-self.x as int, FP_ONE as int);
            lemma_mul_i64_fits(-self.y as int, FP_ONE as int);
            lemma_mul_i64_fits(-self.z as int, FP_ONE as int);
            lemma_mul_i64_fits(self.w as int, FP_ONE as int);
            lemma_tdiv_bounds(-self.x as int * FP_ONE as int, l as int);
            lemma_tdiv_bounds(-self.y as int * FP_ONE as int, l as int);
            lemma_tdiv_bounds(-self.z as int * FP_ONE as int, l as int);
            lemma_tdiv_bounds(self.w as int * FP_ONE as int, l as int);
        }
        Quaternion {
            x: clamp_cq(div_i128((-self.x as i128) * (FP_ONE as i128), l as i128)),
            y: clamp_cq(div_i128((-self.y as i128) * (FP_ONE as i128), l as i128)),
            z: clamp_cq(div_i128((-self.z as i128) * (FP_ONE as i128), l as i128)),
            w: clamp_cq(div_i128((self.w as i128) * (FP_ONE as i128), l as i128)),
        }
    }

    /// The Hamilton product with another near-unit quaternion.
    pub fn mul(&self, rhs: Quaternion) -> (r: Quaternion)
        requires
            quat_unit_range(*self),
            quat_unit_range(rhs),
        ensures
            (r.x as int, r.y as int, r.z as int, r.w as int) == quat_mul_spec(*self, rhs),
            -16 * FP_ONE <= r.x <= 16 * FP_ONE,
            -16 * FP_ONE <= r.y <= 16 * FP_ONE,
            -16 * FP_ONE <= r.z <= 16 * FP_ONE,
            -16 * FP_ONE <= r.w <= 16 * FP_ONE,
    {
        Quaternion {
            x: qm(self.x, rhs.w) + qm(self.w, rhs.x) + qm(self.y, rhs.z) - qm(self.z, rhs.y),
            y: qm(self.y, rhs.w) + qm(self.w, rhs.y) + qm(self.z, rhs.x) - qm(self.x, rhs.z),
            z: qm(self.z, rhs.w) + qm(self.w, rhs.z) + qm(self.x, rhs.y) - qm(self.y, rhs.x),
            w: qm(self.w, rhs.w) - qm(self.x, rhs.x) - qm(self.y, rhs.y) - qm(self.z, rhs.z),
        }
    }

    /// Rotates a vector by this quaternion: the vector part of
    /// `q (0, v) q^-1`, clamped into coordinate range.
    pub fn rotate_vector(&self, v: Vec3) -> (r: Vec3)
        requires
            quat_unit_range(*self),
            quat_len_sq(*self) > 0,
            in_coord_range(v.m()),
        ensures
            r.m() == rotate_spec(*self, v.m()),
            in_coord_range(r.m()),
    {
        let qi = self.inverse();
        conjugation(*self, v, qi)
    }

    /// Rotates a vector by the inverse of this quaternion.
    pub fn unrotate_vector(&self, v: Vec3) -> (r: Vec3)
        requires
            quat_unit_range(*self),
            quat_len_sq(*self) > 0,
            in_coord_range(v.m()),
        ensures
            r.m() == unrotate_spec(*self, v.m()),
            in_coord_range(r.m()),
    {
        let qi = self.inverse();
        conjugation_rev(*self, v, qi)
    }
}

/// The quadruple of a quaternion's components.
pub open spec fn quad(q: Quaternion) -> (int, int, int, int) {
    (q.x as int, q.y as int, q.z as int, q.w as int)
}

/// The embedding of a vector as a pure quaternion, multiplied on the left
/// by a quadruple: the product `a (0, v)` in fixed point.
pub open spec fn q4_mul_vec(a: (int, int, int, int), v: V3) -> (int, int, int, int) {
    (
        fxmul(a.3, v.x) + fxmul(a.1, v.z) - fxmul(a.2, v.y),
        fxmul(a.3, v.y) + fxmul(a.2, v.x) - fxmul(a.0, v.z),
        fxmul(a.3, v.z) + fxmul(a.0, v.y) - fxmul(a.1, v.x),
        -fxmul(a.0, v.x) - fxmul(a.1, v.y) - fxmul(a.2, v.z),
    )
}

/// The generic Hamilton product over mathematical quadruples.
pub open spec fn qm4(a: (int, int, int, int), b: (int, int, int, int)) -> (int, int, int, int) {
    (
        fxmul(a.0, b.3) + fxmul(a.3, b.0) + fxmul(a.1, b.2) - fxmul(a.2, b.1),
        fxmul(a.1, b.3) + fxmul(a.3, b.1) + fxmul(a.2, b.0) - fxmul(a.0, b.2),
        fxmul(a.2, b.3) + fxmul(a.3, b.2) + fxmul(a.0, b.1) - fxmul(a.1, b.0),
        fxmul(a.3, b.3) - fxmul(a.0, b.0) - fxmul(a.1, b.1) - fxmul(a.2, b.2),
    )
}

/// The rotated vector: the vector part of `q (0, v) q^-1`, clamped.
pub open spec fn rotate_spec(q: Quaternion, v: V3) -> V3 {
    let t = q4_mul_vec(quad(q), v);
    let qi = quat_inverse_spec(q);
    let r = qm4(t, qi);
    V3 { x: clamp_coord(r.0), y: clamp_coord(r.1), z: clamp_coord(r.2) }
}

/// The unrotated vector: the vector part of `q^-1 (0, v) q`, clamped.
pub open spec fn unrotate_spec(q: Quaternion, v: V3) -> V3 {
    let qi = quat_inverse_spec(q);
    let t = q4_mul_vec(qi, v);
    let r = qm4(t, quad(q));
    V3 { x: clamp_coord(r.0), y: clamp_coord(r.1), z: clamp_coord(r.2) }
}

/// One fixed-point product of two near-unit quaternion components.
fn qm(a: i64, b: i64) -> (r: i64)
    requires
        -2 * FP_ONE <= a <= 2 * FP_ONE,
        -2 * FP_ONE <= b <= 2 * FP_ONE,
    ensures
        r == fxmul(a as int, b as int),
        -4 * FP_ONE <= r <= 4 * FP_ONE,
{
    proof {
        crate::num::lemma_fxmul_range(a as int, b as int, 2 * FP_ONE as int, 2 * FP_ONE as int);
        assert(((2 * (FP_ONE as int)) * (2 * (FP_ONE as int))) / (FP_ONE as int) == 4 * (
        FP_ONE as int)) by (nonlinear_arith);
    }
    div_i128((a as i128) * (b as i128), FP_ONE as i128) as i64
}

/// Clamps a wide quotient into the near-unit band.
fn clamp_u2q(x: i128) -> (r: i64)
    ensures
        r as int == clamp_unit2(x as int),
        -2 * FP_ONE <= r <= 2 * FP_ONE,
{
    if x < -2 * (FP_ONE as i128) {
        -2 * FP_ONE
    } else if x > 2 * (FP_ONE as i128) {
        2 * FP_ONE
    } else {
        x as i64
    }
}

/// Clamps a wide quotient into coordinate range.
fn clamp_cq(x: i128) -> (r: i64)
    ensures
        r as int == clamp_coord(x as int),
        -COORD_MAX <= r <= COORD_MAX,
{
    if x < -(COORD_MAX as i128) {
        -COORD_MAX
    } else if x > COORD_MAX as i128 {
        COORD_MAX
    } else {
        x as i64
    }
}

/// The component squares of a near-unit quaternion are small.
proof fn lemma_quat_sq_bounds(q: Quaternion)
    requires
        quat_unit_range(q),
    ensures
        0 <= q.x * q.x <= 4 * (FP_ONE as int) * (FP_ONE as int),
        0 <= q.y * q.y <= 4 * (FP_ONE as int) * (FP_ONE as int),
        0 <= q.z * q.z <= 4 * (FP_ONE as int) * (FP_ONE as int),
        0 <= q.w * q.w <= 4 * (FP_ONE as int) * (FP_ONE as int),
        0 <= quat_len_sq(q) <= 16 * FP_ONE,
{
    let f = FP_ONE as int;
    lemma_mul_abs_bound(q.x as int, q.x as int, 2 * f, 2 * f);
    lemma_mul_abs_bound(q.y as int, q.y as int, 2 * f, 2 * f);
    lemma_mul_abs_bound(q.z as int, q.z as int, 2 * f, 2 * f);
    lemma_mul_abs_bound(q.w as int, q.w as int, 2 * f, 2 * f);
    assert((2 * (FP_ONE as int)) * (2 * (FP_ONE as int)) == 4 * (FP_ONE as int) * (
    FP_ONE as int)) by (nonlinear_arith);
    assert(q.x * q.x >= 0 && q.y * q.y >= 0 && q.z * q.z >= 0 && q.w * q.w >= 0)
        by (nonlinear_arith);
    lemma_tdiv_abs_le(
        q.x * q.x + q.y * q.y + q.z * q.z + q.w * q.w,
        16 * ((FP_ONE as int) * (FP_ONE as int)),
        FP_ONE as int,
    );
    lemma_tdiv_bounds(q.x * q.x + q.y * q.y + q.z * q.z + q.w * q.w, FP_ONE as int);
    assert((16 * ((FP_ONE as int) * (FP_ONE as int))) / (FP_ONE as int) == 16 * (
    FP_ONE as int)) by (nonlinear_arith);
}

/// The conjugation `q (0, v) qi`, taking the vector part, clamped.
fn conjugation(q: Quaternion, v: Vec3, qi: Quaternion) -> (r: Vec3)
    requires
        quat_unit_range(q),
        in_coord_range(v.m()),
        (qi.x as int, qi.y as int, qi.z as int, qi.w as int) == quat_inverse_spec(q),
        in_coord_range(V3 { x: qi.x as int, y: qi.y as int, z: qi.z as int }),
        -COORD_MAX <= qi.w <= COORD_MAX,
    ensures
        r.m() == rotate_spec(q, v.m()),
        in_coord_range(r.m()),
{
    let t = mul_qv(q, v);
    let rr = mul44(t, (qi.x, qi.y, qi.z, qi.w));
    Vec3 { x: clamp_cq(rr.0 as i128), y: clamp_cq(rr.1 as i128), z: clamp_cq(rr.2 as i128) }
}

/// The conjugation `qi (0, v) q`, taking the vector part, clamped.
fn conjugation_rev(q: Quaternion, v: Vec3, qi: Quaternion) -> (r: Vec3)
    requires
        quat_unit_range(q),
        in_coord_range(v.m()),
        (qi.x as int, qi.y as int, qi.z as int, qi.w as int) == quat_inverse_spec(q),
        in_coord_range(V3 { x: qi.x as int, y: qi.y as int, z: qi.z as int }),
        -COORD_MAX <= qi.w <= COORD_MAX,
    ensures
        r.m() == unrotate_spec(q, v.m()),
        in_coord_range(r.m()),
{
    let t = mul_qv(qi, v);
    let rr = mul44(t, (q.x, q.y, q.z, q.w));
    proof {
        assert(quad(qi) == quat_inverse_spec(q));
    }
    Vec3 { x: clamp_cq(rr.0 as i128), y: clamp_cq(rr.1 as i128), z: clamp_cq(rr.2 as i128) }
}

/// The product `q (0, v)` over 64-bit components.
fn mul_qv(q: Quaternion, v: Vec3) -> (r: (i64, i64, i64, i64))
    requires
        -COORD_MAX <= q.x <= COORD_MAX,
        -COORD_MAX <= q.y <= COORD_MAX,
        -COORD_MAX <= q.z <= COORD_MAX,
        -COORD_MAX <= q.w <= COORD_MAX,
        in_coord_range(v.m()),
    ensures
        (r.0 as int, r.1 as int, r.2 as int, r.3 as int) == q4_mul_vec(quad(q), v.m()),
        -0x3000_0000_0000 <= r.0 <= 0x3000_0000_0000,
        -0x3000_0000_0000 <= r.1 <= 0x3000_0000_0000,
        -0x3000_0000_0000 <= r.2 <= 0x3000_0000_0000,
        -0x3000_0000_0000 <= r.3 <= 0x3000_0000_0000,
    {
    proof {
        lemma_qv_bounds(q, v.m());
    }
    (
        wm(q.w, v.x) + wm(q.y, v.z) - wm(q.z, v.y),
        wm(q.w, v.y) + wm(q.z, v.x) - wm(q.x, v.z),
        wm(q.w, v.z) + wm(q.x, v.y) - wm(q.y, v.x),
        -wm(q.x, v.x) - wm(q.y, v.y) - wm(q.z, v.z),
    )
}

/// The Hamilton product of a wide quadruple and a coordinate-range one.
fn mul44(a: (i64, i64, i64, i64), b: (i64, i64, i64, i64)) -> (r: (i64, i64, i64, i64))
    requires
        -0x3000_0000_0000 <= a.0 <= 0x3000_0000_0000,
        -0x3000_0000_0000 <= a.1 <= 0x3000_0000_0000,
        -0x3000_0000_0000 <= a.2 <= 0x3000_0000_0000,
        -0x3000_0000_0000 <= a.3 <= 0x3000_0000_0000,
        -COORD_MAX <= b.0 <= COORD_MAX,
        -COORD_MAX <= b.1 <= COORD_MAX,
        -COORD_MAX <= b.2 <= COORD_MAX,
        -COORD_MAX <= b.3 <= COORD_MAX,
    ensures
        (r.0 as int, r.1 as int, r.2 as int, r.3 as int) == qm4(
            (a.0 as int, a.1 as int, a.2 as int, a.3 as int),
            (b.0 as int, b.1 as int, b.2 as int, b.3 as int),
        ),
{
    (
        wm(a.0, b.3) + wm(a.3, b.0) + wm(a.1, b.2) - wm(a.2, b.1),
        wm(a.1, b.3) + wm(a.3, b.1) + wm(a.2, b.0) - wm(a.0, b.2),
        wm(a.2, b.3) + wm(a.3, b.2) + wm(a.0, b.1) - wm(a.1, b.0),
        wm(a.3, b.3) - wm(a.0, b.0) - wm(a.1, b.1) - wm(a.2, b.2),
    )
}

/// A fixed-point product of two moderately wide scalars.
fn wm(a: i64, b: i64) -> (r: i64)
    requires
        -0x3000_0000_0000 <= a <= 0x3000_0000_0000,
        -COORD_MAX <= b <= COORD_MAX,
    ensures
        r == fxmul(a as int, b as int),
        -0xc00_0000_0000_0000 <= r <= 0xc00_0000_0000_0000,
{
    proof {
        crate::num::lemma_fxmul_range(a as int, b as int, 0x3000_0000_0000, COORD_MAX as int);
        assert((0x3000_0000_0000int * 0x4000_0000int) / 65536int
            == 0xc00_0000_0000_0000int) by (nonlinear_arith);
    }
    div_i128((a as i128) * (b as i128), FP_ONE as i128) as i64
}

/// Bounds for the products of `q (0, v)`.
proof fn lemma_qv_bounds(q: Quaternion, v: V3)
    requires
        -COORD_MAX <= q.x <= COORD_MAX,
        -COORD_MAX <= q.y <= COORD_MAX,
        -COORD_MAX <= q.z <= COORD_MAX,
        -COORD_MAX <= q.w <= COORD_MAX,
        in_coord_range(v),
    ensures
        ({
            let c = COORD_MAX as int;
            let bound = (c * c) / (FP_ONE as int);
            &&& -bound <= fxmul(q.w as int, v.x) <= bound
            &&& -bound <= fxmul(q.y as int, v.z) <= bound
            &&& -bound <= fxmul(q.z as int, v.y) <= bound
            &&& -bound <= fxmul(q.w as int, v.y) <= bound
            &&& -bound <= fxmul(q.z as int, v.x) <= bound
            &&& -bound <= fxmul(q.x as int, v.z) <= bound
            &&& -bound <= fxmul(q.w as int, v.z) <= bound
            &&& -bound <= fxmul(q.x as int, v.y) <= bound
            &&& -bound <= fxmul(q.y as int, v.x) <= bound
            &&& -bound <= fxmul(q.x as int, v.x) <= bound
            &&& -bound <= fxmul(q.y as int, v.y) <= bound
            &&& -bound <= fxmul(q.z as int, v.z) <= bound
            &&& 3 * bound <= 0x3000_0000_0000
        }),
{
    let c = COORD_MAX as int;
    crate::num::lemma_fxmul_range(q.w as int, v.x, c, c);
    crate::num::lemma_fxmul_range(q.y as int, v.z, c, c);
    crate::num::lemma_fxmul_range(q.z as int, v.y, c, c);
    crate::num::lemma_fxmul_range(q.w as int, v.y, c, c);
    crate::num::lemma_fxmul_range(q.z as int, v.x, c, c);
    crate::num::lemma_fxmul_range(q.x as int, v.z, c, c);
    crate::num::lemma_fxmul_range(q.w as int, v.z, c, c);
    crate::num::lemma_fxmul_range(q.x as int, v.y, c, c);
    crate::num::lemma_fxmul_range(q.y as int, v.x, c, c);
    crate::num::lemma_fxmul_range(q.x as int, v.x, c, c);
    crate::num::lemma_fxmul_range(q.y as int, v.y, c, c);
    crate::num::lemma_fxmul_range(q.z as int, v.z, c, c);
    assert(3 * ((0x4000_0000int * 0x4000_0000int) / 65536int)
        <= 0x3000_0000_0000int) by (nonlinear_arith);
}

} // verus!
