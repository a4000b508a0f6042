use vstd::prelude::*;

verus! {

use crate::num::FP_ONE;
use crate::num::COORD_MAX;
use crate::num::fxmul;
use crate::num::div_i128;
use crate::num::lemma_fxmul_range;
use crate::vec3::Vec3;
use crate::vec3::V3;
use crate::vec3::v3_cross;
use crate::vec3::v3_dot;
use crate::vec3::v3_scale;
use crate::vec3::v3_bounded;
use crate::vec3::in_coord_range;

/// An orthonormal-style local basis built around a w axis; used to carry
/// directions sampled in a canonical frame into world space.
#[derive(Clone, Copy, Debug, PartialEq, Eq, Structural)]
pub struct ONB {
    pub u: Vec3,
    pub v: Vec3,
    pub w: Vec3,
}

/// The basis that `from_w` builds: a permuted copy of w crossed back twice,
/// which is perpendicular to w whenever w is not degenerate.
pub open spec fn onb_of(w: V3) -> (V3, V3, V3) {
    let t = V3 { x: w.y, y: w.z, z: w.x };
    let u = v3_cross(w, t);
    let v = v3_cross(w, u);
    (u, v, w)
}

/// The combination `a u + b v + c w` of the basis axes.
pub open spec fn onb_local(u: V3, v: V3, w: V3, n: V3) -> V3 {
    V3 {
        x: fxmul(n.x, u.x) + fxmul(n.y, v.x) + fxmul(n.z, w.x),
        y: fxmul(n.x, u.y) + fxmul(n.y, v.y) + fxmul(n.z, w.y),
        z: fxmul(n.x, u.z) + fxmul(n.y, v.z) + fxmul(n.z, w.z),
    }
}

impl ONB {
    /// A basis from three given axes.
    pub fn from_axes(u: Vec3, v: Vec3, w: Vec3) -> (r: ONB)
        ensures
            r.u == u,
            r.v == v,
            r.w == w,
    {
        ONB { u, v, w }
    }

    /// A basis around the axis `w`, which should be (close to) unit length.
    /// The three axes are pairwise orthogonal up to the rounding residue of
    /// the cross products: a few 1/65536 steps.
    pub fn from_w(w: Vec3) -> (r: ONB)
        requires
            in_coord_range(w.m()),
            v3_bounded(w.m(), 2 * FP_ONE as int),
        ensures
            (r.u.m(), r.v.m(), r.w.m()) == onb_of(w.m()),
            r.w == w,
            v3_bounded(r.u.m(), 9 * FP_ONE as int),
            v3_bounded(r.v.m(), 163 * FP_ONE as int),
            -6 <= crate::vec3::v3_dot(r.u.m(), w.m()) <= 6,
            -6 <= crate::vec3::v3_dot(r.v.m(), w.m()) <= 6,
            -27 <= crate::vec3::v3_dot(r.v.m(), r.u.m()) <= 27,
    {
        let temp = Vec3 { x: w.y, y: w.z, z: w.x };
        let u = w.cross(temp);
        proof {
            lemma_cross_small(w.m(), temp.m(), 2 * FP_ONE as int);
            assert(2 * (((2 * FP_ONE as int) * (2 * FP_ONE as int)) / (FP_ONE as int)) + 2
                <= 9 * FP_ONE as int) by (nonlinear_arith);
        }
        let v = w.cross(u);
        proof {
            lemma_cross_small(w.m(), u.m(), 9 * FP_ONE as int);
            assert(2 * (((9 * FP_ONE as int) * (9 * FP_ONE as int)) / (FP_ONE as int)) + 2
                <= 163 * FP_ONE as int) by (nonlinear_arith);
            lemma_cross_dot_residue(w.m(), temp.m(), 2 * FP_ONE as int, 2 * FP_ONE as int);
            lemma_cross_dot_residue(w.m(), u.m(), 2 * FP_ONE as int, 9 * FP_ONE as int);
            assert((3 * (2 * (FP_ONE as int))) / (FP_ONE as int) == 6) by (nonlinear_arith);
            assert((3 * (9 * (FP_ONE as int))) / (FP_ONE as int) == 27) by (nonlinear_arith);
        }
        ONB { u, v, w }
    }

    /// Carries a direction given in this basis into world coordinates.
    pub fn to_local(&self, n: Vec3) -> (r: Vec3)
        requires
            v3_bounded(self.u.m(), 163 * FP_ONE as int),
            v3_bounded(self.v.m(), 163 * FP_ONE as int),
            v3_bounded(self.w.m(), 163 * FP_ONE as int),
            v3_bounded(n.m(), 2 * FP_ONE as int),
        ensures
            r.m() == onb_local(self.u.m(), self.v.m(), self.w.m(), n.m()),
            v3_bounded(r.m(), 978 * FP_ONE as int),
    {
        proof {
            let f2 = 2 * FP_ONE as int;
            let b = 163 * FP_ONE as int;
            lemma_fxmul_range(n.x as int, self.u.x as int, f2, b);
            lemma_fxmul_range(n.x as int, self.u.y as int, f2, b);
            lemma_fxmul_range(n.x as int, self.u.z as int, f2, b);
            lemma_fxmul_range(n.y as int, self.v.x as int, f2, b);
            lemma_fxmul_range(n.y as int, self.v.y as int, f2, b);
            lemma_fxmul_range(n.y as int, self.v.z as int, f2, b);
            lemma_fxmul_range(n.z as int, self.w.x as int, f2, b);
            lemma_fxmul_range(n.z as int, self.w.y as int, f2, b);
            lemma_fxmul_range(n.z as int, self.w.z as int, f2, b);
            crate::num::lemma_mul_i64_fits(n.x as int, self.u.x as int);
            crate::num::lemma_mul_i64_fits(n.x as int, self.u.y as int);
            crate::num::lemma_mul_i64_fits(n.x as int, self.u.z as int);
            crate::num::lemma_mul_i64_fits(n.y as int, self.v.x as int);
            crate::num::lemma_mul_i64_fits(n.y as int, self.v.y as int);
            crate::num::lemma_mul_i64_fits(n.y as int, self.v.z as int);
            crate::num::lemma_mul_i64_fits(n.z as int, self.w.x as int);
            crate::num::lemma_mul_i64_fits(n.z as int, self.w.y as int);
            crate::num::lemma_mul_i64_fits(n.z as int, self.w.z as int);
            assert(((2 * FP_ONE as int) * (163 * FP_ONE as int)) / (FP_ONE as int) == 326
                * FP_ONE as int) by (nonlinear_arith);
        }
        let x1 = div_i128((n.x as i128) * (self.u.x as i128), FP_ONE as i128);
        let x2 = div_i128((n.y as i128) * (self.v.x as i128), FP_ONE as i128);
        let x3 = div_i128((n.z as i128) * (self.w.x as i128), FP_ONE as i128);
        let y1 = div_i128((n.x as i128) * (self.u.y as i128), FP_ONE as i128);
        let y2 = div_i128((n.y as i128) * (self.v.y as i128), FP_ONE as i128);
        let y3 = div_i128((n.z as i128) * (self.w.y as i128), FP_ONE as i128);
        let z1 = div_i128((n.x as i128) * (self.u.z as i128), FP_ONE as i128);
        let z2 = div_i128((n.y as i128) * (self.v.z as i128), FP_ONE as i128);
        let z3 = div_i128((n.z as i128) * (self.w.z as i128), FP_ONE as i128);
        let x = (x1 + x2 + x3) as i64;
        let y = (y1 + y2 + y3) as i64;
        let z = (z1 + z2 + z3) as i64;
        Vec3 { x, y, z }
    }
}

/// The cross product of two small vectors is small.
pub proof fn lemma_cross_small(a: V3, b: V3, bound: int)
    requires
        v3_bounded(a, bound),
        v3_bounded(b, bound),
        0 <= bound,
    ensures
        v3_bounded(v3_cross(a, b), 2 * ((bound * bound) / (FP_ONE as int)) + 2),
{
    crate::num::lemma_mul_abs_bound(a.y, b.z, bound, bound);
    crate::num::lemma_mul_abs_bound(a.z, b.y, bound, bound);
    crate::num::lemma_mul_abs_bound(a.z, b.x, bound, bound);
    crate::num::lemma_mul_abs_bound(a.x, b.z, bound, bound);
    crate::num::lemma_mul_abs_bound(a.x, b.y, bound, bound);
    crate::num::lemma_mul_abs_bound(a.y, b.x, bound, bound);
    crate::num::lemma_tdiv_abs_le(a.y * b.z - a.z * b.y, 2 * (bound * bound), FP_ONE as int);
    crate::num::lemma_tdiv_abs_le(a.z * b.x - a.x * b.z, 2 * (bound * bound), FP_ONE as int);
    crate::num::lemma_tdiv_abs_le(a.x * b.y - a.y * b.x, 2 * (bound * bound), FP_ONE as int);
    vstd::arithmetic::div_mod::lemma_fundamental_div_mod(2 * (bound * bound), FP_ONE as int);
    vstd::arithmetic::div_mod::lemma_mod_bound(2 * (bound * bound), FP_ONE as int);
    assert((2 * (bound * bound)) / (FP_ONE as int) <= 2 * ((bound * bound) / (FP_ONE as int))
        + 2) by (nonlinear_arith)
        requires
            bound >= 0,
            2 * (bound * bound) == (FP_ONE as int) * ((2 * (bound * bound)) / (FP_ONE as int)) + (2
                * (bound * bound)) % (FP_ONE as int),
            0 <= (2 * (bound * bound)) % (FP_ONE as int) < (FP_ONE as int),
            bound * bound == (FP_ONE as int) * ((bound * bound) / (FP_ONE as int)) + (bound * bound)
                % (FP_ONE as int),
            0 <= (bound * bound) % (FP_ONE as int) < (FP_ONE as int),
    ;
}


/// Orthogonality up to rounding: the scalar triple product of a cross
/// product with either factor is exactly zero over the integers, so the
/// fixed-point dot product is only the rounding residue of the three
/// truncating divisions — a few grid steps, bounded by the factors' size.
pub proof fn lemma_cross_dot_residue(a: V3, t: V3, ba: int, bt: int)
    requires
        v3_bounded(a, ba),
        v3_bounded(t, bt),
        0 <= ba,
        0 <= bt,
    ensures
        -((3 * ba) / (FP_ONE as int)) <= v3_dot(v3_cross(a, t), a) <= (3 * ba) / (FP_ONE as int),
        -((3 * bt) / (FP_ONE as int)) <= v3_dot(v3_cross(a, t), t) <= (3 * bt) / (FP_ONE as int),
{
    let f = FP_ONE as int;
    let cx = a.y * t.z - a.z * t.y;
    let cy = a.z * t.x - a.x * t.z;
    let cz = a.x * t.y - a.y * t.x;
    let u = v3_cross(a, t);
    crate::num::lemma_tdiv_remainder(cx, f);
    crate::num::lemma_tdiv_remainder(cy, f);
    crate::num::lemma_tdiv_remainder(cz, f);
    let rx = cx - f * u.x;
    let ry = cy - f * u.y;
    let rz = cz - f * u.z;
    assert(cx * a.x + cy * a.y + cz * a.z == 0) by (nonlinear_arith)
        requires
            cx == a.y * t.z - a.z * t.y,
            cy == a.z * t.x - a.x * t.z,
            cz == a.x * t.y - a.y * t.x,
    ;
    assert(cx * t.x + cy * t.y + cz * t.z == 0) by (nonlinear_arith)
        requires
            cx == a.y * t.z - a.z * t.y,
            cy == a.z * t.x - a.x * t.z,
            cz == a.x * t.y - a.y * t.x,
    ;
    lemma_residue_sum(a, u, cx, cy, cz, rx, ry, rz, ba);
    lemma_residue_sum(t, u, cx, cy, cz, rx, ry, rz, bt);
    crate::num::lemma_tdiv_abs_le(u.x * a.x + u.y * a.y + u.z * a.z, 3 * ba, f);
    crate::num::lemma_tdiv_abs_le(u.x * t.x + u.y * t.y + u.z * t.z, 3 * bt, f);
}

/// One side of the residue argument: a vector whose raw products with the
/// cross numerators sum to zero has a fixed-point dot product with the
/// cross bounded by the residues alone.
proof fn lemma_residue_sum(
    b: V3,
    u: V3,
    cx: int,
    cy: int,
    cz: int,
    rx: int,
    ry: int,
    rz: int,
    bb: int,
)
    requires
        v3_bounded(b, bb),
        0 <= bb,
        cx == (FP_ONE as int) * u.x + rx,
        cy == (FP_ONE as int) * u.y + ry,
        cz == (FP_ONE as int) * u.z + rz,
        -(FP_ONE as int - 1) <= rx <= FP_ONE as int - 1,
        -(FP_ONE as int - 1) <= ry <= FP_ONE as int - 1,
        -(FP_ONE as int - 1) <= rz <= FP_ONE as int - 1,
        cx * b.x + cy * b.y + cz * b.z == 0,
    ensures
        -(3 * bb) <= u.x * b.x + u.y * b.y + u.z * b.z <= 3 * bb,
{
    let f = FP_ONE as int;
    let s = u.x * b.x + u.y * b.y + u.z * b.z;
    crate::num::lemma_mul_abs_bound(rx, b.x, f - 1, bb);
    crate::num::lemma_mul_abs_bound(ry, b.y, f - 1, bb);
    crate::num::lemma_mul_abs_bound(rz, b.z, f - 1, bb);
    assert(cx * b.x == f * (u.x * b.x) + rx * b.x) by (nonlinear_arith)
        requires
            cx == f * u.x + rx,
    ;
    assert(cy * b.y == f * (u.y * b.y) + ry * b.y) by (nonlinear_arith)
        requires
            cy == f * u.y + ry,
    ;
    assert(cz * b.z == f * (u.z * b.z) + rz * b.z) by (nonlinear_arith)
        requires
            cz == f * u.z + rz,
    ;
    assert(f * s == f * (u.x * b.x) + f * (u.y * b.y) + f * (u.z * b.z)) by (nonlinear_arith)
        requires
            s == u.x * b.x + u.y * b.y + u.z * b.z,
    ;
    assert(f * s + (rx * b.x + ry * b.y + rz * b.z) == 0);
    assert(-(3 * bb) <= s <= 3 * bb) by (nonlinear_arith)
        requires
            f == 65536,
            -(3 * ((f - 1) * bb)) <= f * s <= 3 * ((f - 1) * bb),
            0 <= bb,
    ;
}

} // verus!
