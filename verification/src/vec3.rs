use vstd::prelude::*;

verus! {

use crate::num::FP_ONE;
use crate::num::COORD_MAX;
use crate::num::tdiv;
use crate::num::fxmul;
use crate::num::fxdiv;
use crate::num::fxsqrt;
use crate::num::div_i128;
use crate::num::fx_sqrt;
use crate::num::lemma_tdiv_bounds;
use crate::num::lemma_tdiv_abs_le;
use crate::num::lemma_mul_abs_bound;
use crate::num::lemma_fxmul_range;

/// A 3-vector of fixed-point scalars (1/65536 units), used for positions,
/// directions and colors alike.
#[derive(Clone, Copy, Debug, PartialEq, Eq, Structural)]
pub struct Vec3 {
    pub x: i64,
    pub y: i64,
    pub z: i64,
}

/// The mathematical value of a `Vec3`, for specifications.
pub struct V3 {
    pub x: int,
    pub y: int,
    pub z: int,
}

impl Vec3 {
    /// The mathematical model of this vector.
    pub open spec fn m(self) -> V3 {
        V3 { x: self.x as int, y: self.y as int, z: self.z as int }
    }
}

/// Every component has magnitude at most `b`.
pub open spec fn v3_bounded(v: V3, b: int) -> bool {
    -b <= v.x <= b && -b <= v.y <= b && -b <= v.z <= b
}

/// The vector is a legal coordinate: each component within `COORD_MAX`.
pub open spec fn in_coord_range(v: V3) -> bool {
    v3_bounded(v, COORD_MAX as int)
}

pub open spec fn v3_add(a: V3, b: V3) -> V3 {
    V3 { x: a.x + b.x, y: a.y + b.y, z: a.z + b.z }
}

pub open spec fn v3_sub(a: V3, b: V3) -> V3 {
    V3 { x: a.x - b.x, y: a.y - b.y, z: a.z - b.z }
}

pub open spec fn v3_neg(a: V3) -> V3 {
    V3 { x: -a.x, y: -a.y, z: -a.z }
}

/// The fixed-point dot product.
pub open spec fn v3_dot(a: V3, b: V3) -> int {
    tdiv(a.x * b.x + a.y * b.y + a.z * b.z, FP_ONE as int)
}

/// The fixed-point cross product.
pub open spec fn v3_cross(a: V3, b: V3) -> V3 {
    V3 {
        x: tdiv(a.y * b.z - a.z * b.y, FP_ONE as int),
        y: tdiv(a.z * b.x - a.x * b.z, FP_ONE as int),
        z: tdiv(a.x * b.y - a.y * b.x, FP_ONE as int),
    }
}

/// The vector scaled by a fixed-point factor.
pub open spec fn v3_scale(s: int, a: V3) -> V3 {
    V3 { x: fxmul(s, a.x), y: fxmul(s, a.y), z: fxmul(s, a.z) }
}

/// The component-wise fixed-point product (used for color attenuation).
pub open spec fn v3_mul(a: V3, b: V3) -> V3 {
    V3 { x: fxmul(a.x, b.x), y: fxmul(a.y, b.y), z: fxmul(a.z, b.z) }
}

/// The squared length, a fixed-point scalar.
pub open spec fn v3_len_sq(a: V3) -> int {
    v3_dot(a, a)
}

/// The length: the fixed-point square root of the squared length.
pub open spec fn v3_len(a: V3) -> int {
    fxsqrt(v3_len_sq(a))
}

/// A scalar clamped into the legal coordinate range.
pub open spec fn clamp_coord(x: int) -> int {
    if x < -(COORD_MAX as int) {
        -(COORD_MAX as int)
    } else if x > COORD_MAX as int {
        COORD_MAX as int
    } else {
        x
    }
}

/// A scalar clamped into the range `[-2, 2]`, the guard band around the
/// unit range that normalised components may occupy after rounding.
pub open spec fn clamp_unit2(x: int) -> int {
    if x < -2 * (FP_ONE as int) {
        -2 * (FP_ONE as int)
    } else if x > 2 * (FP_ONE as int) {
        2 * (FP_ONE as int)
    } else {
        x
    }
}

/// The normalised vector: each component divided by the length, clamped as
/// a guard into `[-2, 2]`; the zero vector when the length rounds to zero.
pub open spec fn v3_norm(a: V3) -> V3 {
    let l = v3_len(a);
    if l == 0 {
        V3 { x: 0, y: 0, z: 0 }
    } else {
        V3 {
            x: clamp_unit2(fxdiv(a.x, l)),
            y: clamp_unit2(fxdiv(a.y, l)),
            z: clamp_unit2(fxdiv(a.z, l)),
        }
    }
}

/// Linear interpolation `(1 - alpha) * lhs + alpha * rhs`.
pub open spec fn v3_lerp(lhs: V3, rhs: V3, alpha: int) -> V3 {
    v3_add(v3_scale(FP_ONE - alpha, lhs), v3_scale(alpha, rhs))
}

impl Vec3 {
    /// Creates a new vector with the given components.
    pub fn new(x: i64, y: i64, z: i64) -> (r: Vec3)
        ensures
            r.m() == (V3 { x: x as int, y: y as int, z: z as int }),
    {
        Vec3 { x, y, z }
    }

    /// The zero vector.
    pub fn zero() -> (r: Vec3)
        ensures
            r.m() == (V3 { x: 0, y: 0, z: 0 }),
    {
        Vec3 { x: 0, y: 0, z: 0 }
    }

    /// Creates a color vector, converting each channel from 0..=255 to the
    /// fixed-point range 0..=1.
    pub fn rgb(r: u8, g: u8, b: u8) -> (c: Vec3)
        ensures
            c.m() == (V3 {
                x: (r * FP_ONE) / 255,
                y: (g * FP_ONE) / 255,
                z: (b * FP_ONE) / 255,
            }),
            v3_bounded(c.m(), FP_ONE as int),
    {
        let x = (r as i64 * FP_ONE) / 255;
        let y = (g as i64 * FP_ONE) / 255;
        let z = (b as i64 * FP_ONE) / 255;
        Vec3 { x, y, z }
    }

    /// Component-wise sum.
    pub fn add(self, rhs: Vec3) -> (r: Vec3)
        requires
            v3_bounded(self.m(), 0x2000_0000_0000_0000),
            v3_bounded(rhs.m(), 0x2000_0000_0000_0000),
        ensures
            r.m() == v3_add(self.m(), rhs.m()),
    {
        Vec3 { x: self.x + rhs.x, y: self.y + rhs.y, z: self.z + rhs.z }
    }

    /// Component-wise difference.
    pub fn sub(self, rhs: Vec3) -> (r: Vec3)
        requires
            v3_bounded(self.m(), 0x2000_0000_0000_0000),
            v3_bounded(rhs.m(), 0x2000_0000_0000_0000),
        ensures
            r.m() == v3_sub(self.m(), rhs.m()),
    {
        Vec3 { x: self.x - rhs.x, y: self.y - rhs.y, z: self.z - rhs.z }
    }

    /// The negated vector.
    pub fn neg(self) -> (r: Vec3)
        requires
            v3_bounded(self.m(), 0x2000_0000_0000_0000),
        ensures
            r.m() == v3_neg(self.m()),
    {
        Vec3 { x: -self.x, y: -self.y, z: -self.z }
    }

    /// Fixed-point dot product between `self` and `rhs`.
    pub fn dot(self, rhs: Vec3) -> (r: i64)
        requires
            in_coord_range(self.m()),
            in_coord_range(rhs.m()),
        ensures
            r == v3_dot(self.m(), rhs.m()),
            -0x3000_0000_0000 <= r <= 0x3000_0000_0000,
    {
        proof {
            lemma_dot_bound(self.m(), rhs.m(), COORD_MAX as int, COORD_MAX as int);
        }
        let s: i128 = (self.x as i128) * (rhs.x as i128) + (self.y as i128) * (rhs.y as i128)
            + (self.z as i128) * (rhs.z as i128);
        div_i128(s, FP_ONE as i128) as i64
    }

    /// Fixed-point cross product between `self` and `rhs`.
    pub fn cross(self, rhs: Vec3) -> (r: Vec3)
        requires
            in_coord_range(self.m()),
            in_coord_range(rhs.m()),
        ensures
            r.m() == v3_cross(self.m(), rhs.m()),
            v3_bounded(r.m(), 0x2000_0000_0000),
    {
        proof {
            lemma_cross_bound(self.m(), rhs.m());
        }
        let x = div_i128(
            (self.y as i128) * (rhs.z as i128) - (self.z as i128) * (rhs.y as i128),
            FP_ONE as i128,
        ) as i64;
        let y = div_i128(
            (self.z as i128) * (rhs.x as i128) - (self.x as i128) * (rhs.z as i128),
            FP_ONE as i128,
        ) as i64;
        let z = div_i128(
            (self.x as i128) * (rhs.y as i128) - (self.y as i128) * (rhs.x as i128),
            FP_ONE as i128,
        ) as i64;
        Vec3 { x, y, z }
    }

    /// The vector scaled by the fixed-point factor `s`.
    pub fn scale(self, s: i64) -> (r: Vec3)
        requires
            i64::MIN <= fxmul(s as int, self.x as int) <= i64::MAX,
            i64::MIN <= fxmul(s as int, self.y as int) <= i64::MAX,
            i64::MIN <= fxmul(s as int, self.z as int) <= i64::MAX,
        ensures
            r.m() == v3_scale(s as int, self.m()),
    {
        let x = div_i128((s as i128) * (self.x as i128), FP_ONE as i128) as i64;
        let y = div_i128((s as i128) * (self.y as i128), FP_ONE as i128) as i64;
        let z = div_i128((s as i128) * (self.z as i128), FP_ONE as i128) as i64;
        Vec3 { x, y, z }
    }

    /// Component-wise fixed-point product.
    pub fn mul(self, rhs: Vec3) -> (r: Vec3)
        requires
            in_coord_range(self.m()),
            in_coord_range(rhs.m()),
        ensures
            r.m() == v3_mul(self.m(), rhs.m()),
            v3_bounded(r.m(), 0x1000_0000_0000),
    {
        proof {
            lemma_fxmul_range(self.x as int, rhs.x as int, COORD_MAX as int, COORD_MAX as int);
            lemma_fxmul_range(self.y as int, rhs.y as int, COORD_MAX as int, COORD_MAX as int);
            lemma_fxmul_range(self.z as int, rhs.z as int, COORD_MAX as int, COORD_MAX as int);
        }
        let x = div_i128((self.x as i128) * (rhs.x as i128), FP_ONE as i128) as i64;
        let y = div_i128((self.y as i128) * (rhs.y as i128), FP_ONE as i128) as i64;
        let z = div_i128((self.z as i128) * (rhs.z as i128), FP_ONE as i128) as i64;
        Vec3 { x, y, z }
    }

    /// The squared length of the vector, a fixed-point scalar.
    pub fn len_squared(self) -> (r: i64)
        requires
            in_coord_range(self.m()),
        ensures
            r == v3_len_sq(self.m()),
            0 <= r <= 0x3000_0000_0000,
    {
        proof {
            lemma_dot_bound(self.m(), self.m(), COORD_MAX as int, COORD_MAX as int);
            lemma_len_sq_nonneg(self.m());
        }
        let s: i128 = (self.x as i128) * (self.x as i128) + (self.y as i128) * (self.y as i128)
            + (self.z as i128) * (self.z as i128);
        div_i128(s, FP_ONE as i128) as i64
    }

    /// The length of the vector.
    pub fn len(self) -> (r: i64)
        requires
            in_coord_range(self.m()),
        ensures
            r == v3_len(self.m()),
            0 <= r < 0x100_0000_0000,
    {
        let sq = self.len_squared();
        fx_sqrt(sq)
    }

    /// The vector normalised to (approximately) unit length; the zero vector
    /// if the length rounds to zero.
    pub fn normalised(self) -> (r: Vec3)
        requires
            in_coord_range(self.m()),
        ensures
            r.m() == v3_norm(self.m()),
            v3_bounded(r.m(), 2 * FP_ONE as int),
            in_coord_range(r.m()),
    {
        let l = self.len();
        if l == 0 {
            return Vec3 { x: 0, y: 0, z: 0 };
        }
        Vec3 {
            x: clamp_u2(fx_div_wide(self.x, l)),
            y: clamp_u2(fx_div_wide(self.y, l)),
            z: clamp_u2(fx_div_wide(self.z, l)),
        }
    }

    /// Reflects `self` about the plane whose (not necessarily unit) normal
    /// is `normal`; components are clamped into coordinate range.
    pub fn reflect(self, normal: Vec3) -> (r: Vec3)
        requires
            in_coord_range(self.m()),
            in_coord_range(normal.m()),
        ensures
            r.m() == v3_reflect(self.m(), normal.m()),
            in_coord_range(r.m()),
    {
        let n = normal.normalised();
        let d = self.dot(n);
        proof {
            lemma_fxmul_range(2 * d as int, n.x as int, 0x6000_0000_0000, COORD_MAX as int);
            lemma_fxmul_range(2 * d as int, n.y as int, 0x6000_0000_0000, COORD_MAX as int);
            lemma_fxmul_range(2 * d as int, n.z as int, 0x6000_0000_0000, COORD_MAX as int);
        }
        let s = n.scale(2 * d);
        Vec3 {
            x: clamp_c(self.x - s.x),
            y: clamp_c(self.y - s.y),
            z: clamp_c(self.z - s.z),
        }
    }

    /// Linear interpolation between `lhs` and `rhs` by the fixed-point
    /// weight `alpha`.
    pub fn lerp(lhs: Vec3, rhs: Vec3, alpha: i64) -> (r: Vec3)
        requires
            in_coord_range(lhs.m()),
            in_coord_range(rhs.m()),
            0 <= alpha <= FP_ONE,
        ensures
            r.m() == v3_lerp(lhs.m(), rhs.m(), alpha as int),
    {
        proof {
            lemma_fxmul_range(FP_ONE - alpha, lhs.x as int, FP_ONE as int, COORD_MAX as int);
            lemma_fxmul_range(FP_ONE - alpha, lhs.y as int, FP_ONE as int, COORD_MAX as int);
            lemma_fxmul_range(FP_ONE - alpha, lhs.z as int, FP_ONE as int, COORD_MAX as int);
            lemma_fxmul_range(alpha as int, rhs.x as int, FP_ONE as int, COORD_MAX as int);
            lemma_fxmul_range(alpha as int, rhs.y as int, FP_ONE as int, COORD_MAX as int);
            lemma_fxmul_range(alpha as int, rhs.z as int, FP_ONE as int, COORD_MAX as int);
        }
        let a = lhs.scale(FP_ONE - alpha);
        let b = rhs.scale(alpha);
        a.add(b)
    }
}

/// A scalar clamped into the unit range `[-1, 1]`.
pub open spec fn clamp_unit(x: int) -> int {
    if x < -(FP_ONE as int) {
        -(FP_ONE as int)
    } else if x > FP_ONE as int {
        FP_ONE as int
    } else {
        x
    }
}

/// The refraction of `v` through a surface with the given normal, by Snell's
/// law over the two refraction indices; `None` on total internal reflection.
/// The cosine and the index ratio are clamped as a guard against degenerate
/// normals.
pub open spec fn v3_refract(v: V3, normal: V3, n_in: int, n_out: int) -> Option<V3> {
    let vin = v3_norm(v);
    let n = v3_norm(normal);
    let sc = clamp_coord(fxdiv(n_in, n_out));
    let cos_in = clamp_unit(v3_dot(vin, n));
    let sin_in_sq = FP_ONE - fxmul(cos_in, cos_in);
    let sin_out_sq = fxmul(fxmul(sc, sc), sin_in_sq);
    let cos_out_sq = FP_ONE - sin_out_sq;
    if cos_out_sq < 0 {
        None
    } else {
        let nsi = v3_scale(cos_in, n);
        let nso = v3_scale(fxsqrt(cos_out_sq), n);
        let dir = v3_sub(vin, nsi);
        let sdir = v3_scale(sc, dir);
        Some(v3_sub(sdir, nso))
    }
}

impl Vec3 {
    /// Refracts `self` through a surface with the given normal, entering a
    /// medium of index `n_out` from one of index `n_in`; `None` when total
    /// internal reflection leaves no refracted ray.
    pub fn refract(self, normal: Vec3, n_in: i64, n_out: i64) -> (r: Option<Vec3>)
        requires
            in_coord_range(self.m()),
            in_coord_range(normal.m()),
            n_out != 0,
        ensures
            match v3_refract(self.m(), normal.m(), n_in as int, n_out as int) {
                Some(d) => r is Some && r->Some_0.m() == d,
                None => r is None,
            },
    {
        let ghost c = COORD_MAX as int;
        let ghost f = FP_ONE as int;
        let vin = self.normalised();
        let n = normal.normalised();
        proof {
            lemma_mul_abs_bound(n_in as int, f, i64::MAX as int + 1, f);
            lemma_tdiv_bounds(n_in as int * f, n_out as int);
        }
        let q = div_i128((n_in as i128) * (FP_ONE as i128), n_out as i128);
        let sc: i64 = if q < -(COORD_MAX as i128) {
            -COORD_MAX
        } else if q > COORD_MAX as i128 {
            COORD_MAX
        } else {
            q as i64
        };
        let d0 = vin.dot(n);
        let cos_in = if d0 < -FP_ONE {
            -FP_ONE
        } else if d0 > FP_ONE {
            FP_ONE
        } else {
            d0
        };
        proof {
            lemma_fxmul_range(cos_in as int, cos_in as int, f, f);
        }
        let cc = div_i128((cos_in as i128) * (cos_in as i128), FP_ONE as i128) as i64;
        let sin_in_sq = FP_ONE - cc;
        proof {
            lemma_fxmul_range(sc as int, sc as int, c, c);
            lemma_fxmul_range(fxmul(sc as int, sc as int), sin_in_sq as int, (c * c) / f, 2 * f);
        }
        let scsq = div_i128((sc as i128) * (sc as i128), FP_ONE as i128) as i64;
        let sin_out_sq = div_i128((scsq as i128) * (sin_in_sq as i128), FP_ONE as i128) as i64;
        let cos_out_sq = FP_ONE - sin_out_sq;
        if cos_out_sq < 0 {
            return None;
        }
        let root = fx_sqrt(cos_out_sq);
        proof {
            lemma_fxmul_range(cos_in as int, n.x as int, f, c);
            lemma_fxmul_range(cos_in as int, n.y as int, f, c);
            lemma_fxmul_range(cos_in as int, n.z as int, f, c);
            lemma_fxmul_range(root as int, n.x as int, 0x100_0000_0000, c);
            lemma_fxmul_range(root as int, n.y as int, 0x100_0000_0000, c);
            lemma_fxmul_range(root as int, n.z as int, 0x100_0000_0000, c);
        }
        let nsi = n.scale(cos_in);
        let nso = n.scale(root);
        let dir = vin.sub(nsi);
        proof {
            lemma_fxmul_range(sc as int, dir.x as int, c, 2 * c);
            lemma_fxmul_range(sc as int, dir.y as int, c, 2 * c);
            lemma_fxmul_range(sc as int, dir.z as int, c, 2 * c);
        }
        let sdir = dir.scale(sc);
        Some(sdir.sub(nso))
    }
}

/// The reflection `v - 2 (v . n^) n^` with `n^` the normalised normal,
/// clamped into coordinate range.
pub open spec fn v3_reflect(v: V3, normal: V3) -> V3 {
    let n = v3_norm(normal);
    let s = v3_scale(2 * v3_dot(v, n), n);
    V3 {
        x: clamp_coord(v.x - s.x),
        y: clamp_coord(v.y - s.y),
        z: clamp_coord(v.z - s.z),
    }
}

/// Clamps a scalar into the guard band `[-2, 2]` around the unit range.
pub fn clamp_u2(x: i64) -> (r: i64)
    ensures
        r == clamp_unit2(x as int),
        -(2 * FP_ONE) <= r <= 2 * FP_ONE,
{
    if x < -(2 * FP_ONE) {
        -(2 * FP_ONE)
    } else if x > 2 * FP_ONE {
        2 * FP_ONE
    } else {
        x
    }
}

/// Clamps a scalar into the legal coordinate range.
pub fn clamp_c(x: i64) -> (r: i64)
    ensures
        r == clamp_coord(x as int),
        -COORD_MAX <= r <= COORD_MAX,
{
    if x < -COORD_MAX {
        -COORD_MAX
    } else if x > COORD_MAX {
        COORD_MAX
    } else {
        x
    }
}

/// Fixed-point division of a coordinate by a positive scalar, exact for the
/// ranges the geometry uses.
pub fn fx_div_wide(a: i64, b: i64) -> (r: i64)
    requires
        b > 0,
        -COORD_MAX <= a <= COORD_MAX,
    ensures
        r == fxdiv(a as int, b as int),
{
    proof {
        lemma_mul_abs_bound(a as int, FP_ONE as int, COORD_MAX as int, FP_ONE as int);
        lemma_tdiv_abs_le(
            a as int * FP_ONE as int,
            COORD_MAX as int * FP_ONE as int,
            b as int,
        );
        lemma_tdiv_bounds(a as int * FP_ONE as int, b as int);
    }
    div_i128((a as i128) * (FP_ONE as i128), b as i128) as i64
}

/// Bound on the fixed-point dot product from bounds on the operands.
pub proof fn lemma_dot_bound(a: V3, b: V3, ba: int, bb: int)
    requires
        v3_bounded(a, ba),
        v3_bounded(b, bb),
        0 <= ba,
        0 <= bb,
    ensures
        -(ba * bb) <= a.x * b.x <= ba * bb,
        -(ba * bb) <= a.y * b.y <= ba * bb,
        -(ba * bb) <= a.z * b.z <= ba * bb,
        -(3 * (ba * bb)) <= a.x * b.x + a.y * b.y + a.z * b.z <= 3 * (ba * bb),
        -(3 * (ba * bb)) <= v3_dot(a, b) <= 3 * (ba * bb),
{
    lemma_mul_abs_bound(a.x, b.x, ba, bb);
    lemma_mul_abs_bound(a.y, b.y, ba, bb);
    lemma_mul_abs_bound(a.z, b.z, ba, bb);
    lemma_tdiv_abs_le(a.x * b.x + a.y * b.y + a.z * b.z, 3 * (ba * bb), FP_ONE as int);
    lemma_tdiv_bounds(a.x * b.x + a.y * b.y + a.z * b.z, FP_ONE as int);
}

/// Bound on the components of the fixed-point cross product of two
/// coordinate-range vectors.
pub proof fn lemma_cross_bound(a: V3, b: V3)
    requires
        in_coord_range(a),
        in_coord_range(b),
    ensures
        v3_bounded(v3_cross(a, b), 0x2000_0000_0000),
        -(0x1000_0000_0000_0000_0000) <= a.y * b.z <= 0x1000_0000_0000_0000_0000,
        -(0x1000_0000_0000_0000_0000) <= a.z * b.y <= 0x1000_0000_0000_0000_0000,
        -(0x1000_0000_0000_0000_0000) <= a.z * b.x <= 0x1000_0000_0000_0000_0000,
        -(0x1000_0000_0000_0000_0000) <= a.x * b.z <= 0x1000_0000_0000_0000_0000,
        -(0x1000_0000_0000_0000_0000) <= a.x * b.y <= 0x1000_0000_0000_0000_0000,
        -(0x1000_0000_0000_0000_0000) <= a.y * b.x <= 0x1000_0000_0000_0000_0000,
{
    let c = COORD_MAX as int;
    lemma_mul_abs_bound(a.y, b.z, c, c);
    lemma_mul_abs_bound(a.z, b.y, c, c);
    lemma_mul_abs_bound(a.z, b.x, c, c);
    lemma_mul_abs_bound(a.x, b.z, c, c);
    lemma_mul_abs_bound(a.x, b.y, c, c);
    lemma_mul_abs_bound(a.y, b.x, c, c);
    lemma_tdiv_abs_le(a.y * b.z - a.z * b.y, 2 * (c * c), FP_ONE as int);
    lemma_tdiv_abs_le(a.z * b.x - a.x * b.z, 2 * (c * c), FP_ONE as int);
    lemma_tdiv_abs_le(a.x * b.y - a.y * b.x, 2 * (c * c), FP_ONE as int);
}

/// The squared length is never negative.
pub proof fn lemma_len_sq_nonneg(a: V3)
    ensures
        a.x * a.x + a.y * a.y + a.z * a.z >= 0,
        v3_len_sq(a) >= 0,
{
    assert(a.x * a.x >= 0) by (nonlinear_arith);
    assert(a.y * a.y >= 0) by (nonlinear_arith);
    assert(a.z * a.z >= 0) by (nonlinear_arith);
    lemma_tdiv_bounds(a.x * a.x + a.y * a.y + a.z * a.z, FP_ONE as int);
}


impl Vec3 {
    /// The vector divided by a nonzero fixed-point scalar, component-wise.
    pub fn div(self, rhs: i64) -> (r: Vec3)
        requires
            rhs != 0,
            in_coord_range(self.m()),
        ensures
            r.m() == (V3 {
                x: fxdiv(self.m().x, rhs as int),
                y: fxdiv(self.m().y, rhs as int),
                z: fxdiv(self.m().z, rhs as int),
            }),
    {
        proof {
            lemma_mul_abs_bound(self.x as int, FP_ONE as int, COORD_MAX as int, FP_ONE as int);
            lemma_mul_abs_bound(self.y as int, FP_ONE as int, COORD_MAX as int, FP_ONE as int);
            lemma_mul_abs_bound(self.z as int, FP_ONE as int, COORD_MAX as int, FP_ONE as int);
            lemma_tdiv_bounds(self.x as int * FP_ONE as int, rhs as int);
            lemma_tdiv_bounds(self.y as int * FP_ONE as int, rhs as int);
            lemma_tdiv_bounds(self.z as int * FP_ONE as int, rhs as int);
        }
        Vec3 {
            x: div_i128((self.x as i128) * (FP_ONE as i128), rhs as i128) as i64,
            y: div_i128((self.y as i128) * (FP_ONE as i128), rhs as i128) as i64,
            z: div_i128((self.z as i128) * (FP_ONE as i128), rhs as i128) as i64,
        }
    }

    /// The component-wise sum of a list of coordinate-range vectors.
    pub fn sum(list: &Vec<Vec3>) -> (r: Vec3)
        requires
            list@.len() <= 4096,
            forall|j: int| 0 <= j < list@.len() ==> in_coord_range((#[trigger] list@[j]).m()),
        ensures
            r.m() == sum_spec(list@),
    {
        let mut acc = Vec3 { x: 0, y: 0, z: 0 };
        let mut i: usize = 0;
        while i < list.len()
            invariant
                0 <= i <= list@.len(),
                list@.len() <= 4096,
                forall|j: int| 0 <= j < list@.len() ==> in_coord_range((#[trigger] list@[j]).m()),
                acc.m() == sum_spec(list@.take(i as int)),
                v3_bounded(acc.m(), i as int * COORD_MAX as int),
            decreases list@.len() - i,
        {
            proof {
                assert(list@.take(i + 1).drop_last() =~= list@.take(i as int));
                assert(list@.take(i + 1).last() == list@[i as int]);
            }
            acc = Vec3 { x: acc.x + list[i].x, y: acc.y + list[i].y, z: acc.z + list[i].z };
            i = i + 1;
        }
        proof {
            assert(list@.take(list@.len() as int) =~= list@);
        }
        acc
    }
}

/// The mathematical sum of a sequence of vectors.
pub open spec fn sum_spec(vs: Seq<Vec3>) -> V3
    decreases vs.len(),
{
    if vs.len() == 0 {
        V3 { x: 0, y: 0, z: 0 }
    } else {
        let rest = sum_spec(vs.drop_last());
        V3 {
            x: rest.x + vs.last().m().x,
            y: rest.y + vs.last().m().y,
            z: rest.z + vs.last().m().z,
        }
    }
}

} // verus!
