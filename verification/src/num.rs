use vstd::prelude::*;

verus! {

use vstd::arithmetic::div_mod::lemma_fundamental_div_mod;
use vstd::arithmetic::div_mod::lemma_div_pos_is_pos;
use vstd::arithmetic::div_mod::lemma_div_nonincreasing;
use vstd::arithmetic::div_mod::lemma_div_is_ordered;
use vstd::arithmetic::div_mod::lemma_div_basics;
use vstd::arithmetic::div_mod::lemma_div_decreases;
use vstd::arithmetic::div_mod::lemma_mod_bound;
use vstd::arithmetic::div_mod::lemma_div_is_ordered_by_denominator;
use vstd::arithmetic::div_mod::lemma_div_multiples_vanish;
use vstd::arithmetic::mul::lemma_mul_inequality;

/// Fixed-point scale: every scalar of this crate is an integer count of
/// 1/65536 of a world unit.
pub const FP_ONE: i64 = 65536;

/// Largest magnitude a coordinate may have. World positions and directions
/// stay within +/- 2^30 fixed-point units (about +/- 16384 world units), so
/// that the intersection arithmetic fits in 128-bit intermediates.
pub const COORD_MAX: i64 = 0x4000_0000;

/// Truncating (round-toward-zero) division: the semantics of `/` on Rust's
/// signed integers, written out over mathematical integers.
pub open spec fn tdiv(x: int, d: int) -> int
    recommends
        d != 0,
{
    if x == 0 {
        0
    } else if x > 0 && d > 0 {
        x / d
    } else if x < 0 && d < 0 {
        (x * -1) / (d * -1)
    } else if x < 0 {
        ((x * -1) / d) * -1
    } else {
        (x / (d * -1)) * -1
    }
}

/// Truncating division never grows the magnitude of the dividend.
pub proof fn lemma_tdiv_bounds(x: int, d: int)
    requires
        d != 0,
    ensures
        x >= 0 ==> -x <= tdiv(x, d) <= x,
        x <= 0 ==> x <= tdiv(x, d) <= -x,
        x >= 0 && d > 0 ==> 0 <= tdiv(x, d) <= x,
        x <= 0 && d > 0 ==> x <= tdiv(x, d) <= 0,
{
    if x > 0 && d > 0 {
        lemma_div_pos_is_pos(x, d);
        lemma_div_nonincreasing(x, d);
    } else if x > 0 && d < 0 {
        lemma_div_pos_is_pos(x, d * -1);
        lemma_div_nonincreasing(x, d * -1);
    } else if x < 0 && d > 0 {
        lemma_div_pos_is_pos(x * -1, d);
        lemma_div_nonincreasing(x * -1, d);
    } else if x < 0 && d < 0 {
        lemma_div_pos_is_pos(x * -1, d * -1);
        lemma_div_nonincreasing(x * -1, d * -1);
    }
}

/// Truncating division of a 128-bit value; relates the `/` of executable
/// code to the `tdiv` the contracts of this crate are written with.
pub fn div_i128(x: i128, d: i128) -> (r: i128)
    requires
        d != 0,
        !(x == i128::MIN && d == -1),
    ensures
        r == tdiv(x as int, d as int),
{
    proof {
        lemma_tdiv_bounds(x as int, d as int);
        if x == i128::MIN {
            let m = -(x as int);
            if d == 1 {
                lemma_div_basics(m);
            } else {
                let dd = if d > 0 { d as int } else { -(d as int) };
                lemma_div_decreases(m, dd);
            }
        }
        assert(i128::MIN <= tdiv(x as int, d as int) <= i128::MAX);
    }
    let r = x.checked_div(d);
    r.unwrap()
}

/// `r` is the floor of the square root of `x`.
pub open spec fn is_sqrt_floor(x: int, r: int) -> bool {
    0 <= r && r * r <= x && x < (r + 1) * (r + 1)
}

/// The floor of the square root of a nonnegative integer.
pub open spec fn sqrt_floor(x: int) -> int {
    choose|r: int| is_sqrt_floor(x, r)
}

/// There is only one floor square root, so any witness equals `sqrt_floor`.
pub proof fn lemma_sqrt_floor_unique(x: int, r: int)
    requires
        is_sqrt_floor(x, r),
    ensures
        sqrt_floor(x) == r,
{
    let s = sqrt_floor(x);
    assert(is_sqrt_floor(x, s));
    if s < r {
        lemma_mul_inequality(s + 1, r, s + 1);
        lemma_mul_inequality(s + 1, r, r);
        assert((s + 1) * (s + 1) <= r * r);
    }
    if r < s {
        lemma_mul_inequality(r + 1, s, r + 1);
        lemma_mul_inequality(r + 1, s, s);
        assert((r + 1) * (r + 1) <= s * s);
    }
}

/// Binary search for the floor square root of an unsigned 128-bit value.
pub fn isqrt_u128(x: u128) -> (r: u128)
    ensures
        is_sqrt_floor(x as int, r as int),
        r == sqrt_floor(x as int),
{
    if x < 2 {
        proof {
            if x == 0 {
                assert(is_sqrt_floor(0, 0));
            } else {
                assert(is_sqrt_floor(1, 1));
            }
            lemma_sqrt_floor_unique(x as int, x as int);
        }
        return x;
    }
    let mut lo: u128 = 1;
    let mut hi: u128 = x / 2;
    proof {
        let h = x as int / 2;
        lemma_fundamental_div_mod(x as int, 2);
        assert((h + 1) * (h + 1) > x) by (nonlinear_arith)
            requires
                h >= 1,
                x <= 2 * h + 1,
        ;
    }
    while lo < hi
        invariant
            1 <= lo <= hi,
            lo * lo <= x,
            x < (hi + 1) * (hi + 1),
            hi <= x,
        decreases hi - lo,
    {
        let mid = lo + (hi - lo + 1) / 2;
        let q = x / mid;
        proof {
            assert(mid <= q ==> mid * mid <= x) by (nonlinear_arith)
                requires
                    mid >= 1,
                    q == x as int / mid as int,
            ;
            assert(mid > q ==> x < mid * mid) by (nonlinear_arith)
                requires
                    mid >= 1,
                    q == x as int / mid as int,
            ;
        }
        if mid <= q {
            lo = mid;
        } else {
            hi = mid - 1;
        }
    }
    proof {
        lemma_sqrt_floor_unique(x as int, lo as int);
    }
    lo
}

/// The fixed-point product of two scalars, exact up to the truncating
/// division by the scale.
pub open spec fn fxmul(a: int, b: int) -> int {
    tdiv(a * b, FP_ONE as int)
}

/// The fixed-point quotient of two scalars.
pub open spec fn fxdiv(a: int, b: int) -> int
    recommends
        b != 0,
{
    tdiv(a * (FP_ONE as int), b)
}

/// Fixed-point multiplication of 64-bit scalars through a 128-bit product.
pub fn fx_mul(a: i64, b: i64) -> (r: i64)
    requires
        i64::MIN <= fxmul(a as int, b as int) <= i64::MAX,
    ensures
        r == fxmul(a as int, b as int),
{
    proof {
        lemma_mul_i64_fits(a as int, b as int);
    }
    let p: i128 = (a as i128) * (b as i128);
    let q = div_i128(p, FP_ONE as i128);
    q as i64
}

/// Fixed-point division of 64-bit scalars through a 128-bit product.
pub fn fx_div(a: i64, b: i64) -> (r: i64)
    requires
        b != 0,
        i64::MIN <= fxdiv(a as int, b as int) <= i64::MAX,
    ensures
        r == fxdiv(a as int, b as int),
{
    proof {
        lemma_mul_i64_fits(a as int, FP_ONE as int);
    }
    let p: i128 = (a as i128) * (FP_ONE as i128);
    let q = div_i128(p, b as i128);
    q as i64
}

/// The fixed-point square root: the floor square root of the value lifted
/// back to the scale.
pub open spec fn fxsqrt(a: int) -> int {
    sqrt_floor(a * (FP_ONE as int))
}

/// Fixed-point square root of a nonnegative 64-bit scalar.
pub fn fx_sqrt(a: i64) -> (r: i64)
    requires
        a >= 0,
    ensures
        r == fxsqrt(a as int),
        is_sqrt_floor(a * FP_ONE, r as int),
        0 <= r < 0x100_0000_0000,
{
    proof {
        lemma_mul_abs_bound(a as int, FP_ONE as int, i64::MAX as int, FP_ONE as int);
    }
    let p: u128 = (a as u128) * (FP_ONE as u128);
    let r = isqrt_u128(p);
    proof {
        let ri = r as int;
        let pi = p as int;
        assert(ri * ri <= pi);
        assert(ri < 0x100_0000_0000) by (nonlinear_arith)
            requires
                ri >= 0,
                ri * ri <= pi,
                pi < 0x1_0000_0000_0000_0000_0000,
        ;
    }
    r as i64
}

/// A product of two 64-bit values fits in 128 bits.
pub proof fn lemma_mul_i64_fits(a: int, b: int)
    requires
        i64::MIN <= a <= i64::MAX,
        i64::MIN <= b <= i64::MAX,
    ensures
        -0x4000_0000_0000_0000_0000_0000_0000_0000 <= a * b
            <= 0x4000_0000_0000_0000_0000_0000_0000_0000,
{
    assert(-0x4000_0000_0000_0000_0000_0000_0000_0000 <= a * b
        <= 0x4000_0000_0000_0000_0000_0000_0000_0000) by (nonlinear_arith)
        requires
            -0x8000_0000_0000_0000 <= a <= 0x7fff_ffff_ffff_ffff,
            -0x8000_0000_0000_0000 <= b <= 0x7fff_ffff_ffff_ffff,
    ;
}

/// Magnitude bound for a product, from magnitude bounds on the factors.
pub proof fn lemma_mul_abs_bound(a: int, b: int, ba: int, bb: int)
    requires
        -ba <= a <= ba,
        -bb <= b <= bb,
    ensures
        -(ba * bb) <= a * b <= ba * bb,
{
    assert(-(ba * bb) <= a * b <= ba * bb) by (nonlinear_arith)
        requires
            -ba <= a <= ba,
            -bb <= b <= bb,
    ;
}

/// Truncating division by a positive divisor is ordered by the magnitude of
/// the dividend.
pub proof fn lemma_tdiv_abs_le(x: int, y: int, d: int)
    requires
        -y <= x <= y,
        d > 0,
    ensures
        -(y / d) <= tdiv(x, d) <= y / d,
{
    lemma_tdiv_bounds(x, d);
    if x > 0 {
        lemma_div_is_ordered(x, y, d);
    } else if x < 0 {
        lemma_div_is_ordered(x * -1, y, d);
    } else {
        lemma_div_pos_is_pos(y, d);
    }
}

/// Magnitude bound for a fixed-point product, from bounds on the factors.
pub proof fn lemma_fxmul_range(a: int, b: int, ba: int, bb: int)
    requires
        -ba <= a <= ba,
        -bb <= b <= bb,
    ensures
        -(ba * bb) <= a * b <= ba * bb,
        -((ba * bb) / (FP_ONE as int)) <= fxmul(a, b) <= (ba * bb) / (FP_ONE as int),
{
    lemma_mul_abs_bound(a, b, ba, bb);
    lemma_tdiv_abs_le(a * b, ba * bb, FP_ONE as int);
}


/// Floor (Euclidean) division of a 128-bit value by a positive divisor; this
/// is the `/` of Verus specifications.
pub fn fdiv_i128(x: i128, d: i128) -> (r: i128)
    requires
        d > 0,
    ensures
        r == x as int / d as int,
        x >= 0 ==> 0 <= r <= x,
        x < 0 ==> x <= r < 0 || r == 0,
{
    proof {
        if x >= 0 {
            lemma_div_pos_is_pos(x as int, d as int);
            lemma_div_nonincreasing(x as int, d as int);
        } else {
            lemma_fundamental_div_mod(x as int, d as int);
            lemma_mod_bound(x as int, d as int);
            assert(x as int / d as int >= x) by (nonlinear_arith)
                requires
                    d >= 1,
                    x < 0,
                    x == d * (x as int / d as int) + (x as int % d as int),
                    0 <= (x as int % d as int),
                    (x as int % d as int) < d,
            ;
        }
    }
    let r = x.checked_div_euclid(d);
    r.unwrap()
}



/// A fixed-point quotient by a divisor of at least one is bounded by the
/// bound of the dividend.
pub proof fn lemma_fxdiv_unit_bound(a: int, b: int, ba: int)
    requires
        -ba <= a <= ba,
        0 <= ba,
        b >= FP_ONE,
    ensures
        -ba <= fxdiv(a, b) <= ba,
{
    let f = FP_ONE as int;
    lemma_mul_abs_bound(a, f, ba, f);
    lemma_tdiv_abs_le(a * f, ba * f, b);
    lemma_div_is_ordered_by_denominator(ba * f, f, b);
    lemma_div_multiples_vanish(ba, f);
    assert(ba * f == f * ba);
}


/// Multiplying by the fixed-point unit is the identity.
pub proof fn lemma_fxmul_unit(e: int)
    ensures
        fxmul(FP_ONE as int, e) == e,
{
    let f = FP_ONE as int;
    if e > 0 {
        lemma_div_multiples_vanish(e, f);
        assert(f * e == e * f) by (nonlinear_arith);
    } else if e < 0 {
        lemma_div_multiples_vanish(-e, f);
        assert(f * e * -1 == f * (e * -1)) by (nonlinear_arith);
    }
}


/// Truncating division leaves a remainder smaller than the divisor.
pub proof fn lemma_tdiv_remainder(x: int, d: int)
    requires
        d > 0,
    ensures
        -(d - 1) <= x - d * tdiv(x, d) <= d - 1,
{
    if x >= 0 {
        lemma_fundamental_div_mod(x, d);
        lemma_mod_bound(x, d);
    } else {
        let m = x * -1;
        lemma_fundamental_div_mod(m, d);
        lemma_mod_bound(m, d);
        assert(x - d * tdiv(x, d) == (m - d * (m / d)) * -1) by (nonlinear_arith)
            requires
                x == m * -1,
                tdiv(x, d) == (m / d) * -1,
        ;
    }
}

} // verus!
