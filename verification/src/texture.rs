use vstd::prelude::*;

verus! {

use std::sync::Arc;
use crate::num::FP_ONE;
use crate::num::tdiv;
use crate::num::fxmul;
use crate::num::div_i128;
use crate::num::fdiv_i128;
use crate::num::lemma_mul_i64_fits;
use crate::num::lemma_fxmul_range;
use crate::vec3::Vec3;
use crate::vec3::V3;
use crate::vec3::v3_bounded;
use crate::vec3::in_coord_range;

/// The fixed-point value of pi, used by the checker rule.
pub const PI_FX: i64 = 205887;

/// How an image texture is sampled. The lookup below always interpolates;
/// the variants are kept for scene descriptions that ask for one or the
/// other.
#[derive(Clone, Copy, Debug, PartialEq, Eq, Structural)]
pub enum TextureFilter {
    Nearest,
    Linear,
}

/// A texture of one constant color.
#[derive(Clone, Copy, Debug, PartialEq, Eq, Structural)]
pub struct ConstantTexture {
    pub color: Vec3,
}

/// Two textures in a checker pattern over the UV square.
#[derive(Clone, Debug)]
pub struct CheckeredTexture {
    pub texture1: Arc<Texture>,
    pub texture2: Arc<Texture>,
}

/// A 2D grid of fixed-point RGB samples with bilinear lookup. Decoding an
/// image file into such a grid is the caller's business: the renderer core
/// receives the samples ready-made.
#[derive(Clone, Debug)]
pub struct ImageTexture {
    pub width: usize,
    pub height: usize,
    pub data: Vec<Vec3>,
}

/// A texture: a pure function from UV coordinates to a color.
#[derive(Clone, Debug)]
pub enum Texture {
    Constant(ConstantTexture),
    Checkered(CheckeredTexture),
    Image(ImageTexture),
}

/// Colors of a well-formed texture stay within coordinate range, and an
/// image grid matches its dimensions.
pub open spec fn texture_wf(t: Texture) -> bool
    decreases t,
{
    match t {
        Texture::Constant(c) => in_coord_range(c.color.m()),
        Texture::Checkered(c) => texture_wf(*c.texture1) && texture_wf(*c.texture2),
        Texture::Image(img) => {
            &&& 1 <= img.width <= 0x10000
            &&& 1 <= img.height <= 0x10000
            &&& img.data@.len() == img.width * img.height
            &&& forall|i: int|
                0 <= i < img.data@.len() ==> in_coord_range(#[trigger] img.data@[i].m())
        },
    }
}

/// A scalar clamped into the unit interval `[0, 1]`.
pub open spec fn clamp01(x: int) -> int {
    if x < 0 {
        0
    } else if x > FP_ONE as int {
        FP_ONE as int
    } else {
        x
    }
}

/// The checker cell of one coordinate: which half-period of `sin(100 u)` the
/// coordinate falls in, with pi rounded to the fixed-point grid.
pub open spec fn checker_cell(u: int) -> int {
    (100 * u) / (PI_FX as int)
}

/// The grid index sampled for one axis: the floor pixel of `u * (n - 1)`,
/// with `u` clamped into the unit interval first.
pub open spec fn texel_floor(u: int, n: int) -> int {
    fxmul(clamp01(u), (n - 1) * (FP_ONE as int)) / (FP_ONE as int)
}

/// The interpolation weight left over after taking the floor pixel.
pub open spec fn texel_frac(u: int, n: int) -> int {
    fxmul(clamp01(u), (n - 1) * (FP_ONE as int)) % (FP_ONE as int)
}

/// The color a texture yields at the UV coordinates `(u, v)`.
pub open spec fn texture_at(t: Texture, u: int, v: int) -> V3
    decreases t,
{
    match t {
        Texture::Constant(c) => c.color.m(),
        Texture::Checkered(c) => {
            if (checker_cell(u) + checker_cell(v)) % 2 != 0 {
                texture_at(*c.texture1, u, v)
            } else {
                texture_at(*c.texture2, u, v)
            }
        },
        Texture::Image(img) => image_at(img, u, v),
    }
}

/// Bilinear lookup in an image grid: the four texels around the scaled UV
/// position, blended by the fractional parts.
pub open spec fn image_at(img: ImageTexture, u: int, v: int) -> V3 {
    let w = img.width as int;
    let h = img.height as int;
    let ui = texel_floor(u, w);
    let vi = texel_floor(v, h);
    let ua = texel_frac(u, w);
    let va = texel_frac(v, h);
    let u1 = if ui + 1 < w {
        ui + 1
    } else {
        w - 1
    };
    let v1 = if vi + 1 < h {
        vi + 1
    } else {
        h - 1
    };
    let p00 = img.data@[vi * w + ui].m();
    let p10 = img.data@[vi * w + u1].m();
    let p01 = img.data@[v1 * w + ui].m();
    let p11 = img.data@[v1 * w + u1].m();
    let top = v3_blend(p00, p10, ua);
    let bot = v3_blend(p01, p11, ua);
    v3_blend(top, bot, va)
}

/// The blend `(1 - alpha) * a + alpha * b`, component-wise.
pub open spec fn v3_blend(a: V3, b: V3, alpha: int) -> V3 {
    V3 {
        x: fxmul(FP_ONE - alpha, a.x) + fxmul(alpha, b.x),
        y: fxmul(FP_ONE - alpha, a.y) + fxmul(alpha, b.y),
        z: fxmul(FP_ONE - alpha, a.z) + fxmul(alpha, b.z),
    }
}

impl ConstantTexture {
    /// A texture of the one given color.
    pub fn new(color: Vec3) -> (r: ConstantTexture)
        requires
            in_coord_range(color.m()),
        ensures
            r.color == color,
            texture_wf(Texture::Constant(r)),
    {
        ConstantTexture { color }
    }
}

impl CheckeredTexture {
    /// A checker of the two given textures.
    pub fn new(texture1: Arc<Texture>, texture2: Arc<Texture>) -> (r: CheckeredTexture)
        requires
            texture_wf(*texture1),
            texture_wf(*texture2),
        ensures
            r.texture1 == texture1,
            r.texture2 == texture2,
            texture_wf(Texture::Checkered(r)),
    {
        CheckeredTexture { texture1, texture2 }
    }
}

impl ImageTexture {
    /// An image texture over a ready-decoded sample grid, row-major with
    /// `width * height` entries.
    pub fn new(width: usize, height: usize, data: Vec<Vec3>) -> (r: ImageTexture)
        requires
            1 <= width <= 0x10000,
            1 <= height <= 0x10000,
            data@.len() == width * height,
            forall|i: int| 0 <= i < data@.len() ==> in_coord_range(#[trigger] data@[i].m()),
        ensures
            texture_wf(Texture::Image(r)),
            r.width == width,
            r.height == height,
            r.data == data,
    {
        ImageTexture { width, height, data }
    }
}

/// Clamps a scalar into the unit interval.
fn clamp01_exec(x: i64) -> (r: i64)
    ensures
        r == clamp01(x as int),
{
    if x < 0 {
        0
    } else if x > FP_ONE {
        FP_ONE
    } else {
        x
    }
}

/// The floor pixel and the interpolation weight of one axis.
fn texel_split(u: i64, n: usize) -> (r: (usize, i64))
    requires
        1 <= n <= 0x10000,
    ensures
        r.0 == texel_floor(u as int, n as int),
        r.1 == texel_frac(u as int, n as int),
        r.0 < n,
        0 <= r.1 < FP_ONE,
{
    let uc = clamp01_exec(u);
    proof {
        lemma_fxmul_range(uc as int, (n - 1) as int * FP_ONE as int, FP_ONE as int, 0xffff * FP_ONE as int);
        crate::num::lemma_tdiv_bounds(uc as int * ((n - 1) as int * FP_ONE as int), FP_ONE as int);
        vstd::arithmetic::div_mod::lemma_fundamental_div_mod(
            (fxmul(uc as int, (n - 1) as int * FP_ONE as int)) as int,
            FP_ONE as int,
        );
        vstd::arithmetic::div_mod::lemma_mod_bound(
            (fxmul(uc as int, (n - 1) as int * FP_ONE as int)) as int,
            FP_ONE as int,
        );
        assert(uc as int * ((n - 1) as int * FP_ONE as int) <= 0xffff_0000 * FP_ONE as int)
            by (nonlinear_arith)
            requires
                0 <= uc <= FP_ONE as int,
                1 <= n <= 0x10000,
        ;
        assert(tdiv(uc as int * ((n - 1) as int * FP_ONE as int), FP_ONE as int) <= (n - 1) as int
            * FP_ONE as int) by (nonlinear_arith)
            requires
                0 <= uc <= FP_ONE as int,
                1 <= n <= 0x10000,
                tdiv(
                    uc as int * ((n - 1) as int * FP_ONE as int),
                    FP_ONE as int,
                ) * FP_ONE as int <= uc as int * ((n - 1) as int * FP_ONE as int),
                tdiv(uc as int * ((n - 1) as int * FP_ONE as int), FP_ONE as int) >= 0,
        ;
    }
    let scaled: i64 = div_i128(
        (uc as i128) * (((n - 1) as i64 as i128) * (FP_ONE as i128)),
        FP_ONE as i128,
    ) as i64;
    let pixel = (scaled as u64 / FP_ONE as u64) as usize;
    let frac = (scaled as u64 % FP_ONE as u64) as i64;
    proof {
        assert(pixel < n) by (nonlinear_arith)
            requires
                0 <= scaled <= (n - 1) as int * FP_ONE as int,
                pixel == scaled as int / FP_ONE as int,
                n >= 1,
        ;
    }
    (pixel, frac)
}

/// Fixed-point blend of two coordinate-range colors.
fn blend_exec(a: Vec3, b: Vec3, alpha: i64) -> (r: Vec3)
    requires
        in_coord_range(a.m()),
        in_coord_range(b.m()),
        0 <= alpha <= FP_ONE,
    ensures
        r.m() == v3_blend(a.m(), b.m(), alpha as int),
        v3_bounded(r.m(), 2 * crate::num::COORD_MAX as int),
{
    proof {
        let c = crate::num::COORD_MAX as int;
        lemma_fxmul_range(FP_ONE as int - alpha, a.x as int, FP_ONE as int, c);
        lemma_fxmul_range(FP_ONE as int - alpha, a.y as int, FP_ONE as int, c);
        lemma_fxmul_range(FP_ONE as int - alpha, a.z as int, FP_ONE as int, c);
        lemma_fxmul_range(alpha as int, b.x as int, FP_ONE as int, c);
        lemma_fxmul_range(alpha as int, b.y as int, FP_ONE as int, c);
        lemma_fxmul_range(alpha as int, b.z as int, FP_ONE as int, c);
    }
    let ax = div_i128(((FP_ONE - alpha) as i128) * (a.x as i128), FP_ONE as i128) as i64;
    let ay = div_i128(((FP_ONE - alpha) as i128) * (a.y as i128), FP_ONE as i128) as i64;
    let az = div_i128(((FP_ONE - alpha) as i128) * (a.z as i128), FP_ONE as i128) as i64;
    let bx = div_i128((alpha as i128) * (b.x as i128), FP_ONE as i128) as i64;
    let by = div_i128((alpha as i128) * (b.y as i128), FP_ONE as i128) as i64;
    let bz = div_i128((alpha as i128) * (b.z as i128), FP_ONE as i128) as i64;
    Vec3 { x: ax + bx, y: ay + by, z: az + bz }
}

impl Texture {
    /// Returns the color of this texture at the given UV coordinates.
    pub fn texture(&self, uv_coords: (i64, i64)) -> (r: Vec3)
        requires
            texture_wf(*self),
        ensures
            r.m() == texture_at(*self, uv_coords.0 as int, uv_coords.1 as int),
            in_coord_range(r.m()),
        decreases *self,
    {
        proof {
            lemma_texture_at_range(self, uv_coords.0 as int, uv_coords.1 as int);
        }
        let (u, v) = uv_coords;
        match self {
            Texture::Constant(c) => c.color,
            Texture::Checkered(c) => {
                proof {
                    lemma_mul_i64_fits(100, u as int);
                    lemma_mul_i64_fits(100, v as int);
                }
                let cu = fdiv_i128(100 * (u as i128), PI_FX as i128);
                let cv = fdiv_i128(100 * (v as i128), PI_FX as i128);
                let odd = (cu + cv) % 2 != 0;
                proof {
                    vstd::arithmetic::div_mod::lemma_fundamental_div_mod(
                        (cu + cv) as int,
                        2,
                    );
                }
                if odd {
                    c.texture1.texture(uv_coords)
                } else {
                    c.texture2.texture(uv_coords)
                }
            },
            Texture::Image(img) => {
                let (ui, ua) = texel_split(u, img.width);
                let (vi, va) = texel_split(v, img.height);
                let u1 = if ui + 1 < img.width {
                    ui + 1
                } else {
                    img.width - 1
                };
                let v1 = if vi + 1 < img.height {
                    vi + 1
                } else {
                    img.height - 1
                };
                proof {
                    let w = img.width as int;
                    let h = img.height as int;
                    assert(h * w <= 0x1_0000_0000) by (nonlinear_arith)
                        requires
                            1 <= h <= 0x10000,
                            1 <= w <= 0x10000,
                    ;
                    assert(vi * w + ui < h * w) by (nonlinear_arith)
                        requires
                            0 <= vi < h,
                            0 <= ui < w,
                    ;
                    assert((v1 as int) * w + u1 < h * w) by (nonlinear_arith)
                        requires
                            0 <= v1 < h,
                            0 <= u1 < w,
                    ;
                    assert(vi * w + (u1 as int) < h * w) by (nonlinear_arith)
                        requires
                            0 <= vi < h,
                            0 <= u1 < w,
                    ;
                    assert((v1 as int) * w + ui < h * w) by (nonlinear_arith)
                        requires
                            0 <= v1 < h,
                            0 <= ui < w,
                    ;
                    assert(img.data@.len() == h * w) by (nonlinear_arith)
                        requires
                            img.data@.len() == w * h,
                    ;
                }
                let p00 = img.data[vi * img.width + ui];
                let p10 = img.data[vi * img.width + u1];
                let p01 = img.data[v1 * img.width + ui];
                let p11 = img.data[v1 * img.width + u1];
                let top = blend_exec(p00, p10, ua);
                let bot = blend_exec(p01, p11, ua);
                proof {
                    lemma_blend_in_range(p00.m(), p10.m(), ua as int);
                    lemma_blend_in_range(p01.m(), p11.m(), ua as int);
                }
                blend_exec2(top, bot, va)
            },
        }
    }
}

/// A blend of two coordinate-range colors stays within coordinate range.
pub proof fn lemma_blend_in_range(a: V3, b: V3, alpha: int)
    requires
        in_coord_range(a),
        in_coord_range(b),
        0 <= alpha <= FP_ONE as int,
    ensures
        in_coord_range(v3_blend(a, b, alpha)),
{
    let c = crate::num::COORD_MAX as int;
    let f = FP_ONE as int;
    lemma_fxmul_range(f - alpha, a.x, f, c);
    lemma_fxmul_range(f - alpha, a.y, f, c);
    lemma_fxmul_range(f - alpha, a.z, f, c);
    lemma_fxmul_range(alpha, b.x, f, c);
    lemma_fxmul_range(alpha, b.y, f, c);
    lemma_fxmul_range(alpha, b.z, f, c);
    lemma_blend_split(a.x, b.x, alpha);
    lemma_blend_split(a.y, b.y, alpha);
    lemma_blend_split(a.z, b.z, alpha);
}

/// The two halves of a unit-weight blend split the magnitude bound between
/// them.
pub proof fn lemma_blend_split(a: int, b: int, alpha: int)
    requires
        -(crate::num::COORD_MAX as int) <= a <= crate::num::COORD_MAX as int,
        -(crate::num::COORD_MAX as int) <= b <= crate::num::COORD_MAX as int,
        0 <= alpha <= FP_ONE as int,
    ensures
        -(crate::num::COORD_MAX as int) <= fxmul(FP_ONE - alpha, a) + fxmul(alpha, b)
            <= crate::num::COORD_MAX as int,
{
    let c = crate::num::COORD_MAX as int;
    let f = FP_ONE as int;
    crate::num::lemma_mul_abs_bound(f - alpha, a, f - alpha, c);
    crate::num::lemma_mul_abs_bound(alpha, b, alpha, c);
    crate::num::lemma_tdiv_abs_le((f - alpha) * a, (f - alpha) * c, f);
    crate::num::lemma_tdiv_abs_le(alpha * b, alpha * c, f);
    vstd::arithmetic::div_mod::lemma_fundamental_div_mod((f - alpha) * c, f);
    vstd::arithmetic::div_mod::lemma_fundamental_div_mod(alpha * c, f);
    vstd::arithmetic::div_mod::lemma_mod_bound((f - alpha) * c, f);
    vstd::arithmetic::div_mod::lemma_mod_bound(alpha * c, f);
    assert(((f - alpha) * c) / f + (alpha * c) / f <= c) by (nonlinear_arith)
        requires
            0 <= alpha <= f,
            f == 65536,
            c > 0,
            (f - alpha) * c == f * (((f - alpha) * c) / f) + ((f - alpha) * c) % f,
            alpha * c == f * ((alpha * c) / f) + (alpha * c) % f,
            0 <= ((f - alpha) * c) % f,
            0 <= (alpha * c) % f,
    ;
}

/// The second blending stage, over the widened intermediate colors.
fn blend_exec2(a: Vec3, b: Vec3, alpha: i64) -> (r: Vec3)
    requires
        v3_bounded(a.m(), 2 * crate::num::COORD_MAX as int),
        v3_bounded(b.m(), 2 * crate::num::COORD_MAX as int),
        0 <= alpha <= FP_ONE,
    ensures
        r.m() == v3_blend(a.m(), b.m(), alpha as int),
{
    proof {
        let c = 2 * crate::num::COORD_MAX as int;
        lemma_fxmul_range(FP_ONE as int - alpha, a.x as int, FP_ONE as int, c);
        lemma_fxmul_range(FP_ONE as int - alpha, a.y as int, FP_ONE as int, c);
        lemma_fxmul_range(FP_ONE as int - alpha, a.z as int, FP_ONE as int, c);
        lemma_fxmul_range(alpha as int, b.x as int, FP_ONE as int, c);
        lemma_fxmul_range(alpha as int, b.y as int, FP_ONE as int, c);
        lemma_fxmul_range(alpha as int, b.z as int, FP_ONE as int, c);
    }
    let ax = div_i128(((FP_ONE - alpha) as i128) * (a.x as i128), FP_ONE as i128) as i64;
    let ay = div_i128(((FP_ONE - alpha) as i128) * (a.y as i128), FP_ONE as i128) as i64;
    let az = div_i128(((FP_ONE - alpha) as i128) * (a.z as i128), FP_ONE as i128) as i64;
    let bx = div_i128((alpha as i128) * (b.x as i128), FP_ONE as i128) as i64;
    let by = div_i128((alpha as i128) * (b.y as i128), FP_ONE as i128) as i64;
    let bz = div_i128((alpha as i128) * (b.z as i128), FP_ONE as i128) as i64;
    Vec3 { x: ax + bx, y: ay + by, z: az + bz }
}


/// The floor pixel of one axis lies inside the grid, and the weight inside
/// the unit interval.
pub proof fn lemma_texel_range(u: int, n: int)
    requires
        1 <= n <= 0x10000,
    ensures
        0 <= texel_floor(u, n) < n,
        0 <= texel_frac(u, n) < FP_ONE,
{
    let f = FP_ONE as int;
    let uc = clamp01(u);
    let scaled = fxmul(uc, (n - 1) * f);
    crate::num::lemma_tdiv_bounds(uc * ((n - 1) * f), f);
    assert(uc * ((n - 1) * f) >= 0) by (nonlinear_arith)
        requires
            uc >= 0,
            n >= 1,
            f == 65536,
    ;
    assert(scaled * f <= uc * ((n - 1) * f) ==> scaled <= (n - 1) * f) by (nonlinear_arith)
        requires
            0 <= uc <= f,
            1 <= n <= 0x10000,
            f == 65536,
            scaled >= 0,
    ;
    vstd::arithmetic::div_mod::lemma_fundamental_div_mod(uc * ((n - 1) * f), f);
    vstd::arithmetic::div_mod::lemma_mod_bound(uc * ((n - 1) * f), f);
    assert(scaled * f <= uc * ((n - 1) * f)) by (nonlinear_arith)
        requires
            scaled == tdiv(uc * ((n - 1) * f), f),
            uc * ((n - 1) * f) >= 0,
            f == 65536,
            uc * ((n - 1) * f) == f * ((uc * ((n - 1) * f)) / f) + (uc * ((n - 1) * f)) % f,
            0 <= (uc * ((n - 1) * f)) % f < f,
    ;
    vstd::arithmetic::div_mod::lemma_fundamental_div_mod(scaled, f);
    vstd::arithmetic::div_mod::lemma_mod_bound(scaled, f);
    assert(scaled / f < n) by (nonlinear_arith)
        requires
            0 <= scaled <= (n - 1) * f,
            f == 65536,
            n >= 1,
            scaled == f * (scaled / f) + scaled % f,
            0 <= scaled % f < f,
    ;
    vstd::arithmetic::div_mod::lemma_div_pos_is_pos(scaled, f);
}

/// A well-formed texture's colors stay within coordinate range.
pub proof fn lemma_texture_at_range(t: &Texture, u: int, v: int)
    requires
        texture_wf(*t),
    ensures
        in_coord_range(texture_at(*t, u, v)),
    decreases *t,
{
    match t {
        Texture::Constant(_) => {},
        Texture::Checkered(c) => {
            lemma_texture_at_range(&*c.texture1, u, v);
            lemma_texture_at_range(&*c.texture2, u, v);
        },
        Texture::Image(img) => {
            let w = img.width as int;
            let h = img.height as int;
            lemma_texel_range(u, w);
            lemma_texel_range(v, h);
            let ui = texel_floor(u, w);
            let vi = texel_floor(v, h);
            let ua = texel_frac(u, w);
            let va = texel_frac(v, h);
            let u1 = if ui + 1 < w { ui + 1 } else { w - 1 };
            let v1 = if vi + 1 < h { vi + 1 } else { h - 1 };
            assert(vi * w + ui < h * w && vi * w + u1 < h * w && v1 * w + ui < h * w && v1 * w + u1
                < h * w && 0 <= vi * w && 0 <= v1 * w) by (nonlinear_arith)
                requires
                    0 <= ui < w,
                    0 <= u1 < w,
                    0 <= vi < h,
                    0 <= v1 < h,
            ;
            assert(img.data@.len() == h * w) by (nonlinear_arith)
                requires
                    img.data@.len() == w * h,
            ;
            let p00 = img.data@[vi * w + ui].m();
            let p10 = img.data@[vi * w + u1].m();
            let p01 = img.data@[v1 * w + ui].m();
            let p11 = img.data@[v1 * w + u1].m();
            lemma_blend_in_range(p00, p10, ua);
            lemma_blend_in_range(p01, p11, ua);
            lemma_blend_in_range(v3_blend(p00, p10, ua), v3_blend(p01, p11, ua), va);
        },
    }
}

} // verus!
