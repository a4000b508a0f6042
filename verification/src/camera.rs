use vstd::prelude::*;

verus! {

use crate::num::FP_ONE;
use crate::num::COORD_MAX;
use crate::num::fxmul;
use crate::num::fxdiv;
use crate::num::fx_mul;
use crate::num::fx_div;
use crate::num::div_i128;
use crate::num::lemma_fxmul_range;
use crate::num::lemma_fxdiv_unit_bound;
use crate::num::lemma_mul_abs_bound;
use crate::num::lemma_tdiv_bounds;
use crate::vec3::Vec3;
use crate::vec3::V3;
use crate::vec3::v3_norm;
use crate::vec3::v3_cross;
use crate::vec3::v3_bounded;
use crate::vec3::in_coord_range;
use crate::vec3::clamp_coord;
use crate::vec3::clamp_c;
use crate::ray::Ray;
use crate::ray::ray_wf;

/// The crop factor of the sensor, as a fixed-point ratio.
#[derive(Clone, Copy, Debug, PartialEq, Eq, Structural)]
pub struct CropFactor(pub i64);

impl CropFactor {
    /// A full-format sensor: factor one.
    pub fn full_format() -> (r: CropFactor)
        ensures
            r.0 == FP_ONE,
    {
        CropFactor(65536)
    }

    /// An APS-C sensor: factor 1.525.
    pub fn apsc() -> (r: CropFactor)
        ensures
            r.0 == 99942,
    {
        CropFactor(99942)
    }

    /// The slightly tighter APS-C sensor of another maker: factor 1.595.
    pub fn apsc_canon() -> (r: CropFactor)
        ensures
            r.0 == 104530,
    {
        CropFactor(104530)
    }

    /// A custom crop factor.
    pub fn custom(cf: i64) -> (r: CropFactor)
        ensures
            r.0 == cf,
    {
        CropFactor(cf)
    }
}

/// How the camera focuses: automatically at a fixed depth, or at a given
/// distance.
#[derive(Clone, Copy, Debug, PartialEq, Eq, Structural)]
pub enum Focus {
    AutoFocus,
    Distance(i64),
}

/// The square root of two, in fixed point; one f-stop scales the aperture by
/// this factor.
pub const SQRT2_FX: i64 = 92682;

/// A camera to render from: a position, an orthogonal local frame, and the
/// optics that shape its rays.
#[derive(Clone, Copy, Debug)]
pub struct Camera {
    /// Position in space.
    pub position: Vec3,
    /// The viewing direction (normalised).
    pub direction: Vec3,
    /// The right vector of the local frame, calculated.
    pub right: Vec3,
    /// The up vector of the local frame, calculated.
    pub up: Vec3,
    /// The tangent of half the horizontal field of view.
    pub tan_half_fov: i64,
    /// The width of the rendered image.
    pub width: u32,
    /// The height of the rendered image.
    pub height: u32,
    /// Either autofocus or the distance the camera focuses at.
    pub focus: Focus,
    /// The aperture; wider means stronger depth of field.
    pub aperture: i64,
    pub fstop: i32,
    /// The focal length; not the distance to the subject in focus.
    pub focal_length: i64,
    pub crop_factor: CropFactor,
}

/// The camera invariant: a coherent frame within coordinate range and
/// moderate optics.
pub open spec fn camera_wf(c: Camera) -> bool {
    &&& v3_bounded(c.direction.m(), 2 * FP_ONE as int)
    &&& v3_bounded(c.right.m(), 2 * FP_ONE as int)
    &&& v3_bounded(c.up.m(), 2 * FP_ONE as int)
    &&& in_coord_range(c.position.m())
    &&& 0 <= c.tan_half_fov <= 64 * FP_ONE
    &&& 0 <= c.aperture <= 64 * FP_ONE
    &&& 1 <= c.width <= 0x8000
    &&& 1 <= c.height <= 0x8000
}

/// The aperture that an f-stop dial position gives: the focal length scaled
/// down by sqrt(2) once per stop.
pub open spec fn aperture_spec(fstop: int, focal_length: int) -> int
    decreases
            (if fstop >= 0 {
                fstop
            } else {
                -fstop
            }),
{
    if fstop == 0 {
        focal_length
    } else if fstop > 0 {
        fxdiv(aperture_spec(fstop - 1, focal_length), SQRT2_FX as int)
    } else {
        fxmul(aperture_spec(fstop + 1, focal_length), SQRT2_FX as int)
    }
}

/// The aperture from an f-stop dial position; stops below zero widen the
/// aperture and are clamped into a moderate range as a guard against
/// runaway dials.
pub fn calculate_aperture(fstop: i32, focal_length: i64) -> (r: i64)
    requires
        -64 <= fstop <= 64,
        0 <= focal_length <= 64 * FP_ONE,
    ensures
        0 <= r <= 64 * FP_ONE,
        fstop >= 0 ==> r == aperture_spec(fstop as int, focal_length as int),
    {
    let mut a = focal_length;
    let mut i: i32 = fstop;
    while i != 0
        invariant
            0 <= a <= 64 * FP_ONE,
            -64 <= i <= 64,
            fstop >= 0 ==> 0 <= i <= fstop && a == aperture_spec(
                fstop as int - i as int,
                focal_length as int,
            ),
            fstop < 0 ==> i <= 0,
        decreases
                (if i >= 0 {
                    i as int
                } else {
                    -(i as int)
                }),
    {
        if i > 0 {
            proof {
                lemma_mul_abs_bound(a as int, FP_ONE as int, 64 * FP_ONE as int, FP_ONE as int);
                lemma_tdiv_bounds(a as int * FP_ONE as int, SQRT2_FX as int);
                crate::num::lemma_tdiv_abs_le(
                    a as int * FP_ONE as int,
                    64 * FP_ONE as int * FP_ONE as int,
                    SQRT2_FX as int,
                );
                assert((64 * FP_ONE as int * FP_ONE as int) / (SQRT2_FX as int)
                    <= 64 * FP_ONE as int) by (nonlinear_arith);
            }
            let ghost prev = a as int;
            a = fx_div(a, SQRT2_FX);
            proof {
                if fstop >= 0 {
                    assert(aperture_spec(fstop as int - i as int + 1, focal_length as int)
                        == fxdiv(
                        aperture_spec(fstop as int - i as int, focal_length as int),
                        SQRT2_FX as int,
                    ));
                }
            }
            i = i - 1;
        } else {
            proof {
                lemma_fxmul_range(a as int, SQRT2_FX as int, 64 * FP_ONE as int, 2 * FP_ONE as int);
            }
            let wide = fx_mul(a, SQRT2_FX);
            a = if wide > 64 * FP_ONE {
                64 * FP_ONE
            } else {
                wide
            };
            proof {
                lemma_tdiv_bounds(a as int * SQRT2_FX as int, FP_ONE as int);
            }
            i = i + 1;
        }
    }
    a
}

impl Camera {
    /// A virtual camera without physical optics, from the tangent of half
    /// its field of view.
    pub fn new_virtual(position: Vec3, direction: Vec3, tan_half_fov: i64, width: u32, height: u32) -> (r: Camera)
        requires
            in_coord_range(position.m()),
            in_coord_range(direction.m()),
            0 <= tan_half_fov <= 64 * FP_ONE,
            1 <= width <= 0x8000,
            1 <= height <= 0x8000,
        ensures
            camera_wf(r),
            r.position == position,
            r.direction.m() == v3_norm(direction.m()),
            r.width == width,
            r.height == height,
            r.tan_half_fov == tan_half_fov,
            r.aperture == 0,
            r.focus == Focus::AutoFocus,
    {
        let fwd = direction.normalised();
        let right = Camera::calc_right(fwd);
        let up = Camera::calc_up(fwd, right);
        Camera {
            position,
            direction: fwd,
            right,
            up,
            tan_half_fov,
            width,
            height,
            focus: Focus::AutoFocus,
            fstop: 0,
            aperture: 0,
            focal_length: 0,
            crop_factor: CropFactor(65536),
        }
    }

    /// A physical camera: the field of view follows from the focal length
    /// and the crop factor (a 36mm-wide sensor has 18mm half-width), the
    /// aperture from the f-stop dial.
    pub fn new_physical(
        position: Vec3,
        direction: Vec3,
        width: u32,
        height: u32,
        focus: Focus,
        focal_length: i64,
        fstop: i32,
        crop_factor: CropFactor,
    ) -> (r: Camera)
        requires
            in_coord_range(position.m()),
            in_coord_range(direction.m()),
            FP_ONE <= focal_length <= 64 * FP_ONE,
            FP_ONE <= crop_factor.0 <= 64 * FP_ONE,
            -64 <= fstop <= 64,
            1 <= width <= 0x8000,
            1 <= height <= 0x8000,
        ensures
            camera_wf(r),
            r.position == position,
            r.direction.m() == v3_norm(direction.m()),
            r.tan_half_fov == tan_fov_spec(focal_length as int, crop_factor.0 as int),
            fstop >= 0 ==> r.aperture == aperture_spec(fstop as int, focal_length as int),
            r.width == width,
            r.height == height,
            r.focus == focus,
            r.fstop == fstop,
            r.focal_length == focal_length,
            r.crop_factor == crop_factor,
    {
        let fwd = direction.normalised();
        let right = Camera::calc_right(fwd);
        let up = Camera::calc_up(fwd, right);
        let tan_half_fov = tan_from_optics(focal_length, crop_factor.0);
        let aperture = calculate_aperture(fstop, focal_length);
        Camera {
            position,
            direction: fwd,
            right,
            up,
            tan_half_fov,
            width,
            height,
            focus,
            aperture,
            fstop,
            focal_length,
            crop_factor,
        }
    }

    /// Directly sets the aperture; prefer `set_fstop`.
    pub fn set_aperture(&mut self, aperture: i64)
        requires
            0 <= aperture <= 64 * FP_ONE,
        ensures
            *final(self) == (Camera { aperture, ..*old(self) }),
    {
        self.aperture = aperture;
    }

    /// Sets the f-stop dial and recomputes the aperture.
    pub fn set_fstop(&mut self, fstop: i32)
        requires
            -64 <= fstop <= 64,
            0 <= old(self).focal_length <= 64 * FP_ONE,
        ensures
            *final(self) == (Camera {
                fstop,
                aperture: final(self).aperture,
                ..*old(self)
            }),
            0 <= final(self).aperture <= 64 * FP_ONE,
            fstop >= 0 ==> final(self).aperture == aperture_spec(
                fstop as int,
                old(self).focal_length as int,
            ),
    {
        self.fstop = fstop;
        self.update_aperture();
    }

    /// Sets the focal length (at least one unit) and recomputes the field of
    /// view and the aperture; nothing else about the camera changes.
    pub fn set_focal_length(&mut self, focal_length: i64)
        requires
            -64 * FP_ONE <= focal_length <= 64 * FP_ONE,
            -64 <= old(self).fstop <= 64,
            FP_ONE <= old(self).crop_factor.0 <= 64 * FP_ONE,
        ensures
            *final(self) == (Camera {
                focal_length: final(self).focal_length,
                tan_half_fov: final(self).tan_half_fov,
                aperture: final(self).aperture,
                ..*old(self)
            }),
            final(self).focal_length == (if focal_length >= FP_ONE {
                focal_length
            } else {
                FP_ONE
            }),
            final(self).tan_half_fov == tan_fov_spec(
                final(self).focal_length as int,
                old(self).crop_factor.0 as int,
            ),
            old(self).fstop >= 0 ==> final(self).aperture == aperture_spec(
                old(self).fstop as int,
                final(self).focal_length as int,
            ),
            0 <= final(self).aperture <= 64 * FP_ONE,
            0 <= final(self).tan_half_fov <= 64 * FP_ONE,
    {
        self.focal_length = if focal_length >= FP_ONE {
            focal_length
        } else {
            FP_ONE
        };
        self.update_aperture();
        self.update_fov();
    }

    /// Sets where the camera focuses.
    pub fn set_focus_dist(&mut self, focus: Focus)
        ensures
            *final(self) == (Camera { focus, ..*old(self) }),
    {
        self.focus = focus;
    }

    /// Sets the crop factor and recomputes the field of view.
    pub fn set_crop_factor(&mut self, crop_factor: CropFactor)
        requires
            FP_ONE <= crop_factor.0 <= 64 * FP_ONE,
            FP_ONE <= old(self).focal_length <= 64 * FP_ONE,
        ensures
            *final(self) == (Camera {
                crop_factor,
                tan_half_fov: final(self).tan_half_fov,
                ..*old(self)
            }),
            final(self).tan_half_fov == tan_fov_spec(
                old(self).focal_length as int,
                crop_factor.0 as int,
            ),
            0 <= final(self).tan_half_fov <= 64 * FP_ONE,
    {
        self.crop_factor = crop_factor;
        self.update_fov();
    }

    fn update_fov(&mut self)
        requires
            FP_ONE <= old(self).focal_length <= 64 * FP_ONE,
            FP_ONE <= old(self).crop_factor.0 <= 64 * FP_ONE,
        ensures
            *final(self) == (Camera {
                tan_half_fov: final(self).tan_half_fov,
                ..*old(self)
            }),
            final(self).tan_half_fov == tan_fov_spec(
                old(self).focal_length as int,
                old(self).crop_factor.0 as int,
            ),
            0 <= final(self).tan_half_fov <= 64 * FP_ONE,
    {
        self.tan_half_fov = tan_from_optics(self.focal_length, self.crop_factor.0);
    }

    fn update_aperture(&mut self)
        requires
            -64 <= old(self).fstop <= 64,
            0 <= old(self).focal_length <= 64 * FP_ONE,
        ensures
            *final(self) == (Camera { aperture: final(self).aperture, ..*old(self) }),
            0 <= final(self).aperture <= 64 * FP_ONE,
            old(self).fstop >= 0 ==> final(self).aperture == aperture_spec(
                old(self).fstop as int,
                old(self).focal_length as int,
            ),
    {
        self.aperture = calculate_aperture(self.fstop, self.focal_length);
    }

    /// The vector pointing to the right of the viewing direction,
    /// normalised.
    fn calc_right(fwd: Vec3) -> (r: Vec3)
        requires
            v3_bounded(fwd.m(), 2 * FP_ONE as int),
        ensures
            r.m() == v3_norm(v3_cross(V3 { x: 0, y: FP_ONE as int, z: 0 }, fwd.m())),
            v3_bounded(r.m(), 2 * FP_ONE as int),
    {
        let global_up = Vec3 { x: 0, y: FP_ONE, z: 0 };
        proof {
            crate::onb::lemma_cross_small(global_up.m(), fwd.m(), 2 * FP_ONE as int);
            assert(2 * (((2 * FP_ONE as int) * (2 * FP_ONE as int)) / (FP_ONE as int)) + 2
                <= crate::num::COORD_MAX as int) by (nonlinear_arith);
        }
        global_up.cross(fwd).normalised()
    }

    /// The vector pointing upwards of the viewing direction, normalised.
    fn calc_up(fwd: Vec3, right: Vec3) -> (r: Vec3)
        requires
            v3_bounded(fwd.m(), 2 * FP_ONE as int),
            v3_bounded(right.m(), 2 * FP_ONE as int),
        ensures
            r.m() == v3_norm(v3_cross(fwd.m(), right.m())),
            v3_bounded(r.m(), 2 * FP_ONE as int),
    {
        proof {
            crate::onb::lemma_cross_small(fwd.m(), right.m(), 2 * FP_ONE as int);
            assert(2 * (((2 * FP_ONE as int) * (2 * FP_ONE as int)) / (FP_ONE as int)) + 2
                <= crate::num::COORD_MAX as int) by (nonlinear_arith);
        }
        fwd.cross(right).normalised()
    }

    /// A ray from the camera through screen coordinates `(x, y)` (fixed
    /// point, so sub-pixel jitter is expressible), its origin spread over
    /// the lens disk when the aperture is open: the deterministic ray of
    /// some lens-disk point.
    pub fn get_ray(&self, x: i64, y: i64) -> (r: Ray)
        requires
            camera_wf(*self),
            0 <= x <= 0x8000 * FP_ONE,
            0 <= y <= 0x8000 * FP_ONE,
        ensures
            ray_wf(r),
            self.aperture == 0 ==> r.origin == self.position,
            exists|lens: V3|
                {
                    &&& v3_bounded(lens, FP_ONE as int)
                    &&& lens.z == 0
                    &&& crate::vec3::v3_len_sq(lens) <= FP_ONE
                    &&& r == #[trigger] pixel_ray_spec(*self, x as int, y as int, lens)
                },
    {
        let lens = Vec3::random_in_unit_disk();
        let r = self.pixel_ray(x, y, lens);
        proof {
            assert(r == pixel_ray_spec(*self, x as int, y as int, lens.m()));
        }
        r
    }

    /// The deterministic part of ray generation: where a ray aimed at screen
    /// coordinates `(x, y)` from the given lens point starts and points.
    pub fn pixel_ray(&self, x: i64, y: i64, lens: Vec3) -> (r: Ray)
        requires
            camera_wf(*self),
            v3_bounded(lens.m(), FP_ONE as int),
            0 <= x <= 0x8000 * FP_ONE,
            0 <= y <= 0x8000 * FP_ONE,
        ensures
            ray_wf(r),
            r == pixel_ray_spec(*self, x as int, y as int, lens.m()),
            self.aperture == 0 ==> r.origin == self.position,
    {
        let ghost f = FP_ONE as int;
        // The focus plane's distance, and the world width of the screen
        // there.
        let focus_dist: i64 = match self.focus {
            Focus::AutoFocus => 2 * FP_ONE,
            Focus::Distance(d) => {
                if d < 0 {
                    0
                } else if d > 64 * FP_ONE {
                    64 * FP_ONE
                } else {
                    d
                }
            },
        };
        proof {
            lemma_fxmul_range(2 * self.tan_half_fov as int, focus_dist as int, 128 * f, 64 * f);
            assert((128 * (FP_ONE as int)) * (64 * (FP_ONE as int)) / (FP_ONE as int) == 8192 * (
            FP_ONE as int)) by (nonlinear_arith);
        }
        let focal_width = fx_mul(2 * self.tan_half_fov, focus_dist);
        // How much one pixel is worth in world units at that plane.
        let scale = fx_div_by_pixels(focal_width, self.width);
        proof {
            lemma_scaled_frame_bounds(*self, scale as int, focus_dist as int);
        }
        let right = self.right.scale(scale);
        let up = self.up.scale(-scale);
        let fwd_f = self.direction.scale(focus_dist);
        let center = Vec3 {
            x: clamp_c(self.position.x + fwd_f.x),
            y: clamp_c(self.position.y + fwd_f.y),
            z: clamp_c(self.position.z + fwd_f.z),
        };
        let half_w = ((self.width / 2) as i64) * FP_ONE;
        let half_h = ((self.height / 2) as i64) * FP_ONE;
        let dx = x - half_w;
        let dy = y - half_h;
        proof {
            lemma_pixel_offset_bounds(*self, scale as int, dx as int, dy as int);
        }
        let px = Vec3 {
            x: clamp_c(center.x + fxm_wide(dx, right.x) + fxm_wide(dy, up.x)),
            y: clamp_c(center.y + fxm_wide(dx, right.y) + fxm_wide(dy, up.y)),
            z: clamp_c(center.z + fxm_wide(dx, right.z) + fxm_wide(dy, up.z)),
        };
        proof {
            lemma_fxmul_range(lens.m().x, (self.aperture as int) / 2, f, 32 * f);
            lemma_fxmul_range(lens.m().y, (self.aperture as int) / 2, f, 32 * f);
            lemma_fxmul_range(lens.m().z, (self.aperture as int) / 2, f, 32 * f);
        }
        let lr = self.aperture / 2;
        let lens_pos = lens.scale(lr);
        let start = Vec3 {
            x: clamp_c(self.position.x + lens_pos.x),
            y: clamp_c(self.position.y + lens_pos.y),
            z: clamp_c(self.position.z + lens_pos.z),
        };
        let dir = Vec3 {
            x: clamp_c(px.x - start.x),
            y: clamp_c(px.y - start.y),
            z: clamp_c(px.z - start.z),
        };
        proof {
            if self.aperture == 0 {
                assert(fxmul(lens.m().x, 0int) == 0);
                assert(fxmul(lens.m().y, 0int) == 0);
                assert(fxmul(lens.m().z, 0int) == 0);
            }
        }
        Ray { origin: start, direction: dir }
    }
}

/// The tangent of half the field of view from focal length and crop factor:
/// 18 units over their product.
pub open spec fn tan_fov_spec(focal_length: int, crop: int) -> int {
    let denom = fxmul(focal_length, crop);
    if denom <= 0 {
        0
    } else if fxdiv(18 * (FP_ONE as int), denom) > 64 * (FP_ONE as int) {
        64 * (FP_ONE as int)
    } else {
        fxdiv(18 * (FP_ONE as int), denom)
    }
}

/// The tangent of half the field of view, computed from the optics.
fn tan_from_optics(focal_length: i64, crop: i64) -> (r: i64)
    requires
        FP_ONE <= focal_length <= 64 * FP_ONE,
        FP_ONE <= crop <= 64 * FP_ONE,
    ensures
        r == tan_fov_spec(focal_length as int, crop as int),
        0 <= r <= 64 * FP_ONE,
{
    proof {
        let f = FP_ONE as int;
        lemma_fxmul_range(focal_length as int, crop as int, 64 * f, 64 * f);
        assert(focal_length as int * crop as int >= f * f) by (nonlinear_arith)
            requires
                focal_length >= FP_ONE,
                crop >= FP_ONE,
                f == 65536,
        ;
        vstd::arithmetic::div_mod::lemma_div_is_ordered(
            f * f,
            focal_length as int * crop as int,
            f,
        );
        assert((65536int * 65536int) / 65536int == 65536int) by (nonlinear_arith);
        lemma_mul_abs_bound(18 * f, f, 18 * f, f);
        lemma_tdiv_bounds(18 * f * f, fxmul(focal_length as int, crop as int));
        assert((64 * (FP_ONE as int)) * (64 * (FP_ONE as int)) / (FP_ONE as int) == 4096 * (
        FP_ONE as int)) by (nonlinear_arith);
    }
    let denom = fx_mul(focal_length, crop);
    let raw = fx_div(18 * FP_ONE, denom);
    if raw > 64 * FP_ONE {
        64 * FP_ONE
    } else {
        proof {
            lemma_tdiv_bounds(18 * FP_ONE as int * FP_ONE as int, denom as int);
        }
        raw
    }
}

/// A scaled product used for pixel offsets, through 128-bit arithmetic.
fn fxm_wide(a: i64, b: i64) -> (r: i64)
    requires
        -0x2_0000_0000 <= a <= 0x2_0000_0000,
        -0x2_0000_0000 <= b <= 0x2_0000_0000,
    ensures
        r == fxmul(a as int, b as int),
        -0x4_0000_0000_0000 <= r <= 0x4_0000_0000_0000,
{
    proof {
        lemma_fxmul_range(a as int, b as int, 0x2_0000_0000, 0x2_0000_0000);
        assert(0x2_0000_0000int * 0x2_0000_0000int / (FP_ONE as int)
            <= 0x4_0000_0000_0000int) by (nonlinear_arith);
    }
    div_i128((a as i128) * (b as i128), FP_ONE as i128) as i64
}

/// The world width of one pixel at the focus plane.
fn fx_div_by_pixels(focal_width: i64, width: u32) -> (r: i64)
    requires
        0 <= focal_width <= 8192 * FP_ONE,
        1 <= width <= 0x8000,
    ensures
        r == fxdiv(focal_width as int, width as int * FP_ONE as int),
        0 <= r <= 8192 * FP_ONE,
{
    proof {
        lemma_fxdiv_unit_bound(
            focal_width as int,
            width as int * FP_ONE as int,
            8192 * FP_ONE as int,
        );
        lemma_tdiv_bounds(focal_width as int * FP_ONE as int, width as int * FP_ONE as int);
    }
    div_i128(
        (focal_width as i128) * (FP_ONE as i128),
        (width as i128) * (FP_ONE as i128),
    ) as i64
}

/// The deterministic ray of a camera, a pixel, and a lens point.
pub open spec fn pixel_ray_spec(c: Camera, x: int, y: int, lens: V3) -> Ray {
    let f = FP_ONE as int;
    let focus_dist: int = match c.focus {
        Focus::AutoFocus => 2 * f,
        Focus::Distance(d) => if d < 0 {
            0
        } else if d > 64 * f {
            64 * f
        } else {
            d as int
        },
    };
    let focal_width = fxmul(2 * c.tan_half_fov, focus_dist);
    let scale = fxdiv(focal_width, c.width as int * f);
    let right = v3_scale(scale, c.right.m());
    let up = v3_scale(-scale, c.up.m());
    let fwd_f = v3_scale(focus_dist, c.direction.m());
    let center = V3 {
        x: clamp_coord(c.position.m().x + fwd_f.x),
        y: clamp_coord(c.position.m().y + fwd_f.y),
        z: clamp_coord(c.position.m().z + fwd_f.z),
    };
    let dx = x - (c.width as int / 2) * f;
    let dy = y - (c.height as int / 2) * f;
    let px = V3 {
        x: clamp_coord(center.x + fxmul(dx, right.x) + fxmul(dy, up.x)),
        y: clamp_coord(center.y + fxmul(dx, right.y) + fxmul(dy, up.y)),
        z: clamp_coord(center.z + fxmul(dx, right.z) + fxmul(dy, up.z)),
    };
    let lr = (c.aperture as int) / 2;
    let lens_pos = v3_scale_by(lens, lr);
    let start = V3 {
        x: clamp_coord(c.position.m().x + lens_pos.x),
        y: clamp_coord(c.position.m().y + lens_pos.y),
        z: clamp_coord(c.position.m().z + lens_pos.z),
    };
    let dir = V3 {
        x: clamp_coord(px.x - start.x),
        y: clamp_coord(px.y - start.y),
        z: clamp_coord(px.z - start.z),
    };
    Ray {
        origin: Vec3 { x: start.x as i64, y: start.y as i64, z: start.z as i64 },
        direction: Vec3 { x: dir.x as i64, y: dir.y as i64, z: dir.z as i64 },
    }
}

/// The lens point scaled by the lens radius (factor on the right).
pub open spec fn v3_scale_by(v: V3, s: int) -> V3 {
    V3 { x: fxmul(v.x, s), y: fxmul(v.y, s), z: fxmul(v.z, s) }
}

use crate::vec3::v3_scale;

/// Bounds for the scaled camera frame.
proof fn lemma_scaled_frame_bounds(c: Camera, scale: int, focus_dist: int)
    requires
        camera_wf(c),
        0 <= scale <= 8192 * FP_ONE as int,
        0 <= focus_dist <= 64 * FP_ONE as int,
    ensures
        i64::MIN <= fxmul(scale, c.right.m().x) <= i64::MAX,
        i64::MIN <= fxmul(scale, c.right.m().y) <= i64::MAX,
        i64::MIN <= fxmul(scale, c.right.m().z) <= i64::MAX,
        i64::MIN <= fxmul(-scale, c.up.m().x) <= i64::MAX,
        i64::MIN <= fxmul(-scale, c.up.m().y) <= i64::MAX,
        i64::MIN <= fxmul(-scale, c.up.m().z) <= i64::MAX,
        i64::MIN <= fxmul(focus_dist, c.direction.m().x) <= i64::MAX,
        i64::MIN <= fxmul(focus_dist, c.direction.m().y) <= i64::MAX,
        i64::MIN <= fxmul(focus_dist, c.direction.m().z) <= i64::MAX,
        v3_bounded(v3_scale(scale, c.right.m()), 0x4000_0000),
        v3_bounded(v3_scale(-scale, c.up.m()), 0x4000_0000),
        v3_bounded(v3_scale(focus_dist, c.direction.m()), 128 * FP_ONE as int),
{
    let f = FP_ONE as int;
    lemma_fxmul_range(scale, c.right.m().x, 8192 * f, 2 * f);
    lemma_fxmul_range(scale, c.right.m().y, 8192 * f, 2 * f);
    lemma_fxmul_range(scale, c.right.m().z, 8192 * f, 2 * f);
    lemma_fxmul_range(-scale, c.up.m().x, 8192 * f, 2 * f);
    lemma_fxmul_range(-scale, c.up.m().y, 8192 * f, 2 * f);
    lemma_fxmul_range(-scale, c.up.m().z, 8192 * f, 2 * f);
    lemma_fxmul_range(focus_dist, c.direction.m().x, 64 * f, 2 * f);
    lemma_fxmul_range(focus_dist, c.direction.m().y, 64 * f, 2 * f);
    lemma_fxmul_range(focus_dist, c.direction.m().z, 64 * f, 2 * f);
    assert((8192 * (FP_ONE as int)) * (2 * (FP_ONE as int)) / (FP_ONE as int)
        <= 0x4000_0000int) by (nonlinear_arith);
    assert((64 * (FP_ONE as int)) * (2 * (FP_ONE as int)) / (FP_ONE as int) == 128 * (
    FP_ONE as int)) by (nonlinear_arith);
}

/// Bounds for the pixel offsets along the scaled frame.
proof fn lemma_pixel_offset_bounds(c: Camera, scale: int, dx: int, dy: int)
    requires
        camera_wf(c),
        -0x8000 * FP_ONE as int <= dx <= 0x8000 * FP_ONE as int,
        -0x8000 * FP_ONE as int <= dy <= 0x8000 * FP_ONE as int,
    ensures
        -0x2_0000_0000 <= dx <= 0x2_0000_0000,
        -0x2_0000_0000 <= dy <= 0x2_0000_0000,
{
}

} // verus!
