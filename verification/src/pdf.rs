use vstd::prelude::*;

verus! {

use crate::num::FP_ONE;
use crate::num::fxdiv;
use crate::num::fxmul;
use crate::num::fx_div;
use crate::num::div_i128;
use crate::vec3::Vec3;
use crate::vec3::V3;
use crate::vec3::v3_dot;
use crate::vec3::v3_norm;
use crate::vec3::v3_bounded;
use crate::vec3::in_coord_range;
use crate::onb::ONB;
use crate::onb::onb_of;
use crate::onb::onb_local;
use crate::texture::PI_FX;
use crate::sampler::random_cosine_direction;
use crate::sampler::rand_coin;

/// A probability density over directions that can draw a sample and report
/// the density it assigns to any direction.
#[derive(Clone, Copy, Debug)]
pub struct CosinePDF {
    /// The local frame around the surface normal the density is shaped by.
    pub onb: ONB,
}

/// A half-and-half mixture of two densities.
pub struct MixturePDF {
    pub a: Box<Pdf>,
    pub b: Box<Pdf>,
}

/// The closed set of direction densities the integrator can importance-
/// sample from.
pub enum Pdf {
    Cosine(CosinePDF),
    Mixture(MixturePDF),
}

/// The density's frame stays within the bounds its constructor gives it.
pub open spec fn pdf_wf(p: Pdf) -> bool
    decreases p,
{
    match p {
        Pdf::Cosine(c) => {
            &&& v3_bounded(c.onb.u.m(), 163 * FP_ONE as int)
            &&& v3_bounded(c.onb.v.m(), 163 * FP_ONE as int)
            &&& v3_bounded(c.onb.w.m(), 163 * FP_ONE as int)
        },
        Pdf::Mixture(m) => pdf_wf(*m.a) && pdf_wf(*m.b),
    }
}

/// The density a distribution assigns to a direction: `cos(theta)/pi` over
/// the frame's axis for the cosine density, the average of the two halves
/// for a mixture.
pub open spec fn pdf_value(p: Pdf, dir: V3) -> int
    decreases p,
{
    match p {
        Pdf::Cosine(c) => {
            let cosine = v3_dot(c.onb.w.m(), v3_norm(dir));
            if cosine < 0 {
                0
            } else {
                fxdiv(cosine, PI_FX as int)
            }
        },
        Pdf::Mixture(m) => fxmul(FP_ONE / 2, pdf_value(*m.a, dir)) + fxmul(
            FP_ONE / 2,
            pdf_value(*m.b, dir),
        ),
    }
}

/// A direction this density can draw: for the cosine density, some
/// upper-hemisphere sample carried through its frame; for a mixture, a draw
/// of either half.
pub open spec fn pdf_generates(p: Pdf, d: V3) -> bool
    decreases p,
{
    match p {
        Pdf::Cosine(c) => exists|cd: V3|
            {
                &&& v3_bounded(cd, 2 * FP_ONE as int)
                &&& cd.z >= 0
                &&& d == #[trigger] onb_local(c.onb.u.m(), c.onb.v.m(), c.onb.w.m(), cd)
            },
        Pdf::Mixture(m) => pdf_generates(*m.a, d) || pdf_generates(*m.b, d),
    }
}

impl CosinePDF {
    /// The cosine-weighted density around a surface normal, which should be
    /// close to unit length.
    pub fn new(normal: Vec3) -> (r: CosinePDF)
        requires
            in_coord_range(normal.m()),
            v3_bounded(normal.m(), 2 * FP_ONE as int),
        ensures
            pdf_wf(Pdf::Cosine(r)),
            (r.onb.u.m(), r.onb.v.m(), r.onb.w.m()) == onb_of(normal.m()),
    {
        CosinePDF { onb: ONB::from_w(normal) }
    }
}

impl MixturePDF {
    /// The even mixture of two densities.
    pub fn new(a: Box<Pdf>, b: Box<Pdf>) -> (r: MixturePDF)
        requires
            pdf_wf(*a),
            pdf_wf(*b),
        ensures
            pdf_wf(Pdf::Mixture(r)),
            r.a == a,
            r.b == b,
    {
        MixturePDF { a, b }
    }
}

impl Pdf {
    /// Draws a direction distributed by this density: a cosine-weighted
    /// sample carried into the frame, or a fair choice between the mixture's
    /// halves.
    pub fn generate(&self) -> (r: Vec3)
        requires
            pdf_wf(*self),
        ensures
            v3_bounded(r.m(), 978 * FP_ONE as int),
            in_coord_range(r.m()),
            pdf_generates(*self, r.m()),
        decreases *self,
    {
        match self {
            Pdf::Cosine(c) => {
                let d = random_cosine_direction();
                let r = c.onb.to_local(d);
                proof {
                    assert(978 * FP_ONE as int <= crate::num::COORD_MAX as int);
                    assert(r.m() == onb_local(c.onb.u.m(), c.onb.v.m(), c.onb.w.m(), d.m()));
                }
                r
            },
            Pdf::Mixture(m) => {
                if rand_coin() {
                    m.a.generate()
                } else {
                    m.b.generate()
                }
            },
        }
    }

    /// The density this distribution assigns to a direction, independent of
    /// how the direction was drawn.
    pub fn value_at(&self, p: Vec3) -> (r: i64)
        requires
            pdf_wf(*self),
            in_coord_range(p.m()),
        ensures
            r == pdf_value(*self, p.m()),
            -0x1_0000_0000_0000 <= r <= 0x1_0000_0000_0000,
        decreases *self,
    {
        match self {
            Pdf::Cosine(c) => {
                let pn = p.normalised();
                proof {
                    let f = FP_ONE as int;
                    assert(163 * f <= crate::num::COORD_MAX as int);
                    crate::vec3::lemma_dot_bound(c.onb.w.m(), pn.m(), 163 * f, 2 * f);
                    crate::num::lemma_mul_abs_bound(
                        v3_dot(c.onb.w.m(), pn.m()),
                        f,
                        3 * ((163 * f) * (2 * f)),
                        f,
                    );
                    crate::num::lemma_tdiv_abs_le(
                        v3_dot(c.onb.w.m(), pn.m()) * f,
                        (3 * ((163 * f) * (2 * f))) * f,
                        PI_FX as int,
                    );
                    assert(((3 * ((163 * (FP_ONE as int)) * (2 * (FP_ONE as int)))) * (
                    FP_ONE as int)) / (PI_FX as int) <= 0x1_0000_0000_0000int)
                        by (nonlinear_arith);
                }
                let cosine = c.onb.w.dot(pn);
                if cosine < 0 {
                    0
                } else {
                    fx_div(cosine, PI_FX)
                }
            },
            Pdf::Mixture(m) => {
                let va = m.a.value_at(p);
                let vb = m.b.value_at(p);
                proof {
                    crate::num::lemma_fxmul_range(
                        FP_ONE as int / 2,
                        va as int,
                        FP_ONE as int,
                        0x1_0000_0000_0000,
                    );
                    crate::num::lemma_fxmul_range(
                        FP_ONE as int / 2,
                        vb as int,
                        FP_ONE as int,
                        0x1_0000_0000_0000,
                    );
                    assert(((FP_ONE as int) * 0x1_0000_0000_0000int) / (FP_ONE as int)
                        == 0x1_0000_0000_0000int) by (nonlinear_arith);
                }
                let half = FP_ONE / 2;
                div_i128((half as i128) * (va as i128), FP_ONE as i128) as i64 + div_i128(
                    (half as i128) * (vb as i128),
                    FP_ONE as i128,
                ) as i64
            },
        }
    }
}

} // verus!
