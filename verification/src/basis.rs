//! An orthonormal frame aligned with a ray, used to reduce the
//! swept-circle test to a one-dimensional problem along the ray.

use vstd::prelude::*;

use crate::fx32::Fx32;
use crate::fx32::fxdiv;
use crate::fx32::fxmul;
use crate::fx32::iabs;
use crate::fx32::lemma_isqrt_bracket;
use crate::fx32::lemma_tdiv_facts;
use crate::ray2::Ray2;
use crate::vec2::Vec2;
use crate::vec2::Vec2Small;
use crate::vec2::dot_spec;
use crate::vec2::len_spec;
use crate::vec2::lensq_spec;
use crate::vec2::lemma_fxmul_bound;
use crate::vec2::lemma_sq_nonneg;

verus! {

/// The frame's x-axis along the ray's direction and its y-axis the
/// +90-degree rotation of the x-axis.
pub struct Basis2 {
    pub x: Vec2Small,
    pub y: Vec2Small,
}

/// The frame's x-axis: the direction divided by the computed length,
/// or the direction itself verbatim when that length is zero (a
/// documented quirk for degenerate rays, whose components are then
/// all below one raw half-word anyway).
pub open spec fn basis_x_spec(ray: Ray2) -> Vec2 {
    if ray.length.x == 0 {
        ray.dir
    } else {
        Vec2 {
            x: (Fx32 { x: fxdiv(ray.dir.x.x as int, ray.length.x as int) as i32 }),
            y: (Fx32 { x: fxdiv(ray.dir.y.x as int, ray.length.x as int) as i32 }),
        }
    }
}

impl Basis2 {
    /// Both axes carry their boundedness tags truthfully and the
    /// y-axis is the rotated x-axis.
    pub open spec fn wf(self) -> bool {
        &&& self.x.inv()
        &&& self.y.inv()
        &&& self.y.sbig().x.x == -self.x.sbig().y.x
        &&& self.y.sbig().y.x == self.x.sbig().x.x
    }

    /// Builds the ray-space frame.
    pub fn new(ray: &Ray2) -> (r: Basis2)
        requires
            ray.wf(),
        ensures
            r.x.sbig() == basis_x_spec(*ray),
            r.wf(),
    {
        let l = ray.get_length();
        let basis_x: Vec2Small;
        if l.x == 0 {
            proof {
                lemma_zero_length_comps(ray.dir);
            }
            basis_x = ray.get_dir().to_small();
        } else {
            proof {
                let ls = lensq_spec(ray.dir);
                lemma_sq_nonneg(ray.dir.x.x as int);
                lemma_sq_nonneg(ray.dir.y.x as int);
                lemma_tdiv_facts(ray.dir.x.x as int * ray.dir.x.x as int, 65536);
                lemma_tdiv_facts(ray.dir.y.x as int * ray.dir.y.x as int, 65536);
                if ls == 0 {
                    crate::fx32::lemma_isqrt_unique(0, 0);
                    assert(len_spec(ray.dir) == 0);
                }
            }
            basis_x = ray.get_dir().normalized();
        }
        let basis_y = basis_x.cross();
        Basis2 { x: basis_x, y: basis_y }
    }

    /// Transforms a vector into ray space: dot against each axis.
    pub fn to_space(&self, v: &Vec2) -> (r: Vec2)
        requires
            self.wf(),
            iabs(v.x.x as int) <= 0x0D00_0000,
            iabs(v.y.x as int) <= 0x0D00_0000,
        ensures
            r.x.x == dot_spec(*v, self.x.sbig()),
            r.y.x == dot_spec(*v, self.y.sbig()),
            iabs(r.x.x as int) <= 0x3400_0000,
            iabs(r.y.x as int) <= 0x3400_0000,
    {
        Vec2 { x: v.dot_sm(self.x), y: v.dot_sm(self.y) }
    }

    /// Transforms a vector out of ray space: recombine the axes.
    pub fn from_space(&self, v: &Vec2) -> (r: Vec2)
        requires
            self.wf(),
            iabs(v.x.x as int) <= 0x0800_0000,
            iabs(v.y.x as int) <= 0x0800_0000,
        ensures
            r.x.x == fxmul(v.x.x as int, self.x.sbig().x.x as int) + fxmul(
                v.y.x as int,
                self.y.sbig().x.x as int,
            ),
            r.y.x == fxmul(v.x.x as int, self.x.sbig().y.x as int) + fxmul(
                v.y.x as int,
                self.y.sbig().y.x as int,
            ),
    {
        proof {
            lemma_fxmul_bound(v.x.x as int, self.x.x.x.x as int, 0x0800_0000, 0x0002_0000);
            lemma_fxmul_bound(v.y.x as int, self.y.x.x.x as int, 0x0800_0000, 0x0002_0000);
            lemma_fxmul_bound(v.x.x as int, self.x.y.x.x as int, 0x0800_0000, 0x0002_0000);
            lemma_fxmul_bound(v.y.x as int, self.y.y.x.x as int, 0x0800_0000, 0x0002_0000);
        }
        let xx = Fx32::mul_64(Fx32 { x: v.x.x }, Fx32 { x: self.x.x.x.x });
        let xy = Fx32::mul_64(Fx32 { x: v.y.x }, Fx32 { x: self.y.x.x.x });
        let yx = Fx32::mul_64(Fx32 { x: v.x.x }, Fx32 { x: self.x.y.x.x });
        let yy = Fx32::mul_64(Fx32 { x: v.y.x }, Fx32 { x: self.y.y.x.x });
        Vec2 { x: xx.add(xy), y: yx.add(yy) }
    }
}

/// When the computed length of a vector is zero, both components are
/// below one raw half-word, hence well inside the bounded range.
proof fn lemma_zero_length_comps(d: Vec2)
    requires
        iabs(d.x.x as int) <= 0x007f_ffff,
        iabs(d.y.x as int) <= 0x007f_ffff,
        len_spec(d) == 0,
    ensures
        iabs(d.x.x as int) < 256,
        iabs(d.y.x as int) < 256,
{
    let ls = lensq_spec(d);
    lemma_sq_nonneg(d.x.x as int);
    lemma_sq_nonneg(d.y.x as int);
    lemma_isqrt_bracket(ls * 65536);
    assert(ls * 65536 < 1);
    assert(ls == 0) by (nonlinear_arith)
        requires
            ls * 65536 < 1,
            ls >= 0,
    ;
    lemma_tdiv_facts(d.x.x as int * d.x.x as int, 65536);
    lemma_tdiv_facts(d.y.x as int * d.y.x as int, 65536);
    assert(iabs(d.x.x as int * d.x.x as int) < 65536);
    assert(iabs(d.x.x as int) < 256) by (nonlinear_arith)
        requires
            iabs(d.x.x as int * d.x.x as int) < 65536,
    ;
    assert(iabs(d.y.x as int) < 256) by (nonlinear_arith)
        requires
            iabs(d.y.x as int * d.y.x as int) < 65536,
    ;
}

} // verus!
