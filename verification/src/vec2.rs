//! 2D vectors over the fixed-point scalar.
//!
//! Two concrete vector types: `Vec2` holds plain scalars, `Vec2Small`
//! holds bounded scalars and represents normalized directions. All
//! component arithmetic uses the widened (truncating) strategy, so
//! every contract is an exact statement over raw representations.

use vstd::prelude::*;

use crate::fx32::Fx32;
use crate::fx32::Fx32Small;
use crate::fx32::fxmul;
use crate::fx32::fxdiv;
use crate::fx32::iabs;
use crate::fx32::isqrt_spec;
use crate::fx32::lemma_tdiv_facts;
use crate::fx32::lemma_tdiv_le;
use crate::fx32::lemma_isqrt_bracket;
use crate::fx32::lemma_isqrt_unique;
use crate::fx32::lemma_isqrt_mono;

verus! {

/// A pair of plain fixed-point scalars.
#[derive(Clone, Copy, PartialEq, Eq, Structural, Debug)]
pub struct Vec2 {
    pub x: Fx32,
    pub y: Fx32,
}

/// A pair of bounded scalars: a normalized direction or normal.
#[derive(Clone, Copy, PartialEq, Eq, Structural, Debug)]
pub struct Vec2Small {
    pub x: Fx32Small,
    pub y: Fx32Small,
}

/// Bound on the product of two magnitudes, pushed through the scaling.
pub proof fn lemma_fxmul_bound(a: int, b: int, aa: int, bb: int)
    requires
        iabs(a) <= aa,
        iabs(b) <= bb,
    ensures
        iabs(fxmul(a, b)) * 65536 <= aa * bb,
        a >= 0 && b >= 0 ==> fxmul(a, b) >= 0,
{
    assert(iabs(a * b) == iabs(a) * iabs(b)) by (nonlinear_arith);
    assert(iabs(a) * iabs(b) <= aa * bb) by (nonlinear_arith)
        requires
            0 <= iabs(a) <= aa,
            0 <= iabs(b) <= bb,
    ;
    lemma_tdiv_facts(a * b, 65536);
    let q = iabs(fxmul(a, b));
    assert(q * 65536 <= iabs(a * b));
    if a >= 0 && b >= 0 {
        assert(a * b >= 0) by (nonlinear_arith)
            requires
                a >= 0,
                b >= 0,
        ;
    }
}

/// The widened dot product of two plain vectors, over raw values.
pub open spec fn dot_spec(a: Vec2, b: Vec2) -> int {
    fxmul(a.x.x as int, b.x.x as int) + fxmul(a.y.x as int, b.y.x as int)
}

/// The squared length of a plain vector, over raw values.
pub open spec fn lensq_spec(v: Vec2) -> int {
    dot_spec(v, v)
}

/// The computed length: widened square root of the squared length.
pub open spec fn len_spec(v: Vec2) -> int {
    isqrt_spec(lensq_spec(v) * 65536)
}

impl Vec2Small {
    /// Both components carry the bounded-scalar tag truthfully.
    pub open spec fn inv(self) -> bool {
        self.x.inv() && self.y.inv()
    }

    /// The same direction as a plain vector, in specifications.
    pub open spec fn sbig(self) -> Vec2 {
        Vec2 { x: self.x.x, y: self.y.x }
    }

    /// The same direction as a plain vector.
    pub fn to_big(self) -> (r: Vec2)
        ensures
            r == self.sbig(),
    {
        Vec2 { x: self.x.x, y: self.y.x }
    }

    /// Componentwise negation; stays bounded.
    pub fn neg(self) -> (r: Vec2Small)
        requires
            self.inv(),
        ensures
            r.sbig().x.x == -self.sbig().x.x,
            r.sbig().y.x == -self.sbig().y.x,
            r.inv(),
    {
        Vec2Small {
            x: Fx32Small { x: Fx32 { x: -self.x.x.x } },
            y: Fx32Small { x: Fx32 { x: -self.y.x.x } },
        }
    }

    /// Rotation by +90 degrees; stays bounded.
    pub fn cross(self) -> (r: Vec2Small)
        requires
            self.inv(),
        ensures
            r.sbig().x.x == -self.sbig().y.x,
            r.sbig().y.x == self.sbig().x.x,
            r.inv(),
    {
        Vec2Small { x: Fx32Small { x: Fx32 { x: -self.y.x.x } }, y: self.x }
    }
}

impl Vec2 {
    /// Exact componentwise sum.
    pub fn add(self, o: Vec2) -> (r: Vec2)
        requires
            -0x8000_0000 <= self.x.x + o.x.x <= 0x7fff_ffff,
            -0x8000_0000 <= self.y.x + o.y.x <= 0x7fff_ffff,
        ensures
            r.x.x == self.x.x + o.x.x,
            r.y.x == self.y.x + o.y.x,
    {
        Vec2 { x: self.x.add(o.x), y: self.y.add(o.y) }
    }

    /// Exact componentwise difference.
    pub fn sub(self, o: Vec2) -> (r: Vec2)
        requires
            -0x8000_0000 <= self.x.x - o.x.x <= 0x7fff_ffff,
            -0x8000_0000 <= self.y.x - o.y.x <= 0x7fff_ffff,
        ensures
            r.x.x == self.x.x - o.x.x,
            r.y.x == self.y.x - o.y.x,
    {
        Vec2 { x: self.x.sub(o.x), y: self.y.sub(o.y) }
    }

    /// Exact componentwise negation.
    pub fn neg(self) -> (r: Vec2)
        requires
            self.x.x != i32::MIN,
            self.y.x != i32::MIN,
        ensures
            r.x.x == -self.x.x,
            r.y.x == -self.y.x,
    {
        Vec2 { x: self.x.neg(), y: self.y.neg() }
    }

    /// Scale by a scalar with the widened multiply, componentwise.
    pub fn scale(self, s: Fx32) -> (r: Vec2)
        requires
            -0x8000_0000 <= fxmul(self.x.x as int, s.x as int) <= 0x7fff_ffff,
            -0x8000_0000 <= fxmul(self.y.x as int, s.x as int) <= 0x7fff_ffff,
        ensures
            r.x.x == fxmul(self.x.x as int, s.x as int),
            r.y.x == fxmul(self.y.x as int, s.x as int),
    {
        Vec2 { x: self.x.mul_64(s), y: self.y.mul_64(s) }
    }

    /// Widened dot product.
    pub fn dot(self, o: Vec2) -> (r: Fx32)
        requires
            -0x4000_0000 <= fxmul(self.x.x as int, o.x.x as int) <= 0x3fff_ffff,
            -0x4000_0000 <= fxmul(self.y.x as int, o.y.x as int) <= 0x3fff_ffff,
        ensures
            r.x == dot_spec(self, o),
    {
        let xx = self.x.mul_64(o.x);
        let yy = self.y.mul_64(o.y);
        xx.add(yy)
    }

    /// Widened dot product against a normalized direction.
    pub fn dot_sm(self, n: Vec2Small) -> (r: Fx32)
        requires
            n.inv(),
            iabs(self.x.x as int) <= 0x0D00_0000,
            iabs(self.y.x as int) <= 0x0D00_0000,
        ensures
            r.x == dot_spec(self, n.sbig()),
            iabs(r.x as int) <= 0x3400_0000,
    {
        proof {
            lemma_fxmul_bound(self.x.x as int, n.x.x.x as int, 0x0D00_0000, 0x0002_0000);
            lemma_fxmul_bound(self.y.x as int, n.y.x.x as int, 0x0D00_0000, 0x0002_0000);
        }
        self.dot(n.to_big())
    }

    /// Widened squared length; never negative.
    pub fn length_sq(self) -> (r: Fx32)
        requires
            iabs(self.x.x as int) <= 0x007f_ffff,
            iabs(self.y.x as int) <= 0x007f_ffff,
        ensures
            r.x == lensq_spec(self),
            r.x >= 0,
    {
        proof {
            lemma_fxmul_bound(self.x.x as int, self.x.x as int, 0x007f_ffff, 0x007f_ffff);
            lemma_fxmul_bound(self.y.x as int, self.y.x as int, 0x007f_ffff, 0x007f_ffff);
            lemma_sq_nonneg(self.x.x as int);
            lemma_sq_nonneg(self.y.x as int);
        }
        self.dot(self)
    }

    /// Widened length: square root of the squared length.
    pub fn length(self) -> (r: Fx32)
        requires
            iabs(self.x.x as int) <= 0x007f_ffff,
            iabs(self.y.x as int) <= 0x007f_ffff,
        ensures
            r.x == len_spec(self),
            r.x >= 0,
    {
        let sq = self.length_sq();
        sq.sqrt_64()
    }

    /// Rotation by +90 degrees.
    pub fn cross(self) -> (r: Vec2)
        requires
            self.y.x != i32::MIN,
        ensures
            r.x.x == -self.y.x,
            r.y.x == self.x.x,
    {
        Vec2 { x: self.y.neg(), y: self.x }
    }

    /// Tags both components as bounded.
    pub fn to_small(self) -> (r: Vec2Small)
        requires
            iabs(self.x.x as int) < 131072,
            iabs(self.y.x as int) < 131072,
        ensures
            r.sbig() == self,
            r.inv(),
    {
        Vec2Small { x: self.x.to_small(), y: self.y.to_small() }
    }
}

/// The reflection of `v` about the normalized direction `n`:
/// `v - 2 (v . n) n`, computed with the widened strategy.
pub open spec fn reflect_spec(v: Vec2, n: Vec2Small) -> Vec2 {
    let d = dot_spec(v, n.sbig());
    Vec2 {
        x: (Fx32 { x: (v.x.x - fxmul(n.x.x.x as int, 2 * d)) as i32 }),
        y: (Fx32 { x: (v.y.x - fxmul(n.y.x.x as int, 2 * d)) as i32 }),
    }
}

/// The restitution-scaled reflection of `v` about `n`: the normal
/// component is flipped and kept only to the fraction `res`, so the
/// outgoing normal speed is `res` times the incoming one.
pub open spec fn reflect_res_spec(v: Vec2, n: Vec2Small, res: Fx32Small) -> Vec2 {
    let d = dot_spec(v, n.sbig());
    let k = d + fxmul(d, res.x.x as int);
    Vec2 {
        x: (Fx32 { x: (v.x.x - fxmul(n.x.x.x as int, k)) as i32 }),
        y: (Fx32 { x: (v.y.x - fxmul(n.y.x.x as int, k)) as i32 }),
    }
}

/// A component of a vector is less than twice the vector's computed
/// length, provided the squared length does not vanish.
pub proof fn lemma_norm_comp_bound(c: int, ls: int, l: int)
    requires
        ls >= 1,
        l >= 256,
        ls * 65536 < (l + 1) * (l + 1),
        fxmul(c, c) <= ls,
    ensures
        iabs(c) < 2 * l,
{
    lemma_tdiv_facts(c * c, 65536);
    lemma_sq_nonneg(c);
    assert(iabs(c * c) == c * c);
    assert(c * c < (fxmul(c, c) + 1) * 65536);
    assert(iabs(c) < 2 * l) by (nonlinear_arith)
        requires
            c * c < (fxmul(c, c) + 1) * 65536,
            fxmul(c, c) <= ls,
            ls * 65536 < (l + 1) * (l + 1),
            l >= 256,
    ;
}

impl Vec2 {
    /// Scales to a bounded (approximately unit) direction by dividing
    /// each component by the computed length.
    pub fn normalized(self) -> (r: Vec2Small)
        requires
            iabs(self.x.x as int) <= 0x007f_ffff,
            iabs(self.y.x as int) <= 0x007f_ffff,
            lensq_spec(self) >= 1,
        ensures
            r.sbig().x.x == fxdiv(self.x.x as int, len_spec(self)),
            r.sbig().y.x == fxdiv(self.y.x as int, len_spec(self)),
            r.inv(),
    {
        let l = self.length();
        proof {
            let ls = lensq_spec(self);
            lemma_isqrt_mono(65536, ls * 65536);
            lemma_isqrt_unique(65536, 256);
            lemma_isqrt_bracket(ls * 65536);
            lemma_sq_nonneg(self.x.x as int);
            lemma_sq_nonneg(self.y.x as int);
            lemma_norm_comp_bound(self.x.x as int, ls, l.x as int);
            lemma_norm_comp_bound(self.y.x as int, ls, l.x as int);
            assert(iabs(self.x.x as int * 65536) == iabs(self.x.x as int) * 65536)
                by (nonlinear_arith);
            assert(iabs(self.y.x as int * 65536) == iabs(self.y.x as int) * 65536)
                by (nonlinear_arith);
            assert(iabs(self.x.x as int) * 65536 < 131072 * (l.x as int)) by (nonlinear_arith)
                requires
                    iabs(self.x.x as int) < 2 * (l.x as int),
            ;
            assert(iabs(self.y.x as int) * 65536 < 131072 * (l.x as int)) by (nonlinear_arith)
                requires
                    iabs(self.y.x as int) < 2 * (l.x as int),
            ;
            lemma_tdiv_le(self.x.x as int * 65536, l.x as int, 131071);
            lemma_tdiv_le(self.y.x as int * 65536, l.x as int, 131071);
        }
        let nx = self.x.div_64(l);
        let ny = self.y.div_64(l);
        Vec2 { x: nx, y: ny }.to_small()
    }

    /// Reflects about a normalized direction: `v - 2 (v . n) n`.
    pub fn reflect(self, n: Vec2Small) -> (r: Vec2)
        requires
            n.inv(),
            iabs(self.x.x as int) <= 0x0100_0000,
            iabs(self.y.x as int) <= 0x0100_0000,
        ensures
            r == reflect_spec(self, n),
    {
        let proj = self.dot_sm(n);
        proof {
            lemma_fxmul_bound(self.x.x as int, n.x.x.x as int, 0x0100_0000, 0x0002_0000);
            lemma_fxmul_bound(self.y.x as int, n.y.x.x as int, 0x0100_0000, 0x0002_0000);
            lemma_fxmul_bound(n.x.x.x as int, 2 * proj.x as int, 0x0002_0000, 0x1000_0000);
            lemma_fxmul_bound(n.y.x.x as int, 2 * proj.x as int, 0x0002_0000, 0x1000_0000);
        }
        let double_proj = proj.add(proj);
        let ox = Fx32::mul_64(Fx32 { x: n.x.x.x }, double_proj);
        let oy = Fx32::mul_64(Fx32 { x: n.y.x.x }, double_proj);
        Vec2 { x: self.x.sub(ox), y: self.y.sub(oy) }
    }

    /// Reflects about a normalized direction, scaling the outgoing
    /// normal component by the restitution fraction `res`.
    pub fn reflect_res(self, n: Vec2Small, res: Fx32Small) -> (r: Vec2)
        requires
            n.inv(),
            res.inv(),
            iabs(self.x.x as int) <= 0x0100_0000,
            iabs(self.y.x as int) <= 0x0100_0000,
        ensures
            r == reflect_res_spec(self, n, res),
    {
        let proj = self.dot_sm(n);
        proof {
            lemma_fxmul_bound(self.x.x as int, n.x.x.x as int, 0x0100_0000, 0x0002_0000);
            lemma_fxmul_bound(self.y.x as int, n.y.x.x as int, 0x0100_0000, 0x0002_0000);
            lemma_fxmul_bound(proj.x as int, res.x.x as int, 0x0800_0000, 0x0002_0000);
        }
        let bounce = proj.mul_64(Fx32 { x: res.x.x });
        let k = proj.add(bounce);
        proof {
            lemma_fxmul_bound(n.x.x.x as int, k.x as int, 0x0002_0000, 0x2800_0000);
            lemma_fxmul_bound(n.y.x.x as int, k.x as int, 0x0002_0000, 0x2800_0000);
        }
        let ox = Fx32::mul_64(Fx32 { x: n.x.x.x }, k);
        let oy = Fx32::mul_64(Fx32 { x: n.y.x.x }, k);
        Vec2 { x: self.x.sub(ox), y: self.y.sub(oy) }
    }
}

/// A nonzero computed length is at least one raw half-word, and the
/// squared length at least one raw step.
pub proof fn lemma_len_pos(v: Vec2)
    requires
        iabs(v.x.x as int) <= 0x007f_ffff,
        iabs(v.y.x as int) <= 0x007f_ffff,
        len_spec(v) != 0,
    ensures
        lensq_spec(v) >= 1,
        len_spec(v) >= 256,
{
    lemma_sq_nonneg(v.x.x as int);
    lemma_sq_nonneg(v.y.x as int);
    let ls = lensq_spec(v);
    if ls == 0 {
        lemma_isqrt_unique(0, 0);
        assert(len_spec(v) == 0);
    }
    lemma_isqrt_mono(65536, ls * 65536);
    lemma_isqrt_unique(65536, 256);
}

/// No component of a vector exceeds the computed length by more than
/// one raw half-word.
pub proof fn lemma_comp_le_len(v: Vec2)
    requires
        iabs(v.x.x as int) <= 0x007f_ffff,
        iabs(v.y.x as int) <= 0x007f_ffff,
    ensures
        iabs(v.x.x as int) <= len_spec(v) + 256,
        iabs(v.y.x as int) <= len_spec(v) + 256,
{
    let ls = lensq_spec(v);
    let l = len_spec(v);
    lemma_sq_nonneg(v.x.x as int);
    lemma_sq_nonneg(v.y.x as int);
    lemma_isqrt_bracket(ls * 65536);
    lemma_comp_le_len_one(v.x.x as int, ls, l);
    lemma_comp_le_len_one(v.y.x as int, ls, l);
}

/// One-component version of the bound above.
proof fn lemma_comp_le_len_one(c: int, ls: int, l: int)
    requires
        fxmul(c, c) <= ls,
        l >= 0,
        ls * 65536 < (l + 1) * (l + 1),
    ensures
        iabs(c) <= l + 256,
{
    lemma_tdiv_facts(c * c, 65536);
    lemma_sq_nonneg(c);
    assert(c * c < (fxmul(c, c) + 1) * 65536);
    assert(iabs(c) <= l + 256) by (nonlinear_arith)
        requires
            c * c < (fxmul(c, c) + 1) * 65536,
            fxmul(c, c) <= ls,
            ls * 65536 < (l + 1) * (l + 1),
            l >= 0,
    ;
}

/// Law: reflecting about an exactly-unit normal flips the normal
/// component of the dot product, up to the representation's rounding:
/// the outgoing projection onto the normal is the negated incoming
/// one, within six raw steps.
pub proof fn lemma_reflect_flips_normal(v: Vec2, n: Vec2Small)
    requires
        n.inv(),
        (n.sbig().x.x as int) * (n.sbig().x.x as int) + (n.sbig().y.x as int) * (
        n.sbig().y.x as int) == 65536 * 65536,
        iabs(v.x.x as int) <= 0x0100_0000,
        iabs(v.y.x as int) <= 0x0100_0000,
    ensures
        iabs(dot_spec(reflect_spec(v, n), n.sbig()) + dot_spec(v, n.sbig())) <= 6,
{
    let vx = v.x.x as int;
    let vy = v.y.x as int;
    let nx = n.sbig().x.x as int;
    let ny = n.sbig().y.x as int;
    assert(iabs(nx) <= 65536 && iabs(ny) <= 65536) by (nonlinear_arith)
        requires
            nx * nx + ny * ny == 65536 * 65536,
    ;
    let d = dot_spec(v, n.sbig());
    let fx = fxmul(nx, 2 * d);
    let fy = fxmul(ny, 2 * d);
    let rx = vx - fx;
    let ry = vy - fy;
    crate::fx32::lemma_tdiv_near(vx * nx);
    crate::fx32::lemma_tdiv_near(vy * ny);
    crate::fx32::lemma_tdiv_near(nx * (2 * d));
    crate::fx32::lemma_tdiv_near(ny * (2 * d));
    crate::fx32::lemma_tdiv_near(rx * nx);
    crate::fx32::lemma_tdiv_near(ry * ny);
    let ea1 = 65536 * fxmul(vx, nx) - vx * nx;
    let ea2 = 65536 * fxmul(vy, ny) - vy * ny;
    let e1 = 65536 * fx - nx * (2 * d);
    let e2 = 65536 * fy - ny * (2 * d);
    let e41 = 65536 * fxmul(rx, nx) - rx * nx;
    let e42 = 65536 * fxmul(ry, ny) - ry * ny;
    // The cast in `reflect_spec` is the identity on these components.
    lemma_fxmul_bound(vx, nx, 0x0100_0000, 65536);
    lemma_fxmul_bound(vy, ny, 0x0100_0000, 65536);
    lemma_fxmul_bound(nx, 2 * d, 65536, 0x0900_0000);
    lemma_fxmul_bound(ny, 2 * d, 65536, 0x0900_0000);
    assert(iabs(2 * d) <= 0x0900_0000);
    assert(iabs(fx) <= 0x0900_0000 && iabs(fy) <= 0x0900_0000);
    assert(reflect_spec(v, n).x.x as int == rx);
    assert(reflect_spec(v, n).y.x as int == ry);
    let d2 = dot_spec(reflect_spec(v, n), n.sbig());
    assert(d2 == fxmul(rx, nx) + fxmul(ry, ny));
    // Distribute the reflected components over the normal.
    assert(rx * nx == vx * nx - fx * nx) by (nonlinear_arith)
        requires
            rx == vx - fx,
    ;
    assert(ry * ny == vy * ny - fy * ny) by (nonlinear_arith)
        requires
            ry == vy - fy,
    ;
    // Push the offset scaling through the products with the normal.
    assert(65536 * (fx * nx) == (2 * d) * (nx * nx) + e1 * nx) by (nonlinear_arith)
        requires
            65536 * fx == nx * (2 * d) + e1,
    ;
    assert(65536 * (fy * ny) == (2 * d) * (ny * ny) + e2 * ny) by (nonlinear_arith)
        requires
            65536 * fy == ny * (2 * d) + e2,
    ;
    // The unit normal turns the squared terms into the plain scale.
    assert((2 * d) * (nx * nx) + (2 * d) * (ny * ny) == 2 * d * 65536 * 65536)
        by (nonlinear_arith)
        requires
            nx * nx + ny * ny == 65536 * 65536,
    ;
    assert(65536 * ((rx * nx) + (ry * ny)) == 65536 * ((vx * nx) + (vy * ny)) - 2 * d * 65536
        * 65536 - (e1 * nx + e2 * ny));
    assert(65536 * d == (vx * nx) + (vy * ny) + ea1 + ea2);
    assert(65536 * d2 == (rx * nx) + (ry * ny) + e41 + e42);
    assert(65536 * 65536 * (d2 + d) == -65536 * (ea1 + ea2) - (e1 * nx + e2 * ny) + 65536 * (e41
        + e42));
    assert(iabs(e1 * nx) <= 65535 * 65536 && iabs(e2 * ny) <= 65535 * 65536)
        by (nonlinear_arith)
        requires
            iabs(e1) <= 65535,
            iabs(e2) <= 65535,
            iabs(nx) <= 65536,
            iabs(ny) <= 65536,
    ;
    assert(iabs(d2 + d) <= 6) by (nonlinear_arith)
        requires
            65536 * 65536 * (d2 + d) == -65536 * (ea1 + ea2) - (e1 * nx + e2 * ny) + 65536 * (
            e41 + e42),
            iabs(ea1) <= 65535,
            iabs(ea2) <= 65535,
            iabs(e41) <= 65535,
            iabs(e42) <= 65535,
            iabs(e1 * nx) <= 65535 * 65536,
            iabs(e2 * ny) <= 65535 * 65536,
    ;
}

/// A square over the integers is never negative.
pub proof fn lemma_sq_nonneg(a: int)
    ensures
        fxmul(a, a) >= 0,
        a * a >= 0,
{
    assert(a * a >= 0) by (nonlinear_arith);
    lemma_tdiv_facts(a * a, 65536);
}

} // verus!
