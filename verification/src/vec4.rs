//! 4D vectors over the fixed-point scalar, for color-style payloads.

use vstd::prelude::*;

use crate::fx32::Fx32;
use crate::fx32::fxmul;

verus! {

/// A quadruple of plain fixed-point scalars.
#[derive(Clone, Copy, PartialEq, Eq, Structural, Debug)]
pub struct Vec4 {
    pub x: Fx32,
    pub y: Fx32,
    pub z: Fx32,
    pub w: Fx32,
}

impl Vec4 {
    /// Splats one scalar over the first three lanes; the fourth is zero.
    pub fn new_3(x: Fx32) -> (r: Vec4)
        ensures
            r.x == x,
            r.y == x,
            r.z == x,
            r.w.x == 0,
    {
        Vec4 { x, y: x, z: x, w: Fx32 { x: 0 } }
    }

    /// Exact componentwise sum.
    pub fn add(self, o: Vec4) -> (r: Vec4)
        requires
            -0x8000_0000 <= self.x.x + o.x.x <= 0x7fff_ffff,
            -0x8000_0000 <= self.y.x + o.y.x <= 0x7fff_ffff,
            -0x8000_0000 <= self.z.x + o.z.x <= 0x7fff_ffff,
            -0x8000_0000 <= self.w.x + o.w.x <= 0x7fff_ffff,
        ensures
            r.x.x == self.x.x + o.x.x,
            r.y.x == self.y.x + o.y.x,
            r.z.x == self.z.x + o.z.x,
            r.w.x == self.w.x + o.w.x,
    {
        Vec4 {
            x: self.x.add(o.x),
            y: self.y.add(o.y),
            z: self.z.add(o.z),
            w: self.w.add(o.w),
        }
    }

    /// Exact componentwise difference.
    pub fn sub(self, o: Vec4) -> (r: Vec4)
        requires
            -0x8000_0000 <= self.x.x - o.x.x <= 0x7fff_ffff,
            -0x8000_0000 <= self.y.x - o.y.x <= 0x7fff_ffff,
            -0x8000_0000 <= self.z.x - o.z.x <= 0x7fff_ffff,
            -0x8000_0000 <= self.w.x - o.w.x <= 0x7fff_ffff,
        ensures
            r.x.x == self.x.x - o.x.x,
            r.y.x == self.y.x - o.y.x,
            r.z.x == self.z.x - o.z.x,
            r.w.x == self.w.x - o.w.x,
    {
        Vec4 {
            x: self.x.sub(o.x),
            y: self.y.sub(o.y),
            z: self.z.sub(o.z),
            w: self.w.sub(o.w),
        }
    }

    /// Exact componentwise negation.
    pub fn neg(self) -> (r: Vec4)
        requires
            self.x.x != i32::MIN,
            self.y.x != i32::MIN,
            self.z.x != i32::MIN,
            self.w.x != i32::MIN,
        ensures
            r.x.x == -self.x.x,
            r.y.x == -self.y.x,
            r.z.x == -self.z.x,
            r.w.x == -self.w.x,
    {
        Vec4 { x: self.x.neg(), y: self.y.neg(), z: self.z.neg(), w: self.w.neg() }
    }

    /// Scale all four lanes by a scalar with the widened multiply.
    pub fn scale(self, o: Fx32) -> (r: Vec4)
        requires
            -0x8000_0000 <= fxmul(self.x.x as int, o.x as int) <= 0x7fff_ffff,
            -0x8000_0000 <= fxmul(self.y.x as int, o.x as int) <= 0x7fff_ffff,
            -0x8000_0000 <= fxmul(self.z.x as int, o.x as int) <= 0x7fff_ffff,
            -0x8000_0000 <= fxmul(self.w.x as int, o.x as int) <= 0x7fff_ffff,
        ensures
            r.x.x == fxmul(self.x.x as int, o.x as int),
            r.y.x == fxmul(self.y.x as int, o.x as int),
            r.z.x == fxmul(self.z.x as int, o.x as int),
            r.w.x == fxmul(self.w.x as int, o.x as int),
    {
        Vec4 {
            x: self.x.mul_64(o),
            y: self.y.mul_64(o),
            z: self.z.mul_64(o),
            w: self.w.mul_64(o),
        }
    }
}

} // verus!
