//! A moving-point description: start position plus a displacement
//! whose magnitude encodes the distance traveled this sub-step.

use vstd::prelude::*;

use crate::fx32::Fx32;
use crate::fx32::Fx32Small;
use crate::fx32::fxmul;
use crate::fx32::iabs;
use crate::vec2::Vec2;
use crate::vec2::len_spec;
use crate::vec2::lemma_fxmul_bound;

verus! {

/// A ray: start point, direction (not necessarily unit length) and the
/// cached computed length of the direction. Built only through `new`,
/// which establishes `wf`; collision tests require it.
pub struct Ray2 {
    pub start: Vec2,
    pub dir: Vec2,
    pub length: Fx32,
}

/// The ray `new` builds: the direction's computed length cached.
pub open spec fn ray_of(start: Vec2, dir: Vec2) -> Ray2 {
    Ray2 { start, dir, length: (Fx32 { x: len_spec(dir) as i32 }) }
}

impl Ray2 {
    /// Well-formed: the cached length is the computed length of the
    /// direction, whose components are small enough to square.
    pub open spec fn wf(self) -> bool {
        &&& iabs(self.dir.x.x as int) <= 0x007f_ffff
        &&& iabs(self.dir.y.x as int) <= 0x007f_ffff
        &&& self.length.x == len_spec(self.dir)
    }

    /// Builds a ray, computing and caching the direction's length.
    pub fn new(start: Vec2, dir: Vec2) -> (r: Ray2)
        requires
            iabs(dir.x.x as int) <= 0x007f_ffff,
            iabs(dir.y.x as int) <= 0x007f_ffff,
        ensures
            r.start == start,
            r.dir == dir,
            r == ray_of(start, dir),
            r.wf(),
    {
        let length = dir.length();
        Ray2 { start, dir, length }
    }

    /// The point a fraction `t` of the way along the displacement.
    pub fn at(&self, t: Fx32) -> (r: Vec2)
        requires
            -0x8000_0000 <= fxmul(self.dir.x.x as int, t.x as int) <= 0x7fff_ffff,
            -0x8000_0000 <= fxmul(self.dir.y.x as int, t.x as int) <= 0x7fff_ffff,
            -0x8000_0000 <= self.start.x.x + fxmul(self.dir.x.x as int, t.x as int)
                <= 0x7fff_ffff,
            -0x8000_0000 <= self.start.y.x + fxmul(self.dir.y.x as int, t.x as int)
                <= 0x7fff_ffff,
        ensures
            r.x.x == self.start.x.x + fxmul(self.dir.x.x as int, t.x as int),
            r.y.x == self.start.y.x + fxmul(self.dir.y.x as int, t.x as int),
    {
        self.start.add(self.dir.scale(t))
    }

    /// The cached direction.
    pub fn get_dir(&self) -> (r: Vec2)
        ensures
            r == self.dir,
    {
        self.dir
    }

    /// The cached length.
    pub fn get_length(&self) -> (r: Fx32)
        ensures
            r == self.length,
    {
        self.length
    }

    /// The same start with the displacement scaled by a time fraction
    /// in [0, 1]; the scaled ray's length is recomputed.
    pub fn apply_dt(&self, dt: Fx32Small) -> (r: Ray2)
        requires
            self.wf(),
            0 <= dt.x.x <= 65536,
        ensures
            r.start == self.start,
            r.dir.x.x == fxmul(self.dir.x.x as int, dt.x.x as int),
            r.dir.y.x == fxmul(self.dir.y.x as int, dt.x.x as int),
            r.wf(),
    {
        proof {
            lemma_fxmul_bound(self.dir.x.x as int, dt.x.x as int, 0x007f_ffff, 65536);
            lemma_fxmul_bound(self.dir.y.x as int, dt.x.x as int, 0x007f_ffff, 65536);
        }
        let d = self.dir.scale(Fx32 { x: dt.x.x });
        Ray2::new(self.start, d)
    }
}

} // verus!
