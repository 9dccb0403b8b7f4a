//! A circle obstacle: center and radius.

use vstd::prelude::*;

use crate::fx32::Fx32;
use crate::fx32::iabs;
use crate::vec2::Vec2;
use crate::vec2::len_spec;

verus! {

/// A circular obstacle.
#[derive(Clone, Copy, PartialEq, Eq, Structural, Debug)]
pub struct Circle {
    pub center: Vec2,
    pub radius: Fx32,
}

impl Circle {
    /// Distance from a point to the circle's boundary; negative inside.
    pub fn signed_distance(&self, p: &Vec2) -> (r: Fx32)
        requires
            iabs(p.x.x - self.center.x.x) <= 0x007f_ffff,
            iabs(p.y.x - self.center.y.x) <= 0x007f_ffff,
            self.radius.x >= 0,
        ensures
            r.x == len_spec(
                (Vec2 {
                    x: (Fx32 { x: (p.x.x - self.center.x.x) as i32 }),
                    y: (Fx32 { x: (p.y.x - self.center.y.x) as i32 }),
                }),
            ) - self.radius.x,
    {
        let diff = p.sub(self.center);
        let l = diff.length();
        l.sub(self.radius)
    }
}

} // verus!
