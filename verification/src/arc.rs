//! A filtered circle: a joint circle of a capsule chain together with
//! two "rejected normal" directions. Any collision whose outward
//! normal lies in either rejected half-plane is discarded, which
//! carves the correct convex wedge out of each joint circle. At a
//! chain endpoint both rejected normals coincide, admitting the full
//! semicircle facing away from the single neighbor.

use vstd::prelude::*;

use crate::circle::Circle;
use crate::fx32::Fx32;
use crate::fx32::fxdiv;
use crate::fx32::iabs;
use crate::fx32::lemma_tdiv_facts;
use crate::fx32::lemma_tdiv_le;
use crate::raytraceresult::Ray2TraceResult;
use crate::raytraceresult::result_wf;
use crate::vec2::Vec2;
use crate::vec2::Vec2Small;
use crate::vec2::dot_spec;
use crate::vec2::len_spec;
use crate::vec2::lensq_spec;
use crate::wide_line::in_world_v;
use crate::wide_line::radius_ok;
use crate::wide_line::scaled_diff;
use crate::wide_line::lemma_scale_is_shrink;
use crate::wide_line::lemma_shrunk_lensq;

verus! {

/// A truncated circle: the joint circle plus the two rejected-normal
/// directions toward its chain neighbors.
#[derive(Clone, Copy, Debug)]
pub struct Arc {
    pub circle: Circle,
    pub rejected_normals: [Vec2Small; 2],
}

/// The direction from the circle's center toward a neighbor point,
/// shrunk and normalized exactly as construction computes it.
pub open spec fn neighbor_normal_spec(center: Vec2, neighbor: Vec2) -> Vec2 {
    let sv = scaled_diff(center, neighbor);
    Vec2 {
        x: (Fx32 { x: fxdiv(sv.x.x as int, len_spec(sv)) as i32 }),
        y: (Fx32 { x: fxdiv(sv.y.x as int, len_spec(sv)) as i32 }),
    }
}

impl Arc {
    /// Well-formed: the circle is in range and both rejected normals
    /// carry their boundedness tags truthfully.
    pub open spec fn wf(self) -> bool {
        &&& in_world_v(self.circle.center)
        &&& radius_ok(self.circle.radius.x as int)
        &&& self.rejected_normals[0].inv()
        &&& self.rejected_normals[1].inv()
    }

    /// An endpoint arc: both rejected normals point at the one neighbor.
    pub fn new1(circle: &Circle, neighbor: Vec2) -> (r: Arc)
        requires
            in_world_v(circle.center),
            radius_ok(circle.radius.x as int),
            in_world_v(neighbor),
            iabs(neighbor.x.x - circle.center.x.x) >= 65536 || iabs(
                neighbor.y.x - circle.center.y.x,
            ) >= 65536,
        ensures
            r.circle == *circle,
            r.rejected_normals[0].sbig() == neighbor_normal_spec(circle.center, neighbor),
            r.rejected_normals[1].sbig() == neighbor_normal_spec(circle.center, neighbor),
            r.wf(),
    {
        Arc::new2(circle, neighbor, neighbor)
    }

    /// An interior arc: one rejected normal toward each neighbor.
    pub fn new2(circle: &Circle, neighbor0: Vec2, neighbor1: Vec2) -> (r: Arc)
        requires
            in_world_v(circle.center),
            radius_ok(circle.radius.x as int),
            in_world_v(neighbor0),
            in_world_v(neighbor1),
            iabs(neighbor0.x.x - circle.center.x.x) >= 65536 || iabs(
                neighbor0.y.x - circle.center.y.x,
            ) >= 65536,
            iabs(neighbor1.x.x - circle.center.x.x) >= 65536 || iabs(
                neighbor1.y.x - circle.center.y.x,
            ) >= 65536,
        ensures
            r.circle == *circle,
            r.rejected_normals[0].sbig() == neighbor_normal_spec(circle.center, neighbor0),
            r.rejected_normals[1].sbig() == neighbor_normal_spec(circle.center, neighbor1),
            r.wf(),
    {
        let to_0 = shrunk_direction(circle.center, neighbor0);
        let to_1 = shrunk_direction(circle.center, neighbor1);
        Arc { circle: *circle, rejected_normals: [to_0.normalized(), to_1.normalized()] }
    }

    /// True when a contact normal survives both rejected half-planes.
    pub fn filter_normal(&self, v: Vec2Small) -> (r: bool)
        requires
            self.wf(),
            v.inv(),
        ensures
            r == (dot_spec(v.sbig(), self.rejected_normals[0].sbig()) <= 0 && dot_spec(
                v.sbig(),
                self.rejected_normals[1].sbig(),
            ) <= 0),
    {
        let n0 = self.rejected_normals[0];
        let n1 = self.rejected_normals[1];
        proof {
            crate::vec2::lemma_fxmul_bound(
                v.x.x.x as int,
                n0.x.x.x as int,
                0x0002_0000,
                0x0002_0000,
            );
            crate::vec2::lemma_fxmul_bound(
                v.y.x.x as int,
                n0.y.x.x as int,
                0x0002_0000,
                0x0002_0000,
            );
            crate::vec2::lemma_fxmul_bound(
                v.x.x.x as int,
                n1.x.x.x as int,
                0x0002_0000,
                0x0002_0000,
            );
            crate::vec2::lemma_fxmul_bound(
                v.y.x.x as int,
                n1.y.x.x as int,
                0x0002_0000,
                0x0002_0000,
            );
        }
        let d0 = v.to_big().dot(n0.to_big());
        if d0.x > 0 {
            return false;
        }
        let d1 = v.to_big().dot(n1.to_big());
        if d1.x > 0 {
            return false;
        }
        true
    }

    /// Discards a circle-test outcome whose normal lies in a rejected
    /// half-plane, turning it into a miss.
    pub fn filter_collision(&self, input: Ray2TraceResult) -> (r: Ray2TraceResult)
        requires
            self.wf(),
            result_wf(input),
        ensures
            r == filter_collision_spec(*self, input),
    {
        match input {
            Ray2TraceResult::Miss => Ray2TraceResult::Miss,
            Ray2TraceResult::Pop(pos, normal) => {
                if self.filter_normal(normal) {
                    input
                } else {
                    Ray2TraceResult::Miss
                }
            },
            Ray2TraceResult::Hit(t, pos, normal) => {
                if self.filter_normal(normal) {
                    input
                } else {
                    Ray2TraceResult::Miss
                }
            },
        }
    }
}

/// Whether a normal survives the arc's rejected half-planes.
pub open spec fn filter_normal_spec(arc: Arc, v: Vec2Small) -> bool {
    dot_spec(v.sbig(), arc.rejected_normals[0].sbig()) <= 0 && dot_spec(
        v.sbig(),
        arc.rejected_normals[1].sbig(),
    ) <= 0
}

/// The arc filter: a miss stays a miss, and any other outcome survives
/// exactly when its normal survives.
pub open spec fn filter_collision_spec(arc: Arc, input: Ray2TraceResult) -> Ray2TraceResult {
    match input {
        Ray2TraceResult::Miss => Ray2TraceResult::Miss,
        Ray2TraceResult::Pop(pos, normal) => if filter_normal_spec(arc, normal) {
            input
        } else {
            Ray2TraceResult::Miss
        },
        Ray2TraceResult::Hit(t, pos, normal) => if filter_normal_spec(arc, normal) {
            input
        } else {
            Ray2TraceResult::Miss
        },
    }
}

/// The difference `neighbor - center` scaled down by a half word, with
/// its squared length known to be positive.
fn shrunk_direction(center: Vec2, neighbor: Vec2) -> (r: Vec2)
    requires
        in_world_v(center),
        in_world_v(neighbor),
        iabs(neighbor.x.x - center.x.x) >= 65536 || iabs(neighbor.y.x - center.y.x) >= 65536,
    ensures
        r == scaled_diff(center, neighbor),
        lensq_spec(r) >= 1,
        iabs(r.x.x as int) <= 0x0008_0000,
        iabs(r.y.x as int) <= 0x0008_0000,
{
    let diff = neighbor.sub(center);
    proof {
        lemma_scale_is_shrink(diff.x.x as int);
        lemma_scale_is_shrink(diff.y.x as int);
        lemma_tdiv_facts(diff.x.x as int, 256);
        lemma_tdiv_facts(diff.y.x as int, 256);
        lemma_tdiv_le(diff.x.x as int, 256, 0x0008_0000);
        lemma_tdiv_le(diff.y.x as int, 256, 0x0008_0000);
    }
    let scaled = diff.scale(Fx32 { x: 256 });
    proof {
        lemma_shrunk_lensq(diff.x.x as int, diff.y.x as int);
    }
    scaled
}

} // verus!
