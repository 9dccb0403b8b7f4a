//! A capped line segment: a segment thickened by a radius, with the
//! normalized tangent cached at construction.

use vstd::prelude::*;

use crate::fx32::Fx32;
use crate::fx32::fxdiv;
use crate::fx32::iabs;
use crate::fx32::tdiv;
use crate::fx32::lemma_tdiv_facts;
use crate::vec2::Vec2;
use crate::vec2::Vec2Small;
use crate::vec2::len_spec;
use crate::vec2::lensq_spec;
use crate::vec2::lemma_sq_nonneg;

verus! {

/// Coordinates the collision layer accepts: up to 1024 units either way.
pub open spec fn in_world(c: int) -> bool {
    iabs(c) <= 0x0400_0000
}

/// Both components within the world bound.
pub open spec fn in_world_v(v: Vec2) -> bool {
    in_world(v.x.x as int) && in_world(v.y.x as int)
}

/// Ray starts the collision layer accepts: a wider band than the
/// obstacle world, since a bouncing particle may drift past it.
pub open spec fn start_ok(c: int) -> bool {
    iabs(c) <= 0x0800_0000
}

/// Both components within the ray-start band.
pub open spec fn start_ok_v(v: Vec2) -> bool {
    start_ok(v.x.x as int) && start_ok(v.y.x as int)
}

/// Radii the collision layer accepts: between 1/256 and 32 units.
pub open spec fn radius_ok(r: int) -> bool {
    256 <= r <= 0x0020_0000
}

/// The segment difference scaled down by a half word, the vector whose
/// normalization is cached as the tangent.
pub open spec fn scaled_diff(start: Vec2, end: Vec2) -> Vec2 {
    Vec2 {
        x: (Fx32 { x: tdiv(end.x.x - start.x.x, 256) as i32 }),
        y: (Fx32 { x: tdiv(end.y.x - start.y.x, 256) as i32 }),
    }
}

/// A capped segment ("wide line"): start, end, radius, and the cached
/// normalized tangent.
#[derive(Clone, Copy, PartialEq, Eq, Structural, Debug)]
pub struct WideLine {
    pub start: Vec2,
    pub end: Vec2,
    pub radius: Fx32,
    pub line_tangent: Vec2Small,
}

impl WideLine {
    /// Well-formed: endpoints and radius in range, endpoints at least
    /// one unit apart in some axis, and the cached tangent is exactly
    /// the normalization of the scaled difference.
    pub open spec fn wf(self) -> bool {
        &&& in_world_v(self.start)
        &&& in_world_v(self.end)
        &&& radius_ok(self.radius.x as int)
        &&& lensq_spec(scaled_diff(self.start, self.end)) >= 1
        &&& self.line_tangent.inv()
        &&& self.line_tangent.sbig().x.x == fxdiv(
            scaled_diff(self.start, self.end).x.x as int,
            len_spec(scaled_diff(self.start, self.end)),
        )
        &&& self.line_tangent.sbig().y.x == fxdiv(
            scaled_diff(self.start, self.end).y.x as int,
            len_spec(scaled_diff(self.start, self.end)),
        )
    }

    /// Builds a capped segment, normalizing the tangent once.
    pub fn new(start: Vec2, end: Vec2, radius: Fx32) -> (r: WideLine)
        requires
            in_world_v(start),
            in_world_v(end),
            radius_ok(radius.x as int),
            iabs(end.x.x - start.x.x) >= 65536 || iabs(end.y.x - start.y.x) >= 65536,
        ensures
            r.start == start,
            r.end == end,
            r.radius == radius,
            r.wf(),
    {
        let diff = end.sub(start);
        proof {
            lemma_scale_is_shrink(diff.x.x as int);
            lemma_scale_is_shrink(diff.y.x as int);
            lemma_tdiv_facts(diff.x.x as int, 256);
            lemma_tdiv_facts(diff.y.x as int, 256);
            crate::fx32::lemma_tdiv_le(diff.x.x as int, 256, 0x0008_0000);
            crate::fx32::lemma_tdiv_le(diff.y.x as int, 256, 0x0008_0000);
        }
        let scaled = diff.scale(Fx32 { x: 256 });
        proof {
            lemma_shrunk_lensq(diff.x.x as int, diff.y.x as int);
        }
        let line_tangent = scaled.normalized();
        WideLine { start, end, radius, line_tangent }
    }
}

/// Multiplying by the raw value 256 with the widened strategy divides
/// the raw value by 256, truncating.
pub proof fn lemma_scale_is_shrink(d: int)
    ensures
        crate::fx32::fxmul(d, 256) == tdiv(d, 256),
{
    let p = d * 256;
    assert(iabs(p) == iabs(d) * 256) by (nonlinear_arith)
        requires
            p == d * 256,
    ;
    lemma_tdiv_facts(p, 65536);
    lemma_tdiv_facts(d, 256);
    let q1 = iabs(tdiv(p, 65536));
    let q2 = iabs(tdiv(d, 256));
    assert(q1 * 65536 <= iabs(d) * 256 && iabs(d) * 256 < (q1 + 1) * 65536);
    assert(q2 * 256 <= iabs(d) && iabs(d) < (q2 + 1) * 256);
    assert(q1 == q2) by (nonlinear_arith)
        requires
            q1 >= 0,
            q2 >= 0,
            q1 * 65536 <= iabs(d) * 256,
            iabs(d) * 256 < (q1 + 1) * 65536,
            q2 * 256 <= iabs(d),
            iabs(d) < (q2 + 1) * 256,
    ;
    if d >= 0 {
        assert(p >= 0) by (nonlinear_arith)
            requires
                d >= 0,
                p == d * 256,
        ;
        assert(tdiv(p, 65536) == q1);
        assert(tdiv(d, 256) == q2);
    } else {
        assert(p < 0) by (nonlinear_arith)
            requires
                d < 0,
                p == d * 256,
        ;
        assert(tdiv(p, 65536) == -q1);
        assert(tdiv(d, 256) == -q2);
    }
}

/// A well-formed segment's endpoints are at least one unit apart in
/// some axis: the converse of the construction precondition.
pub proof fn lemma_wf_separated(line: WideLine)
    requires
        line.wf(),
    ensures
        iabs(line.end.x.x - line.start.x.x) >= 65536 || iabs(line.end.y.x - line.start.y.x)
            >= 65536,
{
    let dx = line.end.x.x - line.start.x.x;
    let dy = line.end.y.x - line.start.y.x;
    let sx = tdiv(dx, 256);
    let sy = tdiv(dy, 256);
    lemma_sq_nonneg(sx);
    lemma_sq_nonneg(sy);
    if iabs(dx) < 65536 && iabs(dy) < 65536 {
        lemma_tdiv_facts(dx, 256);
        lemma_tdiv_facts(dy, 256);
        assert(iabs(sx) <= 255 && iabs(sy) <= 255) by (nonlinear_arith)
            requires
                iabs(sx) * 256 <= iabs(dx),
                iabs(sy) * 256 <= iabs(dy),
                iabs(dx) < 65536,
                iabs(dy) < 65536,
                iabs(sx) >= 0,
                iabs(sy) >= 0,
        ;
        lemma_tdiv_facts(sx * sx, 65536);
        lemma_tdiv_facts(sy * sy, 65536);
        assert(tdiv(sx * sx, 65536) == 0 && tdiv(sy * sy, 65536) == 0) by (nonlinear_arith)
            requires
                iabs(sx) <= 255,
                iabs(sy) <= 255,
                iabs(tdiv(sx * sx, 65536)) * 65536 <= iabs(sx * sx),
                iabs(tdiv(sy * sy, 65536)) * 65536 <= iabs(sy * sy),
                sx * sx >= 0,
                sy * sy >= 0,
                tdiv(sx * sx, 65536) >= 0,
                tdiv(sy * sy, 65536) >= 0,
        ;
        assert(lensq_spec(scaled_diff(line.start, line.end)) == 0);
    }
}

/// A difference of at least one unit in some axis keeps the scaled
/// difference's squared length at or above one raw step.
pub proof fn lemma_shrunk_lensq(dx: int, dy: int)
    requires
        iabs(dx) >= 65536 || iabs(dy) >= 65536,
    ensures
        crate::fx32::fxmul(tdiv(dx, 256), tdiv(dx, 256)) + crate::fx32::fxmul(
            tdiv(dy, 256),
            tdiv(dy, 256),
        ) >= 1,
{
    lemma_sq_nonneg(tdiv(dx, 256));
    lemma_sq_nonneg(tdiv(dy, 256));
    if iabs(dx) >= 65536 {
        lemma_shrunk_comp_sq(dx);
    } else {
        lemma_shrunk_comp_sq(dy);
    }
}

/// A component of at least one unit contributes at least one raw step
/// to the scaled squared length.
proof fn lemma_shrunk_comp_sq(d: int)
    requires
        iabs(d) >= 65536,
    ensures
        crate::fx32::fxmul(tdiv(d, 256), tdiv(d, 256)) >= 1,
{
    lemma_tdiv_facts(d, 256);
    let q = iabs(tdiv(d, 256));
    assert(q >= 256) by (nonlinear_arith)
        requires
            iabs(d) < (q + 1) * 256,
            iabs(d) >= 65536,
            q >= 0,
    ;
    let s = tdiv(d, 256);
    assert(s * s == q * q) by (nonlinear_arith)
        requires
            q == iabs(s),
    ;
    assert(q * q >= 65536) by (nonlinear_arith)
        requires
            q >= 256,
    ;
    lemma_tdiv_facts(s * s, 65536);
    let f = iabs(tdiv(s * s, 65536));
    assert(f >= 1) by (nonlinear_arith)
        requires
            s * s >= 65536,
            s * s < (f + 1) * 65536,
            f >= 0,
    ;
    assert(tdiv(s * s, 65536) == f);
}

} // verus!
