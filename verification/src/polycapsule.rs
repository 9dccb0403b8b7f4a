//! A capsule-chain obstacle: an ordered point sequence derived into
//! capped segments between consecutive points and filtered arcs at
//! every point.

use vstd::prelude::*;

use crate::arc::Arc;
use crate::arc::neighbor_normal_spec;
use crate::circle::Circle;
use crate::fx32::Fx32;
use crate::fx32::iabs;
use crate::vec2::Vec2;
use crate::wide_line::WideLine;
use crate::wide_line::in_world_v;
use crate::wide_line::radius_ok;

verus! {

/// Two chain points far enough apart (at least one unit on some axis)
/// to carry a capped segment between them.
pub open spec fn separated(a: Vec2, b: Vec2) -> bool {
    iabs(b.x.x - a.x.x) >= 65536 || iabs(b.y.x - a.y.x) >= 65536
}

/// A chain of points acceptable to `PolyCapsule::new`: at least two of
/// them, all in the world, consecutive ones separated.
pub open spec fn points_wf(points: Seq<Vec2>, radius: int) -> bool {
    &&& points.len() >= 2
    &&& radius_ok(radius)
    &&& forall|i: int| 0 <= i < points.len() ==> in_world_v(#[trigger] points[i])
    &&& forall|i: int| 0 <= i < points.len() - 1 ==> separated(
        #[trigger] points[i],
        points[i + 1],
    )
}

/// A rounded-polyline obstacle: its joint arcs and capped segments.
pub struct PolyCapsule {
    pub arcs: Vec<Arc>,
    pub lines: Vec<WideLine>,
}

impl PolyCapsule {
    /// Every primitive is well-formed.
    pub open spec fn wf(self) -> bool {
        &&& forall|i: int| 0 <= i < self.arcs@.len() ==> (#[trigger] self.arcs@[i]).wf()
        &&& forall|i: int| 0 <= i < self.lines@.len() ==> (#[trigger] self.lines@[i]).wf()
    }

    /// Builds a chain over `points`: one capped segment per consecutive
    /// pair and one arc per point, so N points give exactly N arcs and
    /// N-1 segments. Endpoint arcs face away from their one neighbor;
    /// interior arcs reject both neighbor directions.
    #[verifier::rlimit(100)]
    pub fn new(points: &Vec<Vec2>, radius: Fx32) -> (r: PolyCapsule)
        requires
            points_wf(points@, radius.x as int),
        ensures
            r.wf(),
            r.arcs@.len() == points@.len(),
            r.lines@.len() == points@.len() - 1,
            forall|i: int|
                0 <= i < r.lines@.len() ==> (#[trigger] r.lines@[i]).start == points@[i]
                    && r.lines@[i].end == points@[i + 1] && r.lines@[i].radius == radius,
            forall|i: int|
                0 <= i < r.arcs@.len() ==> (#[trigger] r.arcs@[i]).circle == (Circle {
                    center: points@[i],
                    radius,
                }),
            r.arcs@[0].rejected_normals[0].sbig() == neighbor_normal_spec(
                points@[0],
                points@[1],
            ),
            r.arcs@[0].rejected_normals[1].sbig() == neighbor_normal_spec(
                points@[0],
                points@[1],
            ),
            forall|i: int|
                1 <= i < points@.len() - 1 ==> (#[trigger] r.arcs@[i]).rejected_normals[0].sbig()
                    == neighbor_normal_spec(points@[i], points@[i - 1])
                    && r.arcs@[i].rejected_normals[1].sbig() == neighbor_normal_spec(
                    points@[i],
                    points@[i + 1],
                ),
            r.arcs@[points@.len() - 1].rejected_normals[0].sbig() == neighbor_normal_spec(
                points@[points@.len() - 1],
                points@[points@.len() - 2],
            ),
            r.arcs@[points@.len() - 1].rejected_normals[1].sbig() == neighbor_normal_spec(
                points@[points@.len() - 1],
                points@[points@.len() - 2],
            ),
    {
        let count = points.len();
        let mut lines: Vec<WideLine> = Vec::new();
        let mut i: usize = 1;
        while i < count
            invariant
                points_wf(points@, radius.x as int),
                count == points@.len(),
                1 <= i <= count,
                lines@.len() == i - 1,
                forall|j: int|
                    0 <= j < lines@.len() ==> (#[trigger] lines@[j]).wf() && lines@[j].start
                        == points@[j] && lines@[j].end == points@[j + 1] && lines@[j].radius
                        == radius,
            decreases count - i,
        {
            lines.push(WideLine::new(points[i - 1], points[i], radius));
            i += 1;
        }
        let mut arcs: Vec<Arc> = Vec::new();
        let first_circle = Circle { center: points[0], radius };
        arcs.push(Arc::new1(&first_circle, points[1]));
        let mut i: usize = 1;
        while i + 1 < count
            invariant
                points_wf(points@, radius.x as int),
                count == points@.len(),
                1 <= i <= count - 1,
                arcs@.len() == i,
                forall|j: int|
                    0 <= j < arcs@.len() ==> (#[trigger] arcs@[j]).wf() && arcs@[j].circle
                        == (Circle { center: points@[j], radius }),
                arcs@[0].rejected_normals[0].sbig() == neighbor_normal_spec(
                    points@[0],
                    points@[1],
                ),
                arcs@[0].rejected_normals[1].sbig() == neighbor_normal_spec(
                    points@[0],
                    points@[1],
                ),
                forall|j: int|
                    1 <= j < arcs@.len() ==> (#[trigger] arcs@[j]).rejected_normals[0].sbig()
                        == neighbor_normal_spec(points@[j], points@[j - 1])
                        && arcs@[j].rejected_normals[1].sbig() == neighbor_normal_spec(
                        points@[j],
                        points@[j + 1],
                    ),
            decreases count - i,
        {
            let mid_circle = Circle { center: points[i], radius };
            arcs.push(Arc::new2(&mid_circle, points[i - 1], points[i + 1]));
            i += 1;
        }
        let last_circle = Circle { center: points[count - 1], radius };
        arcs.push(Arc::new1(&last_circle, points[count - 2]));
        PolyCapsule { arcs, lines }
    }

    /// Merges several chains into one obstacle holding all their
    /// primitives, in order.
    #[verifier::rlimit(100)]
    pub fn collect(capsules: &Vec<PolyCapsule>) -> (r: PolyCapsule)
        requires
            forall|i: int| 0 <= i < capsules@.len() ==> (#[trigger] capsules@[i]).wf(),
        ensures
            r.arcs@ == all_arcs(capsules@),
            r.lines@ == all_lines(capsules@),
            r.wf(),
    {
        let mut arcs: Vec<Arc> = Vec::new();
        let mut lines: Vec<WideLine> = Vec::new();
        let mut i: usize = 0;
        while i < capsules.len()
            invariant
                forall|k: int| 0 <= k < capsules@.len() ==> (#[trigger] capsules@[k]).wf(),
                0 <= i <= capsules@.len(),
                arcs@ == all_arcs(capsules@.take(i as int)),
                lines@ == all_lines(capsules@.take(i as int)),
                forall|k: int| 0 <= k < arcs@.len() ==> (#[trigger] arcs@[k]).wf(),
                forall|k: int| 0 <= k < lines@.len() ==> (#[trigger] lines@[k]).wf(),
            decreases capsules@.len() - i,
        {
            let ghost arcs_before = arcs@;
            let ghost lines_before = lines@;
            let mut j: usize = 0;
            while j < capsules[i].arcs.len()
                invariant
                    forall|k: int| 0 <= k < capsules@.len() ==> (#[trigger] capsules@[k]).wf(),
                    0 <= i < capsules@.len(),
                    0 <= j <= capsules@[i as int].arcs@.len(),
                    arcs@ == arcs_before + capsules@[i as int].arcs@.take(j as int),
                    forall|k: int| 0 <= k < arcs@.len() ==> (#[trigger] arcs@[k]).wf(),
                decreases capsules@[i as int].arcs@.len() - j,
            {
                arcs.push(capsules[i].arcs[j]);
                proof {
                    assert(arcs@ =~= arcs_before + capsules@[i as int].arcs@.take(j as int + 1));
                }
                j += 1;
            }
            let mut j: usize = 0;
            while j < capsules[i].lines.len()
                invariant
                    forall|k: int| 0 <= k < capsules@.len() ==> (#[trigger] capsules@[k]).wf(),
                    0 <= i < capsules@.len(),
                    0 <= j <= capsules@[i as int].lines@.len(),
                    lines@ == lines_before + capsules@[i as int].lines@.take(j as int),
                    forall|k: int| 0 <= k < lines@.len() ==> (#[trigger] lines@[k]).wf(),
                decreases capsules@[i as int].lines@.len() - j,
            {
                lines.push(capsules[i].lines[j]);
                proof {
                    assert(lines@ =~= lines_before + capsules@[i as int].lines@.take(j as int + 1));
                }
                j += 1;
            }
            proof {
                assert(capsules@[i as int].arcs@.take(capsules@[i as int].arcs@.len() as int)
                    =~= capsules@[i as int].arcs@);
                assert(capsules@[i as int].lines@.take(capsules@[i as int].lines@.len() as int)
                    =~= capsules@[i as int].lines@);
                assert(capsules@.take(i as int + 1).drop_last() =~= capsules@.take(i as int));
                assert(capsules@.take(i as int + 1).last() == capsules@[i as int]);
            }
            i += 1;
        }
        proof {
            assert(capsules@.take(capsules@.len() as int) =~= capsules@);
        }
        PolyCapsule { arcs, lines }
    }
}

impl PolyCapsule {
    /// A map the chain can be rebuilt under: callable at every chain
    /// point, with images inside the world, and preserving differences
    /// between segment endpoints (the arcs' cached rejected normals are
    /// kept verbatim, which is sound only for such translations).
    pub open spec fn affine_ok<F: Fn(Vec2) -> Vec2>(self, f: F) -> bool {
        &&& forall|i: int|
            0 <= i < self.lines@.len() ==> f.requires(((#[trigger] self.lines@[i]).start,))
                && f.requires((self.lines@[i].end,))
        &&& forall|i: int|
            0 <= i < self.arcs@.len() ==> f.requires(((#[trigger] self.arcs@[i]).circle.center,))
        &&& forall|p: Vec2, q: Vec2| #[trigger] f.ensures((p,), q) ==> in_world_v(q)
        &&& forall|p1: Vec2, q1: Vec2, p2: Vec2, q2: Vec2|
            #[trigger] f.ensures((p1,), q1) && #[trigger] f.ensures((p2,), q2) ==> q1.x.x - q2.x.x
                == p1.x.x - p2.x.x && q1.y.x - q2.y.x == p1.y.x - p2.y.x
    }

    /// Rebuilds the chain with every point passed through `f`:
    /// segments are reconstructed (and their tangents renormalized)
    /// from the mapped endpoints, arc circles are recentered, and the
    /// rejected normals are carried over unchanged.
    #[verifier::rlimit(100)]
    pub fn affine<F: Fn(Vec2) -> Vec2>(&self, f: F) -> (r: PolyCapsule)
        requires
            self.wf(),
            self.affine_ok(f),
        ensures
            r.wf(),
            r.arcs@.len() == self.arcs@.len(),
            r.lines@.len() == self.lines@.len(),
            forall|i: int|
                0 <= i < r.lines@.len() ==> f.ensures(
                    ((#[trigger] self.lines@[i]).start,),
                    r.lines@[i].start,
                ) && f.ensures((self.lines@[i].end,), r.lines@[i].end) && r.lines@[i].radius
                    == self.lines@[i].radius,
            forall|i: int|
                0 <= i < r.arcs@.len() ==> f.ensures(
                    ((#[trigger] self.arcs@[i]).circle.center,),
                    r.arcs@[i].circle.center,
                ) && r.arcs@[i].circle.radius == self.arcs@[i].circle.radius
                    && r.arcs@[i].rejected_normals == self.arcs@[i].rejected_normals,
    {
        let mut arcs: Vec<Arc> = Vec::new();
        let mut lines: Vec<WideLine> = Vec::new();
        let mut i: usize = 0;
        while i < self.arcs.len()
            invariant
                self.wf(),
                self.affine_ok(f),
                0 <= i <= self.arcs@.len(),
                arcs@.len() == i,
                forall|k: int|
                    0 <= k < arcs@.len() ==> f.ensures(
                        ((#[trigger] self.arcs@[k]).circle.center,),
                        arcs@[k].circle.center,
                    ) && arcs@[k].circle.radius == self.arcs@[k].circle.radius
                        && arcs@[k].rejected_normals == self.arcs@[k].rejected_normals,
                forall|k: int| 0 <= k < arcs@.len() ==> (#[trigger] arcs@[k]).wf(),
            decreases self.arcs@.len() - i,
        {
            let a = &self.arcs[i];
            let new_center = f(a.circle.center);
            arcs.push(
                Arc {
                    circle: Circle { center: new_center, radius: a.circle.radius },
                    rejected_normals: a.rejected_normals,
                },
            );
            i += 1;
        }
        let mut i: usize = 0;
        while i < self.lines.len()
            invariant
                self.wf(),
                self.affine_ok(f),
                0 <= i <= self.lines@.len(),
                lines@.len() == i,
                arcs@.len() == self.arcs@.len(),
                forall|k: int|
                    0 <= k < arcs@.len() ==> f.ensures(
                        ((#[trigger] self.arcs@[k]).circle.center,),
                        arcs@[k].circle.center,
                    ) && arcs@[k].circle.radius == self.arcs@[k].circle.radius
                        && arcs@[k].rejected_normals == self.arcs@[k].rejected_normals,
                forall|k: int| 0 <= k < arcs@.len() ==> (#[trigger] arcs@[k]).wf(),
                forall|k: int|
                    0 <= k < lines@.len() ==> f.ensures(
                        ((#[trigger] self.lines@[k]).start,),
                        lines@[k].start,
                    ) && f.ensures((self.lines@[k].end,), lines@[k].end) && lines@[k].radius
                        == self.lines@[k].radius,
                forall|k: int| 0 <= k < lines@.len() ==> (#[trigger] lines@[k]).wf(),
            decreases self.lines@.len() - i,
        {
            let l = &self.lines[i];
            let new_start = f(l.start);
            let new_end = f(l.end);
            proof {
                crate::wide_line::lemma_wf_separated(self.lines@[i as int]);
            }
            lines.push(WideLine::new(new_start, new_end, l.radius));
            i += 1;
        }
        PolyCapsule { arcs, lines }
    }

    /// Whether every chain point survives a shift by `offset` inside
    /// the world.
    pub open spec fn translate_ok(self, offset: Vec2) -> bool {
        &&& forall|i: int|
            0 <= i < self.lines@.len() ==> shifted_in_world(
                (#[trigger] self.lines@[i]).start,
                offset,
            ) && shifted_in_world(self.lines@[i].end, offset)
        &&& forall|i: int|
            0 <= i < self.arcs@.len() ==> shifted_in_world(
                (#[trigger] self.arcs@[i]).circle.center,
                offset,
            )
    }

    /// Shifts the whole chain by `offset`.
    pub fn translate(&self, offset: Vec2) -> (r: PolyCapsule)
        requires
            self.wf(),
            self.translate_ok(offset),
            in_world_v(offset),
        ensures
            r.wf(),
            r.arcs@.len() == self.arcs@.len(),
            r.lines@.len() == self.lines@.len(),
            forall|i: int|
                0 <= i < r.lines@.len() ==> (#[trigger] r.lines@[i]).start.x.x
                    == self.lines@[i].start.x.x + offset.x.x && r.lines@[i].start.y.x
                    == self.lines@[i].start.y.x + offset.y.x && r.lines@[i].end.x.x
                    == self.lines@[i].end.x.x + offset.x.x && r.lines@[i].end.y.x
                    == self.lines@[i].end.y.x + offset.y.x && r.lines@[i].radius
                    == self.lines@[i].radius,
            forall|i: int|
                0 <= i < r.arcs@.len() ==> (#[trigger] r.arcs@[i]).circle.center.x.x
                    == self.arcs@[i].circle.center.x.x + offset.x.x
                    && r.arcs@[i].circle.center.y.x == self.arcs@[i].circle.center.y.x
                    + offset.y.x && r.arcs@[i].circle.radius == self.arcs@[i].circle.radius
                    && r.arcs@[i].rejected_normals == self.arcs@[i].rejected_normals,
    {
        let shift = |p: Vec2| -> (q: Vec2)
            requires
                in_world_v(p),
                shifted_in_world(p, offset),
            ensures
                q.x.x == p.x.x + offset.x.x,
                q.y.x == p.y.x + offset.y.x,
                in_world_v(q),
            { p.add(offset) };
        self.affine(shift)
    }
}

/// Whether a point shifted by an offset stays inside the world.
pub open spec fn shifted_in_world(p: Vec2, offset: Vec2) -> bool {
    crate::wide_line::in_world(p.x.x + offset.x.x) && crate::wide_line::in_world(
        p.y.x + offset.y.x,
    )
}

/// All the arcs of a sequence of chains, in order.
pub open spec fn all_arcs(s: Seq<PolyCapsule>) -> Seq<Arc>
    decreases s.len(),
{
    if s.len() == 0 {
        Seq::empty()
    } else {
        all_arcs(s.drop_last()) + s.last().arcs@
    }
}

/// All the segments of a sequence of chains, in order.
pub open spec fn all_lines(s: Seq<PolyCapsule>) -> Seq<WideLine>
    decreases s.len(),
{
    if s.len() == 0 {
        Seq::empty()
    } else {
        all_lines(s.drop_last()) + s.last().lines@
    }
}

} // verus!
