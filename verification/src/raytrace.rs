//! The swept collision tests: a moving point against a capped segment
//! and against a (filtered) circle, the fold over a whole capsule
//! chain, and the time-budgeted tick integrator.
//!
//! Every test resolves ambiguous or degenerate numeric cases (zero ray
//! length, near-zero denominators, a normal too distorted to tag as
//! bounded) conservatively to "no contact" instead of failing.

use vstd::prelude::*;

use crate::arc::Arc;
use crate::arc::filter_collision_spec;
use crate::basis::Basis2;
use crate::circle::Circle;
use crate::fx32::Fx32;
use crate::fx32::Fx32Small;
use crate::fx32::fxdiv;
use crate::fx32::fxmul;
use crate::fx32::iabs;
use crate::fx32::isqrt_spec;
use crate::fx32::tdiv;
use crate::fx32::tdiv_i64;
use crate::fx32::lemma_tdiv_facts;
use crate::fx32::lemma_tdiv_le;
use crate::ray2::Ray2;
use crate::raytraceresult::Ray2TraceResult;
use crate::raytraceresult::result_wf;
use crate::vec2::Vec2;
use crate::vec2::Vec2Small;
use crate::vec2::dot_spec;
use crate::vec2::lemma_fxmul_bound;
use crate::wide_line::WideLine;
use crate::wide_line::in_world_v;
use crate::wide_line::start_ok_v;

verus! {

/// Any contact position a test reports lies near the ray's start or
/// near the obstacle world: the particle cannot be teleported far.
pub open spec fn result_pos_ok(r: Ray2TraceResult, start: Vec2) -> bool {
    match r {
        Ray2TraceResult::Miss => true,
        Ray2TraceResult::Hit(t, pos, n) => (iabs(pos.x.x as int) <= iabs(start.x.x as int)
            + 0x0080_0000 || iabs(pos.x.x as int) <= 0x0440_0000) && (iabs(pos.y.x as int)
            <= iabs(start.y.x as int) + 0x0080_0000 || iabs(pos.y.x as int) <= 0x0440_0000),
        Ray2TraceResult::Pop(pos, n) => (iabs(pos.x.x as int) <= iabs(start.x.x as int)
            + 0x0080_0000 || iabs(pos.x.x as int) <= 0x0440_0000) && (iabs(pos.y.x as int)
            <= iabs(start.y.x as int) + 0x0080_0000 || iabs(pos.y.x as int) <= 0x0440_0000),
    }
}

/// The swept point-versus-capped-segment test, as a function of the
/// raw representations. Mirrors `ray_trace_line_2` exactly.
pub open spec fn line_trace_spec(ray: Ray2, line: WideLine) -> Ray2TraceResult {
    let sx = ray.start.x.x as int;
    let sy = ray.start.y.x as int;
    let dx = ray.dir.x.x as int;
    let dy = ray.dir.y.x as int;
    let ex = sx + dx;
    let ey = sy + dy;
    let lsx = line.start.x.x as int;
    let lsy = line.start.y.x as int;
    let lex = line.end.x.x as int;
    let ley = line.end.y.x as int;
    let rad = line.radius.x as int;
    let tx = line.line_tangent.sbig().x.x as int;
    let ty = line.line_tangent.sbig().y.x as int;
    let lo_ray = if sx < ex {
        sx
    } else {
        ex
    };
    let hi_ray = if sx > ex {
        sx
    } else {
        ex
    };
    let hi_line = if lsx + rad > lex + rad {
        lsx + rad
    } else {
        lex + rad
    };
    let lo_line = if lsx - rad < lex - rad {
        lsx - rad
    } else {
        lex - rad
    };
    if lo_ray > hi_line {
        Ray2TraceResult::Miss
    } else if hi_ray < lo_line {
        Ray2TraceResult::Miss
    } else {
        let start_along = fxmul(sx - lsx, tx) + fxmul(sy - lsy, ty);
        let end_along = fxmul(ex - lsx, tx) + fxmul(ey - lsy, ty);
        let line_length = fxmul(lex - lsx, tx) + fxmul(ley - lsy, ty);
        if start_along < 0 && end_along < 0 {
            Ray2TraceResult::Miss
        } else if start_along > line_length && end_along > line_length {
            Ray2TraceResult::Miss
        } else {
            let sdf = fxmul(sx - lsx, -ty) + fxmul(sy - lsy, tx);
            let nx = if sdf > 0 {
                -ty
            } else {
                ty
            };
            let ny = if sdf > 0 {
                tx
            } else {
                -tx
            };
            if fxmul(dx, nx) + fxmul(dy, ny) > 0 {
                Ray2TraceResult::Miss
            } else {
                let sd = iabs(sdf) - rad;
                let ed = fxmul(ex - lsx, nx) + fxmul(ey - lsy, ny) - rad;
                if ed >= 0 {
                    Ray2TraceResult::Miss
                } else if tdiv(ed - sd, 256) == 0 {
                    Ray2TraceResult::Miss
                } else {
                    let t = fxdiv(-sd, ed - sd);
                    let ccd_along = fxmul(start_along, 65536 - t) + fxmul(end_along, t);
                    if ccd_along < 0 {
                        Ray2TraceResult::Miss
                    } else if ccd_along > line_length {
                        Ray2TraceResult::Miss
                    } else if sd < 0 {
                        Ray2TraceResult::Pop(
                            (Vec2 {
                                x: (Fx32 { x: (sx + fxmul(nx, rad - iabs(sdf))) as i32 }),
                                y: (Fx32 { x: (sy + fxmul(ny, rad - iabs(sdf))) as i32 }),
                            }),
                            (Vec2Small {
                                x: (Fx32Small { x: (Fx32 { x: nx as i32 }) }),
                                y: (Fx32Small { x: (Fx32 { x: ny as i32 }) }),
                            }),
                        )
                    } else {
                        Ray2TraceResult::Hit(
                            (Fx32Small { x: (Fx32 { x: t as i32 }) }),
                            (Vec2 {
                                x: (Fx32 { x: (sx + fxmul(dx, t)) as i32 }),
                                y: (Fx32 { x: (sy + fxmul(dy, t)) as i32 }),
                            }),
                            (Vec2Small {
                                x: (Fx32Small { x: (Fx32 { x: nx as i32 }) }),
                                y: (Fx32Small { x: (Fx32 { x: ny as i32 }) }),
                            }),
                        )
                    }
                }
            }
        }
    }
}

/// The swept point-versus-circle test, as a function of the raw
/// representations. Mirrors `ray_trace_circle_2` exactly: the moving
/// point is transformed into ray space, where the crossing abscissa is
/// `center.x - sqrt(radius^2 - center.y^2)`. A contact whose
/// displacement from the center leaves an axis at or beyond twice the
/// radius cannot carry a bounded normal and resolves to no contact.
pub open spec fn circle_trace_spec(ray: Ray2, circle: Circle) -> Ray2TraceResult {
    let sx = ray.start.x.x as int;
    let sy = ray.start.y.x as int;
    let dx = ray.dir.x.x as int;
    let dy = ray.dir.y.x as int;
    let l = ray.length.x as int;
    let cx = circle.center.x.x as int;
    let cy = circle.center.y.x as int;
    let rad = circle.radius.x as int;
    let md = l + rad + 98304;
    if iabs(sx - cx) > md || iabs(sy - cy) > md {
        Ray2TraceResult::Miss
    } else if fxmul(sx - cx, sx - cx) + fxmul(sy - cy, sy - cy) > fxmul(md, md) {
        Ray2TraceResult::Miss
    } else {
        let bx = crate::basis::basis_x_spec(ray);
        let bxx = bx.x.x as int;
        let bxy = bx.y.x as int;
        let cxs = fxmul(cx - sx, bxx) + fxmul(cy - sy, bxy);
        let cys = fxmul(cx - sx, -bxy) + fxmul(cy - sy, bxx);
        if cxs < 0 {
            Ray2TraceResult::Miss
        } else if cxs > l + rad {
            Ray2TraceResult::Miss
        } else if iabs(cys) >= rad {
            Ray2TraceResult::Miss
        } else {
            let root = isqrt_spec((fxmul(rad, rad) - fxmul(cys, cys)) * 65536);
            let rsx = cxs - root;
            if rsx > l || l == 0 {
                Ray2TraceResult::Miss
            } else {
                let t0 = fxdiv(rsx, l);
                let t = if t0 < 0 {
                    0
                } else {
                    t0
                };
                if t <= 65536 {
                    let px = sx + fxmul(dx, t);
                    let py = sy + fxmul(dy, t);
                    let ddx = px - cx;
                    let ddy = py - cy;
                    let ds = fxmul(ddx, ddx) + fxmul(ddy, ddy);
                    if ds < fxmul(rad, rad) {
                        let root2 = isqrt_spec(ds * 65536);
                        if root2 == 0 {
                            Ray2TraceResult::Miss
                        } else {
                            let scale = fxdiv(rad, root2);
                            let qx = fxmul(ddx, scale);
                            let qy = fxmul(ddy, scale);
                            if iabs(qx) < 2 * rad && iabs(qy) < 2 * rad {
                                Ray2TraceResult::Hit(
                                    (Fx32Small { x: (Fx32 { x: t as i32 }) }),
                                    (Vec2 {
                                        x: (Fx32 { x: (cx + qx) as i32 }),
                                        y: (Fx32 { x: (cy + qy) as i32 }),
                                    }),
                                    (Vec2Small {
                                        x: (Fx32Small { x: (Fx32 { x: fxdiv(qx, rad) as i32 }) }),
                                        y: (Fx32Small { x: (Fx32 { x: fxdiv(qy, rad) as i32 }) }),
                                    }),
                                )
                            } else {
                                Ray2TraceResult::Miss
                            }
                        }
                    } else {
                        if iabs(ddx) < 2 * rad && iabs(ddy) < 2 * rad {
                            Ray2TraceResult::Hit(
                                (Fx32Small { x: (Fx32 { x: t as i32 }) }),
                                (Vec2 { x: (Fx32 { x: px as i32 }), y: (Fx32 { x: py as i32 }) }),
                                (Vec2Small {
                                    x: (Fx32Small { x: (Fx32 { x: fxdiv(ddx, rad) as i32 }) }),
                                    y: (Fx32Small { x: (Fx32 { x: fxdiv(ddy, rad) as i32 }) }),
                                }),
                            )
                        } else {
                            Ray2TraceResult::Miss
                        }
                    }
                } else {
                    Ray2TraceResult::Miss
                }
            }
        }
    }
}

/// Law: whenever the swept-circle test reports a surface hit, the hit
/// time fraction lies in [0, 1]: the crossing abscissa is clamped at
/// zero from below and a fraction past the ray's reach is rejected.
pub proof fn lemma_circle_hit_fraction_in_unit(ray: Ray2, circle: Circle)
    ensures
        circle_trace_spec(ray, circle) is Hit ==> 0 <= crate::raytraceresult::hit_time(
            circle_trace_spec(ray, circle),
        ) <= 65536,
{
}

/// Law: whenever the swept-segment test reports a surface hit, the
/// hit time fraction lies in [0, 1]: the interpolation runs from a
/// nonnegative start distance to a strictly negative end distance.
pub proof fn lemma_line_hit_fraction_in_unit(ray: Ray2, line: WideLine)
    requires
        line.radius.x >= 0,
    ensures
        line_trace_spec(ray, line) is Hit ==> 0 <= crate::raytraceresult::hit_time(
            line_trace_spec(ray, line),
        ) <= 65536,
{
    let r = line_trace_spec(ray, line);
    if r is Hit {
        let sx = ray.start.x.x as int;
        let lsx = line.start.x.x as int;
        let tx = line.line_tangent.sbig().x.x as int;
        let ty = line.line_tangent.sbig().y.x as int;
        let sdf = fxmul(sx - lsx, -ty) + fxmul(ray.start.y.x - line.start.y.x, tx);
        let nx = if sdf > 0 {
            -ty
        } else {
            ty
        };
        let ny = if sdf > 0 {
            tx
        } else {
            -tx
        };
        let sd = iabs(sdf) - line.radius.x;
        let ed = fxmul(sx + ray.dir.x.x - lsx, nx) + fxmul(
            ray.start.y.x + ray.dir.y.x - line.start.y.x,
            ny,
        ) - line.radius.x;
        lemma_tdiv_facts(-sd * 65536, ed - sd);
        assert(iabs(-sd * 65536) == sd * 65536) by (nonlinear_arith)
            requires
                sd >= 0,
        ;
        assert(iabs(tdiv(-sd * 65536, ed - sd)) * iabs(ed - sd) <= sd * 65536);
        assert(iabs(tdiv(-sd * 65536, ed - sd)) <= 65535) by (nonlinear_arith)
            requires
                iabs(tdiv(-sd * 65536, ed - sd)) * iabs(ed - sd) <= sd * 65536,
                iabs(ed - sd) >= sd + 1,
                sd >= 0,
        ;
        assert(-sd * 65536 <= 0 && ed - sd < 0) by (nonlinear_arith)
            requires
                sd >= 0,
                ed < 0,
        ;
    }
}

/// Law: a straight vertical sweep that crosses a circle's boundary
/// from outside reports a surface hit (with the hit-fraction law, at
/// a fraction in [0, 1]). "Crosses from outside" here: the sweep runs
/// straight down in whole half-word steps, passes within the radius
/// of the center, reaches at least the center's height, and starts at
/// least one half-word outside the radius.
#[verifier::rlimit(60)]
pub proof fn lemma_vertical_crossing_hits(ray: Ray2, circle: Circle)
    requires
        ray.wf(),
        ray.dir.x.x == 0,
        ray.dir.y.x >= 256,
        ray.dir.y.x % 256 == 0,
        crate::wide_line::radius_ok(circle.radius.x as int),
        iabs(circle.center.x.x - ray.start.x.x) < circle.radius.x,
        0 <= circle.center.y.x - ray.start.y.x,
        circle.center.y.x - ray.start.y.x <= ray.dir.y.x,
        (circle.center.x.x - ray.start.x.x) * (circle.center.x.x - ray.start.x.x) + (
        circle.center.y.x - ray.start.y.x) * (circle.center.y.x - ray.start.y.x) >= (
        circle.radius.x + 256) * (circle.radius.x + 256),
    ensures
        circle_trace_spec(ray, circle) is Hit,
{
    let sx = ray.start.x.x as int;
    let sy = ray.start.y.x as int;
    let y = ray.dir.y.x as int;
    let cx = circle.center.x.x as int;
    let cy = circle.center.y.x as int;
    let rad = circle.radius.x as int;
    let m = y / 256;

    // The cached length of a vertical whole-half-word direction is
    // exact: it equals the direction's single component.
    assert(y == 256 * m) by {
        vstd::arithmetic::div_mod::lemma_fundamental_div_mod(y, 256);
    }
    assert(y * y == 65536 * (m * m)) by (nonlinear_arith)
        requires
            y == 256 * m,
    ;
    assert(fxmul(0, 0) == 0);
    crate::fx32::lemma_mul_one_exact(m * m);
    assert(fxmul(y, y) == tdiv(y * y, 65536));
    assert(fxmul(y, y) == m * m);
    assert(crate::vec2::lensq_spec(ray.dir) == m * m);
    assert((256 * m) * (256 * m) == (m * m) * 65536) by (nonlinear_arith);
    assert((m * m) * 65536 < (256 * m + 1) * (256 * m + 1)) by (nonlinear_arith)
        requires
            m >= 1,
    ;
    crate::fx32::lemma_isqrt_unique((m * m) * 65536, 256 * m);
    assert(crate::vec2::len_spec(ray.dir) == y);
    let l = ray.length.x as int;
    assert(l == y);

    // The ray-space frame of a vertical ray is exact: the x-axis is
    // the unit up-the-sweep direction.
    let bx = crate::basis::basis_x_spec(ray);
    assert(fxdiv(0, l) == 0) by {
        assert(0 * 65536 == 0);
        assert(iabs(0) / iabs(l) == 0) by {
            vstd::arithmetic::div_mod::lemma_basic_div(0, iabs(l));
        }
    }
    assert(fxdiv(y, l) == 65536) by {
        assert(y * 65536 == l * 65536);
        assert(tdiv(l * 65536, l) == iabs(l * 65536) / iabs(l));
        assert(iabs(l * 65536) == l * 65536) by (nonlinear_arith)
            requires
                l > 0,
        ;
        assert((l * 65536) / l == 65536) by {
            assert(l * 65536 == 65536 * l) by (nonlinear_arith);
            vstd::arithmetic::div_mod::lemma_div_multiples_vanish(65536, l);
        }
    }
    assert(bx.x.x as int == 0);
    assert(bx.y.x as int == 65536);

    // In that frame the center's coordinates are exact differences.
    let cxs = fxmul(cx - sx, 0) + fxmul(cy - sy, 65536);
    let cys = fxmul(cx - sx, -65536) + fxmul(cy - sy, 0);
    crate::fx32::lemma_mul_one_exact(cy - sy);
    assert(fxmul(cx - sx, 0) == 0);
    assert(fxmul(cy - sy, 0) == 0);
    assert(cxs == cy - sy);
    assert(fxmul(cx - sx, -65536) == -(cx - sx)) by {
        assert((cx - sx) * (-65536) == (-(cx - sx)) * 65536) by (nonlinear_arith);
        crate::fx32::lemma_mul_one_exact(-(cx - sx));
    }
    assert(cys == -(cx - sx));

    // The early rejections do not fire: the start is well within the
    // generous reach bound.
    let md = l + rad + 98304;
    assert(iabs(sx - cx) <= md && iabs(sy - cy) <= md);
    lemma_tdiv_facts((sx - cx) * (sx - cx), 65536);
    lemma_tdiv_facts((sy - cy) * (sy - cy), 65536);
    crate::fx32::lemma_tdiv_near(md * md);
    crate::vec2::lemma_sq_nonneg(sx - cx);
    crate::vec2::lemma_sq_nonneg(sy - cy);
    assert(fxmul(sx - cx, sx - cx) + fxmul(sy - cy, sy - cy) <= fxmul(md, md))
        by (nonlinear_arith)
        requires
            fxmul(sx - cx, sx - cx) * 65536 <= iabs((sx - cx) * (sx - cx)),
            fxmul(sy - cy, sy - cy) * 65536 <= iabs((sy - cy) * (sy - cy)),
            iabs((sx - cx) * (sx - cx)) == (sx - cx) * (sx - cx),
            iabs((sy - cy) * (sy - cy)) == (sy - cy) * (sy - cy),
            iabs(sx - cx) < rad,
            iabs(sy - cy) <= l,
            iabs(65536 * fxmul(md, md) - md * md) <= 65535,
            md == l + rad + 98304,
            l >= 256,
            rad >= 256,
    ;

    // The interior conditions of the crossing all hold.
    assert(cxs >= 0 && cxs <= l + rad);
    assert(iabs(cys) < rad);
    crate::fx32::lemma_fxmul_sq_mono(cys, rad);
    let arg = fxmul(rad, rad) - fxmul(cys, cys);
    let root = isqrt_spec(arg * 65536);
    crate::fx32::lemma_isqrt_bracket(arg * 65536);
    lemma_tdiv_facts(rad * rad, 65536);
    crate::vec2::lemma_sq_nonneg(rad);
    crate::vec2::lemma_sq_nonneg(cys);
    lemma_tdiv_facts(cys * cys, 65536);
    assert(arg * 65536 <= rad * rad) by (nonlinear_arith)
        requires
            arg <= fxmul(rad, rad),
            fxmul(rad, rad) * 65536 <= iabs(rad * rad),
            iabs(rad * rad) == rad * rad,
            arg >= 0,
    ;
    assert(root <= rad) by {
        crate::fx32::lemma_isqrt_mono(arg * 65536, rad * rad);
        assert((rad * rad) < (rad + 1) * (rad + 1)) by (nonlinear_arith)
            requires
                rad >= 0,
        ;
        crate::fx32::lemma_isqrt_unique(rad * rad, rad);
    }
    let rsx = cxs - root;
    assert(rsx <= l);
    assert(l != 0);

    // The clamped time fraction lies in the unit interval.
    let t0 = fxdiv(rsx, l);
    let t = if t0 < 0 {
        0
    } else {
        t0
    };
    if rsx >= 0 {
        assert(iabs(rsx * 65536) == rsx * 65536) by (nonlinear_arith)
            requires
                rsx >= 0,
        ;
        assert(rsx * 65536 < (65536 + 1) * l) by (nonlinear_arith)
            requires
                0 <= rsx <= l,
                l > 0,
        ;
        lemma_tdiv_le(rsx * 65536, l, 65536);
        lemma_tdiv_facts(rsx * 65536, l);
    }
    assert(0 <= t <= 65536);

    // The raw contact point: directly below the start, and between
    // the crossing depth and one rounding step past it.
    assert(fxmul(0, t) == 0);
    let ddx = (sx + fxmul(0, t)) - cx;
    let ddy = (sy + fxmul(y, t)) - cy;
    assert(ddx == sx - cx);
    if rsx >= 0 {
        assert(t == t0);
        lemma_tdiv_facts(y * t, 65536);
        assert(t * l <= rsx * 65536 && rsx * 65536 < (t + 1) * l) by {
            lemma_tdiv_facts(rsx * 65536, l);
            assert(iabs(t) == t && iabs(l) == l && iabs(rsx * 65536) == rsx * 65536)
                by (nonlinear_arith)
                requires
                    t >= 0,
                    l > 0,
                    rsx >= 0,
            ;
        }
        assert(-(root + 130) <= ddy <= -root) by (nonlinear_arith)
            requires
                ddy == sy + fxmul(y, t) - cy,
                cxs == cy - sy,
                rsx == cxs - root,
                fxmul(y, t) == tdiv(y * t, 65536),
                iabs(65536 * tdiv(y * t, 65536) - y * t) <= 65535,
                t * l <= rsx * 65536,
                rsx * 65536 < (t + 1) * l,
                y == l,
                256 <= l <= 0x007f_ffff,
                y * t >= 0,
                tdiv(y * t, 65536) * 65536 <= iabs(y * t),
                iabs(y * t) == y * t,
        ;
    } else {
        assert(t == 0);
        assert(fxmul(y, 0) == 0);
        assert(ddy == -cxs);
        assert(0 <= cxs && cxs < root);
    }
    assert(iabs(ddx) < 2 * rad);
    assert(iabs(ddy) < 2 * rad) by (nonlinear_arith)
        requires
            (rsx >= 0 && -(root + 130) <= ddy <= -root) || (rsx < 0 && ddy == -cxs && 0 <= cxs
                < root),
            0 <= root <= rad,
            rad >= 256,
    ;

    // The contact's squared distance cannot truncate to zero: the
    // start is a half-word outside, so some axis carries at least a
    // half-word of displacement.
    let ds = fxmul(ddx, ddx) + fxmul(ddy, ddy);
    crate::vec2::lemma_sq_nonneg(ddx);
    crate::vec2::lemma_sq_nonneg(ddy);
    lemma_tdiv_facts(ddx * ddx, 65536);
    lemma_tdiv_facts(ddy * ddy, 65536);
    if rsx >= 0 {
        if root >= 256 {
            assert(ddy * ddy >= 65536) by (nonlinear_arith)
                requires
                    ddy <= -root,
                    root >= 256,
            ;
            assert(fxmul(ddy, ddy) >= 1) by (nonlinear_arith)
                requires
                    iabs(ddy * ddy) == ddy * ddy,
                    ddy * ddy >= 65536,
                    ddy * ddy < (fxmul(ddy, ddy) + 1) * 65536,
                    fxmul(ddy, ddy) >= 0,
            ;
        } else {
            // A root below one half-word forces the whole radicand to
            // zero, so the lateral offset squares past the radius.
            assert(arg * 65536 < 65536) by (nonlinear_arith)
                requires
                    arg * 65536 < (root + 1) * (root + 1),
                    0 <= root < 256,
            ;
            assert(arg == 0);
            assert(fxmul(rad, rad) >= 1) by (nonlinear_arith)
                requires
                    rad >= 256,
                    iabs(rad * rad) == rad * rad,
                    rad * rad < (fxmul(rad, rad) + 1) * 65536,
                    fxmul(rad, rad) >= 0,
            ;
            assert(cys * cys >= 65536) by (nonlinear_arith)
                requires
                    fxmul(cys, cys) == fxmul(rad, rad),
                    fxmul(cys, cys) >= 1,
                    fxmul(cys, cys) * 65536 <= iabs(cys * cys),
                    iabs(cys * cys) == cys * cys,
            ;
            assert(fxmul(ddx, ddx) >= 1) by (nonlinear_arith)
                requires
                    ddx == sx - cx,
                    cys == -(cx - sx),
                    cys * cys >= 65536,
                    iabs(ddx * ddx) == ddx * ddx,
                    ddx * ddx < (fxmul(ddx, ddx) + 1) * 65536,
                    fxmul(ddx, ddx) >= 0,
            ;
        }
    } else {
        // The start itself is the contact: it sits at least one
        // half-word outside the radius.
        assert(ddx * ddx + ddy * ddy >= (rad + 256) * (rad + 256)) by (nonlinear_arith)
            requires
                ddx == sx - cx,
                ddy == -cxs,
                cxs == cy - sy,
                (cx - sx) * (cx - sx) + (cy - sy) * (cy - sy) >= (rad + 256) * (rad + 256),
        ;
        assert(fxmul(ddx, ddx) + fxmul(ddy, ddy) >= 1) by (nonlinear_arith)
            requires
                ddx * ddx + ddy * ddy >= (rad + 256) * (rad + 256),
                rad >= 256,
                iabs(ddx * ddx) == ddx * ddx,
                iabs(ddy * ddy) == ddy * ddy,
                ddx * ddx < (fxmul(ddx, ddx) + 1) * 65536,
                ddy * ddy < (fxmul(ddy, ddy) + 1) * 65536,
                fxmul(ddx, ddx) >= 0,
                fxmul(ddy, ddy) >= 0,
        ;
    }
    assert(ds >= 1);

    // Whichever side of the radius comparison the contact falls on,
    // the bounded-normal guards hold and the outcome is a hit.
    if ds < fxmul(rad, rad) {
        let root2 = isqrt_spec(ds * 65536);
        crate::fx32::lemma_isqrt_bracket(ds * 65536);
        crate::fx32::lemma_isqrt_mono(65536, ds * 65536);
        crate::fx32::lemma_isqrt_unique(65536, 256);
        assert(root2 >= 256);
        assert(root2 != 0);
        let scale = fxdiv(rad, root2);
        lemma_tdiv_facts(rad * 65536, root2);
        assert(iabs(rad * 65536) == rad * 65536) by (nonlinear_arith)
            requires
                rad > 0,
        ;
        assert(scale >= 0 && scale * root2 <= rad * 65536) by (nonlinear_arith)
            requires
                scale == tdiv(rad * 65536, root2),
                iabs(tdiv(rad * 65536, root2)) * iabs(root2) <= iabs(rad * 65536),
                iabs(rad * 65536) == rad * 65536,
                root2 >= 256,
                rad > 0,
                rad * 65536 >= 0,
        ;
        crate::vec2::lemma_norm_comp_bound(ddx, ds, root2);
        crate::vec2::lemma_norm_comp_bound(ddy, ds, root2);
        let qx = fxmul(ddx, scale);
        let qy = fxmul(ddy, scale);
        lemma_tdiv_facts(ddx * scale, 65536);
        lemma_tdiv_facts(ddy * scale, 65536);
        assert(iabs(ddx * scale) == iabs(ddx) * scale && iabs(ddy * scale) == iabs(ddy) * scale)
            by (nonlinear_arith)
            requires
                scale >= 0,
        ;
        assert(iabs(qx) < 2 * rad && iabs(qy) < 2 * rad) by (nonlinear_arith)
            requires
                iabs(qx) * 65536 <= iabs(ddx) * scale,
                iabs(qy) * 65536 <= iabs(ddy) * scale,
                iabs(ddx) < 2 * root2,
                iabs(ddy) < 2 * root2,
                scale * root2 <= rad * 65536,
                scale >= 0,
                root2 >= 256,
                rad >= 256,
        ;
    }
    assert(circle_trace_spec(ray, circle) is Hit);
}

/// Law: a ray starting far enough from a circle's center never
/// contacts it: once the squared raw distance reaches the square of
/// `radius + ray length + slack` (the slack absorbing the truncation
/// of the squared-distance comparison, one unit beyond the early
/// rejection's own 1.5), one of the two early rejections fires.
pub proof fn lemma_far_start_misses(ray: Ray2, circle: Circle)
    requires
        circle.radius.x >= 256,
        ray.length.x >= 0,
        (ray.start.x.x - circle.center.x.x) * (ray.start.x.x - circle.center.x.x) + (ray.start.y.x
            - circle.center.y.x) * (ray.start.y.x - circle.center.y.x) >= (ray.length.x as int
            + circle.radius.x as int + 163840) * (ray.length.x as int + circle.radius.x as int
            + 163840),
    ensures
        circle_trace_spec(ray, circle) is Miss,
{
    let dx = ray.start.x.x - circle.center.x.x;
    let dy = ray.start.y.x - circle.center.y.x;
    let md = ray.length.x as int + circle.radius.x as int + 98304;
    let md2 = md + 65536;
    if iabs(dx) > md || iabs(dy) > md {
    } else {
        lemma_tdiv_facts(dx * dx, 65536);
        lemma_tdiv_facts(dy * dy, 65536);
        lemma_tdiv_facts(md * md, 65536);
        crate::vec2::lemma_sq_nonneg(dx);
        crate::vec2::lemma_sq_nonneg(dy);
        assert(md * md >= 0) by (nonlinear_arith)
            requires
                md > 0,
        ;
        let lsq = fxmul(dx, dx) + fxmul(dy, dy);
        assert(65536 * fxmul(dx, dx) > dx * dx - 65536);
        assert(65536 * fxmul(dy, dy) > dy * dy - 65536);
        assert(65536 * fxmul(md, md) <= md * md);
        assert(dx * dx + dy * dy >= md2 * md2);
        assert(md2 * md2 >= md * md + 131072 * md + 65536 * 65536) by (nonlinear_arith)
            requires
                md2 == md + 65536,
        ;
        assert(lsq > fxmul(md, md)) by (nonlinear_arith)
            requires
                lsq == fxmul(dx, dx) + fxmul(dy, dy),
                65536 * fxmul(dx, dx) > dx * dx - 65536,
                65536 * fxmul(dy, dy) > dy * dy - 65536,
                65536 * fxmul(md, md) <= md * md,
                dx * dx + dy * dy >= md * md + 131072 * md + 65536 * 65536,
                md > 0,
        ;
    }
}

/// Wide fixed-point product for ghost-matched intermediate sums.
fn fxmul_wide(a: i64, b: i64) -> (r: i64)
    requires
        iabs(a as int) <= 0x4000_0000,
        iabs(b as int) <= 0x4000_0000,
    ensures
        r == fxmul(a as int, b as int),
        iabs(r as int) <= 0x1_0000_0000_0000,
{
    proof {
        assert(iabs(a as int * b as int) <= 0x1000_0000_0000_0000_0000i128 as int)
            by (nonlinear_arith)
            requires
                iabs(a as int) <= 0x4000_0000,
                iabs(b as int) <= 0x4000_0000,
        ;
        assert(iabs(a as int * b as int) == iabs(a as int) * iabs(b as int)) by (nonlinear_arith);
        assert(iabs(a as int) * iabs(b as int) <= 0x4000_0000 * 0x4000_0000) by (nonlinear_arith)
            requires
                0 <= iabs(a as int) <= 0x4000_0000,
                0 <= iabs(b as int) <= 0x4000_0000,
        ;
    }
    let p = a * b;
    proof {
        lemma_tdiv_le(p as int, 65536, 0x1_0000_0000_0000);
    }
    tdiv_i64(p, 65536)
}

/// Sweeps the moving point against one capped segment.
#[verifier::rlimit(100)]
pub fn ray_trace_line_2(ray: &Ray2, line: &WideLine) -> (r: Ray2TraceResult)
    requires
        ray.wf(),
        start_ok_v(ray.start),
        line.wf(),
    ensures
        r == line_trace_spec(*ray, *line),
        result_wf(r),
        result_pos_ok(r, ray.start),
{
    let tangent = line.line_tangent;
    let rad = line.radius;

    // Cheap horizontal-extent rejection.
    let sx = ray.start.x.x;
    let ex = sx + ray.get_dir().x.x;
    let lo_ray = if sx < ex {
        sx
    } else {
        ex
    };
    let hi_ray = if sx > ex {
        sx
    } else {
        ex
    };
    let a = line.start.x.x + rad.x;
    let b = line.end.x.x + rad.x;
    let hi_line = if a > b {
        a
    } else {
        b
    };
    let c = line.start.x.x - rad.x;
    let d = line.end.x.x - rad.x;
    let lo_line = if c < d {
        c
    } else {
        d
    };
    if lo_ray > hi_line {
        return Ray2TraceResult::Miss;
    }
    if hi_ray < lo_line {
        return Ray2TraceResult::Miss;
    }
    let ray_end = ray.start.add(ray.get_dir());

    // Projections along the tangent.
    let start_along = ray.start.sub(line.start).dot_sm(tangent);
    let end_along = ray_end.sub(line.start).dot_sm(tangent);
    let line_length = line.end.sub(line.start).dot_sm(tangent);
    if start_along.x < 0 && end_along.x < 0 {
        return Ray2TraceResult::Miss;
    }
    if start_along.x > line_length.x && end_along.x > line_length.x {
        return Ray2TraceResult::Miss;
    }

    // Signed distance to the segment's line; flip the normal toward
    // the ray's start so the correct side is extruded.
    let base_normal = tangent.cross();
    let sdf = ray.start.sub(line.start).dot_sm(base_normal);
    let line_normal = if sdf.x > 0 {
        base_normal
    } else {
        base_normal.neg()
    };
    if ray.get_dir().dot_sm(line_normal).x > 0 {
        // Moving away from the half-plane.
        return Ray2TraceResult::Miss;
    }
    let sdf_abs = sdf.abs();
    let start_distance = sdf_abs.sub(rad);
    let end_distance = ray_end.sub(line.start).dot_sm(line_normal).sub(rad);
    if end_distance.x >= 0 {
        // The surface is out of reach this sub-step.
        return Ray2TraceResult::Miss;
    }
    let delta = end_distance.sub(start_distance);
    if delta.x / 256 == 0 {
        // Near-zero denominator: resolve to no contact.
        return Ray2TraceResult::Miss;
    }
    proof {
        let sdv = start_distance.x as int;
        let dv = delta.x as int;
        lemma_tdiv_facts(dv, 256);
        assert(iabs(dv) >= 256) by (nonlinear_arith)
            requires
                iabs(tdiv(dv, 256)) * 256 <= iabs(dv),
                iabs(tdiv(dv, 256)) >= 1,
        ;
        assert(iabs(-sdv * 65536) == iabs(sdv) * 65536) by (nonlinear_arith);
        if sdv < 0 {
            assert(iabs(sdv) * 65536 < ((rad.x as int) * 256 + 1) * iabs(dv))
                by (nonlinear_arith)
                requires
                    iabs(sdv) <= rad.x as int,
                    iabs(dv) >= 256,
                    rad.x as int >= 256,
            ;
            lemma_tdiv_le(-sdv * 65536, dv, (rad.x as int) * 256);
        } else {
            assert(dv <= -1 - sdv);
            assert(iabs(sdv) * 65536 < 65536 * iabs(dv)) by (nonlinear_arith)
                requires
                    sdv >= 0,
                    dv <= -1 - sdv,
            ;
            lemma_tdiv_le(-sdv * 65536, dv, 65535);
        }
    }
    let t = start_distance.neg().div_64(delta);

    // Interpolated along-tangent position of the crossing.
    let ca1 = fxmul_wide(start_along.x as i64, 65536i64 - t.x as i64);
    let ca2 = fxmul_wide(end_along.x as i64, t.x as i64);
    let ccd_along: i64 = ca1 + ca2;
    if ccd_along < 0 {
        return Ray2TraceResult::Miss;
    }
    if ccd_along > line_length.x as i64 {
        return Ray2TraceResult::Miss;
    }
    if start_distance.x < 0 {
        // Already inside the capsule: pop out along the normal.
        let depth = rad.sub(sdf_abs);
        proof {
            lemma_fxmul_bound(
                line_normal.x.x.x as int,
                depth.x as int,
                0x0002_0000,
                0x0020_0000,
            );
            lemma_fxmul_bound(
                line_normal.y.x.x as int,
                depth.x as int,
                0x0002_0000,
                0x0020_0000,
            );
        }
        let offset = line_normal.to_big().scale(depth);
        let pop_pos = ray.start.add(offset);
        return Ray2TraceResult::Pop(pop_pos, line_normal);
    }
    proof {
        lemma_fxmul_bound(ray.dir.x.x as int, t.x as int, 0x007f_ffff, 65536);
        lemma_fxmul_bound(ray.dir.y.x as int, t.x as int, 0x007f_ffff, 65536);
    }
    let ccd_pos = ray.start.add(ray.get_dir().scale(t));
    return Ray2TraceResult::Hit(t.to_small(), ccd_pos, line_normal);
}

/// Sweeps the moving point against one circle.
#[verifier::rlimit(100)]
pub fn ray_trace_circle_2(ray: &Ray2, circle: &Circle) -> (r: Ray2TraceResult)
    requires
        ray.wf(),
        start_ok_v(ray.start),
        in_world_v(circle.center),
        crate::wide_line::radius_ok(circle.radius.x as int),
        ray.length.x <= 0x002C_0000,
    ensures
        r == circle_trace_spec(*ray, *circle),
        result_wf(r),
        result_pos_ok(r, ray.start),
{
    let ray_length = ray.get_length();
    let rad = circle.radius;
    let diff = ray.start.sub(circle.center);
    proof {
        crate::vec2::lemma_sq_nonneg(ray.dir.x.x as int);
        crate::vec2::lemma_sq_nonneg(ray.dir.y.x as int);
        crate::fx32::lemma_isqrt_bracket(crate::vec2::lensq_spec(ray.dir) * 65536);
    }
    // The 1.5-unit slack of the early rejection, in raw steps.
    let max_diff = ray_length.add(rad).add(Fx32::new(98304));

    // Componentwise early rejection.
    if diff.x.abs().x > max_diff.x || diff.y.abs().x > max_diff.x {
        return Ray2TraceResult::Miss;
    }
    proof {
        lemma_fxmul_bound(max_diff.x as int, max_diff.x as int, 0x004D_8000, 0x004D_8000);
    }
    let md_sq = max_diff.square_64();

    // Squared-distance early rejection.
    let dist0_sq = diff.length_sq();
    if dist0_sq.x > md_sq.x {
        return Ray2TraceResult::Miss;
    }
    let basis = Basis2::new(ray);
    let center_rel = circle.center.sub(ray.start);
    let center_in_ray_space = basis.to_space(&center_rel);
    let cxs = center_in_ray_space.x;
    let cys = center_in_ray_space.y;
    if cxs.x < 0 {
        return Ray2TraceResult::Miss;
    }
    if cxs.x > ray_length.add(rad).x {
        return Ray2TraceResult::Miss;
    }
    if cys.abs().x >= rad.x {
        // Also prevents an imaginary square root below.
        return Ray2TraceResult::Miss;
    }
    proof {
        lemma_fxmul_bound(rad.x as int, rad.x as int, 0x0020_0000, 0x0020_0000);
        lemma_fxmul_bound(cys.x as int, cys.x as int, 0x0020_0000, 0x0020_0000);
        crate::fx32::lemma_fxmul_sq_mono(cys.x as int, rad.x as int);
    }
    let rad_sq = rad.square_64();
    let cys_sq = cys.square_64();
    let root_arg = rad_sq.sub(cys_sq);
    let root = root_arg.sqrt_64();
    proof {
        crate::fx32::lemma_isqrt_bracket(root_arg.x as int * 65536);
        crate::fx32::lemma_isqrt_mono(root_arg.x as int * 65536, rad.x as int * rad.x as int);
        lemma_tdiv_facts(rad.x as int * rad.x as int, 65536);
        assert(crate::fx32::fxmul(rad.x as int, rad.x as int) * 65536 <= rad.x as int
            * rad.x as int) by (nonlinear_arith)
            requires
                crate::fx32::fxmul(rad.x as int, rad.x as int) * 65536 <= iabs(
                    rad.x as int * rad.x as int,
                ),
                rad.x as int * rad.x as int >= 0,
        ;
        assert((rad.x as int * rad.x as int) < (rad.x as int + 1) * (rad.x as int + 1))
            by (nonlinear_arith)
            requires
                rad.x as int >= 0,
        ;
        crate::fx32::lemma_isqrt_unique(rad.x as int * rad.x as int, rad.x as int);
    }
    let ray_space_x = cxs.sub(root);
    if ray_space_x.x > ray_length.x || ray_length.x == 0 {
        return Ray2TraceResult::Miss;
    }
    proof {
        crate::vec2::lemma_len_pos(ray.dir);
        let rsxv = ray_space_x.x as int;
        let lv = ray_length.x as int;
        assert(iabs(rsxv * 65536) == iabs(rsxv) * 65536) by (nonlinear_arith);
        assert(iabs(rsxv) * 65536 < (0x7000_0000 + 1) * lv) by (nonlinear_arith)
            requires
                iabs(rsxv) <= 0x0070_0000,
                lv >= 256,
        ;
        lemma_tdiv_le(rsxv * 65536, lv, 0x7000_0000);
    }
    let t0 = ray_space_x.div_64(ray_length);
    let t = if t0.x < 0 {
        Fx32 { x: 0 }
    } else {
        t0
    };
    if t.x > 65536 {
        return Ray2TraceResult::Miss;
    }
    proof {
        crate::vec2::lemma_comp_le_len(ray.dir);
        lemma_fxmul_bound(ray.dir.x.x as int, t.x as int, ray.length.x as int + 256, 65536);
        lemma_fxmul_bound(ray.dir.y.x as int, t.x as int, ray.length.x as int + 256, 65536);
    }
    let ccd_pos = ray.start.add(ray.get_dir().scale(t));
    let disp = ccd_pos.sub(circle.center);
    let dist_sq = disp.length_sq();
    if dist_sq.x < rad_sq.x {
        // The raw contact point sits inside the circle (possible after
        // clamping): project it onto the boundary along the
        // displacement from the center.
        let root2 = dist_sq.sqrt_64();
        if root2.x == 0 {
            // Degenerate: the point is at the center; no direction to
            // project along. Resolve to no contact.
            return Ray2TraceResult::Miss;
        }
        proof {
            crate::fx32::lemma_isqrt_bracket(dist_sq.x as int * 65536);
            if dist_sq.x as int == 0 {
                crate::fx32::lemma_isqrt_unique(0, 0);
            }
            crate::fx32::lemma_isqrt_mono(65536, dist_sq.x as int * 65536);
            crate::fx32::lemma_isqrt_unique(65536, 256);
            let rv = rad.x as int;
            let r2v = root2.x as int;
            assert(iabs(rv * 65536) == iabs(rv) * 65536) by (nonlinear_arith);
            assert(iabs(rv) * 65536 < (rv * 256 + 1) * r2v) by (nonlinear_arith)
                requires
                    rv >= 256,
                    r2v >= 256,
            ;
            lemma_tdiv_le(rv * 65536, r2v, rv * 256);
        }
        let scale = rad.div_64(root2);
        let qx = fxmul_wide(disp.x.x as i64, scale.x as i64);
        let qy = fxmul_wide(disp.y.x as i64, scale.x as i64);
        let two_rad: i64 = 2 * (rad.x as i64);
        if !(-two_rad < qx && qx < two_rad && -two_rad < qy && qy < two_rad) {
            // The projected displacement cannot carry a bounded
            // normal: resolve to no contact.
            return Ray2TraceResult::Miss;
        }
        let qxf = Fx32 { x: qx as i32 };
        let qyf = Fx32 { x: qy as i32 };
        proof {
            lemma_norm_fits(qx as int, rad.x as int);
            lemma_norm_fits(qy as int, rad.x as int);
        }
        let nx = qxf.div_64(rad);
        let ny = qyf.div_64(rad);
        let ccd_proj = circle.center.add(Vec2 { x: qxf, y: qyf });
        return Ray2TraceResult::Hit(
            t.to_small(),
            ccd_proj,
            Vec2Small { x: nx.to_small(), y: ny.to_small() },
        );
    }
    let two_rad_32: i32 = 2 * rad.x;
    if !(-two_rad_32 < disp.x.x && disp.x.x < two_rad_32 && -two_rad_32 < disp.y.x && disp.y.x
        < two_rad_32) {
        // The displacement cannot carry a bounded normal: resolve to
        // no contact.
        return Ray2TraceResult::Miss;
    }
    proof {
        lemma_norm_fits(disp.x.x as int, rad.x as int);
        lemma_norm_fits(disp.y.x as int, rad.x as int);
    }
    let nx = disp.x.div_64(rad);
    let ny = disp.y.div_64(rad);
    return Ray2TraceResult::Hit(
        t.to_small(),
        ccd_pos,
        Vec2Small { x: nx.to_small(), y: ny.to_small() },
    );
}

/// The swept point-versus-arc test: the circle test filtered by the
/// arc's rejected half-planes.
pub open spec fn arc_trace_spec(ray: Ray2, arc: Arc) -> Ray2TraceResult {
    filter_collision_spec(arc, circle_trace_spec(ray, arc.circle))
}

/// Sweeps the moving point against one filtered arc.
pub fn ray_trace_arc(ray: &Ray2, arc: &Arc) -> (r: Ray2TraceResult)
    requires
        ray.wf(),
        start_ok_v(ray.start),
        arc.wf(),
        ray.length.x <= 0x002C_0000,
    ensures
        r == arc_trace_spec(*ray, *arc),
        result_wf(r),
        result_pos_ok(r, ray.start),
{
    let circle_result = ray_trace_circle_2(ray, &arc.circle);
    arc.filter_collision(circle_result)
}

/// The outcomes of sweeping one ray against every primitive of a
/// capsule chain: arcs first, then segments, as the fold consumes them.
pub open spec fn capsule_results(ray: Ray2, arcs: Seq<Arc>, lines: Seq<WideLine>) -> Seq<
    Ray2TraceResult,
> {
    arcs.map_values(|a: Arc| arc_trace_spec(ray, a)) + lines.map_values(
        |l: WideLine| line_trace_spec(ray, l),
    )
}

/// Sweeps the moving point against every primitive of a capsule chain
/// and folds the outcomes to the single most urgent one.
pub fn trace_capsule(ray: &Ray2, capsule: &crate::polycapsule::PolyCapsule) -> (r: Ray2TraceResult)
    requires
        ray.wf(),
        start_ok_v(ray.start),
        capsule.wf(),
        ray.length.x <= 0x002C_0000,
    ensures
        r == crate::raytraceresult::fold_results(
            capsule_results(*ray, capsule.arcs@, capsule.lines@),
        ),
        result_wf(r),
        result_pos_ok(r, ray.start),
{
    let ghost arc_specs = capsule.arcs@.map_values(|a: Arc| arc_trace_spec(*ray, a));
    let ghost line_specs = capsule.lines@.map_values(|l: WideLine| line_trace_spec(*ray, l));
    let mut acc = Ray2TraceResult::Miss;
    let mut i: usize = 0;
    while i < capsule.arcs.len()
        invariant
            ray.wf(),
            start_ok_v(ray.start),
            capsule.wf(),
            ray.length.x <= 0x002C_0000,
            0 <= i <= capsule.arcs@.len(),
            arc_specs == capsule.arcs@.map_values(|a: Arc| arc_trace_spec(*ray, a)),
            acc == crate::raytraceresult::fold_results(arc_specs.take(i as int)),
            result_wf(acc),
            result_pos_ok(acc, ray.start),
        decreases capsule.arcs@.len() - i,
    {
        let step = ray_trace_arc(ray, &capsule.arcs[i]);
        proof {
            assert(arc_specs.take(i as int + 1).drop_last() =~= arc_specs.take(i as int));
        }
        acc = Ray2TraceResult::fold(acc, step);
        i += 1;
    }
    proof {
        assert(arc_specs.take(capsule.arcs@.len() as int) =~= arc_specs);
    }
    let mut j: usize = 0;
    while j < capsule.lines.len()
        invariant
            ray.wf(),
            start_ok_v(ray.start),
            capsule.wf(),
            ray.length.x <= 0x002C_0000,
            0 <= j <= capsule.lines@.len(),
            arc_specs == capsule.arcs@.map_values(|a: Arc| arc_trace_spec(*ray, a)),
            line_specs == capsule.lines@.map_values(|l: WideLine| line_trace_spec(*ray, l)),
            acc == crate::raytraceresult::fold_results(arc_specs + line_specs.take(j as int)),
            result_wf(acc),
            result_pos_ok(acc, ray.start),
        decreases capsule.lines@.len() - j,
    {
        let step = ray_trace_line_2(ray, &capsule.lines[j]);
        proof {
            assert((arc_specs + line_specs.take(j as int + 1)).drop_last() =~= arc_specs
                + line_specs.take(j as int));
        }
        acc = Ray2TraceResult::fold(acc, step);
        j += 1;
    }
    proof {
        assert(arc_specs + line_specs.take(capsule.lines@.len() as int) =~= arc_specs
            + line_specs);
    }
    acc
}

/// A displacement within twice the radius yields a bounded normal.
proof fn lemma_norm_fits(q: int, rad: int)
    requires
        rad >= 256,
        iabs(q) < 2 * rad,
    ensures
        iabs(fxdiv(q, rad)) <= 131071,
        -0x8000_0000 <= fxdiv(q, rad) <= 0x7fff_ffff,
{
    assert(iabs(q * 65536) == iabs(q) * 65536) by (nonlinear_arith);
    assert(iabs(q) * 65536 < (131071 + 1) * rad) by (nonlinear_arith)
        requires
            iabs(q) < 2 * rad,
    ;
    lemma_tdiv_le(q * 65536, rad, 131071);
}

/// A reflected velocity the integrator accepts back into the particle:
/// components within 31 units, so the next sub-step's sweep stays in
/// the representation's range.
pub open spec fn vel_ok(v: Vec2) -> bool {
    iabs(v.x.x as int) <= 0x001F_0000 && iabs(v.y.x as int) <= 0x001F_0000
}

/// The ray of one sub-step: the particle's displacement scaled by the
/// remaining time fraction.
pub open spec fn dt_ray_spec(p: Ray2, rem: int) -> Ray2 {
    crate::ray2::ray_of(
        p.start,
        (Vec2 {
            x: (Fx32 { x: fxmul(p.dir.x.x as int, rem) as i32 }),
            y: (Fx32 { x: fxmul(p.dir.y.x as int, rem) as i32 }),
        }),
    )
}

/// The folded outcome of one sub-step's sweep over the whole chain.
pub open spec fn sub_step_trace(p: Ray2, rem: int, arcs: Seq<Arc>, lines: Seq<WideLine>) -> Ray2TraceResult {
    crate::raytraceresult::fold_results(capsule_results(dt_ray_spec(p, rem), arcs, lines))
}

/// One sub-step of the integrator. No contact: the particle advances
/// to the ray's end and the whole remaining budget is consumed.
/// Penetrating: the particle snaps to the corrective position, the
/// velocity is replaced by the softly-reflected one if it still heads
/// into the surface (and stays representable), and no time is
/// consumed. Surface hit at fraction t: the particle snaps to the
/// contact position, reflects at the bounce restitution under the same
/// conditions, and consumes t of the remaining budget.
pub open spec fn sub_step_spec(
    p: Ray2,
    rem: int,
    arcs: Seq<Arc>,
    lines: Seq<WideLine>,
    pop_res: Fx32Small,
    hit_res: Fx32Small,
) -> (Ray2, int) {
    let res = sub_step_trace(p, rem, arcs, lines);
    match res {
        Ray2TraceResult::Miss => (
            crate::ray2::ray_of(
                (Vec2 {
                    x: (Fx32 { x: (p.start.x.x + fxmul(p.dir.x.x as int, rem)) as i32 }),
                    y: (Fx32 { x: (p.start.y.x + fxmul(p.dir.y.x as int, rem)) as i32 }),
                }),
                p.dir,
            ),
            0,
        ),
        Ray2TraceResult::Pop(pos, n) => {
            let refl = crate::vec2::reflect_res_spec(p.dir, n, pop_res);
            let newdir = if dot_spec(p.dir, n.sbig()) < 0 && vel_ok(refl) {
                refl
            } else {
                p.dir
            };
            (crate::ray2::ray_of(pos, newdir), rem)
        },
        Ray2TraceResult::Hit(t, pos, n) => {
            let refl = crate::vec2::reflect_res_spec(p.dir, n, hit_res);
            let newdir = if dot_spec(p.dir, n.sbig()) < 0 && vel_ok(refl) {
                refl
            } else {
                p.dir
            };
            (crate::ray2::ray_of(pos, newdir), rem - fxmul(rem, t.x.x as int))
        },
    }
}

/// The integrator's sub-stepping: run sub-steps until the budget is
/// exhausted or the fuel (the sub-step cap) runs out.
pub open spec fn tick_spec_rec(
    p: Ray2,
    rem: int,
    arcs: Seq<Arc>,
    lines: Seq<WideLine>,
    pop_res: Fx32Small,
    hit_res: Fx32Small,
    fuel: nat,
) -> (Ray2, int)
    decreases fuel,
{
    if fuel == 0 || rem <= 0 {
        (p, rem)
    } else {
        let (p2, rem2) = sub_step_spec(p, rem, arcs, lines, pop_res, hit_res);
        tick_spec_rec(p2, rem2, arcs, lines, pop_res, hit_res, (fuel - 1) as nat)
    }
}

/// Velocities within 31 units per axis keep the sweep ray's computed
/// length within 44 units.
proof fn lemma_len_cap(v: Vec2)
    requires
        iabs(v.x.x as int) <= 0x001F_0000,
        iabs(v.y.x as int) <= 0x001F_0000,
    ensures
        crate::vec2::len_spec(v) <= 0x002C_0000,
{
    lemma_fxmul_bound(v.x.x as int, v.x.x as int, 0x001F_0000, 0x001F_0000);
    lemma_fxmul_bound(v.y.x as int, v.y.x as int, 0x001F_0000, 0x001F_0000);
    crate::vec2::lemma_sq_nonneg(v.x.x as int);
    crate::vec2::lemma_sq_nonneg(v.y.x as int);
    let ls = crate::vec2::lensq_spec(v);
    crate::fx32::lemma_isqrt_bracket(ls * 65536);
    let l = crate::vec2::len_spec(v);
    assert(l <= 0x002C_0000) by (nonlinear_arith)
        requires
            l >= 0,
            l * l <= ls * 65536,
            ls * 65536 <= 0x1F_0000 * 0x1F_0000 * 2,
    ;
}

/// One executable sub-step, mirrored by `sub_step_spec`.
#[verifier::rlimit(100)]
fn sub_step(
    particle: &Ray2,
    remaining: Fx32,
    capsule: &crate::polycapsule::PolyCapsule,
    pop_res: Fx32Small,
    hit_res: Fx32Small,
) -> (r: (Ray2, Fx32, Ray2TraceResult))
    requires
        particle.wf(),
        capsule.wf(),
        pop_res.inv(),
        hit_res.inv(),
        vel_ok(particle.dir),
        iabs(particle.start.x.x as int) <= 0x0780_0000,
        iabs(particle.start.y.x as int) <= 0x0780_0000,
        0 < remaining.x <= 65536,
    ensures
        r.0 == sub_step_spec(
            *particle,
            remaining.x as int,
            capsule.arcs@,
            capsule.lines@,
            pop_res,
            hit_res,
        ).0,
        r.1.x as int == sub_step_spec(
            *particle,
            remaining.x as int,
            capsule.arcs@,
            capsule.lines@,
            pop_res,
            hit_res,
        ).1,
        r.2 == sub_step_trace(*particle, remaining.x as int, capsule.arcs@, capsule.lines@),
        r.0.wf(),
        vel_ok(r.0.dir),
        0 <= r.1.x <= remaining.x,
        iabs(r.0.start.x.x as int) <= iabs(particle.start.x.x as int) + 0x0080_0000 || iabs(
            r.0.start.x.x as int,
        ) <= 0x0440_0000,
        iabs(r.0.start.y.x as int) <= iabs(particle.start.y.x as int) + 0x0080_0000 || iabs(
            r.0.start.y.x as int,
        ) <= 0x0440_0000,
{
    let dt_small = remaining.to_small();
    let dt_ray = particle.apply_dt(dt_small);
    proof {
        lemma_fxmul_bound(particle.dir.x.x as int, remaining.x as int, 0x001F_0000, 65536);
        lemma_fxmul_bound(particle.dir.y.x as int, remaining.x as int, 0x001F_0000, 65536);
        lemma_len_cap(dt_ray.dir);
        assert(dt_ray == dt_ray_spec(*particle, remaining.x as int));
    }
    let trace_result = trace_capsule(&dt_ray, capsule);
    match trace_result {
        Ray2TraceResult::Miss => {
            let move_vec = particle.get_dir().scale(remaining);
            let new_start = particle.start.add(move_vec);
            let p2 = Ray2::new(new_start, particle.get_dir());
            (p2, Fx32 { x: 0 }, trace_result)
        },
        Ray2TraceResult::Pop(ccd_pos, normal) => {
            let heading = particle.get_dir().dot_sm(normal);
            let reflected = particle.get_dir().reflect_res(normal, pop_res);
            let accept = heading.x < 0 && reflected.x.x <= 0x001F_0000 && reflected.x.x
                >= -0x001F_0000 && reflected.y.x <= 0x001F_0000 && reflected.y.x >= -0x001F_0000;
            let p2 = if accept {
                Ray2::new(ccd_pos, reflected)
            } else {
                Ray2::new(ccd_pos, particle.get_dir())
            };
            (p2, remaining, trace_result)
        },
        Ray2TraceResult::Hit(t, ccd_pos, normal) => {
            let heading = particle.get_dir().dot_sm(normal);
            let reflected = particle.get_dir().reflect_res(normal, hit_res);
            let accept = heading.x < 0 && reflected.x.x <= 0x001F_0000 && reflected.x.x
                >= -0x001F_0000 && reflected.y.x <= 0x001F_0000 && reflected.y.x >= -0x001F_0000;
            let p2 = if accept {
                Ray2::new(ccd_pos, reflected)
            } else {
                Ray2::new(ccd_pos, particle.get_dir())
            };
            proof {
                lemma_fxmul_bound(remaining.x as int, t.x.x as int, 65536, 65536);
                lemma_fxmul_bound(remaining.x as int, t.x.x as int, remaining.x as int, 65536);
            }
            let consumed = remaining.mul_64(Fx32 { x: t.x.x });
            let rem2 = remaining.sub(consumed);
            (p2, rem2, trace_result)
        },
    }
}

/// What one tick reports back: the advanced particle, the unconsumed
/// budget (zero unless the sub-step cap was hit: the shortfall is the
/// documented time-dilation amount), and counters.
pub struct TickOutcome {
    pub particle: Ray2,
    pub remaining: Fx32,
    pub bounces: u32,
    pub pops: u32,
    pub steps: u32,
}

/// Runs one full tick: gravity is applied to the velocity once for
/// the whole tick, then up to four sub-steps consume the unit time
/// budget. The restitution fractions are configuration parameters:
/// `pop_res` scales the soft reflection of a penetrating resolution,
/// `hit_res` the bounce off a surface hit.
#[verifier::rlimit(100)]
pub fn tick(
    particle: &Ray2,
    capsule: &crate::polycapsule::PolyCapsule,
    gravity: Vec2,
    pop_res: Fx32Small,
    hit_res: Fx32Small,
) -> (r: TickOutcome)
    requires
        particle.wf(),
        capsule.wf(),
        pop_res.inv(),
        hit_res.inv(),
        iabs(particle.start.x.x as int) <= 0x0600_0000,
        iabs(particle.start.y.x as int) <= 0x0600_0000,
        iabs(particle.dir.x.x + gravity.x.x) <= 0x0015_0000,
        iabs(particle.dir.y.x + gravity.y.x) <= 0x0015_0000,
    ensures
        ({
            let post_gravity = crate::ray2::ray_of(
                particle.start,
                (Vec2 {
                    x: (Fx32 { x: (particle.dir.x.x + gravity.x.x) as i32 }),
                    y: (Fx32 { x: (particle.dir.y.x + gravity.y.x) as i32 }),
                }),
            );
            let fin = tick_spec_rec(
                post_gravity,
                65536,
                capsule.arcs@,
                capsule.lines@,
                pop_res,
                hit_res,
                4,
            );
            r.particle == fin.0 && r.remaining.x as int == fin.1
        }),
        r.particle.wf(),
        vel_ok(r.particle.dir),
        0 <= r.remaining.x <= 65536,
        r.remaining.x == 0 || r.steps == 4,
        r.steps <= 4,
        iabs(r.particle.start.x.x as int) <= 0x0800_0000,
        iabs(r.particle.start.y.x as int) <= 0x0800_0000,
{
    let new_dir = particle.get_dir().add(gravity);
    let mut cur = Ray2::new(particle.start, new_dir);
    let ghost p0 = cur;
    let mut remaining = Fx32 { x: 65536 };
    let mut bounces: u32 = 0;
    let mut pops: u32 = 0;
    let mut steps: u32 = 0;
    while steps < 4 && remaining.x > 0
        invariant
            capsule.wf(),
            pop_res.inv(),
            hit_res.inv(),
            cur.wf(),
            vel_ok(cur.dir),
            0 <= steps <= 4,
            bounces <= steps,
            pops <= steps,
            0 <= remaining.x <= 65536,
            steps == 0 ==> remaining.x == 65536,
            iabs(cur.start.x.x as int) <= 0x0600_0000 + steps * 0x0080_0000,
            iabs(cur.start.y.x as int) <= 0x0600_0000 + steps * 0x0080_0000,
            tick_spec_rec(p0, 65536, capsule.arcs@, capsule.lines@, pop_res, hit_res, 4)
                == tick_spec_rec(
                cur,
                remaining.x as int,
                capsule.arcs@,
                capsule.lines@,
                pop_res,
                hit_res,
                (4 - steps) as nat,
            ),
        decreases 4 - steps,
    {
        let (p2, rem2, res) = sub_step(&cur, remaining, capsule, pop_res, hit_res);
        match res {
            Ray2TraceResult::Miss => {},
            Ray2TraceResult::Pop(pos, n) => {
                pops = pops + 1;
            },
            Ray2TraceResult::Hit(t, pos, n) => {
                bounces = bounces + 1;
            },
        }
        cur = p2;
        remaining = rem2;
        steps = steps + 1;
    }
    TickOutcome { particle: cur, remaining, bounces, pops, steps }
}

} // verus!
