use reactor_phys::circle::Circle;
use reactor_phys::fx32::Fx32;
use reactor_phys::polycapsule::PolyCapsule;
use reactor_phys::ray2::Ray2;
use reactor_phys::raytrace::ray_trace_circle_2;
use reactor_phys::raytrace::ray_trace_line_2;
use reactor_phys::raytraceresult::Ray2TraceResult;
use reactor_phys::vec2::Vec2;
use reactor_phys::wide_line::WideLine;

fn v(x: i32, y: i32) -> Vec2 {
    Vec2 {
        x: Fx32::from_int(x),
        y: Fx32::from_int(y),
    }
}

#[test]
fn far_ray_misses_circle() {
    // The start is far outside radius + length + 1.5 from the center:
    // the early rejection reports no contact.
    let ray = Ray2::new(v(0, 0), v(0, 10));
    let circle = Circle {
        center: v(0, 200),
        radius: Fx32::from_int(20),
    };
    let result = ray_trace_circle_2(&ray, &circle);
    assert!(matches!(result, Ray2TraceResult::Miss));
}

#[test]
fn crossing_ray_hits_circle_within_unit_fraction() {
    // The ray crosses the boundary from outside: the hit fraction is
    // a time in [0, 1], here exactly one half.
    let ray = Ray2::new(v(0, 0), v(0, 40));
    let circle = Circle {
        center: v(0, 40),
        radius: Fx32::from_int(20),
    };
    match ray_trace_circle_2(&ray, &circle) {
        Ray2TraceResult::Hit(t, pos, normal) => {
            assert!(0 <= t.x.x && t.x.x <= 65536);
            assert_eq!(t.x.x, 32768);
            assert_eq!(pos, v(0, 20));
            assert_eq!(normal.to_big(), v(0, -1));
        }
        _ => panic!("expected a surface hit"),
    }
}

#[test]
fn zero_length_ray_misses_circle() {
    let ray = Ray2::new(v(0, 0), v(0, 0));
    let circle = Circle {
        center: v(0, 10),
        radius: Fx32::from_int(20),
    };
    let result = ray_trace_circle_2(&ray, &circle);
    assert!(matches!(result, Ray2TraceResult::Miss));
}

#[test]
fn descending_ray_hits_segment() {
    let line = WideLine::new(v(0, 100), v(200, 100), Fx32::from_int(20));
    let ray = Ray2::new(v(100, 40), v(0, 80));
    match ray_trace_line_2(&ray, &line) {
        Ray2TraceResult::Hit(t, pos, normal) => {
            // The radius-extruded surface is at y = 80, reached at
            // half the sweep.
            assert_eq!(t.x.x, 32768);
            assert_eq!(pos, v(100, 80));
            assert_eq!(normal.to_big(), v(0, -1));
        }
        _ => panic!("expected a surface hit"),
    }
}

#[test]
fn receding_ray_misses_segment() {
    let line = WideLine::new(v(0, 100), v(200, 100), Fx32::from_int(20));
    let ray = Ray2::new(v(100, 40), v(0, -10));
    let result = ray_trace_line_2(&ray, &line);
    assert!(matches!(result, Ray2TraceResult::Miss));
}

#[test]
fn penetrating_start_pops_to_radius() {
    // A start already inside the capsule's radius is pushed out along
    // the normal to exactly the radius, consuming no time.
    let line = WideLine::new(v(0, 100), v(200, 100), Fx32::from_int(20));
    let ray = Ray2::new(v(100, 90), v(0, 1));
    match ray_trace_line_2(&ray, &line) {
        Ray2TraceResult::Pop(pos, normal) => {
            assert_eq!(pos, v(100, 80));
            assert_eq!(normal.to_big(), v(0, -1));
        }
        _ => panic!("expected a penetrating outcome"),
    }
}

#[test]
fn parallel_ray_resolves_to_no_contact() {
    // A ray sliding parallel to the segment keeps a constant signed
    // distance: the near-zero denominator guard resolves the case
    // conservatively to no contact.
    let line = WideLine::new(v(0, 100), v(200, 100), Fx32::from_int(20));
    let ray = Ray2::new(v(50, 85), v(10, 0));
    let result = ray_trace_line_2(&ray, &line);
    assert!(matches!(result, Ray2TraceResult::Miss));
}

#[test]
fn fold_prefers_pop_over_hit_in_any_order() {
    let t = Fx32::from_q(1, 2).to_small();
    let n = v(0, -1).to_small();
    let hit = Ray2TraceResult::Hit(t, v(1, 2), n);
    let pop = Ray2TraceResult::Pop(v(3, 4), n);
    let miss = Ray2TraceResult::Miss;

    assert!(matches!(Ray2TraceResult::fold(hit, pop), Ray2TraceResult::Pop(..)));
    assert!(matches!(Ray2TraceResult::fold(pop, hit), Ray2TraceResult::Pop(..)));
    assert!(matches!(Ray2TraceResult::fold(miss, pop), Ray2TraceResult::Pop(..)));
    assert!(matches!(Ray2TraceResult::fold(pop, miss), Ray2TraceResult::Pop(..)));

    // Folding a whole collection keeps the pop whatever the order.
    let orders = [
        [hit, pop, miss],
        [pop, hit, miss],
        [miss, hit, pop],
        [miss, pop, hit],
    ];
    let mut i = 0;
    while i < orders.len() {
        let mut acc = Ray2TraceResult::Miss;
        let mut j = 0;
        while j < orders[i].len() {
            acc = Ray2TraceResult::fold(acc, orders[i][j]);
            j += 1;
        }
        assert!(matches!(acc, Ray2TraceResult::Pop(..)));
        i += 1;
    }
}

#[test]
fn fold_prefers_earlier_hit() {
    let n = v(0, -1).to_small();
    let early = Ray2TraceResult::Hit(Fx32::from_q(1, 4).to_small(), v(1, 2), n);
    let late = Ray2TraceResult::Hit(Fx32::from_q(3, 4).to_small(), v(5, 6), n);
    match Ray2TraceResult::fold(early, late) {
        Ray2TraceResult::Hit(t, _, _) => assert_eq!(t.x.x, 16384),
        _ => panic!("expected a hit"),
    }
    match Ray2TraceResult::fold(late, early) {
        Ray2TraceResult::Hit(t, _, _) => assert_eq!(t.x.x, 16384),
        _ => panic!("expected a hit"),
    }
}

#[test]
fn chain_has_n_arcs_and_n_minus_1_segments() {
    let points = vec![v(0, 0), v(10, 0), v(20, 10), v(30, 10)];
    let chain = PolyCapsule::new(&points, Fx32::from_int(2));
    assert_eq!(chain.arcs.len(), 4);
    assert_eq!(chain.lines.len(), 3);

    let two = vec![v(0, 0), v(10, 0)];
    let chain2 = PolyCapsule::new(&two, Fx32::from_int(2));
    assert_eq!(chain2.arcs.len(), 2);
    assert_eq!(chain2.lines.len(), 1);
}

#[test]
fn collect_concatenates_chains() {
    let a = PolyCapsule::new(&vec![v(0, 0), v(10, 0)], Fx32::from_int(2));
    let b = PolyCapsule::new(&vec![v(0, 20), v(10, 20), v(20, 20)], Fx32::from_int(2));
    let merged = PolyCapsule::collect(&vec![a, b]);
    assert_eq!(merged.arcs.len(), 5);
    assert_eq!(merged.lines.len(), 3);
}

#[test]
fn translate_shifts_every_primitive() {
    let chain = PolyCapsule::new(&vec![v(0, 0), v(10, 0)], Fx32::from_int(2));
    let moved = chain.translate(v(5, 7));
    assert_eq!(moved.lines[0].start, v(5, 7));
    assert_eq!(moved.lines[0].end, v(15, 7));
    assert_eq!(moved.arcs[0].circle.center, v(5, 7));
    assert_eq!(moved.arcs[1].circle.center, v(15, 7));
    assert_eq!(moved.lines[0].radius, Fx32::from_int(2));
}

#[test]
fn arc_filter_rejects_joint_side() {
    // An endpoint arc with its neighbor to the right rejects contacts
    // whose normal points rightward, and admits those facing up.
    let points = vec![v(100, 120), v(110, 120)];
    let chain = PolyCapsule::new(&points, Fx32::from_int(20));
    let up = v(0, -1).to_small();
    let toward_neighbor = v(1, 0).to_small();
    assert!(chain.arcs[0].filter_normal(up));
    assert!(!chain.arcs[0].filter_normal(toward_neighbor));
}
