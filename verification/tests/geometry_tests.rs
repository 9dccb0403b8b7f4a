use reactor_phys::basis::Basis2;
use reactor_phys::circle::Circle;
use reactor_phys::fx32::Fx32;
use reactor_phys::ray2::Ray2;
use reactor_phys::raytrace::ray_trace_circle_2;
use reactor_phys::raytraceresult::Ray2TraceResult;
use reactor_phys::vec2::Vec2;
use reactor_phys::vec4::Vec4;

fn v(x: i32, y: i32) -> Vec2 {
    Vec2 {
        x: Fx32::from_int(x),
        y: Fx32::from_int(y),
    }
}

#[test]
fn start_inside_band_projects_onto_boundary() {
    // The ray starts inside the circle: the crossing abscissa clamps
    // to zero, and the raw contact point is projected out onto the
    // boundary along the displacement from the center.
    let ray = Ray2::new(v(0, 30), v(0, 40));
    let circle = Circle {
        center: v(0, 40),
        radius: Fx32::from_int(20),
    };
    match ray_trace_circle_2(&ray, &circle) {
        Ray2TraceResult::Hit(t, pos, normal) => {
            assert_eq!(t.x.x, 0);
            assert_eq!(pos, v(0, 20));
            assert_eq!(normal.to_big(), v(0, -1));
        }
        _ => panic!("expected a surface hit at fraction zero"),
    }
}

#[test]
fn ray_space_round_trip() {
    // to_space and from_space invert each other exactly on an
    // axis-aligned frame.
    let ray = Ray2::new(v(0, 0), v(0, 10));
    let basis = Basis2::new(&ray);
    let p = v(5, 7);
    let in_space = basis.to_space(&p);
    assert_eq!(in_space, v(7, -5));
    assert_eq!(basis.from_space(&in_space), p);
}

#[test]
fn degenerate_ray_keeps_raw_direction_as_axis() {
    // The documented quirk: a zero-length ray's frame uses the raw,
    // unnormalized direction verbatim.
    let ray = Ray2::new(v(0, 0), v(0, 0));
    let basis = Basis2::new(&ray);
    assert_eq!(basis.x.to_big(), v(0, 0));
}

#[test]
fn signed_distance_is_zero_on_boundary() {
    let circle = Circle {
        center: v(0, 0),
        radius: Fx32::from_int(5),
    };
    assert_eq!(circle.signed_distance(&v(3, 4)).x, 0);
    assert_eq!(circle.signed_distance(&v(0, 10)).x, 5 * 65536);
    assert_eq!(circle.signed_distance(&v(0, 3)).x, -2 * 65536);
}

#[test]
fn vec4_splats_and_adds() {
    let a = Vec4::new_3(Fx32::from_int(3));
    assert_eq!(a.x, Fx32::from_int(3));
    assert_eq!(a.y, Fx32::from_int(3));
    assert_eq!(a.z, Fx32::from_int(3));
    assert_eq!(a.w.x, 0);

    let b = Vec4::new_3(Fx32::from_int(4));
    let sum = a.add(b);
    assert_eq!(sum.x, Fx32::from_int(7));
    assert_eq!(sum.w.x, 0);
    assert_eq!(sum.sub(b), a);
    assert_eq!(a.neg().neg(), a);
    assert_eq!(a.scale(Fx32::from_int(2)).x, Fx32::from_int(6));
}
