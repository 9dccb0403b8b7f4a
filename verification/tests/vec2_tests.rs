use reactor_phys::fx32::Fx32;
use reactor_phys::vec2::Vec2;

fn v(x: i32, y: i32) -> Vec2 {
    Vec2 {
        x: Fx32::from_int(x),
        y: Fx32::from_int(y),
    }
}

#[test]
fn vec() {
    let a = v(2, 3);
    let b = v(4, 5);
    let c = v(6, 8);

    assert_eq!(a.add(b), c, "Vector add");

    assert_eq!(v(3, 4).length(), Fx32::from_int(5), "pythagorean triple");

    assert_eq!(v(10, 1).cross(), v(-1, 10), "2D cross product");

    assert_eq!(v(5, 5).reflect(v(0, -1).to_small()), v(5, -5), "reflect");

    assert_eq!(v(5, 5).reflect(v(-1, 0).to_small()), v(-5, 5), "reflect");
}

#[test]
fn reflect_flips_normal_component() {
    // The outgoing projection onto the unit normal is the negated
    // incoming one (exactly, on these axis-aligned cases).
    let n = v(0, -1).to_small();
    let velocity = v(7, 13);
    let incoming = velocity.dot_sm(n);
    let outgoing = velocity.reflect(n).dot_sm(n);
    assert_eq!(outgoing.x, -incoming.x);

    let n2 = v(1, 0).to_small();
    let incoming2 = velocity.dot_sm(n2);
    let outgoing2 = velocity.reflect(n2).dot_sm(n2);
    assert_eq!(outgoing2.x, -incoming2.x);
}

#[test]
fn reflect_res_scales_normal_component() {
    // Restitution one half: the outgoing normal speed is half the
    // incoming one, flipped.
    let n = v(0, -1).to_small();
    let res = Fx32::from_q(1, 2).to_small();
    let velocity = v(0, 8);
    let out = velocity.reflect_res(n, res);
    assert_eq!(out, v(0, -4));

    // Restitution zero: the normal component vanishes, tangential stays.
    let res0 = Fx32::new(0).to_small();
    let out0 = v(6, 8).reflect_res(n, res0);
    assert_eq!(out0, v(6, 0));
}

#[test]
fn normalized_is_unit_on_axes() {
    let n = v(0, 37).normalized();
    assert_eq!(n.to_big(), v(0, 1));
    let m = v(-12, 0).normalized();
    assert_eq!(m.to_big(), v(-1, 0));
}

#[test]
fn length_sq_of_small_vectors_truncates_to_zero() {
    // Components below one half-word square to less than one raw step.
    let tiny = Vec2 {
        x: Fx32::new(255),
        y: Fx32::new(255),
    };
    assert_eq!(tiny.length_sq().x, 0);
    assert_eq!(tiny.length().x, 0);
}
