use reactor_phys::fx32::Fx32;

#[test]
fn it_works() {
    let a = Fx32::new(5000);
    let b = Fx32::new(4000);

    assert!(a == a, "eq");
    assert!(b == b, "eq");
    assert!(a != b, "eq");

    assert_eq!(a.add(b).x, 9000, "Fx32 add failed");
    assert_eq!(a.sub(b).x, 1000, "Fx32 sub failed");
    assert_eq!(a.neg().x, -5000, "Fx32 neg failed");

    let half = Fx32::from_q(1, 2);
    let quarter = Fx32::from_q(1, 4);
    let three_quarters = Fx32::from_q(3, 4);

    assert_eq!(half.add(quarter), three_quarters, "from_q / add failed");

    assert!(half.mul_big(half) == quarter, "mul");
    assert!(
        Fx32::from_q(1, 64).mul_big(Fx32::from_int(128)) == Fx32::from_int(2),
        "mul"
    );

    let biggest_root = Fx32::from_int(181);
    assert_eq!(
        biggest_root.mul_big(biggest_root),
        Fx32::from_int(181 * 181),
        "big * big mul"
    );

    assert_eq!(
        Fx32::from_q(1, 64).mul_big(Fx32::from_q(1, 32)),
        Fx32::from_q(1, 32 * 64),
        "small * small mul"
    );

    assert_eq!(
        Fx32::mul_precise(Fx32::from_q(1, 1024), Fx32::from_int(1024)),
        Fx32::from_int(1),
        "small * big mul"
    );

    assert_eq!(
        Fx32::mul_64(Fx32::from_q(1, 2048), Fx32::from_int(16384)),
        Fx32::from_int(8),
        "mul_64"
    );

    assert_eq!(
        Fx32::from_q(1, 1024).mul_small(Fx32::from_q(1, 2)),
        Fx32::from_q(1, 2048),
        "mul_small"
    );

    assert_eq!(
        Fx32::from_int(1).mul_small(Fx32::from_q(3, 2)),
        Fx32::from_q(3, 2),
        "mul_small"
    );

    assert_eq!(
        Fx32::from_int(512).div_32(Fx32::from_int(8)),
        Fx32::from_int(64),
        "div_32"
    );

    assert_eq!(
        Fx32::from_int(512).div_64(Fx32::from_int(8)),
        Fx32::from_int(64),
        "div_64"
    );

    assert_eq!(Fx32::from_int(1).square_64(), Fx32::from_int(1), "square");
    assert_eq!(Fx32::from_int(1).sqrt_64(), Fx32::from_int(1), "square_root");

    assert_eq!(Fx32::from_int(9).square_64(), Fx32::from_int(81), "square");
    assert_eq!(Fx32::from_int(9).sqrt_64(), Fx32::from_int(3), "sqrt");

    assert_eq!(
        Fx32::from_int(128).square_64(),
        Fx32::from_int(128 * 128),
        "big square"
    );

    assert_eq!(
        Fx32::from_int(128 * 128).sqrt_64(),
        Fx32::from_int(128),
        "big sqrt"
    );

    assert_eq!(
        Fx32::from_q(1, 10).to_small().mul_by_big(Fx32::from_int(511)),
        Fx32::from_q(3348072, 65536),
        "Fx32 * Fx32Small"
    );

    assert_eq!(
        Fx32::from_q(1, 10).to_small().mul_by_big(Fx32::from_int(16383)),
        Fx32::from_q(107341416, 65536),
        "Fx32 * Fx32Small"
    );

    assert_eq!(a.neg().abs(), a.abs(), "abs");
}

#[test]
fn add_then_sub_is_exact() {
    // Adding and subtracting the same scalar cancels exactly, even on
    // values with low bits set.
    let cases: [(i32, i32); 5] = [(1, 1), (65536, 3), (-77, 12345), (1234567, -1234567), (0, 9)];
    let mut i = 0;
    while i < cases.len() {
        let (av, bv) = cases[i];
        let a = Fx32::new(av);
        let b = Fx32::new(bv);
        assert_eq!(a.add(b).sub(b), a);
        i += 1;
    }
}

#[test]
fn mul_by_one_is_exact() {
    // The widened multiply by 1.0 returns its argument unchanged.
    let one = Fx32::from_int(1);
    assert_eq!(Fx32::new(12345).mul_64(one), Fx32::new(12345));
    assert_eq!(Fx32::new(-987654).mul_64(one), Fx32::new(-987654));
    assert_eq!(Fx32::new(1).mul_64(one), Fx32::new(1));
}

#[test]
fn truncation_rounds_toward_zero() {
    // The documented rounding strategy: narrowing rounds toward zero.
    assert_eq!(Fx32::new(-3).mul_64(Fx32::from_int(1)).x, -3);
    assert_eq!(Fx32::new(-65537).to_i32(), -1);
    assert_eq!(Fx32::new(65537).to_i32(), 1);
    assert_eq!(Fx32::from_q(-3, 2).x, -98304);
}

#[test]
fn sqrt_is_exact_floor() {
    assert_eq!(Fx32::from_int(2).sqrt_64().x, 92681);
    assert_eq!(Fx32::new(0).sqrt_64().x, 0);
    assert_eq!(Fx32::from_int(4).sqrt().x, 131072);
}
