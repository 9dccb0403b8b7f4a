use reactor_phys::cherenkov::CherenkovSim;
use reactor_phys::fx32::Fx32;
use reactor_phys::polycapsule::PolyCapsule;
use reactor_phys::ray2::Ray2;
use reactor_phys::raytrace::tick;
use reactor_phys::vec2::Vec2;

fn v(x: i32, y: i32) -> Vec2 {
    Vec2 {
        x: Fx32::from_int(x),
        y: Fx32::from_int(y),
    }
}

fn half_restitution() -> reactor_phys::fx32::Fx32Small {
    Fx32::from_q(1, 2).to_small()
}

fn zero_restitution() -> reactor_phys::fx32::Fx32Small {
    Fx32::new(0).to_small()
}

#[test]
fn dropped_particle_bounces_once_off_circle() {
    // A particle dropped straight onto the endpoint arc of a chain
    // registers exactly one surface hit before passing the obstacle's
    // height, and its downward velocity flips sign at that hit.
    let chain = PolyCapsule::new(&vec![v(100, 120), v(102, 120)], Fx32::from_int(20));
    let gravity = v(0, 2);
    let mut particle = Ray2::new(v(100, 20), v(0, 4));
    let mut bounce_ticks = 0;
    let mut velocity_flipped = false;
    let mut ticks = 0;
    while ticks < 12 && particle.start.y.x < 120 * 65536 {
        let was_falling = particle.get_dir().y.x > 0;
        let outcome = tick(
            &particle,
            &chain,
            gravity,
            zero_restitution(),
            half_restitution(),
        );
        particle = outcome.particle;
        if outcome.bounces > 0 {
            bounce_ticks += 1;
            if was_falling && particle.get_dir().y.x < 0 {
                velocity_flipped = true;
            }
        }
        ticks += 1;
    }
    assert_eq!(bounce_ticks, 1, "exactly one bouncing tick before passing the obstacle");
    assert!(velocity_flipped, "the vertical velocity reversed at the bounce");
    assert!(particle.start.y.x < 120 * 65536, "the particle never tunneled below the obstacle");
}

#[test]
fn penetrating_start_is_corrected_without_consuming_time() {
    // A particle already inside the capsule's radius pops to exactly
    // the radius above the segment; the pop consumes no budget, and
    // the following contact-free sub-step consumes all of it.
    let chain = PolyCapsule::new(&vec![v(0, 100), v(200, 100)], Fx32::from_int(20));
    let no_gravity = v(0, 0);
    let particle = Ray2::new(v(100, 90), v(0, 1));
    let outcome = tick(
        &particle,
        &chain,
        no_gravity,
        zero_restitution(),
        half_restitution(),
    );
    assert_eq!(outcome.pops, 1);
    assert_eq!(outcome.particle.start, v(100, 80));
    assert_eq!(outcome.remaining.x, 0);
    assert_eq!(outcome.steps, 2, "the pop took a sub-step but no budget; the miss took the rest");
    // The soft pop removed the inward velocity entirely.
    assert_eq!(outcome.particle.get_dir().y.x, 0);
}

#[test]
fn tick_consumes_exactly_one_time_unit() {
    // With no contact at all, a single sub-step consumes the whole
    // unit budget.
    let chain = PolyCapsule::new(&vec![v(0, 500), v(200, 500)], Fx32::from_int(20));
    let particle = Ray2::new(v(100, 20), v(0, 4));
    let outcome = tick(
        &particle,
        &chain,
        v(0, 2),
        zero_restitution(),
        half_restitution(),
    );
    assert_eq!(outcome.remaining.x, 0);
    assert_eq!(outcome.steps, 1);
    // Gravity acted once for the full tick, then the particle moved
    // by its whole displacement.
    assert_eq!(outcome.particle.get_dir(), v(0, 6));
    assert_eq!(outcome.particle.start, v(100, 26));
}

#[test]
fn bouncing_tick_splits_the_budget_exactly() {
    // One bounce at fraction one-half: the two sub-steps consume the
    // two halves, summing to exactly one.
    let chain = PolyCapsule::new(&vec![v(0, 100), v(200, 100)], Fx32::from_int(20));
    let no_gravity = v(0, 0);
    let particle = Ray2::new(v(100, 65), v(0, 20));
    let outcome = tick(
        &particle,
        &chain,
        no_gravity,
        zero_restitution(),
        half_restitution(),
    );
    assert_eq!(outcome.bounces, 1);
    assert_eq!(outcome.remaining.x, 0, "the consumed fractions sum to exactly one");
    // The hit at y = 80 used three quarters of the budget; the last
    // quarter carried the reflected velocity 2.5 units back up.
    let final_y = Fx32::from_q(155, 2);
    assert_eq!(
        outcome.particle.start,
        Vec2 {
            x: Fx32::from_int(100),
            y: final_y,
        }
    );
    // Half-elastic: incoming 20 units per tick becomes 10 upward.
    assert_eq!(outcome.particle.get_dir(), v(0, -10));
}

#[test]
fn simulation_context_runs_ticks() {
    let mut sim = CherenkovSim::new(Fx32::from_int(20));
    assert_eq!(sim.get_particle_position(), (400 * 65536, 300 * 65536));

    // A floor below the particle's drop line.
    sim.add_obstacle(&vec![v(300, 400), v(500, 400)]);
    assert_eq!(sim.obstacles.len(), 1);

    let mut steps = 0;
    let mut lowest = 300 * 65536;
    while steps < 30 {
        assert!(sim.step(), "the particle stayed inside the operating range");
        let (x, y) = sim.get_particle_position();
        assert_eq!(x, 400 * 65536, "a vertical drop stays on its column");
        if y > lowest {
            lowest = y;
        }
        steps += 1;
    }
    // The particle fell, but the floor at y = 400 (radius 20) held it.
    assert!(lowest > 300 * 65536);
    assert!(lowest <= 380 * 65536 + 65536);
}
