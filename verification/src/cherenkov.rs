//! The simulation context a host drives: the obstacle set, the moving
//! particle, and the integrator's named configuration parameters.

use vstd::prelude::*;

use crate::circle::Circle;
use crate::fx32::Fx32;
use crate::fx32::Fx32Small;
use crate::fx32::iabs;
use crate::polycapsule::PolyCapsule;
use crate::polycapsule::all_arcs;
use crate::polycapsule::all_lines;
use crate::polycapsule::points_wf;
use crate::ray2::Ray2;
use crate::raytrace::TickOutcome;
use crate::raytrace::tick_spec_rec;
use crate::raytrace::vel_ok;
use crate::vec2::Vec2;
use crate::wide_line::radius_ok;

verus! {

/// The integrator's operating range for one tick of a context: the
/// particle's position and its post-gravity velocity within the
/// bounds the fixed-point derivations accept. `step` runs exactly
/// when this holds.
pub open spec fn step_in_range(sim: CherenkovSim) -> bool {
    &&& iabs(sim.particle.start.x.x as int) <= 0x0600_0000
    &&& iabs(sim.particle.start.y.x as int) <= 0x0600_0000
    &&& iabs(sim.particle.dir.x.x + sim.gravity.x.x) <= 0x0015_0000
    &&& iabs(sim.particle.dir.y.x + sim.gravity.y.x) <= 0x0015_0000
}

/// A simulation context: static capsule-chain obstacles, the player's
/// probe circle at the context's cached radius, and the particle ray.
pub struct CherenkovSim {
    pub obstacles: Vec<PolyCapsule>,
    pub player: Circle,
    pub particle: Ray2,
    pub gravity: Vec2,
    pub pop_restitution: Fx32Small,
    pub hit_restitution: Fx32Small,
}

impl CherenkovSim {
    /// The context's invariant, established at creation and kept by
    /// every operation.
    pub open spec fn inv(self) -> bool {
        &&& forall|i: int| 0 <= i < self.obstacles@.len() ==> (#[trigger] self.obstacles@[i]).wf()
        &&& radius_ok(self.player.radius.x as int)
        &&& self.particle.wf()
        &&& vel_ok(self.particle.dir)
        &&& iabs(self.gravity.x.x as int) <= 0x0004_0000
        &&& iabs(self.gravity.y.x as int) <= 0x0004_0000
        &&& self.pop_restitution.inv()
        &&& self.hit_restitution.inv()
    }

    /// Creates a context with no obstacles and a particle at rest at
    /// the player's starting point. The restitution parameters: a
    /// penetrating resolution keeps none of the normal velocity (a
    /// soft pop), a surface hit keeps half of it.
    pub fn new(radius: Fx32) -> (r: CherenkovSim)
        requires
            radius_ok(radius.x as int),
        ensures
            r.inv(),
            r.obstacles@.len() == 0,
            r.player.radius == radius,
            r.player.center.x.x == 400 * 65536,
            r.player.center.y.x == 300 * 65536,
            r.particle.start == r.player.center,
            r.particle.dir.x.x == 0,
            r.particle.dir.y.x == 0,
            r.gravity.x.x == 0,
            r.gravity.y.x == 2 * 65536,
            r.pop_restitution.x.x == 0,
            r.hit_restitution.x.x == 32768,
    {
        let center = Vec2 { x: Fx32::from_int(400), y: Fx32::from_int(300) };
        let at_rest = Vec2 { x: Fx32 { x: 0 }, y: Fx32 { x: 0 } };
        CherenkovSim {
            obstacles: Vec::new(),
            player: Circle { center, radius },
            particle: Ray2::new(center, at_rest),
            gravity: Vec2 { x: Fx32 { x: 0 }, y: Fx32::from_int(2) },
            pop_restitution: Fx32 { x: 0 }.to_small(),
            hit_restitution: Fx32 { x: 32768 }.to_small(),
        }
    }

    /// Builds a capsule chain from the points at the context's cached
    /// radius and appends it to the obstacle set.
    pub fn add_obstacle(&mut self, points: &Vec<Vec2>)
        requires
            old(self).inv(),
            points_wf(points@, old(self).player.radius.x as int),
        ensures
            final(self).inv(),
            final(self).obstacles@.len() == old(self).obstacles@.len() + 1,
            final(self).obstacles@.drop_last() == old(self).obstacles@,
            final(self).obstacles@.last().arcs@.len() == points@.len(),
            final(self).obstacles@.last().lines@.len() == points@.len() - 1,
            ({
                let chain = final(self).obstacles@.last();
                &&& forall|i: int|
                    0 <= i < points@.len() - 1 ==> (#[trigger] chain.lines@[i]).start
                        == points@[i] && chain.lines@[i].end == points@[i + 1]
                        && chain.lines@[i].radius == old(self).player.radius
                &&& forall|i: int|
                    0 <= i < points@.len() ==> (#[trigger] chain.arcs@[i]).circle == (Circle {
                        center: points@[i],
                        radius: old(self).player.radius,
                    })
            }),
            final(self).player == old(self).player,
            final(self).particle == old(self).particle,
            final(self).gravity == old(self).gravity,
            final(self).pop_restitution == old(self).pop_restitution,
            final(self).hit_restitution == old(self).hit_restitution,
    {
        let chain = PolyCapsule::new(points, self.player.radius);
        self.obstacles.push(chain);
        proof {
            assert(self.obstacles@.drop_last() =~= old(self).obstacles@);
        }
    }

    /// Runs exactly one tick when the particle is inside the
    /// integrator's operating range; returns false and leaves the
    /// state untouched when it is not (the documented range of the
    /// fixed-point configuration).
    pub fn step(&mut self) -> (ok: bool)
        requires
            old(self).inv(),
        ensures
            final(self).inv(),
            final(self).obstacles == old(self).obstacles,
            final(self).player == old(self).player,
            final(self).gravity == old(self).gravity,
            final(self).pop_restitution == old(self).pop_restitution,
            final(self).hit_restitution == old(self).hit_restitution,
            ok == step_in_range(*old(self)),
            !ok ==> final(self).particle == old(self).particle,
            ok ==> ({
                let post_gravity = crate::ray2::ray_of(
                    old(self).particle.start,
                    (Vec2 {
                        x: (Fx32 {
                            x: (old(self).particle.dir.x.x + old(self).gravity.x.x) as i32,
                        }),
                        y: (Fx32 {
                            x: (old(self).particle.dir.y.x + old(self).gravity.y.x) as i32,
                        }),
                    }),
                );
                final(self).particle == tick_spec_rec(
                    post_gravity,
                    65536,
                    all_arcs(old(self).obstacles@),
                    all_lines(old(self).obstacles@),
                    old(self).pop_restitution,
                    old(self).hit_restitution,
                    4,
                ).0
            }),
    {
        let in_range = self.particle.start.x.x <= 0x0600_0000 && self.particle.start.x.x
            >= -0x0600_0000 && self.particle.start.y.x <= 0x0600_0000 && self.particle.start.y.x
            >= -0x0600_0000 && self.particle.get_dir().x.x + self.gravity.x.x <= 0x0015_0000
            && self.particle.get_dir().x.x + self.gravity.x.x >= -0x0015_0000
            && self.particle.get_dir().y.x + self.gravity.y.x <= 0x0015_0000
            && self.particle.get_dir().y.x + self.gravity.y.x >= -0x0015_0000;
        if !in_range {
            return false;
        }
        let merged = PolyCapsule::collect(&self.obstacles);
        let outcome: TickOutcome = crate::raytrace::tick(
            &self.particle,
            &merged,
            self.gravity,
            self.pop_restitution,
            self.hit_restitution,
        );
        self.particle = outcome.particle;
        true
    }

    /// Reads back the particle position in the scalar's native raw
    /// representation.
    pub fn get_particle_position(&self) -> (r: (i32, i32))
        ensures
            r.0 == self.particle.start.x.x,
            r.1 == self.particle.start.y.x,
    {
        (self.particle.start.x.x, self.particle.start.y.x)
    }
}

} // verus!
