//! The whole engine: one field, one swarm, and the order in which a tick
//! moves them.

use vstd::prelude::*;
use crate::field::{
    cell_col, cell_row, drifted, redrawn, spiral_angle, VectorField, DEFAULT_COLUMNS, DEFAULT_ROWS,
};
use crate::particles::{newly_made, Particles};
use crate::vector::{Vec2, Vec3};

verus! {

/// A field and the swarm that drifts along it.
#[derive(Clone, Debug)]
pub struct Simulation {
    pub particles: Particles,
    pub vector_field: VectorField,
}

impl Simulation {
    /// An engine ready for its first tick: a swarm of `count` newly made
    /// particles, and a field of the default shape that holds one full turn.
    pub fn new<H: Fn(i64) -> Vec2>(count: usize, speed_limit: u32, scale: i32, heading: H) -> (sim:
        Simulation)
        requires
            forall|k: int|
                0 <= k < DEFAULT_COLUMNS * DEFAULT_ROWS ==> call_requires(
                    heading,
                    (#[trigger] spiral_angle(k, DEFAULT_COLUMNS * DEFAULT_ROWS) as i64,),
                ),
        ensures
            sim.particles.count == count,
            sim.particles.max_speed == speed_limit,
            sim.particles.particles@.len() == count,
            forall|i: int|
                0 <= i < count ==> newly_made(#[trigger] sim.particles.particles@[i], speed_limit),
            sim.vector_field.is_filled(),
            sim.vector_field.columns == DEFAULT_COLUMNS,
            sim.vector_field.rows == DEFAULT_ROWS,
            sim.vector_field.scale_factor == scale,
            sim.vector_field.noise_seed == (Vec3 { x: 0, y: 0, z: 0 }),
            forall|k: int|
                0 <= k < sim.vector_field.cell_count() ==> call_ensures(
                    heading,
                    (spiral_angle(k, sim.vector_field.cell_count()) as i64,),
                    #[trigger] sim.vector_field.vectors@[k],
                ),
    {
        let mut particles = Particles::new(count, speed_limit);
        particles.init();
        let mut vector_field = VectorField::new(scale);
        vector_field.init_vectors(heading);
        Simulation { particles, vector_field }
    }

    /// One tick. The field is redrawn first, and every particle is then
    /// pushed by the field as redrawn.
    pub fn advance<N: Fn(Vec3) -> i64, H: Fn(i64) -> Vec2>(&mut self, noise: N, heading: H)
        requires
            old(self).vector_field.is_filled(),
            forall|row: int, col: int|
                0 <= row < old(self).vector_field.rows && 0 <= col < old(self).vector_field.columns
                    ==> call_requires(
                    noise,
                    (#[trigger] old(self).vector_field.sample_point(row, col),),
                ),
            forall|row: int, col: int, angle: i64|
                0 <= row < old(self).vector_field.rows && 0 <= col < old(self).vector_field.columns
                    && #[trigger] call_ensures(
                    noise,
                    (old(self).vector_field.sample_point(row, col),),
                    angle,
                ) ==> call_requires(heading, (angle,)),
        ensures
            final(self).vector_field.is_filled(),
            forall|k: int|
                0 <= k < old(self).vector_field.cell_count() ==> redrawn(
                    noise,
                    heading,
                    old(self).vector_field.sample_point(
                        cell_row(k, old(self).vector_field.columns as int),
                        cell_col(k, old(self).vector_field.columns as int),
                    ),
                    #[trigger] final(self).vector_field.vectors@[k],
                ),
            forall|k: int|
                0 <= k < old(self).vector_field.cell_count() ==> (#[trigger] final(self).vector_field.vectors@[k]).is_unit() || final(self).vector_field.vectors@[k]
                    == Vec2::zero(),
            final(self).vector_field.noise_seed.x == if old(self).vector_field.rows > 0 {
                old(self).vector_field.columns * old(self).vector_field.increment
            } else {
                old(self).vector_field.noise_seed.x as int
            },
            final(self).vector_field.noise_seed.y == old(self).vector_field.rows * old(self).vector_field.increment,
            final(self).vector_field.noise_seed.z == drifted(
                old(self).vector_field.noise_seed.z as int,
            ),
            final(self).vector_field.columns == old(self).vector_field.columns,
            final(self).vector_field.rows == old(self).vector_field.rows,
            final(self).vector_field.scale_factor == old(self).vector_field.scale_factor,
            final(self).vector_field.increment == old(self).vector_field.increment,
            final(self).particles.particles@.len() == old(self).particles.particles@.len(),
            forall|i: int|
                0 <= i < old(self).particles.particles@.len() ==> #[trigger] final(self).particles.particles@[i] == old(self).particles.particles@[i].following(
                    final(self).vector_field,
                ).stepped(),
            final(self).particles.max_speed == old(self).particles.max_speed,
            final(self).particles.count == old(self).particles.count,
    {
        self.vector_field.update(noise, heading);
        self.particles.run_simulation(&self.vector_field);
    }
}

} // verus!
