//! The swarm: a fixed number of particles that share one speed limit.

use vstd::prelude::*;
use crate::field::VectorField;
use crate::fixed::UNIT;
use crate::particle::Particle;
use crate::random::random_between;
use crate::render::Segment;
use crate::vector::Vec2;

verus! {

/// `count` particles, once `init` has made them.
#[derive(Clone, Debug)]
pub struct Particles {
    pub particles: Vec<Particle>,
    pub max_speed: u32,
    pub count: usize,
}

/// What holds of a particle that was just made for a swarm with the speed
/// limit `max_speed`: it is on the screen, it does not move yet, its trail
/// starts where it is, and a first push of less than one along each axis
/// waits to set it in motion.
pub open spec fn newly_made(particle: Particle, max_speed: u32) -> bool {
    &&& particle.on_screen()
    &&& particle.velocity == Vec2::zero()
    &&& particle.last_position == particle.position
    &&& particle.max_speed == max_speed
    &&& 0 <= particle.acceleration.x < UNIT
    &&& 0 <= particle.acceleration.y < UNIT
}

impl Particles {
    /// A swarm that will hold `number_of_particles` particles and holds
    /// none yet.
    pub fn new(number_of_particles: usize, speed_limit: u32) -> (swarm: Particles)
        ensures
            swarm.particles@ == Seq::<Particle>::empty(),
            swarm.max_speed == speed_limit,
            swarm.count == number_of_particles,
    {
        Particles { particles: Vec::new(), max_speed: speed_limit, count: number_of_particles }
    }

    /// Makes the particles, each at a place of its own choosing and with a
    /// first push left to chance. Particles that the swarm held before are
    /// dropped.
    pub fn init(&mut self)
        ensures
            final(self).particles@.len() == old(self).count,
            forall|i: int|
                0 <= i < old(self).count ==> newly_made(
                    #[trigger] final(self).particles@[i],
                    old(self).max_speed,
                ),
            final(self).max_speed == old(self).max_speed,
            final(self).count == old(self).count,
    {
        self.particles = Vec::new();
        let mut made: usize = 0;
        while made < self.count
            invariant
                made <= self.count,
                self.particles@.len() == made,
                self.max_speed == old(self).max_speed,
                self.count == old(self).count,
                forall|i: int|
                    0 <= i < made ==> newly_made(#[trigger] self.particles@[i], self.max_speed),
            decreases self.count - made,
        {
            let mut particle = Particle::new(self.max_speed);
            let kick = Vec2 { x: random_between(0, UNIT), y: random_between(0, UNIT) };
            particle.apply_force(kick);
            self.particles.push(particle);
            made += 1;
        }
    }

    /// Moves every particle by one tick: the field pushes it, then it
    /// steps.
    pub fn run_simulation(&mut self, vector_field: &VectorField)
        ensures
            final(self).particles@.len() == old(self).particles@.len(),
            forall|i: int|
                0 <= i < old(self).particles@.len() ==> #[trigger] final(self).particles@[i] == old(self).particles@[i].following(*vector_field).stepped(),
            forall|i: int|
                0 <= i < old(self).particles@.len() ==> (#[trigger] final(self).particles@[i]).within_speed_limit() && final(self).particles@[i].on_screen(),
            final(self).max_speed == old(self).max_speed,
            final(self).count == old(self).count,
    {
        let n: usize = self.particles.len();
        let mut i: usize = 0;
        while i < n
            invariant
                i <= n,
                n == self.particles@.len(),
                n == old(self).particles@.len(),
                self.max_speed == old(self).max_speed,
                self.count == old(self).count,
                forall|k: int|
                    0 <= k < i ==> #[trigger] self.particles@[k] == old(self).particles@[k].following(*vector_field).stepped(),
                forall|k: int|
                    0 <= k < i ==> (#[trigger] self.particles@[k]).within_speed_limit()
                        && self.particles@[k].on_screen(),
                forall|k: int| i <= k < n ==> #[trigger] self.particles@[k] == old(self).particles@[k],
            decreases n - i,
        {
            let mut particle = self.particles[i];
            particle.follow(vector_field);
            particle.update();
            self.particles.set(i, particle);
            i += 1;
        }
    }

    /// The lines that show the swarm on the screen, particle by particle.
    pub fn display(&self) -> (trails: Vec<Segment>)
        ensures
            trails@.len() == self.particles@.len(),
            forall|i: int|
                0 <= i < self.particles@.len() ==> #[trigger] trails@[i] == self.particles@[i].trail(),
    {
        let n: usize = self.particles.len();
        let mut trails: Vec<Segment> = Vec::new();
        let mut i: usize = 0;
        while i < n
            invariant
                i <= n,
                n == self.particles@.len(),
                trails@.len() == i,
                forall|k: int| 0 <= k < i ==> #[trigger] trails@[k] == self.particles@[k].trail(),
            decreases n - i,
        {
            trails.push(self.particles[i].display());
            i += 1;
        }
        trails
    }

    /// Starts every trail anew at its particle's present position.
    pub fn update_last_positions(&mut self)
        ensures
            final(self).particles@.len() == old(self).particles@.len(),
            forall|i: int|
                0 <= i < old(self).particles@.len() ==> #[trigger] final(self).particles@[i] == old(self).particles@[i].anchored(),
            final(self).max_speed == old(self).max_speed,
            final(self).count == old(self).count,
    {
        let n: usize = self.particles.len();
        let mut i: usize = 0;
        while i < n
            invariant
                i <= n,
                n == self.particles@.len(),
                n == old(self).particles@.len(),
                self.max_speed == old(self).max_speed,
                self.count == old(self).count,
                forall|k: int|
                    0 <= k < i ==> #[trigger] self.particles@[k] == old(self).particles@[k].anchored(),
                forall|k: int| i <= k < n ==> #[trigger] self.particles@[k] == old(self).particles@[k],
            decreases n - i,
        {
            let mut particle = self.particles[i];
            particle.update_last_position();
            self.particles.set(i, particle);
            i += 1;
        }
    }
}

} // verus!
