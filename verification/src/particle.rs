//! One particle: it is pushed by the field, moves, is held to its speed
//! limit and re-enters on the far side where it leaves the screen.

use vstd::prelude::*;
use crate::field::VectorField;
use crate::random::random_between;
use crate::render::{Point, Segment};
use crate::vector::{lemma_component_below_length, lemma_rescaled_length, lemma_zero_length, Vec2};

verus! {

/// Half the width of the screen: positions run from `-HALF_WIDTH` to
/// `HALF_WIDTH`.
pub const HALF_WIDTH: i32 = 768_000_000;

/// Half the height of the screen: positions run from `-HALF_HEIGHT` to
/// `HALF_HEIGHT`.
pub const HALF_HEIGHT: i32 = 450_000_000;

/// A coordinate after the screen's edge was applied: one that lies beyond
/// `half` re-enters at `-half`, one that lies beyond `-half` at `half`.
pub open spec fn wrapped(c: int, half: int) -> int {
    if c > half {
        -half
    } else if c < -half {
        half
    } else {
        c
    }
}

/// Whatever state a particle is in, one tick later it is no faster than its
/// speed limit, it is on the screen, and nothing accelerates it.
pub proof fn lemma_step_keeps_limits(particle: Particle)
    ensures
        particle.stepped().within_speed_limit(),
        particle.stepped().on_screen(),
        particle.stepped().acceleration == Vec2::zero(),
        particle.stepped().max_speed == particle.max_speed,
{
    let velocity = particle.moved().velocity;
    let max = particle.max_speed as int;
    if velocity.length_squared() > max * max {
        assert(max * max >= 0) by (nonlinear_arith);
        lemma_zero_length(velocity);
        lemma_component_below_length(velocity);
        lemma_rescaled_length(velocity, max);
    }
}

/// A particle of mass one.
#[derive(Clone, Copy, Debug, PartialEq, Eq, Structural)]
pub struct Particle {
    pub position: Vec2,
    pub velocity: Vec2,
    pub acceleration: Vec2,
    pub last_position: Vec2,
    pub max_speed: u32,
}

impl Particle {
    /// The particle is on the screen.
    pub open spec fn on_screen(self) -> bool {
        &&& -HALF_WIDTH <= self.position.x <= HALF_WIDTH
        &&& -HALF_HEIGHT <= self.position.y <= HALF_HEIGHT
    }

    /// The particle is no faster than its speed limit.
    pub open spec fn within_speed_limit(self) -> bool {
        self.velocity.length_squared() <= self.max_speed * self.max_speed
    }

    /// The particle at rest at `position`.
    pub open spec fn resting(position: Vec2, max_speed: u32) -> Particle {
        Particle {
            position,
            velocity: Vec2::zero(),
            acceleration: Vec2::zero(),
            last_position: position,
            max_speed,
        }
    }

    /// The particle after `force` was added to what accelerates it.
    pub open spec fn pushed(self, force: Vec2) -> Particle {
        Particle { acceleration: self.acceleration.sum(force), ..self }
    }

    /// The particle after the field pushed it: by the direction of the cell
    /// that belongs to its position, or not at all where the field has no
    /// cell.
    pub open spec fn following(self, field: VectorField) -> Particle {
        if field.vectors@.len() == 0 {
            self
        } else {
            self.pushed(field.vectors@[field.cell_for(self.position)])
        }
    }

    /// The particle after one step of motion: the position moves by the old
    /// velocity, then the velocity grows by the acceleration, and the
    /// acceleration is used up.
    pub open spec fn moved(self) -> Particle {
        Particle {
            position: self.position.sum(self.velocity),
            velocity: self.velocity.sum(self.acceleration),
            acceleration: Vec2::zero(),
            ..self
        }
    }

    /// The particle with its velocity cut down to the speed limit.
    pub open spec fn slowed(self) -> Particle {
        Particle { velocity: self.velocity.limited(self.max_speed as int), ..self }
    }

    /// The particle brought back onto the screen. Where it re-enters, its
    /// trail starts anew at the place of re-entry.
    pub open spec fn kept_on_screen(self) -> Particle {
        let position = Vec2 {
            x: wrapped(self.position.x as int, HALF_WIDTH as int) as i32,
            y: wrapped(self.position.y as int, HALF_HEIGHT as int) as i32,
        };
        Particle {
            position,
            last_position: if position == self.position {
                self.last_position
            } else {
                position
            },
            ..self
        }
    }

    /// The particle one tick later: moved, slowed, kept on the screen.
    pub open spec fn stepped(self) -> Particle {
        self.moved().slowed().kept_on_screen()
    }

    /// The particle with its trail starting at its present position.
    pub open spec fn anchored(self) -> Particle {
        Particle { last_position: self.position, ..self }
    }

    /// The line that shows the particle on the screen, where y points up:
    /// from the particle back to where its trail starts, and twice as far
    /// again beyond that.
    pub open spec fn trail(self) -> Segment {
        Segment {
            start: Point { x: self.position.x as i64, y: (-self.position.y) as i64 },
            end: Point {
                x: (3 * self.last_position.x - 2 * self.position.x) as i64,
                y: (2 * self.position.y - 3 * self.last_position.y) as i64,
            },
        }
    }

    /// A particle at rest at `position`.
    pub fn at(position: Vec2, speed_limit: u32) -> (particle: Particle)
        ensures
            particle == Particle::resting(position, speed_limit),
    {
        Particle {
            position,
            velocity: Vec2 { x: 0, y: 0 },
            acceleration: Vec2 { x: 0, y: 0 },
            last_position: position,
            max_speed: speed_limit,
        }
    }

    /// A particle at rest somewhere on the screen, the place left to chance.
    pub fn new(speed_limit: u32) -> (particle: Particle)
        ensures
            particle == Particle::resting(particle.position, speed_limit),
            particle.on_screen(),
            particle.position.x < HALF_WIDTH,
            particle.position.y < HALF_HEIGHT,
    {
        let x = random_between(-HALF_WIDTH, HALF_WIDTH);
        let y = random_between(-HALF_HEIGHT, HALF_HEIGHT);
        Particle::at(Vec2 { x, y }, speed_limit)
    }

    /// Moves the particle by one tick.
    pub fn update(&mut self)
        ensures
            *final(self) == old(self).stepped(),
            final(self).within_speed_limit(),
            final(self).on_screen(),
            final(self).acceleration == Vec2::zero(),
            final(self).max_speed == old(self).max_speed,
    {
        self.position = self.position.saturating_add(self.velocity);
        self.velocity = self.velocity.saturating_add(self.acceleration);
        self.acceleration = Vec2 { x: 0, y: 0 };
        self.limit();
        self.keep_on_screen();
    }

    /// Cuts the velocity down to the speed limit.
    pub fn limit(&mut self)
        ensures
            *final(self) == old(self).slowed(),
            final(self).within_speed_limit(),
    {
        self.velocity = self.velocity.limit(self.max_speed);
    }

    /// Brings the particle back onto the screen.
    pub fn keep_on_screen(&mut self)
        ensures
            *final(self) == old(self).kept_on_screen(),
            final(self).on_screen(),
            old(self).on_screen() ==> *final(self) == *old(self),
    {
        if self.position.x > HALF_WIDTH {
            self.position.x = -HALF_WIDTH;
            self.update_last_position();
        } else if self.position.x < -HALF_WIDTH {
            self.position.x = HALF_WIDTH;
            self.update_last_position();
        }
        if self.position.y > HALF_HEIGHT {
            self.position.y = -HALF_HEIGHT;
            self.update_last_position();
        } else if self.position.y < -HALF_HEIGHT {
            self.position.y = HALF_HEIGHT;
            self.update_last_position();
        }
    }

    /// Starts the trail anew at the particle's present position.
    pub fn update_last_position(&mut self)
        ensures
            *final(self) == old(self).anchored(),
    {
        self.last_position = self.position;
    }

    /// Adds `force` to what accelerates the particle.
    pub fn apply_force(&mut self, force: Vec2)
        ensures
            *final(self) == old(self).pushed(force),
    {
        self.acceleration = self.acceleration.saturating_add(force);
    }

    /// Lets the field push the particle.
    pub fn follow(&mut self, vector_field: &VectorField)
        ensures
            *final(self) == old(self).following(*vector_field),
    {
        match vector_field.sample_index(self.position) {
            Some(index) => {
                let force = vector_field.vectors[index];
                self.apply_force(force);
            },
            None => {},
        }
    }

    /// The line that shows the particle on the screen.
    pub fn display(&self) -> (segment: Segment)
        ensures
            segment == self.trail(),
    {
        let x: i64 = self.position.x as i64;
        let y: i64 = self.position.y as i64;
        let last_x: i64 = self.last_position.x as i64;
        let last_y: i64 = self.last_position.y as i64;
        Segment {
            start: Point { x, y: -y },
            end: Point { x: 3 * last_x - 2 * x, y: 2 * y - 3 * last_y },
        }
    }
}

} // verus!
