use flow_field::field::{DEFAULT_COLUMNS, DEFAULT_ROWS};
use flow_field::fixed::UNIT;
use flow_field::particle::{Particle, HALF_HEIGHT, HALF_WIDTH};
use flow_field::simulation::Simulation;
use flow_field::vector::{Vec2, Vec3};
use std::cell::Cell;

fn heading(angle: i64) -> Vec2 {
    let radians = angle as f64 / 1e6;
    Vec2::new((radians.cos() * 1e6).round() as i32, (radians.sin() * 1e6).round() as i32)
}

#[test]
fn new_simulation_is_ready() {
    let sim = Simulation::new(300, 6_000_000, 20 * UNIT, heading);
    assert_eq!(sim.particles.particles.len(), 300);
    assert_eq!(sim.particles.count, 300);
    assert_eq!(sim.particles.max_speed, 6_000_000);
    assert_eq!(sim.vector_field.columns, DEFAULT_COLUMNS);
    assert_eq!(sim.vector_field.rows, DEFAULT_ROWS);
    assert_eq!(sim.vector_field.scale_factor, 20_000_000);
    assert_eq!(sim.vector_field.vectors.len(), 77 * 44);
    assert_eq!(sim.vector_field.vectors[0], Vec2::new(UNIT, 0));
    assert_eq!(sim.vector_field.noise_seed, Vec3 { x: 0, y: 0, z: 0 });
    for p in &sim.particles.particles {
        assert!(-HALF_WIDTH <= p.position.x && p.position.x < HALF_WIDTH);
        assert!(-HALF_HEIGHT <= p.position.y && p.position.y < HALF_HEIGHT);
        assert_eq!(p.velocity, Vec2::new(0, 0));
        assert!(0 <= p.acceleration.x && p.acceleration.x < UNIT);
        assert!(0 <= p.acceleration.y && p.acceleration.y < UNIT);
    }
}

#[test]
fn advance_redraws_the_field_before_the_particles_look() {
    let mut sim = Simulation::new(0, 6_000_000, 20 * UNIT, heading);
    // before the tick every cell near the origin points along x
    assert_eq!(sim.vector_field.vectors[0], Vec2::new(UNIT, 0));
    sim.particles.particles = vec![Particle::at(Vec2::new(0, 0), 6_000_000)];
    // a quarter turn everywhere: after the redraw every cell points along y
    let quarter_turn: i64 = 1_570_796;
    sim.advance(|_point: Vec3| quarter_turn, |_angle: i64| Vec2::new(0, UNIT));
    assert_eq!(sim.vector_field.vectors[0], Vec2::new(0, UNIT));
    let p = sim.particles.particles[0];
    assert_eq!(p.velocity, Vec2::new(0, UNIT));
    assert_eq!(p.position, Vec2::new(0, 0));
    assert_eq!(p.acceleration, Vec2::new(0, 0));
}

#[test]
fn advance_calls_the_noise_once_for_each_cell() {
    let calls = Cell::new(0u32);
    let mut sim = Simulation::new(10, 6_000_000, 20 * UNIT, heading);
    sim.advance(
        |point: Vec3| {
            calls.set(calls.get() + 1);
            point.x + point.y
        },
        heading,
    );
    assert_eq!(calls.get(), 77 * 44);
    assert_eq!(sim.vector_field.noise_seed, Vec3 { x: 7_700_000, y: 4_400_000, z: 9_000 });
    sim.advance(
        |point: Vec3| {
            calls.set(calls.get() + 1);
            point.z
        },
        heading,
    );
    assert_eq!(calls.get(), 2 * 77 * 44);
    assert_eq!(sim.vector_field.noise_seed, Vec3 { x: 7_700_000, y: 4_400_000, z: 18_000 });
}

#[test]
fn advance_matches_update_then_run_simulation() {
    let noise = |point: Vec3| 5 * point.x - 3 * point.y + point.z;
    let mut sim = Simulation::new(50, 6_000_000, 20 * UNIT, heading);
    let mut field = sim.vector_field.clone();
    let mut swarm = sim.particles.clone();
    sim.advance(noise, heading);
    field.update(noise, heading);
    swarm.run_simulation(&field);
    assert_eq!(sim.vector_field.vectors, field.vectors);
    assert_eq!(sim.vector_field.noise_seed, field.noise_seed);
    assert_eq!(sim.particles.particles, swarm.particles);
}

#[test]
fn a_long_run_keeps_every_promise() {
    let noise = |point: Vec3| {
        let x = point.x as f64 / 1e6;
        let y = point.y as f64 / 1e6;
        let z = point.z as f64 / 1e6;
        (((x * 1.7).sin() + (y * 2.3).cos() + (z * 40.0).sin()) * 2e6) as i64
    };
    let mut sim = Simulation::new(40, 6_000_000, 20 * UNIT, heading);
    let one = (UNIT as u64) * (UNIT as u64);
    for _ in 0..200 {
        sim.advance(noise, heading);
        for p in &sim.particles.particles {
            assert!(p.velocity.squared_length() <= 36 * one);
            assert!(-HALF_WIDTH <= p.position.x && p.position.x <= HALF_WIDTH);
            assert!(-HALF_HEIGHT <= p.position.y && p.position.y <= HALF_HEIGHT);
            assert_eq!(p.acceleration, Vec2::new(0, 0));
        }
        for cell in &sim.vector_field.vectors {
            let ax = cell.x.unsigned_abs() as u64 + 1;
            let ay = cell.y.unsigned_abs() as u64 + 1;
            assert!(cell.squared_length() <= one && ax * ax + ay * ay > one);
        }
        sim.particles.update_last_positions();
    }
    assert_eq!(sim.particles.particles.len(), 40);
    assert_eq!(sim.vector_field.vectors.len(), 3388);
    assert_eq!(sim.vector_field.noise_seed.z, 1_800_000);
}
