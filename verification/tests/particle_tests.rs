use flow_field::field::VectorField;
use flow_field::fixed::UNIT;
use flow_field::particle::{Particle, HALF_HEIGHT, HALF_WIDTH};
use flow_field::particles::Particles;
use flow_field::render::{Point, Segment};
use flow_field::vector::{Vec2, Vec3};

fn heading(angle: i64) -> Vec2 {
    let radians = angle as f64 / 1e6;
    Vec2::new((radians.cos() * 1e6).round() as i32, (radians.sin() * 1e6).round() as i32)
}

fn single_cell(direction: Vec2) -> VectorField {
    let mut field = VectorField::with_dimensions(1, 1, 20 * UNIT);
    field.init_vectors(|_angle: i64| direction);
    field
}

#[test]
fn screen_is_768_by_450() {
    assert_eq!(HALF_WIDTH, 768_000_000);
    assert_eq!(HALF_HEIGHT, 450_000_000);
}

#[test]
fn particle_at_rests_where_it_is_put() {
    let p = Particle::at(Vec2::new(5, -6), 7);
    assert_eq!(p.position, Vec2::new(5, -6));
    assert_eq!(p.velocity, Vec2::new(0, 0));
    assert_eq!(p.acceleration, Vec2::new(0, 0));
    assert_eq!(p.last_position, Vec2::new(5, -6));
    assert_eq!(p.max_speed, 7);
}

#[test]
fn new_particle_rests_on_the_screen() {
    for _ in 0..200 {
        let p = Particle::new(6 * UNIT as u32);
        assert!(-HALF_WIDTH <= p.position.x && p.position.x < HALF_WIDTH);
        assert!(-HALF_HEIGHT <= p.position.y && p.position.y < HALF_HEIGHT);
        assert_eq!(p.velocity, Vec2::new(0, 0));
        assert_eq!(p.acceleration, Vec2::new(0, 0));
        assert_eq!(p.last_position, p.position);
        assert_eq!(p.max_speed, 6_000_000);
    }
}

#[test]
fn new_particles_are_scattered() {
    let first = Particle::new(1);
    let mut another_x = false;
    let mut another_y = false;
    let mut off_the_left_edge = false;
    let mut off_the_bottom_edge = false;
    for _ in 0..64 {
        let p = Particle::new(1);
        another_x = another_x || p.position.x != first.position.x;
        another_y = another_y || p.position.y != first.position.y;
        off_the_left_edge = off_the_left_edge || p.position.x != -HALF_WIDTH;
        off_the_bottom_edge = off_the_bottom_edge || p.position.y != -HALF_HEIGHT;
    }
    assert!(another_x && another_y && off_the_left_edge && off_the_bottom_edge);
}

#[test]
fn apply_force_adds_to_the_acceleration() {
    let mut p = Particle::at(Vec2::new(0, 0), 10);
    p.apply_force(Vec2::new(3, -4));
    assert_eq!(p.acceleration, Vec2::new(3, -4));
    p.apply_force(Vec2::new(10, 10));
    assert_eq!(p.acceleration, Vec2::new(13, 6));
    p.apply_force(Vec2::new(i32::MAX, i32::MIN));
    assert_eq!(p.acceleration, Vec2::new(i32::MAX, i32::MIN + 6));
    assert_eq!(p.position, Vec2::new(0, 0));
    assert_eq!(p.velocity, Vec2::new(0, 0));
}

#[test]
fn particle_picks_up_the_field_after_one_step() {
    let field = single_cell(Vec2::new(UNIT, 0));
    let mut p = Particle::at(Vec2::new(0, 0), 6 * UNIT as u32);
    p.follow(&field);
    assert_eq!(p.acceleration, Vec2::new(UNIT, 0));
    p.update();
    assert_eq!(p.velocity, Vec2::new(UNIT, 0));
    assert_eq!(p.position, Vec2::new(0, 0));
    assert_eq!(p.acceleration, Vec2::new(0, 0));
}

#[test]
fn particle_picks_up_no_more_than_its_speed_limit() {
    let field = single_cell(Vec2::new(UNIT, 0));
    let mut p = Particle::at(Vec2::new(0, 0), 500_000);
    p.follow(&field);
    p.update();
    assert_eq!(p.velocity, Vec2::new(500_000, 0));
    assert_eq!(p.position, Vec2::new(0, 0));
    assert_eq!(p.acceleration, Vec2::new(0, 0));
}

#[test]
fn update_moves_by_the_old_velocity() {
    let mut p = Particle::at(Vec2::new(100, 200), 1_000);
    p.velocity = Vec2::new(3, 4);
    p.acceleration = Vec2::new(10, -20);
    p.update();
    assert_eq!(p.position, Vec2::new(103, 204));
    assert_eq!(p.velocity, Vec2::new(13, -16));
    assert_eq!(p.acceleration, Vec2::new(0, 0));
    assert_eq!(p.last_position, Vec2::new(100, 200));
    p.update();
    assert_eq!(p.position, Vec2::new(116, 188));
    assert_eq!(p.velocity, Vec2::new(13, -16));
}

#[test]
fn update_holds_the_speed_limit() {
    let mut p = Particle::at(Vec2::new(0, 0), 5);
    p.apply_force(Vec2::new(30, 40));
    p.update();
    assert_eq!(p.velocity, Vec2::new(3, 4));
    let cases = [(6_000_000u32, 123_456_789, -7), (1, 5, 5), (0, 1, 1), (999, i32::MAX, i32::MIN)];
    for (max, ax, ay) in cases {
        let mut q = Particle::at(Vec2::new(0, 0), max);
        q.apply_force(Vec2::new(ax, ay));
        for _ in 0..3 {
            q.update();
            assert!(q.velocity.squared_length() <= (max as u64) * (max as u64));
            q.apply_force(Vec2::new(ax, ay));
        }
    }
}

#[test]
fn limit_cuts_the_velocity_alone() {
    let mut p = Particle::at(Vec2::new(9, 9), 5);
    p.velocity = Vec2::new(-6, 8);
    p.acceleration = Vec2::new(1, 2);
    p.limit();
    assert_eq!(p.velocity, Vec2::new(-3, 4));
    assert_eq!(p.position, Vec2::new(9, 9));
    assert_eq!(p.acceleration, Vec2::new(1, 2));
    assert_eq!(p.last_position, Vec2::new(9, 9));
    let mut slow = Particle::at(Vec2::new(0, 0), 5);
    slow.velocity = Vec2::new(3, 4);
    slow.limit();
    assert_eq!(slow.velocity, Vec2::new(3, 4));
}

#[test]
fn particle_beyond_the_right_edge_enters_on_the_left() {
    let mut p = Particle::at(Vec2::new(0, 0), 6_000_000);
    p.position.x = HALF_WIDTH + UNIT;
    p.update();
    assert_eq!(p.position.x, -HALF_WIDTH);
    assert_eq!(p.last_position, p.position);
    assert_eq!(p.position, Vec2::new(-HALF_WIDTH, 0));
}

#[test]
fn keep_on_screen_wraps_each_edge() {
    let mut right = Particle::at(Vec2::new(HALF_WIDTH + 1, 5), 1);
    right.last_position = Vec2::new(1, 1);
    right.keep_on_screen();
    assert_eq!(right.position, Vec2::new(-HALF_WIDTH, 5));
    assert_eq!(right.last_position, Vec2::new(-HALF_WIDTH, 5));

    let mut left = Particle::at(Vec2::new(-HALF_WIDTH - 1, 5), 1);
    left.keep_on_screen();
    assert_eq!(left.position, Vec2::new(HALF_WIDTH, 5));
    assert_eq!(left.last_position, Vec2::new(HALF_WIDTH, 5));

    let mut top = Particle::at(Vec2::new(5, HALF_HEIGHT + 1), 1);
    top.keep_on_screen();
    assert_eq!(top.position, Vec2::new(5, -HALF_HEIGHT));
    assert_eq!(top.last_position, Vec2::new(5, -HALF_HEIGHT));

    let mut bottom = Particle::at(Vec2::new(5, -HALF_HEIGHT - 1), 1);
    bottom.keep_on_screen();
    assert_eq!(bottom.position, Vec2::new(5, HALF_HEIGHT));
    assert_eq!(bottom.last_position, Vec2::new(5, HALF_HEIGHT));

    let mut corner = Particle::at(Vec2::new(i32::MAX, i32::MIN), 1);
    corner.keep_on_screen();
    assert_eq!(corner.position, Vec2::new(-HALF_WIDTH, HALF_HEIGHT));
    assert_eq!(corner.last_position, Vec2::new(-HALF_WIDTH, HALF_HEIGHT));
}

#[test]
fn keep_on_screen_leaves_a_particle_on_the_edge() {
    let mut p = Particle::at(Vec2::new(HALF_WIDTH, -HALF_HEIGHT), 1);
    p.last_position = Vec2::new(3, 3);
    p.velocity = Vec2::new(1, 2);
    let before = p;
    p.keep_on_screen();
    assert_eq!(p, before);
}

#[test]
fn particles_stay_on_the_screen() {
    let field = single_cell(Vec2::new(600_000, 800_000));
    let mut p = Particle::at(Vec2::new(HALF_WIDTH - 3 * UNIT, HALF_HEIGHT - 2 * UNIT), 6 * UNIT as u32);
    let mut wraps = 0;
    for _ in 0..2000 {
        let before = p.position;
        p.follow(&field);
        p.update();
        assert!(-HALF_WIDTH <= p.position.x && p.position.x <= HALF_WIDTH);
        assert!(-HALF_HEIGHT <= p.position.y && p.position.y <= HALF_HEIGHT);
        if p.position.x < before.x || p.position.y < before.y {
            wraps += 1;
            assert_eq!(p.last_position, p.position);
        }
    }
    assert!(wraps > 0);
}

#[test]
fn update_last_position_starts_the_trail_anew() {
    let mut p = Particle::at(Vec2::new(1, 2), 100);
    p.velocity = Vec2::new(10, 20);
    p.update();
    assert_eq!(p.position, Vec2::new(11, 22));
    assert_eq!(p.last_position, Vec2::new(1, 2));
    p.update_last_position();
    assert_eq!(p.last_position, Vec2::new(11, 22));
    assert_eq!(p.position, Vec2::new(11, 22));
    assert_eq!(p.velocity, Vec2::new(10, 20));
}

#[test]
fn follow_takes_the_cell_that_belongs_to_the_position() {
    let mut field = VectorField::with_dimensions(2, 2, 10 * UNIT);
    field.init_vectors(|angle: i64| Vec2::new((angle / 1_000_000) as i32, 100));
    // cells hold x = 0, 1, 3, 4
    let mut p = Particle::at(Vec2::new(0, 25 * UNIT), 1);
    p.follow(&field);
    assert_eq!(p.acceleration, Vec2::new(3, 100));
    let mut far = Particle::at(Vec2::new(700 * UNIT, 0), 1);
    far.follow(&field);
    assert_eq!(far.acceleration, Vec2::new(4, 100));
    assert_eq!(far.position, Vec2::new(700 * UNIT, 0));
    assert_eq!(far.velocity, Vec2::new(0, 0));
}

#[test]
fn follow_of_a_field_without_cells_changes_nothing() {
    let field = VectorField::new(20 * UNIT);
    let mut p = Particle::at(Vec2::new(1, 2), 3);
    p.acceleration = Vec2::new(7, 7);
    let before = p;
    p.follow(&field);
    assert_eq!(p, before);
}

#[test]
fn trail_runs_back_beyond_the_last_position() {
    let mut p = Particle::at(Vec2::new(10, 20), 1);
    p.last_position = Vec2::new(7, 16);
    // on the screen y points up: the particle is at (10, -20), the trail started at (7, -16)
    assert_eq!(
        p.display(),
        Segment { start: Point { x: 10, y: -20 }, end: Point { x: 1, y: -8 } }
    );
    let still = Particle::at(Vec2::new(-5, 6), 1);
    assert_eq!(still.display(), Segment { start: Point { x: -5, y: -6 }, end: Point { x: -5, y: -6 } });
}

#[test]
fn trail_with_the_largest_values() {
    let mut p = Particle::at(Vec2::new(i32::MIN, i32::MIN), 1);
    p.last_position = Vec2::new(i32::MAX, i32::MAX);
    let segment = p.display();
    assert_eq!(segment.start, Point { x: -2_147_483_648, y: 2_147_483_648 });
    assert_eq!(segment.end, Point { x: 10_737_418_237, y: -10_737_418_237 });
}

#[test]
fn display_leaves_the_particle_alone() {
    let mut p = Particle::at(Vec2::new(10, 20), 1);
    p.last_position = Vec2::new(7, 16);
    let before = p;
    let _ = p.display();
    assert_eq!(p, before);
}

#[test]
fn new_swarm_is_empty() {
    let swarm = Particles::new(300, 6_000_000);
    assert!(swarm.particles.is_empty());
    assert_eq!(swarm.count, 300);
    assert_eq!(swarm.max_speed, 6_000_000);
}

#[test]
fn init_makes_every_particle() {
    let mut swarm = Particles::new(300, 6_000_000);
    swarm.init();
    assert_eq!(swarm.particles.len(), 300);
    assert_eq!(swarm.count, 300);
    assert_eq!(swarm.max_speed, 6_000_000);
    for p in &swarm.particles {
        assert!(-HALF_WIDTH <= p.position.x && p.position.x < HALF_WIDTH);
        assert!(-HALF_HEIGHT <= p.position.y && p.position.y < HALF_HEIGHT);
        assert_eq!(p.velocity, Vec2::new(0, 0));
        assert_eq!(p.last_position, p.position);
        assert_eq!(p.max_speed, 6_000_000);
        assert!(0 <= p.acceleration.x && p.acceleration.x < UNIT);
        assert!(0 <= p.acceleration.y && p.acceleration.y < UNIT);
    }
}

#[test]
fn init_kicks_are_scattered() {
    let mut swarm = Particles::new(64, 1);
    swarm.init();
    let first = swarm.particles[0];
    assert!(swarm.particles.iter().any(|p| p.acceleration.x != first.acceleration.x));
    assert!(swarm.particles.iter().any(|p| p.acceleration.y != first.acceleration.y));
    assert!(swarm.particles.iter().any(|p| p.acceleration.x != 0));
    assert!(swarm.particles.iter().any(|p| p.acceleration.y != 0));
}

#[test]
fn init_twice_makes_the_swarm_once() {
    let mut swarm = Particles::new(5, 1);
    swarm.init();
    swarm.init();
    assert_eq!(swarm.particles.len(), 5);
}

#[test]
fn init_of_a_swarm_of_none() {
    let mut swarm = Particles::new(0, 1);
    swarm.init();
    assert!(swarm.particles.is_empty());
}

#[test]
fn run_simulation_moves_each_particle_by_itself() {
    let mut field = VectorField::with_dimensions(3, 2, 10 * UNIT);
    field.init_vectors(heading);
    let mut swarm = Particles::new(3, 2 * UNIT as u32);
    swarm.particles = vec![
        Particle::at(Vec2::new(0, 0), 2 * UNIT as u32),
        Particle::at(Vec2::new(0, 15 * UNIT), 2 * UNIT as u32),
        Particle::at(Vec2::new(HALF_WIDTH, HALF_HEIGHT), 2 * UNIT as u32),
    ];
    swarm.particles[2].velocity = Vec2::new(UNIT, UNIT);
    let mut expected = swarm.particles.clone();
    for p in expected.iter_mut() {
        p.follow(&field);
        p.update();
    }
    swarm.run_simulation(&field);
    assert_eq!(swarm.particles, expected);
    assert_eq!(swarm.particles[0].velocity, Vec2::new(UNIT, 0));
    assert_eq!(swarm.particles[2].position, Vec2::new(-HALF_WIDTH, -HALF_HEIGHT));
    assert_eq!(swarm.particles[2].last_position, Vec2::new(-HALF_WIDTH, -HALF_HEIGHT));
    assert_eq!(swarm.count, 3);
    assert_eq!(swarm.max_speed, 2_000_000);
}

#[test]
fn run_simulation_leaves_the_field_alone() {
    let mut field = VectorField::with_dimensions(3, 2, 10 * UNIT);
    field.init_vectors(heading);
    field.noise_seed = Vec3 { x: 1, y: 2, z: 3 };
    let before = field.clone();
    let mut swarm = Particles::new(10, UNIT as u32);
    swarm.init();
    swarm.run_simulation(&field);
    assert_eq!(field.vectors, before.vectors);
    assert_eq!(field.noise_seed, before.noise_seed);
}

#[test]
fn swarm_display_gives_one_trail_each() {
    let mut swarm = Particles::new(2, 1);
    swarm.particles = vec![Particle::at(Vec2::new(1, 2), 1), Particle::at(Vec2::new(10, 20), 1)];
    swarm.particles[1].last_position = Vec2::new(7, 16);
    let before = swarm.particles.clone();
    assert_eq!(
        swarm.display(),
        vec![
            Segment { start: Point { x: 1, y: -2 }, end: Point { x: 1, y: -2 } },
            Segment { start: Point { x: 10, y: -20 }, end: Point { x: 1, y: -8 } },
        ]
    );
    assert_eq!(swarm.particles, before);
}

#[test]
fn swarm_trails_start_anew() {
    let mut swarm = Particles::new(2, 100);
    swarm.particles = vec![Particle::at(Vec2::new(1, 2), 100), Particle::at(Vec2::new(10, 20), 100)];
    swarm.particles[0].velocity = Vec2::new(5, 5);
    swarm.particles[1].velocity = Vec2::new(-5, 5);
    let field = VectorField::new(UNIT);
    swarm.run_simulation(&field);
    assert_eq!(swarm.particles[0].last_position, Vec2::new(1, 2));
    assert_eq!(swarm.particles[1].last_position, Vec2::new(10, 20));
    swarm.update_last_positions();
    assert_eq!(swarm.particles[0].last_position, Vec2::new(6, 7));
    assert_eq!(swarm.particles[1].last_position, Vec2::new(5, 25));
    assert_eq!(swarm.particles[0].position, Vec2::new(6, 7));
    assert_eq!(swarm.particles[1].velocity, Vec2::new(-5, 5));
}
