use gravity_sim::field::MassField;
use gravity_sim::gravity::accel;
use gravity_sim::gravity::step_all;
use gravity_sim::gravity::step_particle;
use gravity_sim::params::DT_LIMIT;
use gravity_sim::params::POS_LIMIT;
use gravity_sim::params::SCALE;
use gravity_sim::params::VEL_LIMIT;
use gravity_sim::particle::Particle;
use gravity_sim::symmetry::simulate_pair;

#[test]
fn one_neighboring_mass_pulls_with_the_exact_kernel_value() {
    // One unit of mass one cell to the right on a 3-by-3 finest level:
    // the kernel gives m * dx * 16 / ((dx^2 + dy^2 + 1) * (level + 1))
    // = 1 * 1 * 16 / (2 * 1) = 8 toward it, and nothing vertically. The
    // single-cell root level skips its own neighborhood entirely.
    let mut field = MassField::new(3);
    field.rasterize(&vec![Particle::new(SCALE, 0, 0, 0)]);
    assert_eq!(field.levels[0].cells[1 * 3 + 2], 1);
    let a = accel(&field, 0, 0);
    assert_eq!(a, (8, 0));
}

#[test]
fn integration_applies_the_acceleration_over_the_step() {
    // With acceleration (8, 0) and a full one-second step, velocity and
    // position each gain exactly 8 fixed-point counts.
    let mut field = MassField::new(3);
    field.rasterize(&vec![Particle::new(SCALE, 0, 0, 0)]);
    let p = Particle::new(0, 0, 0, 0);
    let q = step_particle(&field, &p, SCALE);
    assert_eq!(q, Particle::new(8, 0, 8, 0));
}

#[test]
fn a_zero_time_step_moves_nothing() {
    // A thousand particles at rest, one frame with a zero delta: every
    // position (and velocity) is exactly unchanged.
    let mut field = MassField::new(81);
    let mut particles = Vec::new();
    for i in 0..1000i64 {
        let x = -SCALE + (i % 40) * (2 * SCALE / 40);
        let y = -SCALE + (i / 40) * (2 * SCALE / 25);
        particles.push(Particle::new(x, y, 0, 0));
    }
    field.rasterize(&particles);
    let stepped = step_all(&field, &particles, 0);
    assert_eq!(stepped, particles);
}

#[test]
fn a_zero_time_step_preserves_moving_particles_too() {
    let mut field = MassField::new(9);
    let particles = vec![Particle::new(100, -200, 3000, -4000), Particle::new(-1, 1, -2, 2)];
    field.rasterize(&particles);
    let stepped = step_all(&field, &particles, 0);
    assert_eq!(stepped, particles);
}

#[test]
fn stepped_particles_stay_within_the_saturation_limits() {
    let mut field = MassField::new(9);
    let particles = vec![Particle::new(0, 0, 0, 0); 1000];
    field.rasterize(&particles);
    let fast = Particle::new(POS_LIMIT, -POS_LIMIT, VEL_LIMIT, -VEL_LIMIT);
    let q = step_particle(&field, &fast, DT_LIMIT);
    assert!(q.pos_x.abs() <= POS_LIMIT && q.pos_y.abs() <= POS_LIMIT);
    assert!(q.vel_x.abs() <= VEL_LIMIT && q.vel_y.abs() <= VEL_LIMIT);
}

#[test]
fn a_mirrored_pair_at_rest_stays_mirrored() {
    // Two particles of equal mass placed symmetrically about the origin,
    // at rest: after several full-length steps they are still exact
    // point reflections of one another.
    let a0 = Particle::new(10000, 5000, 0, 0);
    let (a, b) = simulate_pair(a0, SCALE, 5);
    assert_eq!(b.pos_x, -a.pos_x);
    assert_eq!(b.pos_y, -a.pos_y);
    assert_eq!(b.vel_x, -a.vel_x);
    assert_eq!(b.vel_y, -a.vel_y);
}

#[test]
fn a_mirrored_pair_with_mirrored_velocities_stays_mirrored() {
    let a0 = Particle::new(-30000, 12345, 600, -150);
    let (a, b) = simulate_pair(a0, 1000, 4);
    assert_eq!(b.pos_x, -a.pos_x);
    assert_eq!(b.pos_y, -a.pos_y);
    assert_eq!(b.vel_x, -a.vel_x);
    assert_eq!(b.vel_y, -a.vel_y);
}

#[test]
fn zero_frames_leave_the_pair_at_its_start() {
    let a0 = Particle::new(777, -777, 10, -10);
    let (a, b) = simulate_pair(a0, SCALE, 0);
    assert_eq!(a, a0);
    assert_eq!(b, Particle::new(-777, 777, -10, 10));
}

#[test]
fn an_empty_pyramid_exerts_no_force() {
    let field = MassField::new(27);
    assert_eq!(accel(&field, 0, 0), (0, 0));
    assert_eq!(accel(&field, 12345, -4321), (0, 0));
}
