use gravity_sim::field::cell_coord;
use gravity_sim::field::clamp_mag;
use gravity_sim::field::tdiv;
use gravity_sim::field::MassField;
use gravity_sim::params::SCALE;
use gravity_sim::particle::Particle;

fn total_mass(field: &MassField, level: usize) -> u64 {
    field.levels[level].cells.iter().sum()
}

#[test]
fn rasterization_conserves_total_mass() {
    let mut field = MassField::new(9);
    let particles = vec![
        Particle::new(0, 0, 0, 0),
        Particle::new(SCALE / 2, -SCALE / 2, 0, 0),
        Particle::new(-SCALE, SCALE - 1, 0, 0),
        Particle::new(12345, -54321, 100, -100),
        Particle::new(1, 2, 3, 4),
    ];
    field.rasterize(&particles);
    assert_eq!(total_mass(&field, 0), particles.len() as u64);
}

#[test]
fn out_of_range_positions_saturate_into_border_cells() {
    // Rasterization preserves total mass for any particle distribution,
    // even one that has drifted outside the visible region.
    let mut field = MassField::new(9);
    let particles = vec![
        Particle::new(i64::MAX, i64::MAX, 0, 0),
        Particle::new(i64::MIN + 1, i64::MIN + 1, 0, 0),
        Particle::new(4 * SCALE, -4 * SCALE, 0, 0),
    ];
    field.rasterize(&particles);
    assert_eq!(total_mass(&field, 0), 3);
    // The far corner cells took the saturated particles.
    let w = field.levels[0].width;
    let h = field.levels[0].height;
    assert_eq!(field.levels[0].cells[(h - 1) * w + (w - 1)], 1);
    assert_eq!(field.levels[0].cells[0], 1);
}

#[test]
fn every_level_carries_the_same_total_mass() {
    // Mass-preserving downsample on a synthetic uniform distribution: one
    // particle per cell of a stripe of the visible region.
    let mut field = MassField::new(9);
    let mut particles = Vec::new();
    for ix in 0..9i64 {
        for iy in 0..9i64 {
            let x = -SCALE + 1 + ix * (2 * SCALE / 9);
            let y = -SCALE + 1 + iy * (2 * SCALE / 9);
            particles.push(Particle::new(x, y, 0, 0));
        }
    }
    field.rasterize(&particles);
    assert_eq!(field.levels.len(), 3);
    for level in 0..field.levels.len() {
        assert_eq!(total_mass(&field, level), 81);
    }
}

#[test]
fn coarse_cells_hold_their_block_sums() {
    // All mass in one fine cell lands in the block above it at every level.
    let mut field = MassField::new(9);
    let particles = vec![Particle::new(0, 0, 0, 0); 7];
    field.rasterize(&particles);
    // Level 0 is 9 by 9; the origin maps to the center cell (4, 4).
    assert_eq!(field.levels[0].cells[4 * 9 + 4], 7);
    // Level 1 is 3 by 3; the block of cell (4, 4) is (1, 1).
    assert_eq!(field.levels[1].cells[1 * 3 + 1], 7);
    // Level 2 is the single root cell.
    assert_eq!(field.levels[2].cells[0], 7);
}

#[test]
fn clearing_zeroes_every_level() {
    let mut field = MassField::new(27);
    let particles = vec![Particle::new(5, 5, 0, 0), Particle::new(-5, -5, 0, 0)];
    field.rasterize(&particles);
    assert!(total_mass(&field, 0) > 0);
    field.clear();
    for level in 0..field.levels.len() {
        assert_eq!(total_mass(&field, level), 0);
    }
}

#[test]
fn rasterizing_again_replaces_the_previous_frame() {
    // Each frame's pyramid reflects only that frame's snapshot: the clear
    // phase wipes what the previous rasterization accumulated.
    let mut field = MassField::new(9);
    field.rasterize(&vec![Particle::new(0, 0, 0, 0); 5]);
    assert_eq!(total_mass(&field, 0), 5);
    field.rasterize(&vec![Particle::new(1000, 1000, 0, 0); 2]);
    assert_eq!(total_mass(&field, 0), 2);
}

#[test]
fn accumulation_order_does_not_matter() {
    // Additive, order-independent accumulation: rasterizing the same
    // particles in a different processing order yields the same grid.
    let particles = vec![
        Particle::new(0, 0, 0, 0),
        Particle::new(SCALE / 3, -SCALE / 3, 0, 0),
        Particle::new(0, 0, 0, 0),
        Particle::new(-SCALE, SCALE, 0, 0),
        Particle::new(40000, 40000, 0, 0),
    ];
    let mut reversed = particles.clone();
    reversed.reverse();

    let mut field_a = MassField::new(9);
    field_a.rasterize(&particles);
    let mut field_b = MassField::new(9);
    field_b.rasterize(&reversed);

    for level in 0..field_a.levels.len() {
        assert_eq!(field_a.levels[level].cells, field_b.levels[level].cells);
    }
}

#[test]
fn cell_coordinates_center_the_origin() {
    // On a 3-cell axis the visible range splits at +-SCALE/3.
    assert_eq!(cell_coord(0, 3), 1);
    assert_eq!(cell_coord(SCALE, 3), 2);
    assert_eq!(cell_coord(-SCALE, 3), 0);
    assert_eq!(cell_coord(SCALE / 2, 3), 1 + (3 * (SCALE as usize / 2)) / (2 * SCALE as usize));
    // An odd axis mirrors exactly: reflected positions land in reflected
    // cells.
    for x in [0i64, 1, -1, 777, 40000, SCALE, 2 * SCALE] {
        assert_eq!(cell_coord(-x, 2187), 2187 - 1 - cell_coord(x, 2187));
    }
}

#[test]
fn truncating_division_is_odd() {
    assert_eq!(tdiv(7, 2), 3);
    assert_eq!(tdiv(-7, 2), -3);
    assert_eq!(tdiv(0, 5), 0);
    assert_eq!(tdiv(-1, 5), 0);
}

#[test]
fn clamping_saturates_symmetrically() {
    assert_eq!(clamp_mag(10, 3), 3);
    assert_eq!(clamp_mag(-10, 3), -3);
    assert_eq!(clamp_mag(2, 3), 2);
    assert_eq!(clamp_mag(-3, 3), -3);
}
