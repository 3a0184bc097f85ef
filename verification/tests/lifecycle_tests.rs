use gravity_sim::lifecycle::SurfaceLifecycle;
use gravity_sim::lifecycle::SurfaceParams;
use gravity_sim::params::SCALE;
use gravity_sim::particle::Particle;
use gravity_sim::sim::Simulation;

#[test]
fn rebuilding_twice_is_structurally_identical_to_once() {
    let params = SurfaceParams { width: 1024, height: 768, image_count: 3 };
    let mut surface = SurfaceLifecycle::new(&params);
    surface.rebuild(&params);
    let once = (surface.extent_width, surface.extent_height, surface.framebuffers.len());
    surface.rebuild(&params);
    let twice = (surface.extent_width, surface.extent_height, surface.framebuffers.len());
    assert_eq!(once, twice);
    assert_eq!(twice, (1024, 768, 3));
}

#[test]
fn rebuilding_leaks_no_prior_generation_handles() {
    let params = SurfaceParams { width: 640, height: 480, image_count: 2 };
    let mut surface = SurfaceLifecycle::new(&params);
    let grown = SurfaceParams { width: 1920, height: 1080, image_count: 4 };
    surface.rebuild(&grown);
    surface.rebuild(&grown);
    assert_eq!(surface.generation, 2);
    assert_eq!(surface.framebuffers.len(), 4);
    for record in &surface.framebuffers {
        assert_eq!(record.generation, surface.generation);
    }
}

#[test]
fn rebuilding_tracks_the_new_surface_parameters() {
    let params = SurfaceParams { width: 800, height: 600, image_count: 3 };
    let mut surface = SurfaceLifecycle::new(&params);
    let resized = SurfaceParams { width: 1600, height: 900, image_count: 2 };
    surface.rebuild(&resized);
    assert_eq!(surface.extent_width, 1600);
    assert_eq!(surface.extent_height, 900);
    assert_eq!(surface.framebuffers.len(), 2);
}

#[test]
fn a_stale_surface_leaves_particles_and_pyramids_alone() {
    let params = SurfaceParams { width: 1024, height: 768, image_count: 3 };
    let initial = vec![
        Particle::new(100, 200, 0, 0),
        Particle::new(-300, 50, 1, -1),
    ];
    let mut sim = Simulation::new(initial.clone(), 81, &params);
    sim.run_frame(SCALE / 60);
    sim.scheduler.claim_image(1);
    let masses_before: Vec<u64> =
        sim.fields[0].levels.iter().map(|l| l.cells.iter().sum()).collect();
    let snapshots_before = sim.snapshots.clone();

    let resized = SurfaceParams { width: 2048, height: 1536, image_count: 4 };
    sim.handle_stale_surface(&resized);

    // The image-ownership table is resized and cleared, so no frame waits
    // on a fence of the previous surface generation.
    assert_eq!(sim.scheduler.image_owner.len(), 4);
    assert!(sim.scheduler.image_owner.iter().all(|o| o.is_none()));
    // The per-slot particle buffers and pyramids are independent of the
    // surface size and survive untouched.
    assert_eq!(sim.snapshots, snapshots_before);
    let masses_after: Vec<u64> =
        sim.fields[0].levels.iter().map(|l| l.cells.iter().sum()).collect();
    assert_eq!(masses_after, masses_before);
}

#[test]
fn a_fresh_simulation_starts_both_slots_from_the_initial_distribution() {
    let params = SurfaceParams { width: 640, height: 480, image_count: 2 };
    let initial = vec![Particle::new(1, 2, 3, 4), Particle::new(-1, -2, -3, -4)];
    let sim = Simulation::new(initial.clone(), 27, &params);
    assert_eq!(sim.snapshots.len(), 2);
    assert_eq!(sim.snapshots[0], initial);
    assert_eq!(sim.snapshots[1], initial);
    assert_eq!(sim.fields.len(), 2);
    assert_eq!(sim.fields[0].levels.len(), sim.fields[1].levels.len());
    assert_eq!(sim.scheduler.slot, 0);
}

#[test]
fn a_frame_with_zero_delta_keeps_every_position() {
    // End to end: 1000 particles at rest, uniformly distributed, one
    // frame with a zero time step: positions are unchanged.
    let params = SurfaceParams { width: 1024, height: 768, image_count: 3 };
    let mut initial = Vec::new();
    for i in 0..1000i64 {
        let x = -SCALE + (i % 40) * (2 * SCALE / 40);
        let y = -SCALE + (i / 40) * (2 * SCALE / 25);
        initial.push(Particle::new(x, y, 0, 0));
    }
    let mut sim = Simulation::new(initial.clone(), 81, &params);
    let slot = sim.scheduler.slot;
    sim.run_frame(0);
    assert_eq!(sim.snapshots[slot], initial);
}

#[test]
fn a_frame_writes_only_its_own_slot() {
    let params = SurfaceParams { width: 640, height: 480, image_count: 2 };
    let initial = vec![Particle::new(2000, -1500, 0, 0), Particle::new(-9000, 400, 5, 5)];
    let mut sim = Simulation::new(initial.clone(), 81, &params);
    let slot = sim.scheduler.slot;
    let other = 1 - slot;
    sim.run_frame(SCALE / 30);
    // The previous slot's snapshot, still owned by the in-flight frame,
    // is read but never written.
    assert_eq!(sim.snapshots[other], initial);
    // The current slot's pyramid reflects the previous snapshot.
    let mass: u64 = sim.fields[slot].levels[0].cells.iter().sum();
    assert_eq!(mass, initial.len() as u64);
}
