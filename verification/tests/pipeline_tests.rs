use eden::{DefaultKernel, OutputState, Params, Simulation, FIXED_ONE};

fn quiet_params() -> Params {
    // no forces at all: pure kinematics with no damping
    let mut p = Params::new();
    p.attract_coeff = 0;
    p.repulse_coeff = 0;
    p.friction_coeff = FIXED_ONE;
    p
}

fn snapshot(sim: &Simulation) -> Vec<[i64; 6]> {
    sim.render_view().iter().map(|p| p.to_slice()).collect()
}

fn min_pairwise_d2(sim: &Simulation) -> i128 {
    let v = sim.render_view();
    let mut best: i128 = i128::MAX;
    for i in 0..v.len() {
        for j in (i + 1)..v.len() {
            let dx = (v[j].pos.0 - v[i].pos.0) as i128;
            let dy = (v[j].pos.1 - v[i].pos.1) as i128;
            let d2 = dx * dx + dy * dy;
            if d2 < best {
                best = d2;
            }
        }
    }
    best
}

#[test]
fn chain_lengths_sum_to_particle_count() {
    let mut sim = Simulation::init(Params::new()).unwrap();
    for _ in 0..5 {
        sim.tick(true);
        let r = sim.debug_report();
        assert_eq!(r.total, 10);
        assert_eq!(r.cells, 256);
        assert_eq!(r.avg_scaled, 10 * FIXED_ONE / 256);
        assert!(r.mismatched.is_empty());
        assert!(r.longest <= 10);
    }
}

#[test]
fn no_particle_in_wrong_bucket_after_many_steps() {
    let mut p = Params::new();
    p.num_particles = 100;
    let mut sim = Simulation::init(p).unwrap();
    for _ in 0..20 {
        sim.tick(true);
    }
    let r = sim.debug_report();
    assert_eq!(r.total, 100);
    assert!(r.mismatched.is_empty());
}

#[test]
fn zero_velocity_particles_never_move() {
    let mut sim = Simulation::init(quiet_params()).unwrap();
    let before = snapshot(&sim);
    for _ in 0..10 {
        sim.tick(true);
    }
    assert_eq!(snapshot(&sim), before);
    assert_eq!(sim.step_count, 10);
}

#[test]
fn pure_kinematics_advances_by_velocity_dt() {
    let mut p = quiet_params();
    p.num_particles = 1;
    p.dt = 6554; // about a tenth of a unit per pass
    let mut sim = Simulation::init(p).unwrap();
    sim.role_a[0].pos = (2 * FIXED_ONE, 3 * FIXED_ONE);
    sim.role_a[0].vel = (FIXED_ONE, -FIXED_ONE / 2);
    let (x0, y0) = sim.role_a[0].pos;
    sim.tick(true);
    let moved_x = (FIXED_ONE as i128 * 6554 / FIXED_ONE as i128) as i64;
    let moved_y = -((FIXED_ONE as i128 / 2 * 6554 / FIXED_ONE as i128) as i64);
    assert_eq!(sim.role_a[0].pos.0, x0 + moved_x);
    assert_eq!(sim.role_a[0].pos.1, y0 + moved_y);
    assert_eq!(sim.role_a[0].vel, (FIXED_ONE, -FIXED_ONE / 2));
}

#[test]
fn pausing_leaves_rendered_array_byte_identical() {
    let mut sim = Simulation::init(Params::new()).unwrap();
    sim.tick(true);
    let frozen = snapshot(&sim);
    let count = sim.step_count;
    for _ in 0..25 {
        sim.tick(false);
        assert_eq!(snapshot(&sim), frozen);
        assert_eq!(sim.step_count, count);
    }
}

#[test]
fn single_particle_feels_no_force() {
    let mut p = Params::new();
    p.num_particles = 1;
    p.attract_coeff = FIXED_ONE;
    p.repulse_coeff = FIXED_ONE;
    let mut sim = Simulation::init(p).unwrap();
    let before = snapshot(&sim);
    for _ in 0..10 {
        sim.tick(true);
    }
    // velocity starts at zero and no neighbor ever contributes force
    assert_eq!(snapshot(&sim), before);
}

#[test]
fn overlapping_pair_separates_under_repulsion() {
    let mut p = Params::new();
    p.num_particles = 2;
    p.num_types = 1;
    p.attraction_matrix = vec![0];
    p.attract_coeff = 0;
    p.repulse_coeff = FIXED_ONE;
    p.friction_coeff = 58982;
    p.particle_radius = FIXED_ONE; // repulsion reaches out to 2.0
    p.num_grids_side = 5; // cell side 2.0: the pair is within one block
    p.dt = 655;
    let mut sim = Simulation::init(p).unwrap();
    sim.role_a[0].pos = (4 * FIXED_ONE, 5 * FIXED_ONE);
    sim.role_a[0].vel = (0, 0);
    sim.role_a[0].kind = 0;
    sim.role_a[1].pos = (5 * FIXED_ONE, 5 * FIXED_ONE); // separation 1.0 < 2 * radius
    sim.role_a[1].vel = (0, 0);
    sim.role_a[1].kind = 0;
    let before = min_pairwise_d2(&sim);
    sim.tick(true);
    let after = min_pairwise_d2(&sim);
    assert!(after > before, "separation did not increase: {} -> {}", before, after);
    // the pass is deterministic: repulsive gain 3.0 on each, damped
    // velocity 1768/65536, seventeen machine units of motion apart
    assert_eq!(sim.role_a[0].vel, (-1768, 0));
    assert_eq!(sim.role_a[1].vel, (1768, 0));
    assert_eq!(sim.role_a[0].pos, (4 * FIXED_ONE - 17, 5 * FIXED_ONE));
    assert_eq!(sim.role_a[1].pos, (5 * FIXED_ONE + 17, 5 * FIXED_ONE));
}

#[test]
fn near_coincident_pair_saturates_and_clamps_at_world_bounds() {
    // distance 1/16 sits right at the minimum-distance guard; the
    // resulting kick saturates at the velocity clamp and the motion is
    // clamped at the world edges (positions clamp, never wrap)
    let v_max: i64 = FIXED_ONE * 1024;
    let mut p = Params::new();
    p.num_particles = 2;
    p.num_types = 1;
    p.attraction_matrix = vec![0];
    p.attract_coeff = 0;
    p.repulse_coeff = FIXED_ONE;
    p.friction_coeff = FIXED_ONE;
    p.particle_radius = 10 * FIXED_ONE;
    p.dt = FIXED_ONE;
    let mut sim = Simulation::init(p).unwrap();
    sim.role_a[0].pos = (5 * FIXED_ONE, 5 * FIXED_ONE);
    sim.role_a[0].vel = (0, 0);
    sim.role_a[1].pos = (5 * FIXED_ONE + 4096, 5 * FIXED_ONE);
    sim.role_a[1].vel = (0, 0);
    sim.tick(true);
    assert_eq!(sim.role_a[0].vel, (-v_max, 0));
    assert_eq!(sim.role_a[1].vel, (v_max, 0));
    assert_eq!(sim.role_a[0].pos, (0, 5 * FIXED_ONE));
    assert_eq!(sim.role_a[1].pos, (10 * FIXED_ONE, 5 * FIXED_ONE));
}

#[test]
fn mutual_repulsion_never_collapses() {
    let mut p = Params::new();
    p.num_particles = 4;
    p.num_types = 2;
    p.attraction_matrix = vec![-FIXED_ONE; 4];
    p.attract_coeff = FIXED_ONE;
    p.repulse_coeff = 0;
    p.well_depth = FIXED_ONE;
    p.world_size = 20 * FIXED_ONE;
    p.dt = 328;
    let mut sim = Simulation::init(p).unwrap();
    let spots = [(8, 8), (12, 8), (8, 12), (12, 12)];
    for (i, &(x, y)) in spots.iter().enumerate() {
        sim.role_a[i].pos = (x * FIXED_ONE, y * FIXED_ONE);
        sim.role_a[i].vel = (0, 0);
        sim.role_a[i].kind = (i % 2) as u32;
    }
    let initial = min_pairwise_d2(&sim);
    for _ in 0..100 {
        sim.tick(true);
        assert!(min_pairwise_d2(&sim) >= initial);
    }
}

#[test]
fn two_reloads_differ_in_layout_only() {
    let mut p = Params::new();
    p.num_particles = 50;
    let a = Simulation::init(p.clone_params()).unwrap();
    let b = Simulation::init(p).unwrap();
    assert_eq!(a.render_view().len(), 50);
    assert_eq!(b.render_view().len(), 50);
    for q in a.render_view().iter().chain(b.render_view().iter()) {
        assert!(q.kind < 3);
        assert_eq!(q.vel, (0, 0));
    }
    let pos_a: Vec<(i64, i64)> = a.render_view().iter().map(|q| q.pos).collect();
    let pos_b: Vec<(i64, i64)> = b.render_view().iter().map(|q| q.pos).collect();
    assert_ne!(pos_a, pos_b, "independent reloads produced identical layouts");
}

#[test]
fn reload_failure_preserves_running_state() {
    let mut sim = Simulation::init(Params::new()).unwrap();
    sim.tick(true);
    let kept = snapshot(&sim);
    let count = sim.step_count;
    let mut bad = Params::new();
    bad.num_types = 0;
    bad.attraction_matrix.clear();
    assert!(sim.reload(bad).is_err());
    assert_eq!(snapshot(&sim), kept);
    assert_eq!(sim.step_count, count);
}

#[test]
fn handle_signal_dispatch() {
    let mut sim = Simulation::init(Params::new()).unwrap();
    let pending = Params::new();
    let play_before = sim.params.play;
    sim.handle_signal(&OutputState::TogglePlay, &pending).unwrap();
    assert_eq!(sim.params.play, !play_before);
    let report = sim.handle_signal(&OutputState::Debug, &pending).unwrap();
    assert!(report.is_some());
    let count = sim.step_count;
    sim.handle_signal(&OutputState::Step, &pending).unwrap();
    assert_eq!(sim.step_count, count + 1);
    sim.handle_signal(&OutputState::ReloadRequired, &pending).unwrap();
    assert_eq!(sim.step_count, 0);
}

#[test]
fn default_kernel_matches_builtin_pass() {
    let mut a = Simulation::init(Params::new()).unwrap();
    let mut b = Simulation::init(Params::new()).unwrap();
    // same state in both, whatever the random layouts were
    b.params = a.params.clone_params();
    b.role_a = a.role_a.clone();
    b.role_b = a.role_b.clone();
    a.tick(true);
    b.tick_with_kernel(&DefaultKernel, true);
    assert_eq!(snapshot(&a), snapshot(&b));
    assert_eq!(b.step_count, 1);
}

#[test]
fn step_counter_advances_only_when_running() {
    let mut sim = Simulation::init(Params::new()).unwrap();
    sim.params.play = false;
    let pending = Params::new();
    sim.handle_signal(&OutputState::NoRequest, &pending).unwrap();
    assert_eq!(sim.step_count, 0);
    sim.handle_signal(&OutputState::Step, &pending).unwrap();
    assert_eq!(sim.step_count, 1);
}
