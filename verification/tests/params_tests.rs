use eden::{Params, SimError, Simulation, FIXED_ONE, N_MAX};

fn default_params() -> Params {
    Params::new()
}

#[test]
fn randomize_matrix_is_square_and_in_range() {
    let mut p = default_params();
    p.num_types = 5;
    p.randomize_matrix();
    assert_eq!(p.attraction_matrix.len(), 25);
    for &w in p.attraction_matrix.iter() {
        assert!(-FIXED_ONE <= w && w <= FIXED_ONE);
    }
    assert_eq!(p.num_types, 5);
}

#[test]
fn randomize_matrix_keeps_scalars() {
    let mut p = default_params();
    let dt = p.dt;
    let ws = p.world_size;
    p.randomize_matrix();
    assert_eq!(p.dt, dt);
    assert_eq!(p.world_size, ws);
    assert_eq!(p.attraction_matrix.len(), 9);
}

#[test]
fn new_defaults() {
    let p = default_params();
    assert_eq!(p.num_types, 3);
    assert_eq!(p.num_particles, 10);
    assert_eq!(p.num_grids_side, 16);
    assert!(p.play);
    assert_eq!(p.attraction_matrix.len(), 9);
}

#[test]
fn to_slice_order() {
    let p = default_params();
    let s = p.to_slice();
    assert_eq!(s[0], p.dt);
    assert_eq!(s[1], p.well_depth);
    assert_eq!(s[2], p.attract_coeff);
    assert_eq!(s[3], p.repulse_coeff);
    assert_eq!(s[4], p.friction_coeff);
}

#[test]
fn attraction_matrix_slice_matches() {
    let p = default_params();
    assert_eq!(p.attraction_matrix_slice(), p.attraction_matrix.as_slice());
}

#[test]
fn clone_params_copies_everything() {
    let p = default_params();
    let q = p.clone_params();
    assert_eq!(q.dt, p.dt);
    assert_eq!(q.world_size, p.world_size);
    assert_eq!(q.num_types, p.num_types);
    assert_eq!(q.attraction_matrix, p.attraction_matrix);
    assert_eq!(q.play, p.play);
}

#[test]
fn zero_num_types_is_configuration_error() {
    let mut p = default_params();
    p.num_types = 0;
    p.attraction_matrix.clear();
    assert_eq!(Simulation::init(p).err(), Some(SimError::ConfigurationError));
}

#[test]
fn zero_num_particles_is_configuration_error() {
    let mut p = default_params();
    p.num_particles = 0;
    assert_eq!(Simulation::init(p).err(), Some(SimError::ConfigurationError));
}

#[test]
fn zero_num_grids_side_is_configuration_error() {
    let mut p = default_params();
    p.num_grids_side = 0;
    assert_eq!(Simulation::init(p).err(), Some(SimError::ConfigurationError));
}

#[test]
fn wrong_matrix_shape_is_configuration_error() {
    let mut p = default_params();
    p.attraction_matrix.pop();
    assert_eq!(Simulation::init(p).err(), Some(SimError::ConfigurationError));
}

#[test]
fn oversized_count_is_resource_exhaustion() {
    let mut p = default_params();
    p.num_particles = N_MAX + 1;
    assert_eq!(Simulation::init(p).err(), Some(SimError::ResourceExhaustion));
}

#[test]
fn valid_params_initialize() {
    let p = default_params();
    assert!(Simulation::init(p).is_ok());
}
