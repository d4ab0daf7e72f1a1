use eden::fixed::{clamp_i64, fixed_mul};
use eden::rng::rand_in;
use eden::{Params, Particle, FIXED_ONE};

#[test]
fn fixed_mul_exact_products() {
    assert_eq!(fixed_mul(2 * FIXED_ONE, 3 * FIXED_ONE), 6 * FIXED_ONE);
    assert_eq!(fixed_mul(FIXED_ONE / 2, FIXED_ONE / 2), FIXED_ONE / 4);
    assert_eq!(fixed_mul(-3 * FIXED_ONE, FIXED_ONE / 2), -3 * FIXED_ONE / 2);
    assert_eq!(fixed_mul(0, 12345), 0);
}

#[test]
fn fixed_mul_rounds_toward_zero() {
    assert_eq!(fixed_mul(1, 1), 0);
    assert_eq!(fixed_mul(-1, 1), 0);
    assert_eq!(fixed_mul(3, FIXED_ONE / 2), 1);
    assert_eq!(fixed_mul(-3, FIXED_ONE / 2), -1);
}

#[test]
fn clamp_bounds() {
    assert_eq!(clamp_i64(5, 0, 10), 5);
    assert_eq!(clamp_i64(-5, 0, 10), 0);
    assert_eq!(clamp_i64(50, 0, 10), 10);
}

#[test]
fn rand_in_respects_bounds() {
    for _ in 0..200 {
        let v = rand_in(-7, 9);
        assert!(-7 <= v && v <= 9);
    }
    assert_eq!(rand_in(4, 4), 4);
}

#[test]
fn new_random_particle_is_admissible() {
    let p = Params::new();
    for _ in 0..50 {
        let q = Particle::new_random(&p);
        assert!(0 <= q.pos.0 && q.pos.0 <= p.world_size);
        assert!(0 <= q.pos.1 && q.pos.1 <= p.world_size);
        assert_eq!(q.vel, (0, 0));
        assert_eq!(q.mass, FIXED_ONE);
        assert!(q.kind < p.num_types);
    }
}

#[test]
fn probe_particle_values() {
    let q = Particle::new();
    assert_eq!(q.pos, (0, 0));
    assert_eq!(q.vel, (0, 0));
    assert_eq!(q.mass, 100 * FIXED_ONE);
    assert_eq!(q.kind, 0);
}

#[test]
fn particle_to_slice_order() {
    let mut q = Particle::new();
    q.pos = (7, -8);
    q.vel = (9, 10);
    q.mass = 11;
    q.kind = 2;
    assert_eq!(q.to_slice(), [7, -8, 9, 10, 11, 2]);
}
