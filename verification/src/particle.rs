//! Per-particle records.
//!
//! A particle has a position and a velocity (fixed-point), a mass, a
//! type, and two intrusive chain links.  The links are scratch fields
//! of the bucket structure: they are rebuilt on every step and carry no
//! meaning across steps.  Links are indices into the other role's
//! array, or [`NO_LINK`] for "none".

use vstd::prelude::*;
use crate::{FIXED_ONE, NO_LINK};
use crate::params::Params;
use crate::rng::rand_in;

verus! {

/// One particle record.
#[derive(Clone, Copy, Debug)]
pub struct Particle {
    /// Position in the world square, each axis in `[0, world_size]`.
    pub pos: (i64, i64),
    /// Velocity, each axis in `[-V_MAX, V_MAX]`.
    pub vel: (i64, i64),
    /// Mass, in `[MASS_MIN, MASS_MAX]`.
    pub mass: i64,
    /// Type, in `[0, num_types)`.
    pub kind: u32,
    /// Index of the next particle of the same bucket, or `NO_LINK`.
    pub forward: u32,
    /// Index of the previous particle of the same bucket, or `NO_LINK`.
    pub backward: u32,
}

/// Velocity clamp: a particle never moves faster than this (fixed-point).
pub const V_MAX: i64 = 65536 * 1024;

/// Smallest admitted mass (fixed-point, 1/16).
pub const MASS_MIN: i64 = 4096;

/// Largest admitted mass (fixed-point, 1024).
pub const MASS_MAX: i64 = 65536 * 1024;

impl Particle {
    /// The kinematic state a store may hold under `params`: position
    /// inside the world square, velocity and mass in range, type valid.
    pub open spec fn ok_for(&self, params: Params) -> bool {
        &&& 0 <= self.pos.0 <= params.world_size
        &&& 0 <= self.pos.1 <= params.world_size
        &&& -V_MAX <= self.vel.0 <= V_MAX
        &&& -V_MAX <= self.vel.1 <= V_MAX
        &&& MASS_MIN <= self.mass <= MASS_MAX
        &&& self.kind < params.num_types
    }

    /// Both links hold the empty sentinel.
    pub open spec fn links_clear(&self) -> bool {
        self.forward == NO_LINK && self.backward == NO_LINK
    }

    /// The same record with both links replaced.
    pub open spec fn with_links(&self, forward: u32, backward: u32) -> Particle {
        Particle { forward, backward, ..*self }
    }

    /// The kinematic fields of `self` and `other` agree; only the
    /// links may differ.
    pub open spec fn same_body(&self, other: Particle) -> bool {
        &&& self.pos == other.pos
        &&& self.vel == other.vel
        &&& self.mass == other.mass
        &&& self.kind == other.kind
    }

    /// The flattened record, in upload order.
    pub fn to_slice(&self) -> (r: [i64; 6])
        ensures
            r@ == seq![
                self.pos.0,
                self.pos.1,
                self.vel.0,
                self.vel.1,
                self.mass,
                self.kind as i64,
            ],
    {
        let r = [self.pos.0, self.pos.1, self.vel.0, self.vel.1, self.mass, self.kind as i64];
        proof {
            assert(r@ =~= seq![
                self.pos.0,
                self.pos.1,
                self.vel.0,
                self.vel.1,
                self.mass,
                self.kind as i64,
            ]);
        }
        r
    }

    /// A fresh particle: position uniform over the world square,
    /// velocity zero, unit mass, type uniform in `[0, num_types)`,
    /// links clear.
    pub fn new_random(params: &Params) -> (p: Particle)
        requires
            params.wf(),
        ensures
            p.ok_for(*params),
            p.vel == (0i64, 0i64),
            p.mass == FIXED_ONE,
            p.links_clear(),
    {
        let x = rand_in(0, params.world_size);
        let y = rand_in(0, params.world_size);
        let kind = rand_in(0, (params.num_types - 1) as i64) as u32;
        Particle {
            pos: (x, y),
            vel: (0, 0),
            mass: FIXED_ONE,
            kind,
            forward: NO_LINK,
            backward: NO_LINK,
        }
    }

    /// The host-spawned heavy probe particle: at the origin, at rest,
    /// mass 100, type 0, links clear.
    pub fn new() -> (p: Particle)
        ensures
            p.pos == (0i64, 0i64),
            p.vel == (0i64, 0i64),
            p.mass == 100 * FIXED_ONE,
            p.kind == 0u32,
            p.links_clear(),
    {
        Particle {
            pos: (0, 0),
            vel: (0, 0),
            mass: 100 * FIXED_ONE,
            kind: 0,
            forward: NO_LINK,
            backward: NO_LINK,
        }
    }
}

/// A whole store of particles is admissible under `params`.
pub open spec fn particles_ok(ps: Seq<Particle>, params: Params) -> bool {
    forall|i: int| 0 <= i < ps.len() ==> (#[trigger] ps[i]).ok_for(params)
}

/// Populate `num_particles` fresh random records.
pub fn init_random(params: &Params) -> (ps: Vec<Particle>)
    requires
        params.wf(),
    ensures
        ps.len() == params.num_particles,
        particles_ok(ps@, *params),
        forall|i: int| 0 <= i < ps.len() ==> (#[trigger] ps[i]).vel == (0i64, 0i64),
        forall|i: int| 0 <= i < ps.len() ==> (#[trigger] ps[i]).links_clear(),
{
    let n = params.num_particles as usize;
    let mut ps: Vec<Particle> = Vec::new();
    let mut i: usize = 0;
    while i < n
        invariant
            params.wf(),
            i <= n,
            ps.len() == i,
            particles_ok(ps@, *params),
            forall|j: int| 0 <= j < ps.len() ==> (#[trigger] ps[j]).vel == (0i64, 0i64),
            forall|j: int| 0 <= j < ps.len() ==> (#[trigger] ps[j]).links_clear(),
        decreases n - i,
    {
        let p = Particle::new_random(params);
        ps.push(p);
        i += 1;
    }
    ps
}

} // verus!
