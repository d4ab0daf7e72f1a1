//! Scalar simulation parameters and the type-by-type attraction matrix.
//!
//! A `Params` value is fixed for a run's lifetime: the pipeline is
//! (re)initialized from it, and edits made by a host GUI take effect
//! only on the next reload.  `randomize_matrix` regenerates the
//! attraction matrix uniformly in `[-1, 1]` (fixed-point) while holding
//! the number of types fixed.

use vstd::prelude::*;
use crate::{FIXED_ONE, WORLD_MAX, WELL_MAX, N_MAX, G_MAX, TYPES_MAX};
use crate::rng::rand_in;

verus! {

/// Why the simulation could not be (re)initialized.
#[derive(Clone, Copy, Debug, PartialEq, Eq, Structural)]
pub enum SimError {
    /// A count is zero, a scalar lies outside its documented interval,
    /// or the attraction matrix is not `num_types * num_types` entries
    /// in `[-FIXED_ONE, FIXED_ONE]`.  Fatal at init.
    ConfigurationError,
    /// The requested sizes exceed what the backing arrays may hold.
    /// Fatal, propagated to the caller; no partial state is built.
    ResourceExhaustion,
}

/// Every entry of the attraction matrix lies in
/// `[-FIXED_ONE, FIXED_ONE]`.
fn matrix_in_range(m: &Vec<i64>) -> (b: bool)
    ensures
        b <==> forall|j: int| 0 <= j < m.len() ==> -FIXED_ONE <= #[trigger] m[j] <= FIXED_ONE,
{
    let mut k: usize = 0;
    while k < m.len()
        invariant
            0 <= k <= m.len(),
            forall|j: int| 0 <= j < k ==> -FIXED_ONE <= #[trigger] m[j] <= FIXED_ONE,
        decreases m.len() - k,
    {
        let w = m[k];
        if w < -FIXED_ONE || w > FIXED_ONE {
            return false;
        }
        k += 1;
    }
    true
}

/// All scalar constants of a run, plus the attraction matrix.
///
/// Scalars are fixed-point with scale [`FIXED_ONE`].  The matrix is
/// row-major: the weight of type `a` toward type `b` is entry
/// `a * num_types + b`.
#[derive(Clone, Debug)]
pub struct Params {
    /// Extent of the world square: positions lie in `[0, world_size]`.
    pub world_size: i64,
    /// Integration step, in `(0, FIXED_ONE]`.
    pub dt: i64,
    /// Number of particle types, at least 1.
    pub num_types: u32,
    /// Number of particles, at least 1; fixed for the run.
    pub num_particles: u32,
    /// Grid cells per side of the world square, at least 1.
    pub num_grids_side: u32,
    /// Strength of the long-range term, in `[0, WELL_MAX]`.
    pub well_depth: i64,
    /// Weight of the long-range term, in `[0, FIXED_ONE]`.
    pub attract_coeff: i64,
    /// Weight of the short-range repulsive term, in `[0, FIXED_ONE]`.
    pub repulse_coeff: i64,
    /// Velocity damping per step, in `(0, FIXED_ONE]`.
    pub friction_coeff: i64,
    /// Radius below which two particles repel, in `[0, world_size]`.
    pub particle_radius: i64,
    /// Whether the pipeline advances on a tick.
    pub play: bool,
    /// Row-major `num_types * num_types` weights in
    /// `[-FIXED_ONE, FIXED_ONE]`.
    pub attraction_matrix: Vec<i64>,
}

impl Params {
    /// Every scalar lies in its documented interval and the matrix is
    /// square of the right dimension.
    pub open spec fn config_ok(&self) -> bool {
        &&& self.num_types >= 1
        &&& self.num_particles >= 1
        &&& self.num_grids_side >= 1
        &&& 0 < self.world_size
        &&& 0 < self.dt <= FIXED_ONE
        &&& 0 <= self.well_depth
        &&& 0 <= self.attract_coeff <= FIXED_ONE
        &&& 0 <= self.repulse_coeff <= FIXED_ONE
        &&& 0 < self.friction_coeff <= FIXED_ONE
        &&& 0 <= self.particle_radius <= self.world_size
        &&& self.attraction_matrix.len() == self.num_types * self.num_types
        &&& forall|k: int|
            0 <= k < self.attraction_matrix.len() ==> -FIXED_ONE
                <= #[trigger] self.attraction_matrix[k] <= FIXED_ONE
    }

    /// The requested sizes fit the backing arrays and the fixed-point
    /// range of the force computation.
    pub open spec fn within_caps(&self) -> bool {
        &&& self.num_types <= TYPES_MAX
        &&& self.num_particles <= N_MAX
        &&& self.num_grids_side <= G_MAX
        &&& self.world_size <= WORLD_MAX
        &&& self.well_depth <= WELL_MAX
        &&& self.num_grids_side as int <= self.world_size as int
    }

    /// A parameter set the pipeline can run on.
    pub open spec fn wf(&self) -> bool {
        self.config_ok() && self.within_caps()
    }

    /// The attraction weight of type `a` toward type `b`.
    pub open spec fn weight(&self, a: int, b: int) -> int
        recommends
            0 <= a < self.num_types,
            0 <= b < self.num_types,
    {
        self.attraction_matrix[a * self.num_types + b] as int
    }

    /// Check this parameter set, distinguishing an invalid
    /// configuration from one that is merely too large.
    pub fn validate(&self) -> (r: Result<(), SimError>)
        ensures
            r == Ok::<(), SimError>(()) <==> self.wf(),
            r == Err::<(), SimError>(SimError::ConfigurationError) <==> !self.config_ok(),
            r == Err::<(), SimError>(SimError::ResourceExhaustion) <==> self.config_ok()
                && !self.within_caps(),
    {
        let scalars_ok: bool = self.num_types >= 1 && self.num_particles >= 1
            && self.num_grids_side >= 1 && 0 < self.world_size && 0 < self.dt
            && self.dt <= FIXED_ONE && 0 <= self.well_depth && 0 <= self.attract_coeff
            && self.attract_coeff <= FIXED_ONE && 0 <= self.repulse_coeff
            && self.repulse_coeff <= FIXED_ONE && 0 < self.friction_coeff
            && self.friction_coeff <= FIXED_ONE && 0 <= self.particle_radius
            && self.particle_radius <= self.world_size;
        proof {
            assert((self.num_types as int) * (self.num_types as int) < 0x1_0000_0000_0000_0000)
                by (nonlinear_arith)
                requires 0 <= self.num_types < 0x1_0000_0000;
        }
        let dims_ok: bool = (self.attraction_matrix.len() as u64) == (self.num_types as u64)
            * (self.num_types as u64);
        if !(scalars_ok && dims_ok && matrix_in_range(&self.attraction_matrix)) {
            return Err(SimError::ConfigurationError);
        }
        if self.num_types > TYPES_MAX || self.num_particles > N_MAX
            || self.num_grids_side > G_MAX || self.world_size > WORLD_MAX
            || self.well_depth > WELL_MAX || (self.num_grids_side as i64) > self.world_size {
            return Err(SimError::ResourceExhaustion);
        }
        Ok(())
    }

    /// A default parameter set with a freshly randomized attraction
    /// matrix: three types, ten particles, a ten-unit world.
    pub fn new() -> (r: Params)
        ensures
            r.wf(),
            r.num_types == 3,
            r.num_particles == 10,
            r.num_grids_side == 16,
            r.play == true,
    {
        let mut p = Params {
            world_size: 10 * FIXED_ONE,
            dt: 66,
            num_types: 3,
            num_particles: 10,
            num_grids_side: 16,
            well_depth: 4 * FIXED_ONE,
            attract_coeff: FIXED_ONE,
            repulse_coeff: FIXED_ONE,
            friction_coeff: 58982,
            particle_radius: 6554,
            play: true,
            attraction_matrix: Vec::new(),
        };
        p.randomize_matrix();
        p
    }

    /// Regenerate the attraction matrix uniformly in
    /// `[-FIXED_ONE, FIXED_ONE]` per entry, holding `num_types` fixed.
    pub fn randomize_matrix(&mut self)
        requires
            old(self).num_types <= TYPES_MAX,
        ensures
            final(self).attraction_matrix.len() == final(self).num_types
                * final(self).num_types,
            forall|k: int|
                0 <= k < final(self).attraction_matrix.len() ==> -FIXED_ONE
                    <= #[trigger] final(self).attraction_matrix[k] <= FIXED_ONE,
            final(self).world_size == old(self).world_size,
            final(self).dt == old(self).dt,
            final(self).num_types == old(self).num_types,
            final(self).num_particles == old(self).num_particles,
            final(self).num_grids_side == old(self).num_grids_side,
            final(self).well_depth == old(self).well_depth,
            final(self).attract_coeff == old(self).attract_coeff,
            final(self).repulse_coeff == old(self).repulse_coeff,
            final(self).friction_coeff == old(self).friction_coeff,
            final(self).particle_radius == old(self).particle_radius,
            final(self).play == old(self).play,
    {
        proof {
            assert((self.num_types as int) * (self.num_types as int) <= TYPES_MAX as int
                * TYPES_MAX as int) by (nonlinear_arith)
                requires 0 <= self.num_types <= TYPES_MAX;
        }
        let want: usize = (self.num_types as usize) * (self.num_types as usize);
        let mut m: Vec<i64> = Vec::new();
        let mut k: usize = 0;
        while k < want
            invariant
                m.len() == k,
                0 <= k <= want,
                forall|j: int| 0 <= j < k ==> -FIXED_ONE <= #[trigger] m[j] <= FIXED_ONE,
            decreases want - k,
        {
            let w = rand_in(-FIXED_ONE, FIXED_ONE);
            m.push(w);
            k += 1;
        }
        self.attraction_matrix = m;
    }

    /// The flattened read-only view of the scalar force parameters, in
    /// upload order: step, well depth, attraction, repulsion, friction.
    pub fn to_slice(&self) -> (r: [i64; 5])
        ensures
            r[0] == self.dt,
            r[1] == self.well_depth,
            r[2] == self.attract_coeff,
            r[3] == self.repulse_coeff,
            r[4] == self.friction_coeff,
    {
        [self.dt, self.well_depth, self.attract_coeff, self.repulse_coeff, self.friction_coeff]
    }

    /// An exact copy of this parameter set.
    pub fn clone_params(&self) -> (r: Params)
        ensures
            r.world_size == self.world_size,
            r.dt == self.dt,
            r.num_types == self.num_types,
            r.num_particles == self.num_particles,
            r.num_grids_side == self.num_grids_side,
            r.well_depth == self.well_depth,
            r.attract_coeff == self.attract_coeff,
            r.repulse_coeff == self.repulse_coeff,
            r.friction_coeff == self.friction_coeff,
            r.particle_radius == self.particle_radius,
            r.play == self.play,
            r.attraction_matrix@ == self.attraction_matrix@,
            r.wf() <==> self.wf(),
            r.config_ok() <==> self.config_ok(),
            r.within_caps() <==> self.within_caps(),
    {
        let mut m: Vec<i64> = Vec::new();
        let mut k: usize = 0;
        while k < self.attraction_matrix.len()
            invariant
                k <= self.attraction_matrix.len(),
                m.len() == k,
                forall|j: int| 0 <= j < k ==> #[trigger] m[j] == self.attraction_matrix[j],
            decreases self.attraction_matrix.len() - k,
        {
            m.push(self.attraction_matrix[k]);
            k += 1;
        }
        proof {
            assert(m@ =~= self.attraction_matrix@);
        }
        Params {
            world_size: self.world_size,
            dt: self.dt,
            num_types: self.num_types,
            num_particles: self.num_particles,
            num_grids_side: self.num_grids_side,
            well_depth: self.well_depth,
            attract_coeff: self.attract_coeff,
            repulse_coeff: self.repulse_coeff,
            friction_coeff: self.friction_coeff,
            particle_radius: self.particle_radius,
            play: self.play,
            attraction_matrix: m,
        }
    }

    /// The attraction matrix as a flat slice.
    pub fn attraction_matrix_slice(&self) -> (r: &[i64])
        ensures
            r@ == self.attraction_matrix@,
    {
        self.attraction_matrix.as_slice()
    }
}

} // verus!
