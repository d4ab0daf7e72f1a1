//! A particle-life simulation core: typed point particles evolve under
//! pairwise attraction/repulsion forces on a spatial hash grid.
//!
//! The pipeline advances the particle population one step at a time:
//! a bucket-build pass files every particle into the grid cell derived
//! from its position, a force-integration pass accumulates pairwise
//! forces over the bounded neighborhood of each particle and integrates
//! velocity and position, and a grid-reset pass clears the cell heads.
//! All quantities are fixed-point integers; a debug inspector can audit
//! the bucket structure at any step boundary.

use vstd::prelude::*;

pub mod bucket;
pub mod fixed;
pub mod forces;
pub mod grid;
pub mod inspect;
pub mod laws;
pub mod params;
pub mod pipeline;
pub mod particle;
pub mod query;
pub mod rng;

pub use inspect::DebugReport;
pub use params::{Params, SimError};
pub use particle::Particle;
pub use pipeline::{DefaultKernel, InteractionKernel, OutputState, Simulation, StepPhase};
pub use query::{parse_url_query_string, ShaderStage};

verus! {

/// Scale of the fixed-point representation: the integer `FIXED_ONE`
/// stands for the real number 1.0.
pub const FIXED_ONE: i64 = 65536;

/// Largest admitted world extent (fixed-point).
pub const WORLD_MAX: i64 = 65536 * 1024;

/// Largest admitted well depth (fixed-point).
pub const WELL_MAX: i64 = 65536 * 1024;

/// Largest admitted particle count.
pub const N_MAX: u32 = 1048576;

/// Largest admitted number of grid cells per side.
pub const G_MAX: u32 = 1024;

/// Largest admitted number of particle types.
pub const TYPES_MAX: u32 = 256;

/// The "none" sentinel of the intrusive chain links and the grid
/// head slots.
pub const NO_LINK: u32 = 4294967295;

} // verus!
