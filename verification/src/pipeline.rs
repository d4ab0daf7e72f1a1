//! Pipeline orchestration.
//!
//! A `Simulation` owns the two particle arrays (role A and role B),
//! the grid index, and the parameter store, and advances them one full
//! pass per tick: bucket build reads role A and writes role B and the
//! grid, force integration reads role B and the grid and writes role
//! A, grid reset clears the heads.  The roles are fixed pipeline
//! positions, never a frame-parity toggle; the step counter only
//! advances when a full pass actually ran, so pausing can never
//! desynchronize the roles.  The renderer consumes role A.

use vstd::prelude::*;
use crate::NO_LINK;
use crate::bucket::build_buckets;
use crate::forces::{annotated_store, force_integrate, lemma_step_ok, spec_step};
use crate::grid::{empty_grid, num_cells, reset_grid};
use crate::inspect::{inspect, DebugReport};
use crate::params::{Params, SimError};
use crate::particle::{init_random, particles_ok, Particle};

verus! {

/// The stages of one pipeline pass.  A full pass runs
/// `Idle -> BucketBuild -> ForceIntegrate -> GridReset -> RenderReady
/// -> Idle`; a paused pass skips the three kernels and goes straight
/// to `RenderReady`, keeping the prior pass's role-A output.
#[derive(Clone, Copy, Debug, PartialEq, Eq, Structural)]
pub enum StepPhase {
    Idle,
    BucketBuild,
    ForceIntegrate,
    GridReset,
    RenderReady,
}

/// The phase transition of the step state machine.
pub open spec fn spec_next_phase(ph: StepPhase, play: bool) -> StepPhase {
    match ph {
        StepPhase::Idle => if play {
            StepPhase::BucketBuild
        } else {
            StepPhase::RenderReady
        },
        StepPhase::BucketBuild => StepPhase::ForceIntegrate,
        StepPhase::ForceIntegrate => StepPhase::GridReset,
        StepPhase::GridReset => StepPhase::RenderReady,
        StepPhase::RenderReady => StepPhase::Idle,
    }
}

/// Advance the step state machine by one stage.
pub fn next_phase(ph: &StepPhase, play: bool) -> (r: StepPhase)
    ensures
        r == spec_next_phase(*ph, play),
{
    match ph {
        StepPhase::Idle => if play {
            StepPhase::BucketBuild
        } else {
            StepPhase::RenderReady
        },
        StepPhase::BucketBuild => StepPhase::ForceIntegrate,
        StepPhase::ForceIntegrate => StepPhase::GridReset,
        StepPhase::GridReset => StepPhase::RenderReady,
        StepPhase::RenderReady => StepPhase::Idle,
    }
}

/// What the host GUI asks of the pipeline on one displayed frame.
#[derive(Clone, Copy, Debug, PartialEq, Eq, Structural)]
pub enum OutputState {
    /// Reinitialize from the pending parameter edits.
    ReloadRequired,
    /// Flip the play/pause flag.
    TogglePlay,
    /// Run the debug inspector.
    Debug,
    /// No request: advance normally.
    NoRequest,
    /// Run exactly one pass even while paused.
    Step,
}

/// An exact copy of a particle array.
fn copy_particles(v: &Vec<Particle>) -> (out: Vec<Particle>)
    ensures
        out@ == v@,
{
    let mut out: Vec<Particle> = Vec::new();
    let mut i: usize = 0;
    while i < v.len()
        invariant
            i <= v.len(),
            out.len() == i,
            forall|j: int| 0 <= j < i ==> #[trigger] out[j] == v[j],
        decreases v.len() - i,
    {
        out.push(v[i]);
        i += 1;
    }
    proof {
        assert(out@ =~= v@);
    }
    out
}

/// The fixed resource-binding contract a substitute interaction
/// kernel must satisfy: it reads the parameter block, the role-B
/// particle array, the attraction matrix, and the grid index, and
/// writes a role-A particle array of identical record layout — one
/// admissible record per particle, links reset to the empty sentinel.
/// A kernel is bound at reinitialization and never swapped mid-pass.
pub trait InteractionKernel {
    /// Consume the annotated role-B store and produce the next role-A
    /// store.
    fn integrate(
        &self,
        b: &Vec<Particle>,
        grid: &Vec<u32>,
        params: &Params,
        ps: Ghost<Seq<Particle>>,
    ) -> (out: Vec<Particle>)
        requires
            params.wf(),
            ps@.len() <= crate::N_MAX as int,
            particles_ok(ps@, *params),
            annotated_store(b@, grid@, ps@, *params),
        ensures
            out.len() == ps@.len(),
            particles_ok(out@, *params),
            forall|i: int| 0 <= i < out.len() ==> (#[trigger] out[i]).links_clear(),
    ;
}

/// The built-in interaction kernel: the verified force-integration
/// pass.
pub struct DefaultKernel;

impl InteractionKernel for DefaultKernel {
    fn integrate(
        &self,
        b: &Vec<Particle>,
        grid: &Vec<u32>,
        params: &Params,
        ps: Ghost<Seq<Particle>>,
    ) -> (out: Vec<Particle>)
        ensures
            out@ == spec_step(ps@, *params),
    {
        let out = force_integrate(b, grid, params, Ghost(ps@));
        proof {
            lemma_step_ok(ps@, *params);
        }
        out
    }
}

/// The simulation: parameter store, the two particle arrays, the grid
/// index, and the step counter.
pub struct Simulation {
    /// The run's parameters and attraction matrix.
    pub params: Params,
    /// Role A: what the renderer reads; input of bucket build, output
    /// of force integration.
    pub role_a: Vec<Particle>,
    /// Role B: output of bucket build, input of force integration.
    pub role_b: Vec<Particle>,
    /// The grid index: one head slot per cell, empty between passes.
    pub grid: Vec<u32>,
    /// Completed passes since the last (re)initialization.
    pub step_count: u64,
    /// The step state machine; `Idle` between passes.
    pub phase: StepPhase,
}

impl Simulation {
    /// The steady-state invariant between passes: admissible
    /// parameters, both arrays sized to the particle count, role A
    /// admissible, every bucket empty, the machine idle.
    pub open spec fn wf(&self) -> bool {
        &&& self.params.wf()
        &&& self.role_a.len() == self.params.num_particles
        &&& self.role_b.len() == self.params.num_particles
        &&& self.grid.len() == num_cells(self.params)
        &&& particles_ok(self.role_a@, self.params)
        &&& forall|c: int| 0 <= c < self.grid.len() ==> self.grid[c] == NO_LINK
        &&& self.phase == StepPhase::Idle
    }

    /// Create a simulation: validate the parameters, lay the particles
    /// out at random, allocate the grid.  Fails with
    /// `ConfigurationError` on an invalid configuration and with
    /// `ResourceExhaustion` on one that is too large; nothing is
    /// built on failure.
    pub fn init(params: Params) -> (r: Result<Simulation, SimError>)
        ensures
            r is Ok <==> params.wf(),
            r == Err::<Simulation, SimError>(SimError::ConfigurationError) <==> !params.config_ok(),
            r == Err::<Simulation, SimError>(SimError::ResourceExhaustion) <==> params.config_ok()
                && !params.within_caps(),
            r is Ok ==> {
                let s = r->Ok_0;
                &&& s.wf()
                &&& s.params == params
                &&& s.step_count == 0
                &&& s.role_a.len() == params.num_particles
                &&& forall|i: int| 0 <= i < s.role_a.len() ==> (#[trigger] s.role_a[i]).vel == (
                    0i64,
                    0i64,
                )
            },
    {
        match params.validate() {
            Err(e) => Err(e),
            Ok(()) => {
                let role_a = init_random(&params);
                let role_b = copy_particles(&role_a);
                let grid = empty_grid(&params);
                Ok(
                    Simulation {
                        params,
                        role_a,
                        role_b,
                        grid,
                        step_count: 0,
                        phase: StepPhase::Idle,
                    },
                )
            },
        }
    }

    /// One pipeline tick.
    ///
    /// With `play` set, run the full pass — bucket build, force
    /// integration, grid reset, in that order — and advance the step
    /// counter; role A then holds exactly the integrated store of the
    /// previous role A.  Without it, leave every field unchanged: the
    /// rendered array stays byte-identical and the counter does not
    /// advance.
    pub fn tick(&mut self, play: bool)
        requires
            old(self).wf(),
            old(self).step_count < u64::MAX,
        ensures
            final(self).wf(),
            !play ==> *final(self) == *old(self),
            play ==> final(self).role_a@ == spec_step(old(self).role_a@, old(self).params),
            play ==> final(self).params == old(self).params,
            play ==> final(self).step_count == old(self).step_count + 1,
            play ==> final(self).role_b.len() == old(self).role_a.len(),
            play ==> forall|i: int| 0 <= i < final(self).role_b.len()
                ==> (#[trigger] final(self).role_b[i]).same_body(old(self).role_a[i]),
    {
        if !play {
            return ;
        }
        let ghost orig_a = self.role_a@;
        proof {
            assert forall|i: int| 0 <= i < self.role_a.len() implies 0 <= (#[trigger] self.role_a[i]).pos.0
                && 0 <= self.role_a[i].pos.1 by {
                assert(self.role_a[i].ok_for(self.params));
            }
        }
        self.phase = next_phase(&self.phase, true);
        let b = build_buckets(&self.role_a, &self.params, &mut self.grid);
        self.role_b = b;
        self.phase = next_phase(&self.phase, true);
        proof {
            assert(annotated_store(self.role_b@, self.grid@, orig_a, self.params));
        }
        let a2 = force_integrate(&self.role_b, &self.grid, &self.params, Ghost(orig_a));
        self.role_a = a2;
        self.phase = next_phase(&self.phase, true);
        reset_grid(&mut self.grid);
        self.phase = next_phase(&self.phase, true);
        self.phase = next_phase(&self.phase, true);
        self.step_count = self.step_count + 1;
        proof {
            lemma_step_ok(orig_a, self.params);
        }
    }

    /// One pipeline tick under a caller-supplied interaction kernel.
    /// The kernel only promises the binding contract, so role A is
    /// known admissible with clear links but not pinned to the
    /// built-in force law.
    pub fn tick_with_kernel<K: InteractionKernel>(&mut self, kernel: &K, play: bool)
        requires
            old(self).wf(),
            old(self).step_count < u64::MAX,
        ensures
            final(self).wf(),
            !play ==> *final(self) == *old(self),
            play ==> final(self).params == old(self).params,
            play ==> final(self).step_count == old(self).step_count + 1,
    {
        if !play {
            return ;
        }
        let ghost orig_a = self.role_a@;
        proof {
            assert forall|i: int| 0 <= i < self.role_a.len() implies 0 <= (#[trigger] self.role_a[i]).pos.0
                && 0 <= self.role_a[i].pos.1 by {
                assert(self.role_a[i].ok_for(self.params));
            }
        }
        self.phase = next_phase(&self.phase, true);
        let b = build_buckets(&self.role_a, &self.params, &mut self.grid);
        self.role_b = b;
        self.phase = next_phase(&self.phase, true);
        proof {
            assert(annotated_store(self.role_b@, self.grid@, orig_a, self.params));
        }
        let a2 = kernel.integrate(&self.role_b, &self.grid, &self.params, Ghost(orig_a));
        self.role_a = a2;
        self.phase = next_phase(&self.phase, true);
        reset_grid(&mut self.grid);
        self.phase = next_phase(&self.phase, true);
        self.phase = next_phase(&self.phase, true);
        self.step_count = self.step_count + 1;
    }

    /// Run exactly one pass, regardless of the play flag: the one-shot
    /// step signal of a paused run.
    pub fn step_once(&mut self)
        requires
            old(self).wf(),
            old(self).step_count < u64::MAX,
        ensures
            final(self).wf(),
            final(self).role_a@ == spec_step(old(self).role_a@, old(self).params),
            final(self).params == old(self).params,
            final(self).step_count == old(self).step_count + 1,
    {
        self.tick(true);
    }

    /// Tear the current state down and reinitialize from `params`
    /// with a fresh random layout.  On failure the running simulation
    /// is preserved unchanged and the error is surfaced.
    pub fn reload(&mut self, params: Params) -> (r: Result<(), SimError>)
        requires
            old(self).wf(),
        ensures
            final(self).wf(),
            r is Ok <==> params.wf(),
            r == Err::<(), SimError>(SimError::ConfigurationError) <==> !params.config_ok(),
            r == Err::<(), SimError>(SimError::ResourceExhaustion) <==> params.config_ok()
                && !params.within_caps(),
            r is Ok ==> final(self).params == params && final(self).step_count == 0,
            r is Err ==> *final(self) == *old(self),
    {
        match Simulation::init(params) {
            Ok(s) => {
                *self = s;
                Ok(())
            },
            Err(e) => Err(e),
        }
    }

    /// The read-only particle array the renderer samples once per
    /// displayed frame.
    pub fn render_view(&self) -> (r: &Vec<Particle>)
        ensures
            r@ == self.role_a@,
    {
        &self.role_a
    }

    /// The particle count the renderer draws.
    pub fn particle_count(&self) -> (n: u32)
        ensures
            n == self.params.num_particles,
    {
        self.params.num_particles
    }

    /// Run the debug inspector on the current role-A store: build a
    /// scratch bucket structure from it and audit the chains.  The
    /// chain lengths always sum to exactly the particle count and no
    /// particle is filed in the wrong bucket.
    pub fn debug_report(&self) -> (r: DebugReport)
        requires
            self.wf(),
        ensures
            r.total == self.params.num_particles,
            r.mismatched.len() == 0,
            r.cells == num_cells(self.params),
    {
        proof {
            assert forall|i: int| 0 <= i < self.role_a.len() implies 0 <= (#[trigger] self.role_a[i]).pos.0
                && 0 <= self.role_a[i].pos.1 by {
                assert(self.role_a[i].ok_for(self.params));
            }
        }
        let mut grid = empty_grid(&self.params);
        let b = build_buckets(&self.role_a, &self.params, &mut grid);
        proof {
            assert forall|i: int| 0 <= i < b.len() implies 0 <= (#[trigger] b[i]).pos.0 && 0
                <= b[i].pos.1 by {
                assert(b[i].same_body(self.role_a[i]));
                assert(self.role_a[i].ok_for(self.params));
            }
        }
        inspect(&b, &grid, &self.params)
    }

    /// Dispatch one host signal: reload from the pending edits, flip
    /// play/pause, inspect, run one pass, or advance normally.
    pub fn handle_signal(&mut self, sig: &OutputState, pending: &Params) -> (r: Result<
        Option<DebugReport>,
        SimError,
    >)
        requires
            old(self).wf(),
            old(self).step_count < u64::MAX,
        ensures
            final(self).wf(),
            sig is ReloadRequired ==> (r is Ok <==> pending.wf()) && (r is Err ==> final(self).params
                == old(self).params),
            sig is TogglePlay ==> final(self).params.play == !old(self).params.play,
            sig is Debug ==> *final(self) == *old(self) && r is Ok && r->Ok_0 is Some,
            sig is Step ==> final(self).role_a@ == spec_step(old(self).role_a@, old(self).params)
                && final(self).step_count == old(self).step_count + 1,
            sig is NoRequest ==> (old(self).params.play ==> final(self).role_a@ == spec_step(
                old(self).role_a@,
                old(self).params,
            )) && (!old(self).params.play ==> *final(self) == *old(self)),
    {
        match sig {
            OutputState::ReloadRequired => {
                match self.reload(pending.clone_params()) {
                    Ok(()) => Ok(None),
                    Err(e) => Err(e),
                }
            },
            OutputState::TogglePlay => {
                self.params.play = !self.params.play;
                Ok(None)
            },
            OutputState::Debug => Ok(Some(self.debug_report())),
            OutputState::Step => {
                self.tick(true);
                Ok(None)
            },
            OutputState::NoRequest => {
                let play = self.params.play;
                self.tick(play);
                Ok(None)
            },
        }
    }
}

} // verus!
