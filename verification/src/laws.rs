//! Global laws of the pipeline.
//!
//! Each proof function here states one property of the whole
//! simulation that relates several components: pure kinematics when
//! the force terms are switched off, a population at rest staying
//! exactly in place over any number of passes, and the absence of any
//! force or neighbor candidate for a lone particle.

use vstd::prelude::*;
use vstd::arithmetic::div_mod::lemma_div_of0;
use crate::FIXED_ONE;
use crate::fixed::{lemma_tdiv_exact, sclamp, tdiv};
use crate::forces::{lemma_remove_val_all, rv_chain, spec_candidates, spec_integrate_one, spec_net_force, spec_pair_force, spec_step, F_MAX};
use crate::grid::{cell_chain, lemma_cell_chain_props};
use crate::params::Params;
use crate::particle::{particles_ok, Particle, V_MAX};

verus! {

/// With both force coefficients zero, every per-pair force vanishes.
proof fn lemma_pair_force_zero(p: Particle, q: Particle, params: Params, w: int)
    requires
        params.attract_coeff == 0,
        params.repulse_coeff == 0,
    ensures
        spec_pair_force(p, q, params, w) == (0int, 0int),
{
    let d2 = crate::forces::spec_d2(p, q);
    if d2 != 0 {
        let dc = if d2 < crate::forces::EPS2 {
            crate::forces::EPS2 as int
        } else {
            d2
        };
        assert(0 * w == 0) by (nonlinear_arith);
        lemma_div_of0(FIXED_ONE as int);
        assert(tdiv(0, FIXED_ONE as int) == 0);
        assert(0 * params.well_depth == 0) by (nonlinear_arith);
        assert(0 * (FIXED_ONE as int) == 0) by (nonlinear_arith);
        lemma_div_of0(dc);
        assert(tdiv(0, dc) == 0);
        let rr = 2 * params.particle_radius;
        let rr2 = rr * rr;
        if d2 < rr2 {
            let ratio = tdiv((rr2 - d2) * (FIXED_ONE as int), dc);
            assert(0 * ratio == 0) by (nonlinear_arith);
        }
        assert(crate::forces::spec_pair_gain(p, q, params, w) == 0);
        assert((q.pos.0 - p.pos.0) * 0 == 0) by (nonlinear_arith);
        assert((q.pos.1 - p.pos.1) * 0 == 0) by (nonlinear_arith);
    }
}

/// With both force coefficients zero, the net force is zero over any
/// candidate list.
proof fn lemma_net_force_zero(ps: Seq<Particle>, params: Params, i: int, cand: Seq<int>)
    requires
        params.attract_coeff == 0,
        params.repulse_coeff == 0,
    ensures
        spec_net_force(ps, params, i, cand) == (0int, 0int),
    decreases cand.len(),
{
    if cand.len() > 0 {
        lemma_net_force_zero(ps, params, i, cand.drop_first());
        lemma_pair_force_zero(
            ps[i],
            ps[cand[0]],
            params,
            crate::forces::spec_weight(ps, params, i, cand[0]),
        );
    }
}

/// Pure kinematics: with both force coefficients zero and no
/// friction, a pass leaves every velocity unchanged and advances every
/// position by exactly `velocity * dt`, clamped into the world square.
pub proof fn lemma_pure_kinematics(ps: Seq<Particle>, params: Params, i: int)
    requires
        params.wf(),
        particles_ok(ps, params),
        0 <= i < ps.len(),
        params.attract_coeff == 0,
        params.repulse_coeff == 0,
        params.friction_coeff == FIXED_ONE,
    ensures
        spec_integrate_one(ps, params, i).vel == ps[i].vel,
        spec_integrate_one(ps, params, i).pos.0 as int == sclamp(
            ps[i].pos.0 + tdiv(ps[i].vel.0 * params.dt, FIXED_ONE as int),
            0,
            params.world_size as int,
        ),
        spec_integrate_one(ps, params, i).pos.1 as int == sclamp(
            ps[i].pos.1 + tdiv(ps[i].vel.1 * params.dt, FIXED_ONE as int),
            0,
            params.world_size as int,
        ),
{
    lemma_net_force_zero(ps, params, i, spec_candidates(ps, params, i));
    let p = ps[i];
    assert(p.ok_for(params));
    assert(sclamp(0, -F_MAX as int, F_MAX as int) == 0);
    assert(0 * params.dt == 0) by (nonlinear_arith);
    lemma_div_of0(FIXED_ONE as int);
    assert(0 * (FIXED_ONE as int) == 0) by (nonlinear_arith);
    lemma_div_of0(p.mass as int);
    assert(crate::forces::spec_new_vel_axis(p.vel.0 as int, 0, p.mass as int, params) == tdiv(
        (p.vel.0 as int) * (FIXED_ONE as int),
        FIXED_ONE as int,
    ));
    lemma_tdiv_exact(p.vel.0 as int, FIXED_ONE as int);
    lemma_tdiv_exact(p.vel.1 as int, FIXED_ONE as int);
}

/// The store after `n` full passes.
pub open spec fn run_steps(ps: Seq<Particle>, params: Params, n: nat) -> Seq<Particle>
    decreases n,
{
    if n == 0 {
        ps
    } else {
        spec_step(run_steps(ps, params, (n - 1) as nat), params)
    }
}

/// A population at rest under pure kinematics stays exactly in place,
/// record for record, over any number of passes.
pub proof fn lemma_rest_stays(ps: Seq<Particle>, params: Params, n: nat)
    requires
        params.wf(),
        particles_ok(ps, params),
        params.attract_coeff == 0,
        params.repulse_coeff == 0,
        params.friction_coeff == FIXED_ONE,
        forall|i: int| 0 <= i < ps.len() ==> (#[trigger] ps[i]).vel == (0i64, 0i64),
        forall|i: int| 0 <= i < ps.len() ==> (#[trigger] ps[i]).links_clear(),
    ensures
        run_steps(ps, params, n) == ps,
    decreases n,
{
    if n > 0 {
        lemma_rest_stays(ps, params, (n - 1) as nat);
        assert forall|i: int| 0 <= i < ps.len() implies #[trigger] spec_step(ps, params)[i]
            == ps[i] by {
            lemma_pure_kinematics(ps, params, i);
            let p = ps[i];
            assert(p.vel.0 == 0 && p.vel.1 == 0);
            assert(0 * params.dt == 0) by (nonlinear_arith);
            lemma_div_of0(FIXED_ONE as int);
            assert(sclamp(p.pos.0 as int, 0, params.world_size as int) == p.pos.0 as int);
            assert(sclamp(p.pos.1 as int, 0, params.world_size as int) == p.pos.1 as int);
        }
        assert(spec_step(ps, params) =~= ps);
    }
}

/// A lone particle has no neighbor candidates and feels no force: the
/// traversal visits nothing and the net force is exactly zero.
pub proof fn lemma_single_particle(ps: Seq<Particle>, params: Params)
    requires
        params.wf(),
        ps.len() == 1,
    ensures
        spec_candidates(ps, params, 0).len() == 0,
        spec_net_force(ps, params, 0, spec_candidates(ps, params, 0)) == (0int, 0int),
{
    assert forall|c: int| #[trigger] rv_chain(ps, params, c, 0).len() == 0 by {
        lemma_cell_chain_props(ps, params, c, 1);
        let ch = cell_chain(ps, params, c, 1);
        assert(forall|j: int| 0 <= j < ch.len() ==> #[trigger] ch[j] == 0);
        lemma_remove_val_all(ch, 0);
    }
    assert(spec_candidates(ps, params, 0).len() == 0);
}

} // verus!
