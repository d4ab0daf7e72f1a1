//! The force-integration kernel.
//!
//! For each particle, enumerate the 3-by-3 block of grid cells around
//! its own cell (clamped at the grid edges), walk each cell's bucket
//! chain, and accumulate the pairwise force over every visited
//! particle other than itself.  The per-pair force along the
//! displacement `d` from `p` to `q` combines
//!
//! * a long-range term with gain
//!   `attract_coeff * weight(p, q) * well_depth / |d|^2`, attracting
//!   for a positive matrix weight and repelling for a negative one,
//!   and
//! * a short-range repulsive term, active below the separation
//!   `2 * particle_radius`, with gain
//!   `repulse_coeff * (4 * particle_radius^2 - |d|^2) / |d|^2`.
//!
//! The squared distance is clamped below by [`EPS2`] so that
//! near-coincident particles never produce a singular force, each gain
//! is saturated at [`GAIN_MAX`], and the accumulated net force is
//! saturated at [`F_MAX`] per axis; exact self-matches contribute
//! nothing.  Velocity then integrates as
//! `v' = clamp(v + F/mass * dt) * friction_coeff` and position as
//! `p' = clamp(p + v' * dt)` into the world square — out-of-range
//! positions are clamped, never wrapped.

use vstd::prelude::*;
use crate::{FIXED_ONE, NO_LINK, N_MAX};
use crate::fixed::{sclamp, tdiv, tdiv_i128, clamp_i128, lemma_mul_bounds, lemma_tdiv_quot_bound};
use crate::grid::{cell_chain, cell_coord, cell_coord_exec, cell_size, lemma_cell_chain_props, num_cells, spec_cell_of};
use crate::params::Params;
use crate::particle::{Particle, particles_ok, MASS_MIN, MASS_MAX, V_MAX};

verus! {

/// Smallest admitted squared distance (fixed-point, `(1/16)^2`).
pub const EPS2: i64 = 16777216;

/// Saturation of each per-pair gain term.
pub const GAIN_MAX: i64 = 1099511627776;

/// Saturation of the accumulated net force, per axis.
pub const F_MAX: i64 = 1099511627776;

/// Largest magnitude of one per-pair force component
/// (`WORLD_MAX * 2 * GAIN_MAX / FIXED_ONE`).
pub const PAIR_MAX: i128 = 2251799813685248;

/// A `u32` index sequence, viewed as integers.
pub open spec fn as_ints(s: Seq<u32>) -> Seq<int> {
    s.map_values(|x: u32| x as int)
}

/// `s` with every occurrence of `i` removed.
pub open spec fn remove_val(s: Seq<int>, i: int) -> Seq<int>
    decreases s.len(),
{
    if s.len() == 0 {
        s
    } else if s[0] == i {
        remove_val(s.drop_first(), i)
    } else {
        seq![s[0]] + remove_val(s.drop_first(), i)
    }
}

/// Removing from a concatenation removes from both halves.
pub proof fn lemma_remove_val_concat(a: Seq<int>, b: Seq<int>, i: int)
    ensures
        remove_val(a + b, i) == remove_val(a, i) + remove_val(b, i),
    decreases a.len(),
{
    if a.len() == 0 {
        assert(a + b =~= b);
        assert(remove_val(a, i) + remove_val(b, i) =~= remove_val(b, i));
    } else {
        assert((a + b).len() > 0);
        assert((a + b)[0] == a[0]);
        assert((a + b).drop_first() =~= a.drop_first() + b);
        lemma_remove_val_concat(a.drop_first(), b, i);
        if a[0] == i {
        } else {
            assert(seq![a[0]] + (remove_val(a.drop_first(), i) + remove_val(b, i)) =~= (seq![a[0]]
                + remove_val(a.drop_first(), i)) + remove_val(b, i));
        }
    }
}

/// Appending one value appends its removal image.
pub proof fn lemma_remove_val_push(s: Seq<int>, x: int, i: int)
    ensures
        remove_val(s.push(x), i) == remove_val(s, i) + if x == i {
            Seq::<int>::empty()
        } else {
            seq![x]
        },
{
    assert(s.push(x) =~= s + seq![x]);
    lemma_remove_val_concat(s, seq![x], i);
    assert(seq![x].drop_first() =~= Seq::<int>::empty());
    assert(remove_val(Seq::<int>::empty(), i) == Seq::<int>::empty());
    if x == i {
        assert(remove_val(seq![x], i) =~= Seq::<int>::empty());
    } else {
        assert(remove_val(seq![x], i) =~= seq![x] + Seq::<int>::empty());
        assert(seq![x] + Seq::<int>::empty() =~= seq![x]);
    }
}

/// Removing a value that is every element leaves nothing.
pub proof fn lemma_remove_val_all(s: Seq<int>, i: int)
    requires
        forall|j: int| 0 <= j < s.len() ==> s[j] == i,
    ensures
        remove_val(s, i).len() == 0,
    decreases s.len(),
{
    if s.len() > 0 {
        lemma_remove_val_all(s.drop_first(), i);
    }
}

/// Removal keeps every element inside the given range.
pub proof fn lemma_remove_val_elems(s: Seq<int>, i: int, n: int)
    requires
        forall|j: int| 0 <= j < s.len() ==> 0 <= #[trigger] s[j] < n,
    ensures
        forall|j: int| 0 <= j < remove_val(s, i).len() ==> 0 <= #[trigger] remove_val(s, i)[j]
            < n,
    decreases s.len(),
{
    if s.len() > 0 {
        assert(forall|j: int| 0 <= j < s.drop_first().len() ==> 0 <= #[trigger] s.drop_first()[j]
            < n);
        lemma_remove_val_elems(s.drop_first(), i, n);
        if s[0] != i {
            assert forall|j: int| 0 <= j < remove_val(s, i).len() implies 0 <= #[trigger] remove_val(
                s,
                i,
            )[j] < n by {
                if j == 0 {
                    assert(remove_val(s, i)[0] == s[0]);
                } else {
                    assert(remove_val(s, i)[j] == remove_val(s.drop_first(), i)[j - 1]);
                }
            }
        } else {
            assert(remove_val(s, i) == remove_val(s.drop_first(), i));
            assert forall|j: int| 0 <= j < remove_val(s, i).len() implies 0 <= #[trigger] remove_val(
                s,
                i,
            )[j] < n by {
                assert(remove_val(s, i)[j] == remove_val(s.drop_first(), i)[j]);
            }
        }
    }
}

/// The chain of cell `c`, with `i` itself removed: the neighbor
/// candidates one bucket contributes.
pub open spec fn rv_chain(ps: Seq<Particle>, params: Params, c: int, i: int) -> Seq<int> {
    remove_val(cell_chain(ps, params, c, ps.len() as int), i)
}

/// Every candidate a bucket contributes is a valid particle index.
pub proof fn lemma_rv_chain_elems(ps: Seq<Particle>, params: Params, c: int, i: int)
    ensures
        forall|j: int| 0 <= j < rv_chain(ps, params, c, i).len() ==> 0 <= #[trigger] rv_chain(
            ps,
            params,
            c,
            i,
        )[j] < ps.len(),
{
    lemma_cell_chain_props(ps, params, c, ps.len() as int);
    lemma_remove_val_elems(cell_chain(ps, params, c, ps.len() as int), i, ps.len() as int);
}

/// The candidates contributed by the cells `[x0, x1]` of grid row `r`,
/// in ascending column order.
pub open spec fn row_cand(
    ps: Seq<Particle>,
    params: Params,
    r: int,
    x0: int,
    x1: int,
    i: int,
) -> Seq<int> {
    let g = params.num_grids_side as int;
    rv_chain(ps, params, r * g + x0, i) + (if x1 >= x0 + 1 {
        rv_chain(ps, params, r * g + x0 + 1, i)
    } else {
        Seq::<int>::empty()
    }) + (if x1 >= x0 + 2 {
        rv_chain(ps, params, r * g + x0 + 2, i)
    } else {
        Seq::<int>::empty()
    })
}

/// Every candidate a block row contributes is a valid particle index.
pub proof fn lemma_row_cand_elems(
    ps: Seq<Particle>,
    params: Params,
    r: int,
    x0: int,
    x1: int,
    i: int,
)
    ensures
        forall|j: int| 0 <= j < row_cand(ps, params, r, x0, x1, i).len() ==> 0
            <= #[trigger] row_cand(ps, params, r, x0, x1, i)[j] < ps.len(),
{
    let g = params.num_grids_side as int;
    lemma_rv_chain_elems(ps, params, r * g + x0, i);
    lemma_rv_chain_elems(ps, params, r * g + x0 + 1, i);
    lemma_rv_chain_elems(ps, params, r * g + x0 + 2, i);
}

/// Every candidate of a particle is a valid particle index.
pub proof fn lemma_candidates_elems(ps: Seq<Particle>, params: Params, i: int)
    ensures
        forall|j: int| 0 <= j < spec_candidates(ps, params, i).len() ==> 0
            <= #[trigger] spec_candidates(ps, params, i)[j] < ps.len(),
{
    let g = params.num_grids_side as int;
    let cx = cell_coord(ps[i].pos.0 as int, params);
    let cy = cell_coord(ps[i].pos.1 as int, params);
    let x0 = block_lo(cx);
    let x1 = block_hi(cx, g);
    let y0 = block_lo(cy);
    let y1 = block_hi(cy, g);
    lemma_row_cand_elems(ps, params, y0, x0, x1, i);
    lemma_row_cand_elems(ps, params, y0 + 1, x0, x1, i);
    lemma_row_cand_elems(ps, params, y0 + 2, x0, x1, i);
}

/// The left, right, bottom and top bounds of the neighbor block of a
/// cell coordinate pair: the 3-by-3 block clamped at the grid edges.
pub open spec fn block_lo(c: int) -> int {
    if c >= 1 {
        c - 1
    } else {
        0
    }
}

/// Upper bound of the neighbor block along one axis.
pub open spec fn block_hi(c: int, g: int) -> int {
    if c + 1 <= g - 1 {
        c + 1
    } else {
        g - 1
    }
}

/// The indices of all particles the force pass visits for particle
/// `i`: the chains of the neighbor block of `i`'s cell, rows bottom to
/// top, columns left to right, each chain newest first, `i` itself
/// skipped.
pub open spec fn spec_candidates(ps: Seq<Particle>, params: Params, i: int) -> Seq<int> {
    let g = params.num_grids_side as int;
    let cx = cell_coord(ps[i].pos.0 as int, params);
    let cy = cell_coord(ps[i].pos.1 as int, params);
    let x0 = block_lo(cx);
    let x1 = block_hi(cx, g);
    let y0 = block_lo(cy);
    let y1 = block_hi(cy, g);
    row_cand(ps, params, y0, x0, x1, i) + (if y1 >= y0 + 1 {
        row_cand(ps, params, y0 + 1, x0, x1, i)
    } else {
        Seq::<int>::empty()
    }) + (if y1 >= y0 + 2 {
        row_cand(ps, params, y0 + 2, x0, x1, i)
    } else {
        Seq::<int>::empty()
    })
}

/// Squared distance between two particles (fixed-point squared).
pub open spec fn spec_d2(p: Particle, q: Particle) -> int {
    let dx = q.pos.0 - p.pos.0;
    let dy = q.pos.1 - p.pos.1;
    dx * dx + dy * dy
}

/// The per-pair gain: force per unit displacement (fixed-point),
/// positive toward `q`.  Zero for an exact self-match.
pub open spec fn spec_pair_gain(p: Particle, q: Particle, params: Params, w: int) -> int {
    let d2 = spec_d2(p, q);
    if d2 == 0 {
        0
    } else {
        let dc = if d2 < EPS2 {
            EPS2 as int
        } else {
            d2
        };
        let att1 = tdiv(params.attract_coeff * w, FIXED_ONE as int);
        let att2 = tdiv(att1 * params.well_depth, FIXED_ONE as int);
        let g_att = sclamp(
            tdiv(att2 * (FIXED_ONE as int) * (FIXED_ONE as int), dc),
            -GAIN_MAX as int,
            GAIN_MAX as int,
        );
        let rr = 2 * params.particle_radius;
        let rr2 = rr * rr;
        let g_rep = if d2 < rr2 {
            let ratio = tdiv((rr2 - d2) * (FIXED_ONE as int), dc);
            sclamp(tdiv(params.repulse_coeff * ratio, FIXED_ONE as int), 0, GAIN_MAX as int)
        } else {
            0
        };
        g_att - g_rep
    }
}

/// The per-pair force on `p` from `q` with matrix weight `w`.
pub open spec fn spec_pair_force(p: Particle, q: Particle, params: Params, w: int) -> (int, int) {
    let gain = spec_pair_gain(p, q, params, w);
    (
        tdiv((q.pos.0 - p.pos.0) * gain, FIXED_ONE as int),
        tdiv((q.pos.1 - p.pos.1) * gain, FIXED_ONE as int),
    )
}

/// The matrix weight governing the force on `i` from `j`.
pub open spec fn spec_weight(ps: Seq<Particle>, params: Params, i: int, j: int) -> int {
    params.weight(ps[i].kind as int, ps[j].kind as int)
}

/// Net force on particle `i` over the candidate list, accumulated
/// front to back.
pub open spec fn spec_net_force(
    ps: Seq<Particle>,
    params: Params,
    i: int,
    cand: Seq<int>,
) -> (int, int)
    decreases cand.len(),
{
    if cand.len() == 0 {
        (0, 0)
    } else {
        let f = spec_pair_force(ps[i], ps[cand[0]], params, spec_weight(ps, params, i, cand[0]));
        let rest = spec_net_force(ps, params, i, cand.drop_first());
        (f.0 + rest.0, f.1 + rest.1)
    }
}

/// Accumulation proceeds one candidate at a time.
pub proof fn lemma_net_force_push(ps: Seq<Particle>, params: Params, i: int, cand: Seq<int>, x: int)
    ensures
        spec_net_force(ps, params, i, cand.push(x)) == {
            let f = spec_pair_force(ps[i], ps[x], params, spec_weight(ps, params, i, x));
            let n = spec_net_force(ps, params, i, cand);
            (n.0 + f.0, n.1 + f.1)
        },
    decreases cand.len(),
{
    if cand.len() == 0 {
        assert(cand.push(x)[0] == x);
        assert(cand.push(x).drop_first() =~= Seq::<int>::empty());
        assert(spec_net_force(ps, params, i, Seq::<int>::empty()) == (0int, 0int));
        assert(spec_net_force(ps, params, i, cand) == (0int, 0int));
    } else {
        assert(cand.push(x)[0] == cand[0]);
        assert(cand.push(x).drop_first() =~= cand.drop_first().push(x));
        lemma_net_force_push(ps, params, i, cand.drop_first(), x);
    }
}

/// Every per-pair force component is bounded by `PAIR_MAX`.
pub proof fn lemma_pair_force_bound(p: Particle, q: Particle, params: Params, w: int)
    requires
        params.wf(),
        p.ok_for(params),
        q.ok_for(params),
    ensures
        -PAIR_MAX <= spec_pair_force(p, q, params, w).0 <= PAIR_MAX,
        -PAIR_MAX <= spec_pair_force(p, q, params, w).1 <= PAIR_MAX,
{
    let gain = spec_pair_gain(p, q, params, w);
    assert(-2 * (GAIN_MAX as int) <= gain <= 2 * (GAIN_MAX as int));
    let dx = q.pos.0 - p.pos.0;
    let dy = q.pos.1 - p.pos.1;
    assert(-(params.world_size as int) <= dx <= params.world_size as int);
    assert(-(params.world_size as int) <= dy <= params.world_size as int);
    lemma_mul_bounds(dx, gain, crate::WORLD_MAX as int, 2 * (GAIN_MAX as int));
    lemma_mul_bounds(dy, gain, crate::WORLD_MAX as int, 2 * (GAIN_MAX as int));
    assert((crate::WORLD_MAX as int) * (2 * (GAIN_MAX as int)) == PAIR_MAX * (FIXED_ONE as int));
    lemma_tdiv_quot_bound(dx * gain, FIXED_ONE as int, PAIR_MAX as int);
    lemma_tdiv_quot_bound(dy * gain, FIXED_ONE as int, PAIR_MAX as int);
}

/// The damped new velocity along one axis: clamp the net force into
/// `[-F_MAX, F_MAX]`, add `F / mass * dt`, clamp into
/// `[-V_MAX, V_MAX]`, damp by the friction coefficient.
pub open spec fn spec_new_vel_axis(vel: int, fnet: int, mass: int, params: Params) -> int {
    let fcl = sclamp(fnet, -F_MAX as int, F_MAX as int);
    let dv = tdiv(tdiv(fcl * params.dt, FIXED_ONE as int) * (FIXED_ONE as int), mass);
    let v1 = sclamp(vel + dv, -V_MAX as int, V_MAX as int);
    tdiv(v1 * params.friction_coeff, FIXED_ONE as int)
}

/// The new position along one axis: advance by `v' * dt`, clamped
/// into the world square.
pub open spec fn spec_new_pos_axis(pos: int, vel2: int, params: Params) -> int {
    sclamp(pos + tdiv(vel2 * params.dt, FIXED_ONE as int), 0, params.world_size as int)
}

/// The record particle `i` carries after one force-integration pass.
pub open spec fn spec_integrate_one(ps: Seq<Particle>, params: Params, i: int) -> Particle {
    let net = spec_net_force(ps, params, i, spec_candidates(ps, params, i));
    let p = ps[i];
    let vx = spec_new_vel_axis(p.vel.0 as int, net.0, p.mass as int, params);
    let vy = spec_new_vel_axis(p.vel.1 as int, net.1, p.mass as int, params);
    let px = spec_new_pos_axis(p.pos.0 as int, vx, params);
    let py = spec_new_pos_axis(p.pos.1 as int, vy, params);
    Particle {
        pos: (px as i64, py as i64),
        vel: (vx as i64, vy as i64),
        mass: p.mass,
        kind: p.kind,
        forward: NO_LINK,
        backward: NO_LINK,
    }
}

/// The whole store after one force-integration pass.
pub open spec fn spec_step(ps: Seq<Particle>, params: Params) -> Seq<Particle> {
    Seq::new(ps.len(), |i: int| spec_integrate_one(ps, params, i))
}

/// The new velocity lies in `[-V_MAX, V_MAX]` and the new position in
/// the world square.
pub proof fn lemma_axis_ranges(vel: int, fnet: int, mass: int, pos: int, params: Params)
    requires
        params.wf(),
        MASS_MIN <= mass <= MASS_MAX,
    ensures
        -V_MAX <= spec_new_vel_axis(vel, fnet, mass, params) <= V_MAX,
        0 <= spec_new_pos_axis(pos, spec_new_vel_axis(vel, fnet, mass, params), params)
            <= params.world_size,
{
    let fcl = sclamp(fnet, -F_MAX as int, F_MAX as int);
    let dv = tdiv(tdiv(fcl * params.dt, FIXED_ONE as int) * (FIXED_ONE as int), mass);
    let v1 = sclamp(vel + dv, -V_MAX as int, V_MAX as int);
    lemma_mul_bounds(v1, params.friction_coeff as int, V_MAX as int, FIXED_ONE as int);
    lemma_tdiv_quot_bound(v1 * params.friction_coeff, FIXED_ONE as int, V_MAX as int);
}

/// Every record of the integrated store is admissible and carries
/// clear links, the same mass and the same type as its source.
pub proof fn lemma_step_ok(ps: Seq<Particle>, params: Params)
    requires
        params.wf(),
        particles_ok(ps, params),
    ensures
        spec_step(ps, params).len() == ps.len(),
        particles_ok(spec_step(ps, params), params),
        forall|i: int| 0 <= i < ps.len() ==> (#[trigger] spec_step(ps, params)[i]).links_clear(),
        forall|i: int| 0 <= i < ps.len() ==> (#[trigger] spec_step(ps, params)[i]).mass
            == ps[i].mass,
        forall|i: int| 0 <= i < ps.len() ==> (#[trigger] spec_step(ps, params)[i]).kind
            == ps[i].kind,
{
    assert forall|i: int| 0 <= i < ps.len() implies (#[trigger] spec_step(ps, params)[i]).ok_for(
        params,
    ) && spec_step(ps, params)[i].links_clear() && spec_step(ps, params)[i].mass == ps[i].mass
        && spec_step(ps, params)[i].kind == ps[i].kind by {
        let net = spec_net_force(ps, params, i, spec_candidates(ps, params, i));
        let p = ps[i];
        assert(p.ok_for(params));
        lemma_axis_ranges(p.vel.0 as int, net.0, p.mass as int, p.pos.0 as int, params);
        lemma_axis_ranges(p.vel.1 as int, net.1, p.mass as int, p.pos.1 as int, params);
    }
}

/// The attraction-matrix weight of the force on a particle of type
/// `a` from one of type `b`.
fn weight_of(params: &Params, a: u32, b: u32) -> (w: i64)
    requires
        params.wf(),
        a < params.num_types,
        b < params.num_types,
    ensures
        w as int == params.weight(a as int, b as int),
        -FIXED_ONE <= w <= FIXED_ONE,
{
    proof {
        assert((a as int) * (params.num_types as int) + (b as int) < (params.num_types as int)
            * (params.num_types as int)) by (nonlinear_arith)
            requires
                a < params.num_types,
                b < params.num_types,
        ;
        assert((params.num_types as int) * (params.num_types as int) <= 256 * 256)
            by (nonlinear_arith)
            requires params.num_types <= 256;
    }
    let idx: usize = (a as usize) * (params.num_types as usize) + (b as usize);
    params.attraction_matrix[idx]
}

/// The per-pair force, computed in 128-bit intermediates.
fn pair_force(p: &Particle, q: &Particle, params: &Params, w: i64) -> (f: (i128, i128))
    requires
        params.wf(),
        p.ok_for(*params),
        q.ok_for(*params),
        -FIXED_ONE <= w <= FIXED_ONE,
    ensures
        f.0 as int == spec_pair_force(*p, *q, *params, w as int).0,
        f.1 as int == spec_pair_force(*p, *q, *params, w as int).1,
{
    let s: i128 = FIXED_ONE as i128;
    let dx: i64 = q.pos.0 - p.pos.0;
    let dy: i64 = q.pos.1 - p.pos.1;
    proof {
        lemma_mul_bounds(dx as int, dx as int, crate::WORLD_MAX as int, crate::WORLD_MAX as int);
        lemma_mul_bounds(dy as int, dy as int, crate::WORLD_MAX as int, crate::WORLD_MAX as int);
    }
    proof {
        assert((dx as int) * (dx as int) >= 0 && (dy as int) * (dy as int) >= 0)
            by (nonlinear_arith);
    }
    let d2: i128 = (dx as i128) * (dx as i128) + (dy as i128) * (dy as i128);
    if d2 == 0 {
        return (0, 0);
    }
    let dc: i128 = if d2 < EPS2 as i128 {
        EPS2 as i128
    } else {
        d2
    };
    proof {
        lemma_mul_bounds(
            params.attract_coeff as int,
            w as int,
            FIXED_ONE as int,
            FIXED_ONE as int,
        );
    }
    let att1: i128 = tdiv_i128((params.attract_coeff as i128) * (w as i128), s);
    proof {
        lemma_tdiv_quot_bound(
            (params.attract_coeff as int) * (w as int),
            FIXED_ONE as int,
            FIXED_ONE as int,
        );
        lemma_mul_bounds(
            att1 as int,
            params.well_depth as int,
            FIXED_ONE as int,
            crate::WELL_MAX as int,
        );
    }
    let att2: i128 = tdiv_i128(att1 * (params.well_depth as i128), s);
    proof {
        lemma_tdiv_quot_bound(
            (att1 as int) * (params.well_depth as int),
            FIXED_ONE as int,
            crate::WELL_MAX as int,
        );
        lemma_mul_bounds(att2 as int, FIXED_ONE as int, crate::WELL_MAX as int, FIXED_ONE as int);
        lemma_mul_bounds(
            (att2 as int) * (FIXED_ONE as int),
            FIXED_ONE as int,
            (crate::WELL_MAX as int) * (FIXED_ONE as int),
            FIXED_ONE as int,
        );
        crate::fixed::lemma_tdiv_shrinks(
            (att2 as int) * (FIXED_ONE as int) * (FIXED_ONE as int),
            dc as int,
            (crate::WELL_MAX as int) * (FIXED_ONE as int) * (FIXED_ONE as int),
        );
    }
    let t_att: i128 = tdiv_i128(att2 * s * s, dc);
    let g_att: i128 = if t_att < -(GAIN_MAX as i128) {
        -(GAIN_MAX as i128)
    } else if t_att > GAIN_MAX as i128 {
        GAIN_MAX as i128
    } else {
        t_att
    };
    let rr: i64 = 2 * params.particle_radius;
    proof {
        lemma_mul_bounds(rr as int, rr as int, 2 * crate::WORLD_MAX as int, 2
            * crate::WORLD_MAX as int);
    }
    let rr2: i128 = (rr as i128) * (rr as i128);
    let g_rep: i128 = if d2 < rr2 {
        proof {
            lemma_mul_bounds(
                (rr2 - d2) as int,
                FIXED_ONE as int,
                4 * (crate::WORLD_MAX as int) * (crate::WORLD_MAX as int),
                FIXED_ONE as int,
            );
            crate::fixed::lemma_tdiv_shrinks(
                ((rr2 - d2) as int) * (FIXED_ONE as int),
                dc as int,
                4 * (crate::WORLD_MAX as int) * (crate::WORLD_MAX as int) * (FIXED_ONE as int),
            );
        }
        let ratio: i128 = tdiv_i128((rr2 - d2) * s, dc);
        proof {
            lemma_mul_bounds(
                params.repulse_coeff as int,
                ratio as int,
                FIXED_ONE as int,
                4 * (crate::WORLD_MAX as int) * (crate::WORLD_MAX as int) * (FIXED_ONE as int),
            );
            crate::fixed::lemma_tdiv_shrinks(
                (params.repulse_coeff as int) * (ratio as int),
                FIXED_ONE as int,
                4 * (crate::WORLD_MAX as int) * (crate::WORLD_MAX as int) * (FIXED_ONE as int)
                    * (FIXED_ONE as int),
            );
        }
        let t: i128 = tdiv_i128((params.repulse_coeff as i128) * ratio, s);
        if t < 0 {
            0
        } else if t > GAIN_MAX as i128 {
            GAIN_MAX as i128
        } else {
            t
        }
    } else {
        0
    };
    let gain: i128 = g_att - g_rep;
    proof {
        lemma_mul_bounds(dx as int, gain as int, crate::WORLD_MAX as int, 2 * (GAIN_MAX as int));
        lemma_mul_bounds(dy as int, gain as int, crate::WORLD_MAX as int, 2 * (GAIN_MAX as int));
        crate::fixed::lemma_tdiv_shrinks(
            (dx as int) * (gain as int),
            FIXED_ONE as int,
            (crate::WORLD_MAX as int) * 2 * (GAIN_MAX as int),
        );
        crate::fixed::lemma_tdiv_shrinks(
            (dy as int) * (gain as int),
            FIXED_ONE as int,
            (crate::WORLD_MAX as int) * 2 * (GAIN_MAX as int),
        );
    }
    let fx: i128 = tdiv_i128((dx as i128) * gain, s);
    let fy: i128 = tdiv_i128((dy as i128) * gain, s);
    (fx, fy)
}

/// The role-B store `b` carries, for every cell, the chain of `src`
/// laid out in its links, and agrees with `src` record for record on
/// the kinematic fields.
pub open spec fn annotated_store(
    b: Seq<Particle>,
    grid: Seq<u32>,
    src: Seq<Particle>,
    params: Params,
) -> bool {
    &&& b.len() == src.len()
    &&& grid.len() == num_cells(params)
    &&& forall|j: int| 0 <= j < src.len() ==> (#[trigger] b[j]).same_body(src[j])
    &&& forall|c: int| 0 <= c < num_cells(params) ==> #[trigger] crate::bucket::chain_layout(
        b,
        grid,
        src,
        params,
        c,
        src.len() as int,
    )
}

/// Walk one cell's chain and append every visited index but `i`.
fn process_cell(
    b: &Vec<Particle>,
    grid: &Vec<u32>,
    params: &Params,
    i: usize,
    c: usize,
    cand: &mut Vec<u32>,
    Ghost(ps): Ghost<Seq<Particle>>,
)
    requires
        params.wf(),
        ps.len() <= N_MAX,
        annotated_store(b@, grid@, ps, *params),
        c < grid.len(),
        i < b.len(),
    ensures
        as_ints(final(cand)@) == as_ints(old(cand)@) + rv_chain(ps, *params, c as int, i as int),
{
    let ghost n = ps.len() as int;
    let ghost ch = cell_chain(ps, *params, c as int, n);
    proof {
        assert(crate::bucket::chain_layout(b@, grid@, ps, *params, c as int, n));
        lemma_cell_chain_props(ps, *params, c as int, n);
        assert(crate::inspect::chain_linked(b@, grid@[c as int], ch));
    }
    let ghost base = cand@;
    let chain = crate::inspect::collect_chain(b, grid[c], Ghost(ch));
    let mut j: usize = 0;
    while j < chain.len()
        invariant
            j <= chain.len(),
            i < b.len(),
            b.len() == ps.len(),
            ps.len() <= N_MAX,
            chain.len() == ch.len(),
            forall|j2: int| 0 <= j2 < chain.len() ==> #[trigger] chain[j2] == ch[j2] as u32,
            forall|j2: int| 0 <= j2 < ch.len() ==> 0 <= #[trigger] ch[j2] < ps.len(),
            as_ints(cand@) == as_ints(base) + remove_val(ch.take(j as int), i as int),
        decreases chain.len() - j,
    {
        let ghost pre = cand@;
        let e = chain[j];
        proof {
            assert(ch.take(j + 1 as int) =~= ch.take(j as int).push(ch[j as int]));
            lemma_remove_val_push(ch.take(j as int), ch[j as int], i as int);
        }
        if e != i as u32 {
            cand.push(e);
            proof {
                assert(ch[j as int] != i as int);
                assert(as_ints(cand@) =~= as_ints(pre).push(ch[j as int]));
                assert(as_ints(pre).push(ch[j as int]) =~= (as_ints(base) + remove_val(
                    ch.take(j as int),
                    i as int,
                )) + seq![ch[j as int]]);
                assert((as_ints(base) + remove_val(ch.take(j as int), i as int)) + seq![
                    ch[j as int],
                ] =~= as_ints(base) + (remove_val(ch.take(j as int), i as int) + seq![
                    ch[j as int],
                ]));
            }
        } else {
            proof {
                assert(ch[j as int] == i as int);
                assert(remove_val(ch.take(j as int), i as int) + Seq::<int>::empty()
                    =~= remove_val(ch.take(j as int), i as int));
            }
        }
        j += 1;
    }
    proof {
        assert(ch.take(ch.len() as int) =~= ch);
    }
}

/// Gather the candidates of one grid row of the neighbor block.
fn process_row(
    b: &Vec<Particle>,
    grid: &Vec<u32>,
    params: &Params,
    i: usize,
    r: u32,
    x0: u32,
    x1: u32,
    cand: &mut Vec<u32>,
    Ghost(ps): Ghost<Seq<Particle>>,
)
    requires
        params.wf(),
        ps.len() <= N_MAX,
        annotated_store(b@, grid@, ps, *params),
        i < b.len(),
        r < params.num_grids_side,
        x0 <= x1 < params.num_grids_side,
        x1 <= x0 + 2,
    ensures
        as_ints(final(cand)@) == as_ints(old(cand)@) + row_cand(
            ps,
            *params,
            r as int,
            x0 as int,
            x1 as int,
            i as int,
        ),
{
    let g = params.num_grids_side;
    proof {
        assert((r as int) * (g as int) + (x1 as int) < num_cells(*params)) by (nonlinear_arith)
            requires
                r < g,
                x1 < g,
                g == params.num_grids_side,
        ;
    }
    let ghost base = cand@;
    proof {
        assert((r as int) * (g as int) + (x0 as int) + 2 <= 1024 * 1024 + 2)
            by (nonlinear_arith)
            requires
                r < g,
                x0 < g,
                g <= 1024,
        ;
        assert((r as int) * (g as int) >= 0) by (nonlinear_arith)
            requires r >= 0 && g >= 0;
    }
    let row_base: usize = (r as usize) * (g as usize);
    let ghost r1 = rv_chain(ps, *params, row_base + x0 as int, i as int);
    process_cell(b, grid, params, i, row_base + (x0 as usize), cand, Ghost(ps));
    if x1 >= x0 + 1 {
        let ghost mid = as_ints(cand@);
        process_cell(b, grid, params, i, row_base + (x0 as usize) + 1, cand, Ghost(ps));
        let ghost r2 = rv_chain(ps, *params, row_base + x0 + 1 as int, i as int);
        if x1 >= x0 + 2 {
            let ghost mid2 = as_ints(cand@);
            process_cell(b, grid, params, i, row_base + (x0 as usize) + 2, cand, Ghost(ps));
            let ghost r3 = rv_chain(ps, *params, row_base + x0 + 2 as int, i as int);
            proof {
                assert(as_ints(cand@) =~= as_ints(base) + (r1 + r2 + r3));
            }
        } else {
            proof {
                assert(as_ints(cand@) =~= as_ints(base) + (r1 + r2 + Seq::<int>::empty()));
            }
        }
    } else {
        proof {
            assert(as_ints(cand@) =~= as_ints(base) + (r1 + Seq::<int>::empty()
                + Seq::<int>::empty()));
        }
    }
}

/// Gather the neighbor candidates of particle `i`: every particle on
/// the chains of the neighbor block of `i`'s cell, except `i` itself.
/// With a single particle in the store, no candidate is visited.
pub fn gather_candidates(
    b: &Vec<Particle>,
    grid: &Vec<u32>,
    params: &Params,
    i: usize,
    Ghost(ps): Ghost<Seq<Particle>>,
) -> (cand: Vec<u32>)
    requires
        params.wf(),
        ps.len() <= N_MAX,
        particles_ok(ps, *params),
        annotated_store(b@, grid@, ps, *params),
        i < b.len(),
    ensures
        as_ints(cand@) == spec_candidates(ps, *params, i as int),
        forall|j: int| 0 <= j < cand.len() ==> (#[trigger] cand[j] as int) < b.len(),
{
    let cs = cell_size(params);
    let p = b[i];
    proof {
        assert(b@[i as int].same_body(ps[i as int]));
        assert(ps[i as int].ok_for(*params));
    }
    let g = params.num_grids_side;
    let cx = cell_coord_exec(p.pos.0, cs, params);
    let cy = cell_coord_exec(p.pos.1, cs, params);
    let x0 = if cx >= 1 {
        cx - 1
    } else {
        0
    };
    let x1 = if cx + 1 <= g - 1 {
        cx + 1
    } else {
        g - 1
    };
    let y0 = if cy >= 1 {
        cy - 1
    } else {
        0
    };
    let y1 = if cy + 1 <= g - 1 {
        cy + 1
    } else {
        g - 1
    };
    let mut cand: Vec<u32> = Vec::new();
    let ghost row0 = row_cand(ps, *params, y0 as int, x0 as int, x1 as int, i as int);
    process_row(b, grid, params, i, y0, x0, x1, &mut cand, Ghost(ps));
    if y1 >= y0 + 1 {
        let ghost row1 = row_cand(ps, *params, y0 + 1 as int, x0 as int, x1 as int, i as int);
        process_row(b, grid, params, i, y0 + 1, x0, x1, &mut cand, Ghost(ps));
        if y1 >= y0 + 2 {
            process_row(b, grid, params, i, y0 + 2, x0, x1, &mut cand, Ghost(ps));
            let ghost row2 = row_cand(ps, *params, y0 + 2 as int, x0 as int, x1 as int, i as int);
            proof {
                assert(as_ints(cand@) =~= row0 + row1 + row2);
                assert(as_ints(cand@) == spec_candidates(ps, *params, i as int));
            }
        } else {
            proof {
                assert(as_ints(cand@) =~= row0 + row1 + Seq::<int>::empty());
                assert(as_ints(cand@) == spec_candidates(ps, *params, i as int));
            }
        }
    } else {
        proof {
            assert(as_ints(cand@) =~= row0 + Seq::<int>::empty() + Seq::<int>::empty());
            assert(as_ints(cand@) == spec_candidates(ps, *params, i as int));
        }
    }
    proof {
        assert(as_ints(cand@) == spec_candidates(ps, *params, i as int));
        lemma_candidates_elems(ps, *params, i as int);
        assert forall|j: int| 0 <= j < cand.len() implies (#[trigger] cand[j] as int)
            < b.len() by {
            assert(as_ints(cand@)[j] == cand[j] as int);
            assert(0 <= spec_candidates(ps, *params, i as int)[j] < ps.len());
        }
    }
    cand
}

/// Integrate the velocity along one axis.
fn vel_axis_exec(vel: i64, fnet: i128, mass: i64, params: &Params) -> (v: i64)
    requires
        params.wf(),
        MASS_MIN <= mass <= MASS_MAX,
    ensures
        v as int == spec_new_vel_axis(vel as int, fnet as int, mass as int, *params),
        -V_MAX <= v <= V_MAX,
{
    let s: i128 = FIXED_ONE as i128;
    let fcl: i64 = clamp_i128(fnet, -F_MAX, F_MAX);
    proof {
        lemma_mul_bounds(fcl as int, params.dt as int, F_MAX as int, FIXED_ONE as int);
        lemma_tdiv_quot_bound((fcl as int) * (params.dt as int), FIXED_ONE as int, F_MAX as int);
    }
    let a: i128 = tdiv_i128((fcl as i128) * (params.dt as i128), s);
    proof {
        lemma_mul_bounds(a as int, FIXED_ONE as int, F_MAX as int, FIXED_ONE as int);
        crate::fixed::lemma_tdiv_shrinks(
            (a as int) * (FIXED_ONE as int),
            mass as int,
            (F_MAX as int) * (FIXED_ONE as int),
        );
    }
    let dv: i128 = tdiv_i128(a * s, mass as i128);
    let v1: i64 = clamp_i128((vel as i128) + dv, -V_MAX, V_MAX);
    proof {
        lemma_mul_bounds(v1 as int, params.friction_coeff as int, V_MAX as int, FIXED_ONE as int);
        lemma_tdiv_quot_bound(
            (v1 as int) * (params.friction_coeff as int),
            FIXED_ONE as int,
            V_MAX as int,
        );
    }
    let v2: i128 = tdiv_i128((v1 as i128) * (params.friction_coeff as i128), s);
    v2 as i64
}

/// Integrate the position along one axis, clamping into the world
/// square.
fn pos_axis_exec(pos: i64, v: i64, params: &Params) -> (r: i64)
    requires
        params.wf(),
        -V_MAX <= v <= V_MAX,
    ensures
        r as int == spec_new_pos_axis(pos as int, v as int, *params),
        0 <= r <= params.world_size,
{
    let s: i128 = FIXED_ONE as i128;
    proof {
        lemma_mul_bounds(v as int, params.dt as int, V_MAX as int, FIXED_ONE as int);
        lemma_tdiv_quot_bound((v as int) * (params.dt as int), FIXED_ONE as int, V_MAX as int);
    }
    let mv: i128 = tdiv_i128((v as i128) * (params.dt as i128), s);
    clamp_i128((pos as i128) + mv, 0, params.world_size)
}

/// The force-integration kernel: read the annotated role-B store and
/// the grid, and write the next step's role-A store, with every link
/// reset to the empty sentinel.
pub fn force_integrate(
    b: &Vec<Particle>,
    grid: &Vec<u32>,
    params: &Params,
    Ghost(ps): Ghost<Seq<Particle>>,
) -> (out: Vec<Particle>)
    requires
        params.wf(),
        ps.len() <= N_MAX,
        particles_ok(ps, *params),
        annotated_store(b@, grid@, ps, *params),
    ensures
        out@ == spec_step(ps, *params),
{
    let n = b.len();
    let mut out: Vec<Particle> = Vec::new();
    let mut i: usize = 0;
    while i < n
        invariant
            params.wf(),
            ps.len() <= N_MAX,
            particles_ok(ps, *params),
            annotated_store(b@, grid@, ps, *params),
            n == b.len(),
            i <= n,
            out.len() == i,
            forall|j: int| 0 <= j < i ==> #[trigger] out[j] == spec_integrate_one(ps, *params, j),
        decreases n - i,
    {
        let ghost gi = i as int;
        let cand = gather_candidates(b, grid, params, i, Ghost(ps));
        let p = b[i];
        proof {
            assert(b@[gi].same_body(ps[gi]));
            assert(ps[gi].ok_for(*params));
        }
        let mut fx: i128 = 0;
        let mut fy: i128 = 0;
        let mut j: usize = 0;
        while j < cand.len()
            invariant
                params.wf(),
                ps.len() <= N_MAX,
                particles_ok(ps, *params),
                gi == i as int,
                i < b.len(),
                b.len() == ps.len(),
                p == b@[gi],
                b@[gi].same_body(ps[gi]),
                forall|j2: int| 0 <= j2 < b.len() ==> (#[trigger] b@[j2]).same_body(ps[j2]),
                as_ints(cand@) == spec_candidates(ps, *params, gi),
                forall|j2: int| 0 <= j2 < cand.len() ==> (#[trigger] cand[j2] as int) < b.len(),
                j <= cand.len(),
                fx as int == spec_net_force(ps, *params, gi, as_ints(cand@).take(j as int)).0,
                fy as int == spec_net_force(ps, *params, gi, as_ints(cand@).take(j as int)).1,
                -(j * PAIR_MAX) <= fx as int <= j * PAIR_MAX,
                -(j * PAIR_MAX) <= fy as int <= j * PAIR_MAX,
            decreases cand.len() - j,
        {
            let e = cand[j];
            let q = b[e as usize];
            let ghost ge = e as int;
            proof {
                assert(b@[ge].same_body(ps[ge]));
                assert(ps[ge].ok_for(*params));
                assert(as_ints(cand@)[j as int] == e as int);
            }
            let w = weight_of(params, p.kind, q.kind);
            let f = pair_force(&p, &q, params, w);
            proof {
                assert(spec_pair_force(p, q, *params, w as int) == spec_pair_force(
                    ps[gi],
                    ps[ge],
                    *params,
                    w as int,
                ));
                assert(w as int == spec_weight(ps, *params, gi, ge));
                lemma_pair_force_bound(ps[gi], ps[ge], *params, w as int);
                assert(as_ints(cand@).take(j + 1 as int) =~= as_ints(cand@).take(j as int).push(
                    e as int,
                ));
                lemma_net_force_push(ps, *params, gi, as_ints(cand@).take(j as int), e as int);
                assert((j + 1) * PAIR_MAX == j * PAIR_MAX + PAIR_MAX) by (nonlinear_arith);
                assert(j * PAIR_MAX <= 0x1_0000_0000_0000_0000 * PAIR_MAX) by (nonlinear_arith)
                    requires 0 <= j <= 0x1_0000_0000_0000_0000;
            }
            fx = fx + f.0;
            fy = fy + f.1;
            j += 1;
        }
        proof {
            assert(as_ints(cand@).take(cand.len() as int) =~= as_ints(cand@));
        }
        let vx = vel_axis_exec(p.vel.0, fx, p.mass, params);
        let vy = vel_axis_exec(p.vel.1, fy, p.mass, params);
        let px = pos_axis_exec(p.pos.0, vx, params);
        let py = pos_axis_exec(p.pos.1, vy, params);
        let rec = Particle {
            pos: (px, py),
            vel: (vx, vy),
            mass: p.mass,
            kind: p.kind,
            forward: NO_LINK,
            backward: NO_LINK,
        };
        proof {
            assert(rec == spec_integrate_one(ps, *params, gi));
        }
        out.push(rec);
        i += 1;
    }
    proof {
        assert(out@ =~= spec_step(ps, *params));
    }
    out
}

} // verus!
