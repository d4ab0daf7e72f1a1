//! The spatial grid index.
//!
//! The world square is partitioned into `num_grids_side` by
//! `num_grids_side` cells.  The grid index is one head slot per cell:
//! the index of the most recently filed particle of that cell's
//! bucket, or [`NO_LINK`] for an empty bucket.  The cell of a particle
//! is computed deterministically from its position — each axis is
//! `floor(position / cell_size)`, clamped into `[0, num_grids_side)`.
//!
//! This module also defines the spec-level model of a bucket: the
//! chain [`cell_chain`] of particle indices filed in one cell, most
//! recently filed first.

use vstd::prelude::*;
use vstd::arithmetic::div_mod::{lemma_div_by_self, lemma_div_is_ordered, lemma_div_pos_is_pos, lemma_div_nonincreasing};
use crate::NO_LINK;
use crate::fixed::sclamp;
use crate::params::Params;
use crate::particle::Particle;

verus! {

/// Number of grid cells of a run.
pub open spec fn num_cells(params: Params) -> int {
    params.num_grids_side * params.num_grids_side
}

/// Side of one grid cell (fixed-point).
pub open spec fn spec_cell_size(params: Params) -> int {
    params.world_size as int / params.num_grids_side as int
}

/// One axis of the cell holding a coordinate: floor division by the
/// cell side, clamped into `[0, num_grids_side)`.
pub open spec fn cell_coord(pos: int, params: Params) -> int {
    sclamp(pos / spec_cell_size(params), 0, params.num_grids_side - 1)
}

/// The grid cell a particle belongs to, derived from its position
/// alone, row-major.
pub open spec fn spec_cell_of(p: Particle, params: Params) -> int {
    cell_coord(p.pos.1 as int, params) * params.num_grids_side + cell_coord(p.pos.0 as int, params)
}

/// The cell of any particle is a valid cell index.
pub proof fn lemma_cell_of_range(p: Particle, params: Params)
    requires
        params.num_grids_side >= 1,
    ensures
        0 <= spec_cell_of(p, params) < num_cells(params),
{
    let g = params.num_grids_side as int;
    let cx = cell_coord(p.pos.0 as int, params);
    let cy = cell_coord(p.pos.1 as int, params);
    assert(0 <= cx <= g - 1);
    assert(0 <= cy <= g - 1);
    assert(cy * g + cx < g * g && 0 <= cy * g + cx) by (nonlinear_arith)
        requires 0 <= cx <= g - 1 && 0 <= cy <= g - 1 && g >= 1;
}

/// The cell side, at least one machine unit.
pub fn cell_size(params: &Params) -> (r: i64)
    requires
        params.wf(),
    ensures
        r as int == spec_cell_size(*params),
        1 <= r <= params.world_size,
{
    let w = params.world_size as u64;
    let g = params.num_grids_side as u64;
    proof {
        lemma_div_by_self(g as int);
        lemma_div_is_ordered(g as int, w as int, g as int);
        lemma_div_nonincreasing(w as int, g as int);
        lemma_div_pos_is_pos(w as int, g as int);
    }
    (w / g) as i64
}

/// One axis of the cell of a coordinate.
pub(crate) fn cell_coord_exec(pos: i64, cs: i64, params: &Params) -> (r: u32)
    requires
        params.wf(),
        cs as int == spec_cell_size(*params),
        1 <= cs,
        0 <= pos,
    ensures
        r as int == cell_coord(pos as int, *params),
        r < params.num_grids_side,
{
    let g = params.num_grids_side;
    let q = (pos as u64) / (cs as u64);
    proof {
        lemma_div_pos_is_pos(pos as int, cs as int);
    }
    if q >= g as u64 {
        g - 1
    } else {
        q as u32
    }
}

/// The grid cell of a particle, row-major.
pub fn cell_of(p: &Particle, params: &Params) -> (c: usize)
    requires
        params.wf(),
        0 <= p.pos.0,
        0 <= p.pos.1,
    ensures
        c as int == spec_cell_of(*p, *params),
        c < num_cells(*params),
{
    let cs = cell_size(params);
    let cx = cell_coord_exec(p.pos.0, cs, params);
    let cy = cell_coord_exec(p.pos.1, cs, params);
    proof {
        lemma_cell_of_range(*p, *params);
        assert((cy as int) * (params.num_grids_side as int) + (cx as int)
            <= 1024 * 1024) by (nonlinear_arith)
            requires
                cy < params.num_grids_side,
                cx < params.num_grids_side,
                params.num_grids_side <= 1024;
    }
    (cy as usize) * (params.num_grids_side as usize) + (cx as usize)
}

/// A fresh grid index: every head slot empty.
pub fn empty_grid(params: &Params) -> (grid: Vec<u32>)
    requires
        params.wf(),
    ensures
        grid.len() == num_cells(*params),
        forall|c: int| 0 <= c < grid.len() ==> grid[c] == NO_LINK,
{
    let g = params.num_grids_side as usize;
    proof {
        assert(g * g == num_cells(*params) && g * g <= 1024 * 1024) by (nonlinear_arith)
            requires g == params.num_grids_side && g <= 1024;
    }
    let n = g * g;
    let mut grid: Vec<u32> = Vec::new();
    let mut i: usize = 0;
    while i < n
        invariant
            i <= n,
            grid.len() == i,
            forall|c: int| 0 <= c < grid.len() ==> grid[c] == NO_LINK,
        decreases n - i,
    {
        grid.push(NO_LINK);
        i += 1;
    }
    grid
}

/// The grid-reset kernel: overwrite every head slot with the empty
/// sentinel.  Must run after the force pass has read the grid and
/// before the next bucket build writes it; bucket emptiness is a
/// per-step invariant.
pub fn reset_grid(grid: &mut Vec<u32>)
    ensures
        final(grid).len() == old(grid).len(),
        forall|c: int| 0 <= c < final(grid).len() ==> final(grid)[c] == NO_LINK,
{
    let n = grid.len();
    let mut i: usize = 0;
    while i < n
        invariant
            i <= n,
            grid.len() == n,
            forall|c: int| 0 <= c < i ==> grid[c] == NO_LINK,
        decreases n - i,
    {
        grid[i] = NO_LINK;
        i += 1;
    }
}

/// The bucket chain of cell `c` after the first `k` particles of `ps`
/// have been filed: the indices among `[0, k)` whose cell is `c`, most
/// recently filed (largest) first.
pub open spec fn cell_chain(ps: Seq<Particle>, params: Params, c: int, k: int) -> Seq<int>
    decreases k,
{
    if k <= 0 {
        Seq::empty()
    } else if spec_cell_of(ps[k - 1], params) == c {
        seq![k - 1] + cell_chain(ps, params, c, k - 1)
    } else {
        cell_chain(ps, params, c, k - 1)
    }
}

/// Structure of a bucket chain: entries are indices below `k` of
/// particles filed in `c`, strictly descending, and complete — every
/// index below `k` whose cell is `c` occurs.
pub proof fn lemma_cell_chain_props(ps: Seq<Particle>, params: Params, c: int, k: int)
    requires
        0 <= k <= ps.len(),
    ensures
        forall|j: int| 0 <= j < cell_chain(ps, params, c, k).len() ==> 0
            <= #[trigger] cell_chain(ps, params, c, k)[j] < k,
        forall|j: int| 0 <= j < cell_chain(ps, params, c, k).len() ==> spec_cell_of(
            ps[#[trigger] cell_chain(ps, params, c, k)[j]],
            params,
        ) == c,
        forall|j1: int, j2: int| 0 <= j1 < j2 < cell_chain(ps, params, c, k).len()
            ==> #[trigger] cell_chain(ps, params, c, k)[j1]
                > #[trigger] cell_chain(ps, params, c, k)[j2],
        forall|i: int| 0 <= i < k && spec_cell_of(ps[i], params) == c
            ==> #[trigger] cell_chain(ps, params, c, k).contains(i),
    decreases k,
{
    if k > 0 {
        lemma_cell_chain_props(ps, params, c, k - 1);
        let prev = cell_chain(ps, params, c, k - 1);
        let cur = cell_chain(ps, params, c, k);
        if spec_cell_of(ps[k - 1], params) == c {
            assert(cur == seq![k - 1] + prev);
            assert forall|i: int| 0 <= i < k && spec_cell_of(ps[i], params) == c
                implies #[trigger] cur.contains(i) by {
                if i == k - 1 {
                    assert(cur[0] == k - 1);
                } else {
                    assert(prev.contains(i));
                    let j = choose|j: int| 0 <= j < prev.len() && prev[j] == i;
                    assert(cur[j + 1] == i);
                }
            }
        } else {
            assert(cur == prev);
            assert forall|i: int| 0 <= i < k && spec_cell_of(ps[i], params) == c
                implies #[trigger] cur.contains(i) by {
                assert(i != k - 1);
                assert(prev.contains(i));
            }
        }
    }
}

/// An index on some chain is on the chain of its own cell only.
pub proof fn lemma_chain_member_cell(ps: Seq<Particle>, params: Params, c: int, k: int, i: int)
    requires
        0 <= k <= ps.len(),
        cell_chain(ps, params, c, k).contains(i),
    ensures
        0 <= i < k,
        spec_cell_of(ps[i], params) == c,
{
    lemma_cell_chain_props(ps, params, c, k);
    let j = choose|j: int| 0 <= j < cell_chain(ps, params, c, k).len()
        && cell_chain(ps, params, c, k)[j] == i;
}

/// Sum of the chain lengths of the cells below `c`.
pub open spec fn chain_len_sum(ps: Seq<Particle>, params: Params, c: int, k: int) -> int
    decreases c,
{
    if c <= 0 {
        0
    } else {
        chain_len_sum(ps, params, c - 1, k) + cell_chain(ps, params, c - 1, k).len()
    }
}

/// With no particles filed, every partial sum is zero.
proof fn lemma_chain_sum_zero(ps: Seq<Particle>, params: Params, c: int)
    ensures
        chain_len_sum(ps, params, c, 0) == 0,
    decreases c,
{
    if c > 0 {
        lemma_chain_sum_zero(ps, params, c - 1);
    }
}

/// Filing one more particle grows exactly the partial sums whose range
/// covers its cell, by one.
proof fn lemma_chain_sum_step(ps: Seq<Particle>, params: Params, c: int, k: int)
    requires
        0 <= k < ps.len(),
    ensures
        chain_len_sum(ps, params, c, k + 1) == chain_len_sum(ps, params, c, k) + (
        if 0 <= spec_cell_of(ps[k], params) < c {
            1int
        } else {
            0int
        }),
    decreases c,
{
    if c > 0 {
        lemma_chain_sum_step(ps, params, c - 1, k);
    }
}

/// Partial sums of chain lengths are nondecreasing in the cell bound.
pub proof fn lemma_chain_sum_monotone(ps: Seq<Particle>, params: Params, c1: int, c2: int, k: int)
    requires
        c1 <= c2,
    ensures
        chain_len_sum(ps, params, c1, k) <= chain_len_sum(ps, params, c2, k),
    decreases c2 - c1,
{
    if c1 < c2 {
        lemma_chain_sum_monotone(ps, params, c1, c2 - 1, k);
    }
}

/// The bucket chains partition the filed particles: the chain lengths
/// over all cells sum to `k`.
pub proof fn lemma_chain_sum_total(ps: Seq<Particle>, params: Params, k: int)
    requires
        params.num_grids_side >= 1,
        0 <= k <= ps.len(),
    ensures
        chain_len_sum(ps, params, num_cells(params), k) == k,
    decreases k,
{
    if k == 0 {
        lemma_chain_sum_zero(ps, params, num_cells(params));
    } else {
        lemma_chain_sum_total(ps, params, k - 1);
        lemma_chain_sum_step(ps, params, num_cells(params), k - 1);
        lemma_cell_of_range(ps[k - 1], params);
    }
}

} // verus!
