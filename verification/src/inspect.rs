//! The debug inspector.
//!
//! Host-invoked, outside the steady-state loop: given a particle array
//! and a grid index forming a built bucket structure, it follows every
//! cell's chain from its head via the forward links, and reports the
//! sum of the chain lengths, the longest chain (the maximum bucket
//! occupancy), the average chain length, and every particle filed in a
//! cell other than the one derived from its own position.  On a
//! correctly built structure the sum equals the particle count and no
//! particle is misfiled; both are promised by the contract.

use vstd::prelude::*;
use crate::{FIXED_ONE, N_MAX, NO_LINK};
use crate::bucket::{built_store, chain_layout};
use crate::grid::{cell_chain, cell_of, chain_len_sum, lemma_cell_chain_props, lemma_chain_sum_monotone, lemma_chain_sum_total, num_cells, spec_cell_of};
use crate::params::Params;
use crate::particle::Particle;

verus! {

/// What the inspector reports.
#[derive(Clone, Debug)]
pub struct DebugReport {
    /// Number of grid cells audited.
    pub cells: usize,
    /// Sum of all bucket chain lengths.
    pub total: usize,
    /// Length of the longest chain: the maximum bucket occupancy.
    pub longest: usize,
    /// Average chain length, fixed-point.
    pub avg_scaled: i64,
    /// Indices of particles filed in a cell other than the one derived
    /// from their own position.
    pub mismatched: Vec<u32>,
}

/// The longest chain among the cells below `c`: the maximum bucket
/// occupancy.
pub open spec fn max_chain_len(ps: Seq<Particle>, params: Params, c: int) -> int
    decreases c,
{
    if c <= 0 {
        0
    } else {
        let prev = max_chain_len(ps, params, c - 1);
        let here = cell_chain(ps, params, c - 1, ps.len() as int).len() as int;
        if here > prev {
            here
        } else {
            prev
        }
    }
}

/// The indices of `ch` are chained through `b` starting at `head`:
/// the head names the first entry and each entry's forward link the
/// next, ending in the empty sentinel.
pub open spec fn chain_linked(b: Seq<Particle>, head: u32, ch: Seq<int>) -> bool {
    &&& if ch.len() == 0 {
        head == NO_LINK
    } else {
        head == ch[0] as u32
    }
    &&& forall|j: int| 0 <= j < ch.len() ==> 0 <= #[trigger] ch[j] < b.len()
    &&& forall|j: int| 0 <= j < ch.len() ==> (#[trigger] b[ch[j]]).forward == if j + 1 < ch.len() {
        ch[j + 1] as u32
    } else {
        NO_LINK
    }
}

/// Follow one chain from `head`, collecting the visited indices.
pub(crate) fn collect_chain(b: &Vec<Particle>, head: u32, Ghost(ch): Ghost<Seq<int>>) -> (v: Vec<u32>)
    requires
        b.len() <= N_MAX,
        chain_linked(b@, head, ch),
    ensures
        v.len() == ch.len(),
        forall|j: int| 0 <= j < v.len() ==> #[trigger] v[j] == ch[j] as u32,
{
    let mut v: Vec<u32> = Vec::new();
    let mut cur: u32 = head;
    while cur != NO_LINK
        invariant
            b.len() <= N_MAX,
            chain_linked(b@, head, ch),
            v.len() <= ch.len(),
            forall|j: int| 0 <= j < v.len() ==> #[trigger] v[j] == ch[j] as u32,
            cur == if v.len() < ch.len() {
                ch[v.len() as int] as u32
            } else {
                NO_LINK
            },
        decreases ch.len() - v.len(),
    {
        proof {
            assert(v.len() < ch.len());
            assert(0 <= ch[v.len() as int] < b.len());
        }
        v.push(cur);
        cur = b[cur as usize].forward;
    }
    v
}

/// Audit a built bucket structure.
///
/// The contract carries the two bucket invariants: the chain lengths
/// sum to exactly the particle count, and no particle is ever filed in
/// the wrong bucket.
pub fn inspect(b: &Vec<Particle>, grid: &Vec<u32>, params: &Params) -> (r: DebugReport)
    requires
        params.wf(),
        b.len() <= params.num_particles,
        forall|i: int| 0 <= i < b.len() ==> 0 <= (#[trigger] b[i]).pos.0 && 0 <= b[i].pos.1,
        built_store(b@, grid@, *params),
    ensures
        r.cells == num_cells(*params),
        r.total == b.len(),
        r.longest == max_chain_len(b@, *params, num_cells(*params)),
        r.mismatched.len() == 0,
        r.avg_scaled as int == (r.total * FIXED_ONE) as int / (r.cells as int),
{
    let ghost n = b@.len() as int;
    let ncells = grid.len();
    let mut total: usize = 0;
    let mut longest: usize = 0;
    let mut mismatched: Vec<u32> = Vec::new();
    let mut c: usize = 0;
    while c < ncells
        invariant
            params.wf(),
            b.len() <= params.num_particles,
            forall|i: int| 0 <= i < b.len() ==> 0 <= (#[trigger] b[i]).pos.0 && 0 <= b[i].pos.1,
            built_store(b@, grid@, *params),
            ncells == grid.len(),
            n == b@.len() as int,
            c <= ncells,
            total == chain_len_sum(b@, *params, c as int, n),
            total <= b.len(),
            longest == max_chain_len(b@, *params, c as int),
            mismatched.len() == 0,
        decreases ncells - c,
    {
        let ghost ch = cell_chain(b@, *params, c as int, n);
        proof {
            assert(chain_layout(b@, grid@, b@, *params, c as int, n));
            lemma_cell_chain_props(b@, *params, c as int, n);
        }
        let chain = collect_chain(b, grid[c], Ghost(ch));
        let mut j: usize = 0;
        while j < chain.len()
            invariant
                params.wf(),
                b.len() <= params.num_particles,
                forall|i: int| 0 <= i < b.len() ==> 0 <= (#[trigger] b[i]).pos.0 && 0
                    <= b[i].pos.1,
                j <= chain.len(),
                mismatched.len() == 0,
                c < grid.len(),
                chain.len() == ch.len(),
                forall|j2: int| 0 <= j2 < chain.len() ==> #[trigger] chain[j2] == ch[j2] as u32,
                forall|j2: int| 0 <= j2 < ch.len() ==> 0 <= #[trigger] ch[j2] < b.len(),
                forall|j2: int| 0 <= j2 < ch.len() ==> spec_cell_of(
                    b@[#[trigger] ch[j2]],
                    *params,
                ) == c as int,
            decreases chain.len() - j,
        {
            let e = chain[j];
            let e_cell = cell_of(&b[e as usize], params);
            if e_cell != c {
                // unreachable on a built structure, but the audit is
                // what the inspector is for
                mismatched.push(e);
                proof {
                    assert(spec_cell_of(b@[ch[j as int]], *params) == c as int);
                    assert(false);
                }
            }
            j += 1;
        }
        proof {
            lemma_chain_sum_monotone(b@, *params, c + 1 as int, num_cells(*params), n);
            lemma_chain_sum_total(b@, *params, n);
        }
        proof {
            let cc = c as int;
            assert(max_chain_len(b@, *params, cc + 1) == (if ch.len() as int > max_chain_len(
                b@,
                *params,
                cc,
            ) {
                ch.len() as int
            } else {
                max_chain_len(b@, *params, cc)
            }));
        }
        total = total + chain.len();
        if chain.len() > longest {
            longest = chain.len();
        }
        c += 1;
    }
    proof {
        lemma_chain_sum_total(b@, *params, n);
        assert(num_cells(*params) >= 1) by (nonlinear_arith)
            requires params.num_grids_side >= 1;
    }
    let avg_scaled = (((total as u64) * (FIXED_ONE as u64)) / (ncells as u64)) as i64;
    DebugReport { cells: ncells, total, longest, avg_scaled, mismatched }
}

} // verus!
