//! The bucket-build kernel.
//!
//! For each particle, compute its grid cell from its position,
//! exchange the cell's head slot with the particle's own index, and
//! splice the particle onto the front of the cell's chain via the
//! intrusive forward/backward links.  On the device this insertion is
//! an atomic head exchange per particle, the only correctness-critical
//! synchronization of the pipeline; here the insertions are performed
//! in index order, one admissible serialization of that exchange, and
//! the resulting structure is exactly the chains of [`cell_chain`].

use vstd::prelude::*;
use crate::NO_LINK;
use crate::grid::{cell_chain, cell_of, lemma_cell_chain_props, num_cells, spec_cell_of};
use crate::params::Params;
use crate::particle::Particle;

verus! {

/// The chain of cell `c` (as derived from the positions in `src`,
/// after `k` insertions) is laid out in the links of `b` and the head
/// slot of `grid`: the head slot names the first chain entry, each
/// entry's forward link names its successor and each backward link its
/// predecessor.
pub open spec fn chain_layout(
    b: Seq<Particle>,
    grid: Seq<u32>,
    src: Seq<Particle>,
    params: Params,
    c: int,
    k: int,
) -> bool {
    let ch = cell_chain(src, params, c, k);
    &&& grid[c] == if ch.len() == 0 {
        NO_LINK
    } else {
        ch[0] as u32
    }
    &&& forall|j: int| 0 <= j < ch.len() ==> (#[trigger] b[ch[j]]).forward == if j + 1 < ch.len() {
        ch[j + 1] as u32
    } else {
        NO_LINK
    }
    &&& forall|j: int| 0 <= j < ch.len() ==> (#[trigger] b[ch[j]]).backward == if j >= 1 {
        ch[j - 1] as u32
    } else {
        NO_LINK
    }
}

/// `b` together with `grid` is a completely built bucket structure:
/// the grid has one head slot per cell, and every cell's chain — as
/// recomputed from `b`'s own positions — is laid out in the links.
pub open spec fn built_store(b: Seq<Particle>, grid: Seq<u32>, params: Params) -> bool {
    &&& grid.len() == num_cells(params)
    &&& forall|c: int| 0 <= c < num_cells(params) ==> #[trigger] chain_layout(
        b,
        grid,
        b,
        params,
        c,
        b.len() as int,
    )
}

/// Chains depend on positions only: stores whose records agree
/// pairwise on their kinematic fields have the same chains.
pub proof fn lemma_chain_congruence(
    ps: Seq<Particle>,
    qs: Seq<Particle>,
    params: Params,
    c: int,
    k: int,
)
    requires
        ps.len() == qs.len(),
        forall|i: int| 0 <= i < ps.len() ==> (#[trigger] ps[i]).same_body(qs[i]),
        0 <= k <= ps.len(),
    ensures
        cell_chain(ps, params, c, k) == cell_chain(qs, params, c, k),
    decreases k,
{
    if k > 0 {
        lemma_chain_congruence(ps, qs, params, c, k - 1);
        assert(ps[k - 1].same_body(qs[k - 1]));
        assert(spec_cell_of(ps[k - 1], params) == spec_cell_of(qs[k - 1], params));
    }
}

/// No particle is ever filed in the wrong bucket: in a built store,
/// every particle lies on the chain of exactly the cell derived from
/// its own position, and on no other cell's chain.
pub proof fn lemma_every_particle_in_own_bucket(
    b: Seq<Particle>,
    grid: Seq<u32>,
    params: Params,
    i: int,
)
    requires
        built_store(b, grid, params),
        0 <= i < b.len(),
    ensures
        cell_chain(b, params, spec_cell_of(b[i], params), b.len() as int).contains(i),
        forall|c: int| cell_chain(b, params, c, b.len() as int).contains(i) ==> c == spec_cell_of(
            b[i],
            params,
        ),
{
    lemma_cell_chain_props(b, params, spec_cell_of(b[i], params), b.len() as int);
    assert forall|c: int| cell_chain(b, params, c, b.len() as int).contains(i) implies c
        == spec_cell_of(b[i], params) by {
        crate::grid::lemma_chain_member_cell(b, params, c, b.len() as int, i);
    }
}

/// The bucket-build kernel: read `ps` (role A), write the grid heads,
/// and return the annotated copy (role B) whose links lay out every
/// cell's chain.  Bodies are preserved; only links are written.
pub fn build_buckets(ps: &Vec<Particle>, params: &Params, grid: &mut Vec<u32>) -> (out: Vec<
    Particle,
>)
    requires
        params.wf(),
        ps.len() <= params.num_particles,
        forall|i: int| 0 <= i < ps.len() ==> 0 <= (#[trigger] ps[i]).pos.0 && 0 <= ps[i].pos.1,
        old(grid).len() == num_cells(*params),
        forall|c: int| 0 <= c < old(grid).len() ==> old(grid)[c] == NO_LINK,
    ensures
        out.len() == ps.len(),
        final(grid).len() == num_cells(*params),
        forall|i: int| 0 <= i < out.len() ==> (#[trigger] out[i]).same_body(ps[i]),
        built_store(out@, final(grid)@, *params),
        forall|c: int| 0 <= c < num_cells(*params) ==> #[trigger] chain_layout(
            out@,
            final(grid)@,
            ps@,
            *params,
            c,
            ps.len() as int,
        ),
{
    let n = ps.len();
    
    let mut out: Vec<Particle> = Vec::new();
    let mut i: usize = 0;
    while i < n
        invariant
            i <= n,
            n == ps.len(),
            out.len() == i,
            forall|j: int| 0 <= j < i ==> (#[trigger] out[j]).same_body(ps[j]),
            forall|j: int| 0 <= j < i ==> (#[trigger] out[j]).links_clear(),
        decreases n - i,
    {
        let p = ps[i];
        out.push(
            Particle {
                pos: p.pos,
                vel: p.vel,
                mass: p.mass,
                kind: p.kind,
                forward: NO_LINK,
                backward: NO_LINK,
            },
        );
        i += 1;
    }
    let mut k: usize = 0;
    while k < n
        invariant
            k <= n,
            n == ps.len(),
            n <= params.num_particles,
            params.wf(),
            forall|j: int| 0 <= j < n ==> 0 <= (#[trigger] ps[j]).pos.0 && 0 <= ps[j].pos.1,
            out.len() == n,
            grid.len() == num_cells(*params),
            forall|j: int| 0 <= j < n ==> (#[trigger] out[j]).same_body(ps[j]),
            forall|j: int| k <= j < n ==> (#[trigger] out[j]).links_clear(),
            forall|c: int| 0 <= c < num_cells(*params) ==> #[trigger] chain_layout(
                out@,
                grid@,
                ps@,
                *params,
                c,
                k as int,
            ),
        decreases n - k,
    {
        let ghost old_out = out@;
        let ghost old_grid = grid@;
        let c = cell_of(&ps[k], params);
        let ghost c0 = c as int;
        proof {
            lemma_cell_chain_props(ps@, (*params), c0, k as int);
            assert forall|c2: int| 0 <= c2 < num_cells((*params)) implies chain_layout(
                old_out,
                old_grid,
                ps@,
                (*params),
                c2,
                k as int,
            ) by {
                assert(chain_layout(out@, grid@, ps@, *params, c2, k as int));
            }
        }
        let ghost och = cell_chain(ps@, (*params), c0, k as int);
        let prev = grid[c];
        proof {
            assert(chain_layout(old_out, old_grid, ps@, *params, c0, k as int));
            assert(prev == old_grid[c0]);
            assert(prev != NO_LINK ==> och.len() > 0 && och[0] == prev as int);
        }
        grid[c] = k as u32;
        let mut rec = out[k];
        rec.forward = prev;
        rec.backward = NO_LINK;
        out[k] = rec;
        if prev != NO_LINK {
            proof {
                assert(och.len() > 0 && och[0] == prev as int);
            }
            let mut pr = out[prev as usize];
            pr.backward = k as u32;
            out[prev as usize] = pr;
        }
        proof {
            let kk = k as int;
            let nch = cell_chain(ps@, (*params), c0, kk + 1);
            assert(nch == seq![kk] + och);
            // the freshly filed particle and the former head are the
            // only records touched; neither lies on another cell's
            // old chain
            assert forall|c2: int|
                0 <= c2 < num_cells((*params)) implies #[trigger] chain_layout(
                out@,
                grid@,
                ps@,
                (*params),
                c2,
                kk + 1,
            ) by {
                lemma_cell_chain_props(ps@, (*params), c2, kk);
                assert(chain_layout(old_out, old_grid, ps@, (*params), c2, kk));
                let ch2 = cell_chain(ps@, (*params), c2, kk);
                if c2 == c0 {
                    assert(grid@[c2] == kk as u32);
                    assert(nch[0] == kk);
                    assert forall|j: int| 0 <= j < nch.len() implies (#[trigger] out@[nch[j]]).forward
                        == (if j + 1 < nch.len() { nch[j + 1] as u32 } else { NO_LINK })
                        && out@[nch[j]].backward
                        == (if j >= 1 { nch[j - 1] as u32 } else { NO_LINK }) by {
                        if j == 0 {
                            assert(out@[kk] == rec);
                        } else {
                            assert(nch[j] == och[j - 1]);
                            if j == 1 {
                                assert(och[0] == prev as int);
                                assert(out@[och[0]].backward == kk as u32);
                                assert(out@[och[0]].forward == old_out[och[0]].forward);
                            } else {
                                // deeper entries are untouched: they differ
                                // from both k and the former head
                                assert(och[j - 1] < kk);
                                assert(och[j - 1] != och[0]);
                                assert(out@[och[j - 1]] == old_out[och[j - 1]]);
                            }
                        }
                    }
                } else {
                    // this cell's chain is unchanged and its records
                    // untouched
                    assert(cell_chain(ps@, (*params), c2, kk + 1) == ch2);
                    assert(grid@[c2] == old_grid[c2]);
                    assert forall|j: int| 0 <= j < ch2.len() implies out@[#[trigger] ch2[j]]
                        == old_out[ch2[j]] by {
                        assert(spec_cell_of(ps@[ch2[j]], (*params)) == c2);
                        assert(ch2[j] < kk);
                        if prev != NO_LINK {
                            assert(spec_cell_of(ps@[och[0]], (*params)) == c0);
                            assert(ch2[j] != och[0]);
                        }
                    }
                }
            }
        }
        k += 1;
    }
    proof {
        assert forall|c: int| 0 <= c < num_cells((*params)) implies #[trigger] chain_layout(
            out@,
            grid@,
            out@,
            (*params),
            c,
            out@.len() as int,
        ) by {
            lemma_chain_congruence(ps@, out@, (*params), c, n as int);
            assert(chain_layout(out@, grid@, ps@, (*params), c, n as int));
        }
    }
    out
}

} // verus!
