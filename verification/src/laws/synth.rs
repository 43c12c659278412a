//! Products with synthesised weights: what each kernel is handed and what its launch covers.

use vstd::prelude::*;

use crate::command::{Buf, Cmd, Group, Kernel, Size, div_up, max_u64, min_u64, plane};
use crate::encode::synth::{
    synth_bwd_steps, synth_matmul_steps, synth_matmul_tiled_steps, synth_reconstruct_h_steps,
    synth_reconstruct_steps,
};
use crate::launch::{group_launches, launch, launches, launches_once};

verus! {

/// Product with weights from a codebook: up to eight rows split the inner dimension over a
/// simdgroup, more have one thread per output. The kernel finds each operand and number of the call
/// at its own slot.
pub proof fn lemma_synth_matmul(
    x: usize,
    indices: usize,
    codebook: usize,
    dst: usize,
    m: u32,
    k_dim: u32,
    n_dim: u32,
    entry_dim: u32,
    num_entries: u32,
    half: bool,
)
    ensures
        ({
            let s = synth_matmul_steps(
                x,
                indices,
                codebook,
                dst,
                m,
                k_dim,
                n_dim,
                entry_dim,
                num_entries,
                half,
            );
            &&& launches_once(s)
            &&& launch(s).place(0) == Some((Buf::Arena, 0u64))
            &&& launch(s).long(1) == Some(x as u64)
            &&& launch(s).long(2) == Some(indices as u64)
            &&& launch(s).long(3) == Some(codebook as u64)
            &&& launch(s).long(4) == Some(dst as u64)
            &&& launch(s).word(5) == Some(k_dim)
            &&& launch(s).word(6) == Some(n_dim)
            &&& launch(s).word(7) == Some(entry_dim)
            &&& launch(s).word(8) == Some(num_entries)
            &&& launch(s).word(9) == Some(m)
            &&& m <= 8 ==> {
                &&& launch(s).kernel() == Some(
                    if half { Kernel::SynthMatmulCodebookH } else { Kernel::SynthMatmulCodebook },
                )
                &&& launch(s).shape == Cmd::Threads(
                    Size { width: 32, height: n_dim as u64, depth: m as u64 },
                    Group::Fixed(plane(32, max_u64(min_u64(8, n_dim as u64), 1))),
                )
            }
            &&& !(m <= 8) ==> {
                &&& launch(s).kernel() == Some(
                    if half {
                        Kernel::SynthMatmulCodebookMmH
                    } else { Kernel::SynthMatmulCodebookMm },
                )
                &&& launch(s).shape == Cmd::Threads(
                    plane(n_dim as u64, m as u64),
                    Group::Fixed(
                        plane(
                            max_u64(
                                min_u64(256u64 / max_u64(min_u64(8, m as u64), 1), n_dim as u64),
                                1,
                            ),
                            max_u64(min_u64(8, m as u64), 1),
                        ),
                    ),
                )
            }
        }),
{
    broadcast use group_launches;

    let s = synth_matmul_steps(x, indices, codebook, dst, m, k_dim, n_dim, entry_dim, num_entries, half);
    if m <= 8 {
        assert(launches(s).len() == 1);
    } else if !(m <= 8) {
        assert(launches(s).len() == 1);
    }
}

/// The same in 64 by 64 tiles. The kernel finds each operand and number of the call at its own
/// slot.
pub proof fn lemma_synth_matmul_tiled(
    x: usize,
    indices: usize,
    codebook: usize,
    dst: usize,
    m: u32,
    k_dim: u32,
    n_dim: u32,
    entry_dim: u32,
    num_entries: u32,
    half: bool,
)
    ensures
        ({
            let s = synth_matmul_tiled_steps(
                x,
                indices,
                codebook,
                dst,
                m,
                k_dim,
                n_dim,
                entry_dim,
                num_entries,
                half,
            );
            &&& launches_once(s)
            &&& launch(s).kernel() == Some(
                if half {
                    Kernel::SynthMatmulCodebookTiledH
                } else { Kernel::SynthMatmulCodebookTiled },
            )
            &&& launch(s).place(0) == Some((Buf::Arena, 0u64))
            &&& launch(s).long(1) == Some(x as u64)
            &&& launch(s).long(2) == Some(indices as u64)
            &&& launch(s).long(3) == Some(codebook as u64)
            &&& launch(s).long(4) == Some(dst as u64)
            &&& launch(s).word(5) == Some(k_dim)
            &&& launch(s).word(6) == Some(n_dim)
            &&& launch(s).word(7) == Some(entry_dim)
            &&& launch(s).word(8) == Some(num_entries)
            &&& launch(s).word(9) == Some(m)
            &&& launch(s).shape == Cmd::Groups(
                plane(div_up(n_dim as u64, 64), div_up(m as u64, 64)),
                plane(32, 16),
            )
        }),
{
    broadcast use group_launches;

    let s = synth_matmul_tiled_steps(
        x,
        indices,
        codebook,
        dst,
        m,
        k_dim,
        n_dim,
        entry_dim,
        num_entries,
        half,
    );
    assert(launches(s).len() == 1);
}

/// Writes the dense weights of a codebook. The kernel finds each operand and number of the call at
/// its own slot.
pub proof fn lemma_synth_reconstruct(
    indices: usize,
    codebook: usize,
    w_scratch: usize,
    k_dim: u32,
    n_dim: u32,
    entry_dim: u32,
)
    ensures
        ({
            let s = synth_reconstruct_steps(indices, codebook, w_scratch, k_dim, n_dim, entry_dim);
            &&& launches_once(s)
            &&& launch(s).kernel() == Some(Kernel::SynthReconstruct)
            &&& launch(s).place(0) == Some((Buf::Arena, 0u64))
            &&& launch(s).long(1) == Some(indices as u64)
            &&& launch(s).long(2) == Some(codebook as u64)
            &&& launch(s).long(3) == Some(w_scratch as u64)
            &&& launch(s).word(4) == Some(k_dim)
            &&& launch(s).word(5) == Some(n_dim)
            &&& launch(s).word(6) == Some(entry_dim)
            &&& launch(s).shape == Cmd::Threads(
                plane((k_dim / if entry_dim == 0 { 1 } else { entry_dim }) as u64, n_dim as u64),
                Group::Fixed(
                    plane(
                        max_u64(
                            min_u64(32, (k_dim / if entry_dim == 0 { 1 } else { entry_dim }) as u64),
                            1,
                        ),
                        max_u64(min_u64(8, n_dim as u64), 1),
                    ),
                ),
            )
        }),
{
    broadcast use group_launches;

    let s = synth_reconstruct_steps(indices, codebook, w_scratch, k_dim, n_dim, entry_dim);
    assert(launches(s).len() == 1);
}

/// Writes the dense weights of a codebook in half precision. The kernel finds each operand and
/// number of the call at its own slot.
pub proof fn lemma_synth_reconstruct_h(
    indices: usize,
    codebook: usize,
    w_scratch: usize,
    k_dim: u32,
    n_dim: u32,
    entry_dim: u32,
)
    ensures
        ({
            let s = synth_reconstruct_h_steps(indices, codebook, w_scratch, k_dim, n_dim, entry_dim);
            &&& launches_once(s)
            &&& launch(s).kernel() == Some(Kernel::SynthReconstructH)
            &&& launch(s).place(0) == Some((Buf::Arena, 0u64))
            &&& launch(s).long(1) == Some(indices as u64)
            &&& launch(s).long(2) == Some(codebook as u64)
            &&& launch(s).long(3) == Some(w_scratch as u64)
            &&& launch(s).word(4) == Some(k_dim)
            &&& launch(s).word(5) == Some(n_dim)
            &&& launch(s).word(6) == Some(entry_dim)
            &&& launch(s).shape == Cmd::Threads(
                plane((k_dim / if entry_dim == 0 { 1 } else { entry_dim }) as u64, n_dim as u64),
                Group::Fixed(
                    plane(
                        max_u64(
                            min_u64(32, (k_dim / if entry_dim == 0 { 1 } else { entry_dim }) as u64),
                            1,
                        ),
                        max_u64(min_u64(8, n_dim as u64), 1),
                    ),
                ),
            )
        }),
{
    broadcast use group_launches;

    let s = synth_reconstruct_h_steps(indices, codebook, w_scratch, k_dim, n_dim, entry_dim);
    assert(launches(s).len() == 1);
}

/// The gradient with respect to the input, or else to the codebook. The kernel finds each operand
/// and number of the call at its own slot.
pub proof fn lemma_synth_bwd(
    x: usize,
    indices: usize,
    codebook: usize,
    upstream: usize,
    dst: usize,
    m: u32,
    n: u32,
    k_dim: u32,
    entry_dim: u32,
    num_entries: u32,
    dx: bool,
)
    ensures
        ({
            let s = synth_bwd_steps(
                x,
                indices,
                codebook,
                upstream,
                dst,
                m,
                n,
                k_dim,
                entry_dim,
                num_entries,
                dx,
            );
            &&& launches_once(s)
            &&& launch(s).place(0) == Some((Buf::Arena, 0u64))
            &&& launch(s).long(1) == Some(upstream as u64)
            &&& launch(s).long(2) == Some(indices as u64)
            &&& launch(s).long(4) == Some(dst as u64)
            &&& launch(s).word(5) == Some(m)
            &&& launch(s).word(6) == Some(n)
            &&& launch(s).word(7) == Some(k_dim)
            &&& launch(s).word(8) == Some(entry_dim)
            &&& dx ==> {
                &&& launch(s).kernel() == Some(Kernel::SynthBwdDx)
                &&& launch(s).long(3) == Some(codebook as u64)
                &&& launch(s).shape == Cmd::Threads(
                    plane(k_dim as u64, m as u64),
                    Group::Fixed(plane(max_u64(min_u64(16, k_dim as u64), 1), 16)),
                )
            }
            &&& !(dx) ==> {
                &&& launch(s).kernel() == Some(Kernel::SynthBwdCodebook)
                &&& launch(s).long(3) == Some(x as u64)
                &&& launch(s).word(9) == Some(num_entries)
                &&& launch(s).shape == Cmd::Threads(
                    plane(entry_dim as u64, num_entries as u64),
                    Group::Fixed(plane(max_u64(entry_dim as u64, 1), 64)),
                )
            }
        }),
{
    broadcast use group_launches;

    let s = synth_bwd_steps(x, indices, codebook, upstream, dst, m, n, k_dim, entry_dim, num_entries, dx);
    if dx {
        assert(launches(s).len() == 1);
    } else if !(dx) {
        assert(launches(s).len() == 1);
    }
}

} // verus!
