//! Products with weights from a codebook.

use vstd::prelude::*;

use crate::command::{
    ceil_div, div_up, emit, least, max_u64, min_u64, most, plane, plane_of, Buf, Cmd, Group, Kernel,
    Size,
};

verus! {

/// The steps of `encode_synth_matmul`.
pub open spec fn synth_matmul_steps(
    x: usize,
    indices: usize,
    codebook: usize,
    dst: usize,
    m: u32,
    k_dim: u32,
    n_dim: u32,
    entry_dim: u32,
    num_entries: u32,
    half: bool,
) -> Seq<Cmd> {
    if m <= 8 {
        seq![
            Cmd::Pipeline(
                if half { Kernel::SynthMatmulCodebookH } else { Kernel::SynthMatmulCodebook },
            ),
            Cmd::Buffer(0, Buf::Arena, 0),
            Cmd::U64(1, x as u64),
            Cmd::U64(2, indices as u64),
            Cmd::U64(3, codebook as u64),
            Cmd::U64(4, dst as u64),
            Cmd::U32(5, k_dim),
            Cmd::U32(6, n_dim),
            Cmd::U32(7, entry_dim),
            Cmd::U32(8, num_entries),
            Cmd::U32(9, m),
            Cmd::Threads(
                Size { width: 32, height: n_dim as u64, depth: m as u64 },
                Group::Fixed(plane(32, max_u64(min_u64(8, n_dim as u64), 1))),
            ),
        ]
    } else {
        seq![
            Cmd::Pipeline(
                if half {
                    Kernel::SynthMatmulCodebookMmH
                } else {
                    Kernel::SynthMatmulCodebookMm
                },
            ),
            Cmd::Buffer(0, Buf::Arena, 0),
            Cmd::U64(1, x as u64),
            Cmd::U64(2, indices as u64),
            Cmd::U64(3, codebook as u64),
            Cmd::U64(4, dst as u64),
            Cmd::U32(5, k_dim),
            Cmd::U32(6, n_dim),
            Cmd::U32(7, entry_dim),
            Cmd::U32(8, num_entries),
            Cmd::U32(9, m),
            Cmd::Threads(
                plane(n_dim as u64, m as u64),
                Group::Fixed(
                    plane(
                        max_u64(
                            min_u64(256u64 / max_u64(min_u64(8, m as u64), 1), n_dim as u64),
                            1,
                        ),
                        max_u64(min_u64(8, m as u64), 1),
                    ),
                ),
            ),
        ]
    }
}

/// Product with weights from a codebook: up to eight rows split the inner dimension over a
/// simdgroup, more have one thread per output.
pub fn encode_synth_matmul(
    enc: &mut Vec<Cmd>,
    x: usize,
    indices: usize,
    codebook: usize,
    dst: usize,
    m: u32,
    k_dim: u32,
    n_dim: u32,
    entry_dim: u32,
    num_entries: u32,
    half: bool,
)
    ensures
        final(enc)@ == old(enc)@ + synth_matmul_steps(
            x,
            indices,
            codebook,
            dst,
            m,
            k_dim,
            n_dim,
            entry_dim,
            num_entries,
            half,
        ),
{
    if m <= 8 {
        emit(
            enc,
            vec![
                Cmd::Pipeline(
                    if half { Kernel::SynthMatmulCodebookH } else { Kernel::SynthMatmulCodebook },
                ),
                Cmd::Buffer(0, Buf::Arena, 0),
                Cmd::U64(1, x as u64),
                Cmd::U64(2, indices as u64),
                Cmd::U64(3, codebook as u64),
                Cmd::U64(4, dst as u64),
                Cmd::U32(5, k_dim),
                Cmd::U32(6, n_dim),
                Cmd::U32(7, entry_dim),
                Cmd::U32(8, num_entries),
                Cmd::U32(9, m),
                Cmd::Threads(
                    Size { width: 32, height: n_dim as u64, depth: m as u64 },
                    Group::Fixed(plane_of(32, most(least(8, n_dim as u64), 1))),
                ),
            ],
        );
    } else {
        emit(
            enc,
            vec![
                Cmd::Pipeline(
                    if half {
                        Kernel::SynthMatmulCodebookMmH
                    } else {
                        Kernel::SynthMatmulCodebookMm
                    },
                ),
                Cmd::Buffer(0, Buf::Arena, 0),
                Cmd::U64(1, x as u64),
                Cmd::U64(2, indices as u64),
                Cmd::U64(3, codebook as u64),
                Cmd::U64(4, dst as u64),
                Cmd::U32(5, k_dim),
                Cmd::U32(6, n_dim),
                Cmd::U32(7, entry_dim),
                Cmd::U32(8, num_entries),
                Cmd::U32(9, m),
                Cmd::Threads(
                    plane_of(n_dim as u64, m as u64),
                    Group::Fixed(
                        plane_of(
                            most(least(256u64 / most(least(8, m as u64), 1), n_dim as u64), 1),
                            most(least(8, m as u64), 1),
                        ),
                    ),
                ),
            ],
        );
    }
}

/// The steps of `encode_synth_matmul_tiled`.
pub open spec fn synth_matmul_tiled_steps(
    x: usize,
    indices: usize,
    codebook: usize,
    dst: usize,
    m: u32,
    k_dim: u32,
    n_dim: u32,
    entry_dim: u32,
    num_entries: u32,
    half: bool,
) -> Seq<Cmd> {
    seq![
        Cmd::Pipeline(
            if half {
                Kernel::SynthMatmulCodebookTiledH
            } else {
                Kernel::SynthMatmulCodebookTiled
            },
        ),
        Cmd::Buffer(0, Buf::Arena, 0),
        Cmd::U64(1, x as u64),
        Cmd::U64(2, indices as u64),
        Cmd::U64(3, codebook as u64),
        Cmd::U64(4, dst as u64),
        Cmd::U32(5, k_dim),
        Cmd::U32(6, n_dim),
        Cmd::U32(7, entry_dim),
        Cmd::U32(8, num_entries),
        Cmd::U32(9, m),
        Cmd::Groups(plane(div_up(n_dim as u64, 64), div_up(m as u64, 64)), plane(32, 16)),
    ]
}

/// The same in 64 by 64 tiles.
pub fn encode_synth_matmul_tiled(
    enc: &mut Vec<Cmd>,
    x: usize,
    indices: usize,
    codebook: usize,
    dst: usize,
    m: u32,
    k_dim: u32,
    n_dim: u32,
    entry_dim: u32,
    num_entries: u32,
    half: bool,
)
    ensures
        final(enc)@ == old(enc)@ + synth_matmul_tiled_steps(
            x,
            indices,
            codebook,
            dst,
            m,
            k_dim,
            n_dim,
            entry_dim,
            num_entries,
            half,
        ),
{
    emit(
        enc,
        vec![
            Cmd::Pipeline(
                if half {
                    Kernel::SynthMatmulCodebookTiledH
                } else {
                    Kernel::SynthMatmulCodebookTiled
                },
            ),
            Cmd::Buffer(0, Buf::Arena, 0),
            Cmd::U64(1, x as u64),
            Cmd::U64(2, indices as u64),
            Cmd::U64(3, codebook as u64),
            Cmd::U64(4, dst as u64),
            Cmd::U32(5, k_dim),
            Cmd::U32(6, n_dim),
            Cmd::U32(7, entry_dim),
            Cmd::U32(8, num_entries),
            Cmd::U32(9, m),
            Cmd::Groups(
                plane_of(ceil_div(n_dim as u64, 64), ceil_div(m as u64, 64)),
                plane_of(32, 16),
            ),
        ],
    );
}

/// The steps of `encode_synth_reconstruct`.
pub open spec fn synth_reconstruct_steps(
    indices: usize,
    codebook: usize,
    w_scratch: usize,
    k_dim: u32,
    n_dim: u32,
    entry_dim: u32,
) -> Seq<Cmd> {
    seq![
        Cmd::Pipeline(Kernel::SynthReconstruct),
        Cmd::Buffer(0, Buf::Arena, 0),
        Cmd::U64(1, indices as u64),
        Cmd::U64(2, codebook as u64),
        Cmd::U64(3, w_scratch as u64),
        Cmd::U32(4, k_dim),
        Cmd::U32(5, n_dim),
        Cmd::U32(6, entry_dim),
        Cmd::Threads(
            plane((k_dim / if entry_dim == 0 { 1 } else { entry_dim }) as u64, n_dim as u64),
            Group::Fixed(
                plane(
                    max_u64(
                        min_u64(
                            32,
                            (k_dim / if entry_dim == 0 { 1 } else { entry_dim }) as u64,
                        ),
                        1,
                    ),
                    max_u64(min_u64(8, n_dim as u64), 1),
                ),
            ),
        ),
    ]
}

/// Writes the dense weights of a codebook.
pub fn encode_synth_reconstruct(
    enc: &mut Vec<Cmd>,
    indices: usize,
    codebook: usize,
    w_scratch: usize,
    k_dim: u32,
    n_dim: u32,
    entry_dim: u32,
)
    ensures
        final(enc)@ == old(enc)@ + synth_reconstruct_steps(
            indices,
            codebook,
            w_scratch,
            k_dim,
            n_dim,
            entry_dim,
        ),
{
    emit(
        enc,
        vec![
            Cmd::Pipeline(Kernel::SynthReconstruct),
            Cmd::Buffer(0, Buf::Arena, 0),
            Cmd::U64(1, indices as u64),
            Cmd::U64(2, codebook as u64),
            Cmd::U64(3, w_scratch as u64),
            Cmd::U32(4, k_dim),
            Cmd::U32(5, n_dim),
            Cmd::U32(6, entry_dim),
            Cmd::Threads(
                plane_of((k_dim / if entry_dim == 0 { 1 } else { entry_dim }) as u64, n_dim as u64),
                Group::Fixed(
                    plane_of(
                        most(
                            least(32, (k_dim / if entry_dim == 0 { 1 } else { entry_dim }) as u64),
                            1,
                        ),
                        most(least(8, n_dim as u64), 1),
                    ),
                ),
            ),
        ],
    );
}

/// The steps of `encode_synth_reconstruct_h`.
pub open spec fn synth_reconstruct_h_steps(
    indices: usize,
    codebook: usize,
    w_scratch: usize,
    k_dim: u32,
    n_dim: u32,
    entry_dim: u32,
) -> Seq<Cmd> {
    seq![
        Cmd::Pipeline(Kernel::SynthReconstructH),
        Cmd::Buffer(0, Buf::Arena, 0),
        Cmd::U64(1, indices as u64),
        Cmd::U64(2, codebook as u64),
        Cmd::U64(3, w_scratch as u64),
        Cmd::U32(4, k_dim),
        Cmd::U32(5, n_dim),
        Cmd::U32(6, entry_dim),
        Cmd::Threads(
            plane((k_dim / if entry_dim == 0 { 1 } else { entry_dim }) as u64, n_dim as u64),
            Group::Fixed(
                plane(
                    max_u64(
                        min_u64(
                            32,
                            (k_dim / if entry_dim == 0 { 1 } else { entry_dim }) as u64,
                        ),
                        1,
                    ),
                    max_u64(min_u64(8, n_dim as u64), 1),
                ),
            ),
        ),
    ]
}

/// Writes the dense weights of a codebook in half precision.
pub fn encode_synth_reconstruct_h(
    enc: &mut Vec<Cmd>,
    indices: usize,
    codebook: usize,
    w_scratch: usize,
    k_dim: u32,
    n_dim: u32,
    entry_dim: u32,
)
    ensures
        final(enc)@ == old(enc)@ + synth_reconstruct_h_steps(
            indices,
            codebook,
            w_scratch,
            k_dim,
            n_dim,
            entry_dim,
        ),
{
    emit(
        enc,
        vec![
            Cmd::Pipeline(Kernel::SynthReconstructH),
            Cmd::Buffer(0, Buf::Arena, 0),
            Cmd::U64(1, indices as u64),
            Cmd::U64(2, codebook as u64),
            Cmd::U64(3, w_scratch as u64),
            Cmd::U32(4, k_dim),
            Cmd::U32(5, n_dim),
            Cmd::U32(6, entry_dim),
            Cmd::Threads(
                plane_of((k_dim / if entry_dim == 0 { 1 } else { entry_dim }) as u64, n_dim as u64),
                Group::Fixed(
                    plane_of(
                        most(
                            least(32, (k_dim / if entry_dim == 0 { 1 } else { entry_dim }) as u64),
                            1,
                        ),
                        most(least(8, n_dim as u64), 1),
                    ),
                ),
            ),
        ],
    );
}

/// The steps of `encode_synth_bwd`.
pub open spec fn synth_bwd_steps(
    x: usize,
    indices: usize,
    codebook: usize,
    upstream: usize,
    dst: usize,
    m: u32,
    n: u32,
    k_dim: u32,
    entry_dim: u32,
    num_entries: u32,
    dx: bool,
) -> Seq<Cmd> {
    seq![
        Cmd::Buffer(0, Buf::Arena, 0),
        Cmd::U64(1, upstream as u64),
        Cmd::U64(2, indices as u64),
    ] + (if dx {
        seq![
            Cmd::Pipeline(Kernel::SynthBwdDx),
            Cmd::U64(3, codebook as u64),
            Cmd::U64(4, dst as u64),
            Cmd::U32(5, m),
            Cmd::U32(6, n),
            Cmd::U32(7, k_dim),
            Cmd::U32(8, entry_dim),
            Cmd::Threads(
                plane(k_dim as u64, m as u64),
                Group::Fixed(plane(max_u64(min_u64(16, k_dim as u64), 1), 16)),
            ),
        ]
    } else {
        seq![
            Cmd::Pipeline(Kernel::SynthBwdCodebook),
            Cmd::U64(3, x as u64),
            Cmd::U64(4, dst as u64),
            Cmd::U32(5, m),
            Cmd::U32(6, n),
            Cmd::U32(7, k_dim),
            Cmd::U32(8, entry_dim),
            Cmd::U32(9, num_entries),
            Cmd::Threads(
                plane(entry_dim as u64, num_entries as u64),
                Group::Fixed(plane(max_u64(entry_dim as u64, 1), 64)),
            ),
        ]
    })
}

/// The gradient with respect to the input, or else to the codebook.
pub fn encode_synth_bwd(
    enc: &mut Vec<Cmd>,
    x: usize,
    indices: usize,
    codebook: usize,
    upstream: usize,
    dst: usize,
    m: u32,
    n: u32,
    k_dim: u32,
    entry_dim: u32,
    num_entries: u32,
    dx: bool,
)
    ensures
        final(enc)@ == old(enc)@ + synth_bwd_steps(
            x,
            indices,
            codebook,
            upstream,
            dst,
            m,
            n,
            k_dim,
            entry_dim,
            num_entries,
            dx,
        ),
{
    emit(
        enc,
        vec![
            Cmd::Buffer(0, Buf::Arena, 0),
            Cmd::U64(1, upstream as u64),
            Cmd::U64(2, indices as u64),
        ],
    );
    if dx {
        emit(
            enc,
            vec![
                Cmd::Pipeline(Kernel::SynthBwdDx),
                Cmd::U64(3, codebook as u64),
                Cmd::U64(4, dst as u64),
                Cmd::U32(5, m),
                Cmd::U32(6, n),
                Cmd::U32(7, k_dim),
                Cmd::U32(8, entry_dim),
                Cmd::Threads(
                    plane_of(k_dim as u64, m as u64),
                    Group::Fixed(plane_of(most(least(16, k_dim as u64), 1), 16)),
                ),
            ],
        );
    } else {
        emit(
            enc,
            vec![
                Cmd::Pipeline(Kernel::SynthBwdCodebook),
                Cmd::U64(3, x as u64),
                Cmd::U64(4, dst as u64),
                Cmd::U32(5, m),
                Cmd::U32(6, n),
                Cmd::U32(7, k_dim),
                Cmd::U32(8, entry_dim),
                Cmd::U32(9, num_entries),
                Cmd::Threads(
                    plane_of(entry_dim as u64, num_entries as u64),
                    Group::Fixed(plane_of(most(entry_dim as u64, 1), 64)),
                ),
            ],
        );
    }
}

} // verus!
