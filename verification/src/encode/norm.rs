//! Norms, gated sums and rotary embeddings.

use vstd::prelude::*;

use crate::command::{
    array_steps, bit, emit, emit_array, flag, least, max_u64, min_u64, most, one_row, plane,
    plane_of, reduction_span, reduction_width, row, sat_mul, saturating_product, Buf, Cmd, Group,
    HalfFlag, Kernel, Size,
};

verus! {

pub open spec fn layer_norm_steps(
    src: usize,
    g: usize,
    b: usize,
    dst: usize,
    rows: u32,
    h: u32,
    eps: u32,
    dt: HalfFlag,
) -> Seq<Cmd> {
    seq![
        Cmd::Pipeline(if dt == HalfFlag::F32 { Kernel::LayerNorm } else { Kernel::LayerNormH }),
        Cmd::Buffer(0, Buf::Arena, src as u64),
        Cmd::Buffer(1, Buf::Arena, g as u64),
        Cmd::Buffer(2, Buf::Arena, b as u64),
        Cmd::Buffer(3, Buf::Arena, dst as u64),
        Cmd::U32(4, h),
        Cmd::U32(5, eps),
        Cmd::Groups(one_row(rows as u64), one_row(reduction_span(h))),
    ]
}

/// Layer norm, one threadgroup per row.
pub fn encode_layer_norm(
    enc: &mut Vec<Cmd>,
    src: usize,
    g: usize,
    b: usize,
    dst: usize,
    rows: u32,
    h: u32,
    eps: u32,
    dt: HalfFlag,
)
    ensures
        final(enc)@ == old(enc)@ + layer_norm_steps(src, g, b, dst, rows, h, eps, dt),
{
    emit(
        enc,
        vec![
            Cmd::Pipeline(if dt == HalfFlag::F32 { Kernel::LayerNorm } else { Kernel::LayerNormH }),
            Cmd::Buffer(0, Buf::Arena, src as u64),
            Cmd::Buffer(1, Buf::Arena, g as u64),
            Cmd::Buffer(2, Buf::Arena, b as u64),
            Cmd::Buffer(3, Buf::Arena, dst as u64),
            Cmd::U32(4, h),
            Cmd::U32(5, eps),
            Cmd::Groups(row(rows as u64), row(reduction_width(h))),
        ],
    );
}

pub open spec fn fused_residual_ln_steps(
    x: usize,
    res: usize,
    g: usize,
    b: usize,
    out: usize,
    rows: u32,
    h: u32,
    eps: u32,
    dt: HalfFlag,
) -> Seq<Cmd> {
    seq![
        Cmd::Pipeline(
            if dt == HalfFlag::F32 { Kernel::FusedResidualLn } else { Kernel::FusedResidualLnH },
        ),
        Cmd::Buffer(0, Buf::Arena, x as u64),
        Cmd::Buffer(1, Buf::Arena, res as u64),
        Cmd::Buffer(2, Buf::Arena, g as u64),
        Cmd::Buffer(3, Buf::Arena, b as u64),
        Cmd::Buffer(4, Buf::Arena, out as u64),
        Cmd::U32(5, h),
        Cmd::U32(6, eps),
        Cmd::Groups(one_row(rows as u64), one_row(reduction_span(h))),
    ]
}

/// Residual sum and layer norm.
pub fn encode_fused_residual_ln(
    enc: &mut Vec<Cmd>,
    x: usize,
    res: usize,
    g: usize,
    b: usize,
    out: usize,
    rows: u32,
    h: u32,
    eps: u32,
    dt: HalfFlag,
)
    ensures
        final(enc)@ == old(enc)@ + fused_residual_ln_steps(x, res, g, b, out, rows, h, eps, dt),
{
    emit(
        enc,
        vec![
            Cmd::Pipeline(
                if dt == HalfFlag::F32 {
                    Kernel::FusedResidualLn
                } else {
                    Kernel::FusedResidualLnH
                },
            ),
            Cmd::Buffer(0, Buf::Arena, x as u64),
            Cmd::Buffer(1, Buf::Arena, res as u64),
            Cmd::Buffer(2, Buf::Arena, g as u64),
            Cmd::Buffer(3, Buf::Arena, b as u64),
            Cmd::Buffer(4, Buf::Arena, out as u64),
            Cmd::U32(5, h),
            Cmd::U32(6, eps),
            Cmd::Groups(row(rows as u64), row(reduction_width(h))),
        ],
    );
}

/// The steps of `encode_fused_residual_rms_norm`.
pub open spec fn fused_residual_rms_norm_steps(
    x: usize,
    res: usize,
    g: usize,
    b: usize,
    out: usize,
    rows: u32,
    h: u32,
    eps: u32,
    dt: HalfFlag,
    sum_out: usize,
) -> Seq<Cmd> {
    seq![
        Cmd::Pipeline(
            if dt == HalfFlag::F32 {
                Kernel::FusedResidualRmsNorm
            } else {
                Kernel::FusedResidualRmsNormH
            },
        ),
        Cmd::Buffer(0, Buf::Arena, 0),
        Cmd::U64(1, x as u64),
        Cmd::U64(2, res as u64),
        Cmd::U64(3, g as u64),
        Cmd::U64(4, b as u64),
        Cmd::U64(5, out as u64),
    ] + (if dt == HalfFlag::F32 {
        seq![Cmd::U64(8, sum_out as u64)]
    } else {
        Seq::<Cmd>::empty()
    }) + seq![
        Cmd::U32(6, h),
        Cmd::U32(7, eps),
        Cmd::Groups(one_row(rows as u64), one_row(reduction_span(h))),
    ]
}

/// Residual sum and RMS norm. In single precision the sum before the norm is written too.
pub fn encode_fused_residual_rms_norm(
    enc: &mut Vec<Cmd>,
    x: usize,
    res: usize,
    g: usize,
    b: usize,
    out: usize,
    rows: u32,
    h: u32,
    eps: u32,
    dt: HalfFlag,
    sum_out: usize,
)
    ensures
        final(enc)@ == old(enc)@ + fused_residual_rms_norm_steps(
            x,
            res,
            g,
            b,
            out,
            rows,
            h,
            eps,
            dt,
            sum_out,
        ),
{
    emit(
        enc,
        vec![
            Cmd::Pipeline(
                if dt == HalfFlag::F32 {
                    Kernel::FusedResidualRmsNorm
                } else {
                    Kernel::FusedResidualRmsNormH
                },
            ),
            Cmd::Buffer(0, Buf::Arena, 0),
            Cmd::U64(1, x as u64),
            Cmd::U64(2, res as u64),
            Cmd::U64(3, g as u64),
            Cmd::U64(4, b as u64),
            Cmd::U64(5, out as u64),
        ],
    );
    if dt == HalfFlag::F32 {
        emit(
            enc,
            vec![
                Cmd::U64(8, sum_out as u64),
            ],
        );
    }
    emit(
        enc,
        vec![
            Cmd::U32(6, h),
            Cmd::U32(7, eps),
            Cmd::Groups(row(rows as u64), row(reduction_width(h))),
        ],
    );
}

/// The steps of `encode_rms_norm`.
pub open spec fn rms_norm_steps(
    src: usize,
    g: usize,
    b: usize,
    dst: usize,
    rows: u32,
    h: u32,
    eps: u32,
    dt: HalfFlag,
) -> Seq<Cmd> {
    seq![
        Cmd::Pipeline(if dt == HalfFlag::F32 { Kernel::RmsNorm } else { Kernel::RmsNormH }),
        Cmd::Buffer(0, Buf::Arena, 0),
        Cmd::U64(1, src as u64),
        Cmd::U64(2, g as u64),
        Cmd::U64(3, b as u64),
        Cmd::U64(4, dst as u64),
        Cmd::U32(5, h),
        Cmd::U32(6, eps),
        Cmd::Groups(one_row(rows as u64), one_row(reduction_span(h))),
    ]
}

/// RMS norm, one threadgroup per row.
pub fn encode_rms_norm(
    enc: &mut Vec<Cmd>,
    src: usize,
    g: usize,
    b: usize,
    dst: usize,
    rows: u32,
    h: u32,
    eps: u32,
    dt: HalfFlag,
)
    ensures
        final(enc)@ == old(enc)@ + rms_norm_steps(src, g, b, dst, rows, h, eps, dt),
{
    emit(
        enc,
        vec![
            Cmd::Pipeline(if dt == HalfFlag::F32 { Kernel::RmsNorm } else { Kernel::RmsNormH }),
            Cmd::Buffer(0, Buf::Arena, 0),
            Cmd::U64(1, src as u64),
            Cmd::U64(2, g as u64),
            Cmd::U64(3, b as u64),
            Cmd::U64(4, dst as u64),
            Cmd::U32(5, h),
            Cmd::U32(6, eps),
            Cmd::Groups(row(rows as u64), row(reduction_width(h))),
        ],
    );
}

/// The steps of `encode_ada_layer_norm`.
pub open spec fn ada_layer_norm_steps(
    x: usize,
    scale: usize,
    shift: usize,
    out: usize,
    rows: u32,
    h: u32,
    eps: u32,
    layer_norm: bool,
    lead_pack: Seq<u32>,
    dt: HalfFlag,
) -> Seq<Cmd> {
    seq![
        Cmd::Pipeline(
            if dt == HalfFlag::F32 { Kernel::AdaLayerNorm } else { Kernel::AdaLayerNormH },
        ),
        Cmd::Buffer(0, Buf::Arena, x as u64),
        Cmd::Buffer(1, Buf::Arena, scale as u64),
        Cmd::Buffer(2, Buf::Arena, shift as u64),
        Cmd::Buffer(3, Buf::Arena, out as u64),
        Cmd::U32(4, h),
        Cmd::U32(5, eps),
        Cmd::U32(6, bit(layer_norm)),
    ] + array_steps(7, lead_pack) + seq![
        Cmd::Groups(one_row(rows as u64), one_row(reduction_span(h))),
    ]
}

/// A norm with scale and shift per item; `lead_pack` tells how rows map to items.
pub fn encode_ada_layer_norm(
    enc: &mut Vec<Cmd>,
    x: usize,
    scale: usize,
    shift: usize,
    out: usize,
    rows: u32,
    h: u32,
    eps: u32,
    layer_norm: bool,
    lead_pack: &[u32],
    dt: HalfFlag,
)
    ensures
        final(enc)@ == old(enc)@ + ada_layer_norm_steps(
            x,
            scale,
            shift,
            out,
            rows,
            h,
            eps,
            layer_norm,
            lead_pack@,
            dt,
        ),
{
    emit(
        enc,
        vec![
            Cmd::Pipeline(
                if dt == HalfFlag::F32 { Kernel::AdaLayerNorm } else { Kernel::AdaLayerNormH },
            ),
            Cmd::Buffer(0, Buf::Arena, x as u64),
            Cmd::Buffer(1, Buf::Arena, scale as u64),
            Cmd::Buffer(2, Buf::Arena, shift as u64),
            Cmd::Buffer(3, Buf::Arena, out as u64),
            Cmd::U32(4, h),
            Cmd::U32(5, eps),
            Cmd::U32(6, flag(layer_norm)),
        ],
    );
    emit_array(enc, 7, lead_pack);
    emit(
        enc,
        vec![
            Cmd::Groups(row(rows as u64), row(reduction_width(h))),
        ],
    );
}

/// The steps of `encode_gated_residual`.
pub open spec fn gated_residual_steps(
    x: usize,
    y: usize,
    gate: usize,
    out: usize,
    rows: u32,
    h: u32,
    lead_pack: Seq<u32>,
    dt: HalfFlag,
) -> Seq<Cmd> {
    seq![
        Cmd::Pipeline(
            if dt == HalfFlag::F32 { Kernel::GatedResidual } else { Kernel::GatedResidualH },
        ),
        Cmd::Buffer(0, Buf::Arena, x as u64),
        Cmd::Buffer(1, Buf::Arena, y as u64),
        Cmd::Buffer(2, Buf::Arena, gate as u64),
        Cmd::Buffer(3, Buf::Arena, out as u64),
        Cmd::U32(4, h),
    ] + array_steps(5, lead_pack) + seq![
        Cmd::Threads(
            one_row(sat_mul(rows, h) as u64),
            Group::ExecWidth(
                if dt == HalfFlag::F32 {
                    Kernel::GatedResidual
                } else {
                    Kernel::GatedResidualH
                },
                max_u64(sat_mul(rows, h) as u64, 1),
            ),
        ),
    ]
}

/// Residual sum with a gate per item.
pub fn encode_gated_residual(
    enc: &mut Vec<Cmd>,
    x: usize,
    y: usize,
    gate: usize,
    out: usize,
    rows: u32,
    h: u32,
    lead_pack: &[u32],
    dt: HalfFlag,
)
    ensures
        final(enc)@ == old(enc)@ + gated_residual_steps(x, y, gate, out, rows, h, lead_pack@, dt),
{
    emit(
        enc,
        vec![
            Cmd::Pipeline(
                if dt == HalfFlag::F32 { Kernel::GatedResidual } else { Kernel::GatedResidualH },
            ),
            Cmd::Buffer(0, Buf::Arena, x as u64),
            Cmd::Buffer(1, Buf::Arena, y as u64),
            Cmd::Buffer(2, Buf::Arena, gate as u64),
            Cmd::Buffer(3, Buf::Arena, out as u64),
            Cmd::U32(4, h),
        ],
    );
    emit_array(enc, 5, lead_pack);
    emit(
        enc,
        vec![
            Cmd::Threads(
                row(saturating_product(rows, h) as u64),
                Group::ExecWidth(
                    if dt == HalfFlag::F32 {
                        Kernel::GatedResidual
                    } else {
                        Kernel::GatedResidualH
                    },
                    most(saturating_product(rows, h) as u64, 1),
                ),
            ),
        ],
    );
}

/// The steps of `encode_ada_layer_norm_backward`.
pub open spec fn ada_layer_norm_backward_steps(
    x: usize,
    scale: usize,
    dy: usize,
    out: usize,
    h: u32,
    eps: u32,
    layer_norm: bool,
    seq_per_mod: u32,
    mod_rows: u32,
    dt: HalfFlag,
) -> Seq<Cmd> {
    seq![
        Cmd::Pipeline(
            if dt == HalfFlag::F32 {
                Kernel::AdaLayerNormBackward
            } else {
                Kernel::AdaLayerNormBackwardH
            },
        ),
        Cmd::Buffer(0, Buf::Arena, x as u64),
        Cmd::Buffer(1, Buf::Arena, scale as u64),
        Cmd::Buffer(2, Buf::Arena, dy as u64),
        Cmd::Buffer(3, Buf::Arena, out as u64),
        Cmd::U32(4, h),
        Cmd::U32(5, eps),
        Cmd::U32(6, bit(layer_norm)),
        Cmd::U32(7, seq_per_mod),
        Cmd::U32(8, mod_rows),
        Cmd::Groups(one_row(mod_rows as u64), one_row(reduction_span(h))),
    ]
}

/// The gradient of that norm, one threadgroup per item.
pub fn encode_ada_layer_norm_backward(
    enc: &mut Vec<Cmd>,
    x: usize,
    scale: usize,
    dy: usize,
    out: usize,
    h: u32,
    eps: u32,
    layer_norm: bool,
    seq_per_mod: u32,
    mod_rows: u32,
    dt: HalfFlag,
)
    ensures
        final(enc)@ == old(enc)@ + ada_layer_norm_backward_steps(
            x,
            scale,
            dy,
            out,
            h,
            eps,
            layer_norm,
            seq_per_mod,
            mod_rows,
            dt,
        ),
{
    emit(
        enc,
        vec![
            Cmd::Pipeline(
                if dt == HalfFlag::F32 {
                    Kernel::AdaLayerNormBackward
                } else {
                    Kernel::AdaLayerNormBackwardH
                },
            ),
            Cmd::Buffer(0, Buf::Arena, x as u64),
            Cmd::Buffer(1, Buf::Arena, scale as u64),
            Cmd::Buffer(2, Buf::Arena, dy as u64),
            Cmd::Buffer(3, Buf::Arena, out as u64),
            Cmd::U32(4, h),
            Cmd::U32(5, eps),
            Cmd::U32(6, flag(layer_norm)),
            Cmd::U32(7, seq_per_mod),
            Cmd::U32(8, mod_rows),
            Cmd::Groups(row(mod_rows as u64), row(reduction_width(h))),
        ],
    );
}

/// The steps of `encode_gated_residual_backward`.
pub open spec fn gated_residual_backward_steps(
    y: usize,
    gate: usize,
    dy: usize,
    out: usize,
    h: u32,
    seq_per_mod: u32,
    mod_rows: u32,
    dt: HalfFlag,
) -> Seq<Cmd> {
    seq![
        Cmd::Pipeline(
            if dt == HalfFlag::F32 {
                Kernel::GatedResidualBackward
            } else {
                Kernel::GatedResidualBackwardH
            },
        ),
        Cmd::Buffer(0, Buf::Arena, y as u64),
        Cmd::Buffer(1, Buf::Arena, gate as u64),
        Cmd::Buffer(2, Buf::Arena, dy as u64),
        Cmd::Buffer(3, Buf::Arena, out as u64),
        Cmd::U32(4, h),
        Cmd::U32(5, seq_per_mod),
        Cmd::U32(6, mod_rows),
        Cmd::Groups(one_row(mod_rows as u64), one_row(reduction_span(h))),
    ]
}

/// The gradient of the gated sum, one threadgroup per item.
pub fn encode_gated_residual_backward(
    enc: &mut Vec<Cmd>,
    y: usize,
    gate: usize,
    dy: usize,
    out: usize,
    h: u32,
    seq_per_mod: u32,
    mod_rows: u32,
    dt: HalfFlag,
)
    ensures
        final(enc)@ == old(enc)@ + gated_residual_backward_steps(
            y,
            gate,
            dy,
            out,
            h,
            seq_per_mod,
            mod_rows,
            dt,
        ),
{
    emit(
        enc,
        vec![
            Cmd::Pipeline(
                if dt == HalfFlag::F32 {
                    Kernel::GatedResidualBackward
                } else {
                    Kernel::GatedResidualBackwardH
                },
            ),
            Cmd::Buffer(0, Buf::Arena, y as u64),
            Cmd::Buffer(1, Buf::Arena, gate as u64),
            Cmd::Buffer(2, Buf::Arena, dy as u64),
            Cmd::Buffer(3, Buf::Arena, out as u64),
            Cmd::U32(4, h),
            Cmd::U32(5, seq_per_mod),
            Cmd::U32(6, mod_rows),
            Cmd::Groups(row(mod_rows as u64), row(reduction_width(h))),
        ],
    );
}

/// The steps of `encode_rms_norm_mul_silu`.
pub open spec fn rms_norm_mul_silu_steps(
    src: usize,
    g: usize,
    b: usize,
    z: usize,
    dst: usize,
    rows: u32,
    h: u32,
    eps: u32,
) -> Seq<Cmd> {
    seq![
        Cmd::Pipeline(Kernel::RmsNormMulSilu),
        Cmd::Buffer(0, Buf::Arena, 0),
        Cmd::U64(1, src as u64),
        Cmd::U64(2, g as u64),
        Cmd::U64(3, b as u64),
        Cmd::U64(4, z as u64),
        Cmd::U64(5, dst as u64),
        Cmd::U32(6, h),
        Cmd::U32(7, eps),
        Cmd::Groups(one_row(rows as u64), one_row(reduction_span(h))),
    ]
}

/// RMS norm times the SiLU of a gate.
pub fn encode_rms_norm_mul_silu(
    enc: &mut Vec<Cmd>,
    src: usize,
    g: usize,
    b: usize,
    z: usize,
    dst: usize,
    rows: u32,
    h: u32,
    eps: u32,
)
    ensures
        final(enc)@ == old(enc)@ + rms_norm_mul_silu_steps(src, g, b, z, dst, rows, h, eps),
{
    emit(
        enc,
        vec![
            Cmd::Pipeline(Kernel::RmsNormMulSilu),
            Cmd::Buffer(0, Buf::Arena, 0),
            Cmd::U64(1, src as u64),
            Cmd::U64(2, g as u64),
            Cmd::U64(3, b as u64),
            Cmd::U64(4, z as u64),
            Cmd::U64(5, dst as u64),
            Cmd::U32(6, h),
            Cmd::U32(7, eps),
            Cmd::Groups(row(rows as u64), row(reduction_width(h))),
        ],
    );
}

/// The steps of `encode_rms_norm_bwd_input`.
pub open spec fn rms_norm_bwd_input_steps(
    x: usize,
    gamma: usize,
    beta: usize,
    dy: usize,
    dx: usize,
    rows: u32,
    h: u32,
    eps: u32,
) -> Seq<Cmd> {
    seq![
        Cmd::Pipeline(Kernel::RmsNormBwd),
        Cmd::Buffer(0, Buf::Arena, x as u64),
        Cmd::Buffer(1, Buf::Arena, gamma as u64),
        Cmd::Buffer(2, Buf::Arena, beta as u64),
        Cmd::Buffer(3, Buf::Arena, dy as u64),
        Cmd::Buffer(4, Buf::Arena, dx as u64),
        Cmd::U32(5, h),
        Cmd::U32(6, eps),
        Cmd::U32(7, 0),
        Cmd::Groups(one_row(rows as u64), one_row(min_u64(256, h as u64))),
    ]
}

/// The gradient of RMS norm with respect to its input.
pub fn encode_rms_norm_bwd_input(
    enc: &mut Vec<Cmd>,
    x: usize,
    gamma: usize,
    beta: usize,
    dy: usize,
    dx: usize,
    rows: u32,
    h: u32,
    eps: u32,
)
    ensures
        final(enc)@ == old(enc)@ + rms_norm_bwd_input_steps(x, gamma, beta, dy, dx, rows, h, eps),
{
    emit(
        enc,
        vec![
            Cmd::Pipeline(Kernel::RmsNormBwd),
            Cmd::Buffer(0, Buf::Arena, x as u64),
            Cmd::Buffer(1, Buf::Arena, gamma as u64),
            Cmd::Buffer(2, Buf::Arena, beta as u64),
            Cmd::Buffer(3, Buf::Arena, dy as u64),
            Cmd::Buffer(4, Buf::Arena, dx as u64),
            Cmd::U32(5, h),
            Cmd::U32(6, eps),
            Cmd::U32(7, 0),
            Cmd::Groups(row(rows as u64), row(least(256, h as u64))),
        ],
    );
}

/// The steps of `encode_rms_norm_bwd_param`.
pub open spec fn rms_norm_bwd_param_steps(
    x: usize,
    gamma: usize,
    beta: usize,
    dy: usize,
    out: usize,
    rows: u32,
    h: u32,
    eps: u32,
    wrt: u32,
    inv_r_scratch: usize,
) -> Seq<Cmd> {
    if !(inv_r_scratch != 0 && rows > 1) {
        seq![
            Cmd::Pipeline(Kernel::RmsNormBwdParam),
            Cmd::Buffer(0, Buf::Arena, x as u64),
            Cmd::Buffer(1, Buf::Arena, gamma as u64),
            Cmd::Buffer(2, Buf::Arena, beta as u64),
            Cmd::Buffer(3, Buf::Arena, dy as u64),
            Cmd::Buffer(4, Buf::Arena, out as u64),
            Cmd::U32(5, rows),
            Cmd::U32(6, h),
            Cmd::U32(7, eps),
            Cmd::U32(8, wrt),
            Cmd::Threads(one_row(1), Group::Fixed(one_row(1))),
        ]
    } else {
        (if wrt == 1 {
            seq![
                Cmd::Pipeline(Kernel::RmsNormBwdInvRF32),
                Cmd::Buffer(0, Buf::Arena, x as u64),
                Cmd::Buffer(1, Buf::Arena, inv_r_scratch as u64),
                Cmd::U32(2, h),
                Cmd::U32(3, eps),
                Cmd::Threads(
                    one_row(rows as u64),
                    Group::Fixed(one_row(max_u64(min_u64(256, rows as u64), 1))),
                ),
            ]
        } else {
            Seq::<Cmd>::empty()
        }) + seq![
            Cmd::Pipeline(Kernel::RmsNormBwdParamReduceF32),
            Cmd::Buffer(0, Buf::Arena, x as u64),
            Cmd::Buffer(1, Buf::Arena, dy as u64),
            Cmd::Buffer(2, Buf::Arena, inv_r_scratch as u64),
            Cmd::Buffer(3, Buf::Arena, out as u64),
            Cmd::U32(4, rows),
            Cmd::U32(5, h),
            Cmd::U32(6, wrt),
            Cmd::Threads(
                one_row(h as u64),
                Group::Fixed(one_row(max_u64(min_u64(256, h as u64), 1))),
            ),
        ]
    }
}

/// The gradient of RMS norm with respect to a parameter. With scratch for the row norms and more
/// than one row the columns run in parallel; the norms are needed for the scale (`wrt` one) only.
pub fn encode_rms_norm_bwd_param(
    enc: &mut Vec<Cmd>,
    x: usize,
    gamma: usize,
    beta: usize,
    dy: usize,
    out: usize,
    rows: u32,
    h: u32,
    eps: u32,
    wrt: u32,
    inv_r_scratch: usize,
)
    ensures
        final(enc)@ == old(enc)@ + rms_norm_bwd_param_steps(
            x,
            gamma,
            beta,
            dy,
            out,
            rows,
            h,
            eps,
            wrt,
            inv_r_scratch,
        ),
{
    if !(inv_r_scratch != 0 && rows > 1) {
        emit(
            enc,
            vec![
                Cmd::Pipeline(Kernel::RmsNormBwdParam),
                Cmd::Buffer(0, Buf::Arena, x as u64),
                Cmd::Buffer(1, Buf::Arena, gamma as u64),
                Cmd::Buffer(2, Buf::Arena, beta as u64),
                Cmd::Buffer(3, Buf::Arena, dy as u64),
                Cmd::Buffer(4, Buf::Arena, out as u64),
                Cmd::U32(5, rows),
                Cmd::U32(6, h),
                Cmd::U32(7, eps),
                Cmd::U32(8, wrt),
                Cmd::Threads(row(1), Group::Fixed(row(1))),
            ],
        );
    } else {
        if wrt == 1 {
            emit(
                enc,
                vec![
                    Cmd::Pipeline(Kernel::RmsNormBwdInvRF32),
                    Cmd::Buffer(0, Buf::Arena, x as u64),
                    Cmd::Buffer(1, Buf::Arena, inv_r_scratch as u64),
                    Cmd::U32(2, h),
                    Cmd::U32(3, eps),
                    Cmd::Threads(
                        row(rows as u64),
                        Group::Fixed(row(most(least(256, rows as u64), 1))),
                    ),
                ],
            );
        }
        emit(
            enc,
            vec![
                Cmd::Pipeline(Kernel::RmsNormBwdParamReduceF32),
                Cmd::Buffer(0, Buf::Arena, x as u64),
                Cmd::Buffer(1, Buf::Arena, dy as u64),
                Cmd::Buffer(2, Buf::Arena, inv_r_scratch as u64),
                Cmd::Buffer(3, Buf::Arena, out as u64),
                Cmd::U32(4, rows),
                Cmd::U32(5, h),
                Cmd::U32(6, wrt),
                Cmd::Threads(row(h as u64), Group::Fixed(row(most(least(256, h as u64), 1)))),
            ],
        );
    }
}

/// The steps of `encode_layer_norm_bwd_input`.
pub open spec fn layer_norm_bwd_input_steps(
    x: usize,
    gamma: usize,
    dy: usize,
    dx: usize,
    rows: u32,
    h: u32,
    eps: u32,
) -> Seq<Cmd> {
    seq![
        Cmd::Pipeline(Kernel::LayerNormBwd),
        Cmd::Buffer(0, Buf::Arena, x as u64),
        Cmd::Buffer(1, Buf::Arena, gamma as u64),
        Cmd::Buffer(2, Buf::Arena, dy as u64),
        Cmd::Buffer(3, Buf::Arena, dx as u64),
        Cmd::U32(4, h),
        Cmd::U32(5, eps),
        Cmd::Groups(one_row(rows as u64), one_row(reduction_span(h))),
    ]
}

/// The gradient of layer norm with respect to its input.
pub fn encode_layer_norm_bwd_input(
    enc: &mut Vec<Cmd>,
    x: usize,
    gamma: usize,
    dy: usize,
    dx: usize,
    rows: u32,
    h: u32,
    eps: u32,
)
    ensures
        final(enc)@ == old(enc)@ + layer_norm_bwd_input_steps(x, gamma, dy, dx, rows, h, eps),
{
    emit(
        enc,
        vec![
            Cmd::Pipeline(Kernel::LayerNormBwd),
            Cmd::Buffer(0, Buf::Arena, x as u64),
            Cmd::Buffer(1, Buf::Arena, gamma as u64),
            Cmd::Buffer(2, Buf::Arena, dy as u64),
            Cmd::Buffer(3, Buf::Arena, dx as u64),
            Cmd::U32(4, h),
            Cmd::U32(5, eps),
            Cmd::Groups(row(rows as u64), row(reduction_width(h))),
        ],
    );
}

/// The steps of `encode_layer_norm_bwd_gamma`.
pub open spec fn layer_norm_bwd_gamma_steps(
    x: usize,
    dy: usize,
    dgamma: usize,
    rows: u32,
    h: u32,
    eps: u32,
    stats_scratch: usize,
    simd: bool,
) -> Seq<Cmd> {
    if !(stats_scratch != 0 && rows > 1) {
        seq![
            Cmd::Pipeline(Kernel::LayerNormBwdGamma),
            Cmd::Buffer(0, Buf::Arena, x as u64),
            Cmd::Buffer(1, Buf::Arena, dy as u64),
            Cmd::Buffer(2, Buf::Arena, dgamma as u64),
            Cmd::U32(3, rows),
            Cmd::U32(4, h),
            Cmd::U32(5, eps),
            Cmd::Threads(one_row(1), Group::Fixed(one_row(1))),
        ]
    } else {
        seq![
            Cmd::Pipeline(Kernel::LayerNormBwdStatsF32),
            Cmd::Buffer(0, Buf::Arena, x as u64),
            Cmd::Buffer(1, Buf::Arena, stats_scratch as u64),
            Cmd::U32(2, h),
            Cmd::U32(3, eps),
            Cmd::Threads(
                one_row(rows as u64),
                Group::Fixed(one_row(max_u64(min_u64(256, rows as u64), 1))),
            ),
        ] + (if simd {
            seq![
                Cmd::Pipeline(Kernel::LayerNormBwdGammaReduceSimd),
                Cmd::Buffer(0, Buf::Arena, x as u64),
                Cmd::Buffer(1, Buf::Arena, dy as u64),
                Cmd::Buffer(2, Buf::Arena, stats_scratch as u64),
                Cmd::Buffer(3, Buf::Arena, dgamma as u64),
                Cmd::U32(4, rows),
                Cmd::U32(5, h),
                Cmd::Groups(one_row(h as u64), one_row(32)),
            ]
        } else {
            seq![
                Cmd::Pipeline(Kernel::LayerNormBwdGammaReduceF32),
                Cmd::Buffer(0, Buf::Arena, x as u64),
                Cmd::Buffer(1, Buf::Arena, dy as u64),
                Cmd::Buffer(2, Buf::Arena, stats_scratch as u64),
                Cmd::Buffer(3, Buf::Arena, dgamma as u64),
                Cmd::U32(4, rows),
                Cmd::U32(5, h),
                Cmd::Threads(
                    one_row(h as u64),
                    Group::Fixed(one_row(max_u64(min_u64(256, h as u64), 1))),
                ),
            ]
        })
    }
}

/// The gradient of layer norm with respect to its scale. With scratch for the row statistics and
/// more than one row: the statistics first, then a reduction per column, by a simdgroup where asked.
pub fn encode_layer_norm_bwd_gamma(
    enc: &mut Vec<Cmd>,
    x: usize,
    dy: usize,
    dgamma: usize,
    rows: u32,
    h: u32,
    eps: u32,
    stats_scratch: usize,
    simd: bool,
)
    ensures
        final(enc)@ == old(enc)@ + layer_norm_bwd_gamma_steps(
            x,
            dy,
            dgamma,
            rows,
            h,
            eps,
            stats_scratch,
            simd,
        ),
{
    if !(stats_scratch != 0 && rows > 1) {
        emit(
            enc,
            vec![
                Cmd::Pipeline(Kernel::LayerNormBwdGamma),
                Cmd::Buffer(0, Buf::Arena, x as u64),
                Cmd::Buffer(1, Buf::Arena, dy as u64),
                Cmd::Buffer(2, Buf::Arena, dgamma as u64),
                Cmd::U32(3, rows),
                Cmd::U32(4, h),
                Cmd::U32(5, eps),
                Cmd::Threads(row(1), Group::Fixed(row(1))),
            ],
        );
    } else {
        emit(
            enc,
            vec![
                Cmd::Pipeline(Kernel::LayerNormBwdStatsF32),
                Cmd::Buffer(0, Buf::Arena, x as u64),
                Cmd::Buffer(1, Buf::Arena, stats_scratch as u64),
                Cmd::U32(2, h),
                Cmd::U32(3, eps),
                Cmd::Threads(row(rows as u64), Group::Fixed(row(most(least(256, rows as u64), 1)))),
            ],
        );
        if simd {
            emit(
                enc,
                vec![
                    Cmd::Pipeline(Kernel::LayerNormBwdGammaReduceSimd),
                    Cmd::Buffer(0, Buf::Arena, x as u64),
                    Cmd::Buffer(1, Buf::Arena, dy as u64),
                    Cmd::Buffer(2, Buf::Arena, stats_scratch as u64),
                    Cmd::Buffer(3, Buf::Arena, dgamma as u64),
                    Cmd::U32(4, rows),
                    Cmd::U32(5, h),
                    Cmd::Groups(row(h as u64), row(32)),
                ],
            );
        } else {
            emit(
                enc,
                vec![
                    Cmd::Pipeline(Kernel::LayerNormBwdGammaReduceF32),
                    Cmd::Buffer(0, Buf::Arena, x as u64),
                    Cmd::Buffer(1, Buf::Arena, dy as u64),
                    Cmd::Buffer(2, Buf::Arena, stats_scratch as u64),
                    Cmd::Buffer(3, Buf::Arena, dgamma as u64),
                    Cmd::U32(4, rows),
                    Cmd::U32(5, h),
                    Cmd::Threads(row(h as u64), Group::Fixed(row(most(least(256, h as u64), 1)))),
                ],
            );
        }
    }
}

/// The steps of `encode_group_norm`.
pub open spec fn group_norm_steps(
    src: usize,
    g: usize,
    b: usize,
    dst: usize,
    n: u32,
    c: u32,
    h: u32,
    w: u32,
    num_groups: u32,
    eps: u32,
) -> Seq<Cmd> {
    seq![
        Cmd::Pipeline(Kernel::GroupNorm),
        Cmd::Buffer(0, Buf::Arena, src as u64),
        Cmd::Buffer(1, Buf::Arena, g as u64),
        Cmd::Buffer(2, Buf::Arena, b as u64),
        Cmd::Buffer(3, Buf::Arena, dst as u64),
        Cmd::U32x4(4, n, c, h, w),
        Cmd::U32(5, num_groups),
        Cmd::U32(6, eps),
        Cmd::Groups(one_row(max_u64((n * num_groups) as u64, 1)), one_row(256)),
    ]
}

/// Group norm, one threadgroup per batch item and group.
pub fn encode_group_norm(
    enc: &mut Vec<Cmd>,
    src: usize,
    g: usize,
    b: usize,
    dst: usize,
    n: u32,
    c: u32,
    h: u32,
    w: u32,
    num_groups: u32,
    eps: u32,
)
    requires
        n * num_groups <= u32::MAX,
    ensures
        final(enc)@ == old(enc)@ + group_norm_steps(src, g, b, dst, n, c, h, w, num_groups, eps),
{
    emit(
        enc,
        vec![
            Cmd::Pipeline(Kernel::GroupNorm),
            Cmd::Buffer(0, Buf::Arena, src as u64),
            Cmd::Buffer(1, Buf::Arena, g as u64),
            Cmd::Buffer(2, Buf::Arena, b as u64),
            Cmd::Buffer(3, Buf::Arena, dst as u64),
            Cmd::U32x4(4, n, c, h, w),
            Cmd::U32(5, num_groups),
            Cmd::U32(6, eps),
            Cmd::Groups(row(most((n * num_groups) as u64, 1)), row(256)),
        ],
    );
}

/// The steps of `encode_group_norm_bwd_input`.
pub open spec fn group_norm_bwd_input_steps(
    x: usize,
    gamma: usize,
    dy: usize,
    dx: usize,
    n: u32,
    c: u32,
    h: u32,
    w: u32,
    num_groups: u32,
    eps: u32,
) -> Seq<Cmd> {
    seq![
        Cmd::Pipeline(Kernel::GroupNormBwdInput),
        Cmd::Buffer(0, Buf::Arena, x as u64),
        Cmd::Buffer(1, Buf::Arena, gamma as u64),
        Cmd::Buffer(2, Buf::Arena, dy as u64),
        Cmd::Buffer(3, Buf::Arena, dx as u64),
        Cmd::U32x4(4, n, c, h, w),
        Cmd::U32(5, num_groups),
        Cmd::U32(6, eps),
        Cmd::Groups(one_row(max_u64((n * num_groups) as u64, 1)), one_row(256)),
    ]
}

/// The gradient of group norm with respect to its input.
pub fn encode_group_norm_bwd_input(
    enc: &mut Vec<Cmd>,
    x: usize,
    gamma: usize,
    dy: usize,
    dx: usize,
    n: u32,
    c: u32,
    h: u32,
    w: u32,
    num_groups: u32,
    eps: u32,
)
    requires
        n * num_groups <= u32::MAX,
    ensures
        final(enc)@ == old(enc)@ + group_norm_bwd_input_steps(
            x,
            gamma,
            dy,
            dx,
            n,
            c,
            h,
            w,
            num_groups,
            eps,
        ),
{
    emit(
        enc,
        vec![
            Cmd::Pipeline(Kernel::GroupNormBwdInput),
            Cmd::Buffer(0, Buf::Arena, x as u64),
            Cmd::Buffer(1, Buf::Arena, gamma as u64),
            Cmd::Buffer(2, Buf::Arena, dy as u64),
            Cmd::Buffer(3, Buf::Arena, dx as u64),
            Cmd::U32x4(4, n, c, h, w),
            Cmd::U32(5, num_groups),
            Cmd::U32(6, eps),
            Cmd::Groups(row(most((n * num_groups) as u64, 1)), row(256)),
        ],
    );
}

/// The steps of `encode_group_norm_bwd_gamma`.
pub open spec fn group_norm_bwd_gamma_steps(
    x: usize,
    dy: usize,
    dgamma: usize,
    n: u32,
    c: u32,
    h: u32,
    w: u32,
    num_groups: u32,
    eps: u32,
) -> Seq<Cmd> {
    seq![
        Cmd::Pipeline(Kernel::GroupNormBwdGamma),
        Cmd::Buffer(0, Buf::Arena, x as u64),
        Cmd::Buffer(1, Buf::Arena, dy as u64),
        Cmd::Buffer(2, Buf::Arena, dgamma as u64),
        Cmd::U32x4(3, n, c, h, w),
        Cmd::U32(4, num_groups),
        Cmd::U32(5, eps),
        Cmd::Threads(one_row(1), Group::Fixed(one_row(1))),
    ]
}

/// The gradient of group norm with respect to its scale.
pub fn encode_group_norm_bwd_gamma(
    enc: &mut Vec<Cmd>,
    x: usize,
    dy: usize,
    dgamma: usize,
    n: u32,
    c: u32,
    h: u32,
    w: u32,
    num_groups: u32,
    eps: u32,
)
    ensures
        final(enc)@ == old(enc)@ + group_norm_bwd_gamma_steps(
            x,
            dy,
            dgamma,
            n,
            c,
            h,
            w,
            num_groups,
            eps,
        ),
{
    emit(
        enc,
        vec![
            Cmd::Pipeline(Kernel::GroupNormBwdGamma),
            Cmd::Buffer(0, Buf::Arena, x as u64),
            Cmd::Buffer(1, Buf::Arena, dy as u64),
            Cmd::Buffer(2, Buf::Arena, dgamma as u64),
            Cmd::U32x4(3, n, c, h, w),
            Cmd::U32(4, num_groups),
            Cmd::U32(5, eps),
            Cmd::Threads(row(1), Group::Fixed(row(1))),
        ],
    );
}

/// The steps of `encode_group_norm_bwd_beta`.
pub open spec fn group_norm_bwd_beta_steps(
    dy: usize,
    dbeta: usize,
    n: u32,
    c: u32,
    h: u32,
    w: u32,
) -> Seq<Cmd> {
    seq![
        Cmd::Pipeline(Kernel::GroupNormBwdBeta),
        Cmd::Buffer(0, Buf::Arena, dy as u64),
        Cmd::Buffer(1, Buf::Arena, dbeta as u64),
        Cmd::U32x4(2, n, c, h, w),
        Cmd::Threads(one_row(1), Group::Fixed(one_row(1))),
    ]
}

/// The gradient of group norm with respect to its shift.
pub fn encode_group_norm_bwd_beta(
    enc: &mut Vec<Cmd>,
    dy: usize,
    dbeta: usize,
    n: u32,
    c: u32,
    h: u32,
    w: u32,
)
    ensures
        final(enc)@ == old(enc)@ + group_norm_bwd_beta_steps(dy, dbeta, n, c, h, w),
{
    emit(
        enc,
        vec![
            Cmd::Pipeline(Kernel::GroupNormBwdBeta),
            Cmd::Buffer(0, Buf::Arena, dy as u64),
            Cmd::Buffer(1, Buf::Arena, dbeta as u64),
            Cmd::U32x4(2, n, c, h, w),
            Cmd::Threads(row(1), Group::Fixed(row(1))),
        ],
    );
}

/// The steps of `encode_layer_norm2d`.
pub open spec fn layer_norm2d_steps(
    src: usize,
    g: usize,
    b: usize,
    dst: usize,
    n: u32,
    c: u32,
    h: u32,
    w: u32,
    eps: u32,
) -> Seq<Cmd> {
    seq![
        Cmd::Pipeline(Kernel::LayerNorm2d),
        Cmd::Buffer(0, Buf::Arena, src as u64),
        Cmd::Buffer(1, Buf::Arena, g as u64),
        Cmd::Buffer(2, Buf::Arena, b as u64),
        Cmd::Buffer(3, Buf::Arena, dst as u64),
        Cmd::U32x4(4, n, c, h, w),
        Cmd::U32(5, eps),
        Cmd::Threads(
            Size { width: w as u64, height: h as u64, depth: n as u64 },
            Group::Fixed(plane(min_u64(8, w as u64), min_u64(8, h as u64))),
        ),
    ]
}

/// Layer norm over the channels of every pixel.
pub fn encode_layer_norm2d(
    enc: &mut Vec<Cmd>,
    src: usize,
    g: usize,
    b: usize,
    dst: usize,
    n: u32,
    c: u32,
    h: u32,
    w: u32,
    eps: u32,
)
    ensures
        final(enc)@ == old(enc)@ + layer_norm2d_steps(src, g, b, dst, n, c, h, w, eps),
{
    emit(
        enc,
        vec![
            Cmd::Pipeline(Kernel::LayerNorm2d),
            Cmd::Buffer(0, Buf::Arena, src as u64),
            Cmd::Buffer(1, Buf::Arena, g as u64),
            Cmd::Buffer(2, Buf::Arena, b as u64),
            Cmd::Buffer(3, Buf::Arena, dst as u64),
            Cmd::U32x4(4, n, c, h, w),
            Cmd::U32(5, eps),
            Cmd::Threads(
                Size { width: w as u64, height: h as u64, depth: n as u64 },
                Group::Fixed(plane_of(least(8, w as u64), least(8, h as u64))),
            ),
        ],
    );
}

pub open spec fn rope_steps(
    src: usize,
    cos: usize,
    sin: usize,
    dst: usize,
    batch: u32,
    seq: u32,
    hidden: u32,
    head_dim: u32,
    n_rot: u32,
    dt: HalfFlag,
    src_row_stride: u32,
    seq_stride: u32,
    cos_per_token: bool,
    interleaved: bool,
) -> Seq<Cmd> {
    seq![
        Cmd::Pipeline(if dt == HalfFlag::F32 { Kernel::Rope } else { Kernel::RopeH }),
        Cmd::Buffer(0, Buf::Arena, src as u64),
        Cmd::Buffer(1, Buf::Arena, cos as u64),
        Cmd::Buffer(2, Buf::Arena, sin as u64),
        Cmd::Buffer(3, Buf::Arena, dst as u64),
        Cmd::U32(4, batch),
        Cmd::U32(5, seq),
        Cmd::U32(6, hidden),
        Cmd::U32(7, head_dim),
        Cmd::U32(8, src_row_stride),
        Cmd::U32(9, seq_stride),
        Cmd::U32(10, n_rot),
        Cmd::U32(11, bit(cos_per_token)),
        Cmd::U32(12, bit(interleaved)),
        Cmd::Threads(
            Size {
                width: head_dim as u64,
                height: (hidden / head_dim) as u64,
                depth: (batch * seq) as u64,
            },
            Group::Fixed(
                plane(min_u64(head_dim as u64, 16), min_u64((hidden / head_dim) as u64, 8)),
            ),
        ),
    ]
}

/// Rotary embedding, one thread per value, head and token.
pub fn encode_rope(
    enc: &mut Vec<Cmd>,
    src: usize,
    cos: usize,
    sin: usize,
    dst: usize,
    batch: u32,
    seq: u32,
    hidden: u32,
    head_dim: u32,
    n_rot: u32,
    dt: HalfFlag,
    src_row_stride: u32,
    seq_stride: u32,
    cos_per_token: bool,
    interleaved: bool,
)
    requires
        head_dim > 0,
        batch * seq <= u32::MAX,
    ensures
        final(enc)@ == old(enc)@ + rope_steps(
            src,
            cos,
            sin,
            dst,
            batch,
            seq,
            hidden,
            head_dim,
            n_rot,
            dt,
            src_row_stride,
            seq_stride,
            cos_per_token,
            interleaved,
        ),
{
    emit(
        enc,
        vec![
            Cmd::Pipeline(if dt == HalfFlag::F32 { Kernel::Rope } else { Kernel::RopeH }),
            Cmd::Buffer(0, Buf::Arena, src as u64),
            Cmd::Buffer(1, Buf::Arena, cos as u64),
            Cmd::Buffer(2, Buf::Arena, sin as u64),
            Cmd::Buffer(3, Buf::Arena, dst as u64),
            Cmd::U32(4, batch),
            Cmd::U32(5, seq),
            Cmd::U32(6, hidden),
            Cmd::U32(7, head_dim),
            Cmd::U32(8, src_row_stride),
            Cmd::U32(9, seq_stride),
            Cmd::U32(10, n_rot),
            Cmd::U32(11, flag(cos_per_token)),
            Cmd::U32(12, flag(interleaved)),
            Cmd::Threads(
                Size {
                    width: head_dim as u64,
                    height: (hidden / head_dim) as u64,
                    depth: (batch * seq) as u64,
                },
                Group::Fixed(
                    plane_of(least(head_dim as u64, 16), least((hidden / head_dim) as u64, 8)),
                ),
            ),
        ],
    );
}

/// The steps of `encode_rope_bwd`.
pub open spec fn rope_bwd_steps(
    dy: usize,
    cos: usize,
    sin: usize,
    dx: usize,
    batch: u32,
    seq: u32,
    hidden: u32,
    head_dim: u32,
    n_rot: u32,
    cos_len: u32,
) -> Seq<Cmd> {
    seq![
        Cmd::Pipeline(Kernel::RopeBwd),
        Cmd::Buffer(0, Buf::Arena, dy as u64),
        Cmd::Buffer(1, Buf::Arena, cos as u64),
        Cmd::Buffer(2, Buf::Arena, sin as u64),
        Cmd::Buffer(3, Buf::Arena, dx as u64),
        Cmd::U32(4, batch),
        Cmd::U32(5, seq),
        Cmd::U32(6, hidden),
        Cmd::U32(7, head_dim),
        Cmd::U32(8, n_rot),
        Cmd::U32(9, cos_len),
        Cmd::Threads(
            Size {
                width: head_dim as u64,
                height: (hidden / if head_dim == 0 { 1 } else { head_dim }) as u64,
                depth: (batch * seq) as u64,
            },
            Group::Fixed(
                plane(
                    min_u64(head_dim as u64, 16),
                    min_u64((hidden / if head_dim == 0 { 1 } else { head_dim }) as u64, 8),
                ),
            ),
        ),
    ]
}

/// The gradient of the rotary embedding.
pub fn encode_rope_bwd(
    enc: &mut Vec<Cmd>,
    dy: usize,
    cos: usize,
    sin: usize,
    dx: usize,
    batch: u32,
    seq: u32,
    hidden: u32,
    head_dim: u32,
    n_rot: u32,
    cos_len: u32,
)
    requires
        batch * seq <= u32::MAX,
    ensures
        final(enc)@ == old(enc)@ + rope_bwd_steps(
            dy,
            cos,
            sin,
            dx,
            batch,
            seq,
            hidden,
            head_dim,
            n_rot,
            cos_len,
        ),
{
    emit(
        enc,
        vec![
            Cmd::Pipeline(Kernel::RopeBwd),
            Cmd::Buffer(0, Buf::Arena, dy as u64),
            Cmd::Buffer(1, Buf::Arena, cos as u64),
            Cmd::Buffer(2, Buf::Arena, sin as u64),
            Cmd::Buffer(3, Buf::Arena, dx as u64),
            Cmd::U32(4, batch),
            Cmd::U32(5, seq),
            Cmd::U32(6, hidden),
            Cmd::U32(7, head_dim),
            Cmd::U32(8, n_rot),
            Cmd::U32(9, cos_len),
            Cmd::Threads(
                Size {
                    width: head_dim as u64,
                    height: (hidden / if head_dim == 0 { 1 } else { head_dim }) as u64,
                    depth: (batch * seq) as u64,
                },
                Group::Fixed(
                    plane_of(
                        least(head_dim as u64, 16),
                        least((hidden / if head_dim == 0 { 1 } else { head_dim }) as u64, 8),
                    ),
                ),
            ),
        ],
    );
}

} // verus!
