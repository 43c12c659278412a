//! Normalisation and rotary embedding: what each kernel is handed and what its launch covers.

use vstd::prelude::*;

use crate::command::{
    Buf, Cmd, Group, HalfFlag, Kernel, Size, bit, max_u64, min_u64, one_row, plane, reduction_span,
    sat_mul,
};
use crate::encode::norm::{
    ada_layer_norm_backward_steps, ada_layer_norm_steps, fused_residual_ln_steps,
    fused_residual_rms_norm_steps, gated_residual_backward_steps, gated_residual_steps,
    group_norm_bwd_beta_steps, group_norm_bwd_gamma_steps, group_norm_bwd_input_steps,
    group_norm_steps, layer_norm2d_steps, layer_norm_bwd_gamma_steps, layer_norm_bwd_input_steps,
    layer_norm_steps, rms_norm_bwd_input_steps, rms_norm_bwd_param_steps, rms_norm_mul_silu_steps,
    rms_norm_steps, rope_bwd_steps, rope_steps,
};
use crate::launch::{group_launches, launch, launches, launches_once};

verus! {

/// Layer norm, one threadgroup per row. The kernel finds each operand and number of the call at its
/// own slot.
pub proof fn lemma_layer_norm(
    src: usize,
    g: usize,
    b: usize,
    dst: usize,
    rows: u32,
    h: u32,
    eps: u32,
    dt: HalfFlag,
)
    ensures
        ({
            let s = layer_norm_steps(src, g, b, dst, rows, h, eps, dt);
            &&& launches_once(s)
            &&& launch(s).kernel() == Some(
                if dt == HalfFlag::F32 { Kernel::LayerNorm } else { Kernel::LayerNormH },
            )
            &&& launch(s).place(0) == Some((Buf::Arena, src as u64))
            &&& launch(s).place(1) == Some((Buf::Arena, g as u64))
            &&& launch(s).place(2) == Some((Buf::Arena, b as u64))
            &&& launch(s).place(3) == Some((Buf::Arena, dst as u64))
            &&& launch(s).word(4) == Some(h)
            &&& launch(s).word(5) == Some(eps)
            &&& launch(s).shape == Cmd::Groups(one_row(rows as u64), one_row(reduction_span(h)))
        }),
{
    broadcast use group_launches;

    let s = layer_norm_steps(src, g, b, dst, rows, h, eps, dt);
    assert(launches(s).len() == 1);
}

/// Residual sum and layer norm. The kernel finds each operand and number of the call at its own
/// slot.
pub proof fn lemma_fused_residual_ln(
    x: usize,
    res: usize,
    g: usize,
    b: usize,
    out: usize,
    rows: u32,
    h: u32,
    eps: u32,
    dt: HalfFlag,
)
    ensures
        ({
            let s = fused_residual_ln_steps(x, res, g, b, out, rows, h, eps, dt);
            &&& launches_once(s)
            &&& launch(s).kernel() == Some(
                if dt == HalfFlag::F32 { Kernel::FusedResidualLn } else { Kernel::FusedResidualLnH },
            )
            &&& launch(s).place(0) == Some((Buf::Arena, x as u64))
            &&& launch(s).place(1) == Some((Buf::Arena, res as u64))
            &&& launch(s).place(2) == Some((Buf::Arena, g as u64))
            &&& launch(s).place(3) == Some((Buf::Arena, b as u64))
            &&& launch(s).place(4) == Some((Buf::Arena, out as u64))
            &&& launch(s).word(5) == Some(h)
            &&& launch(s).word(6) == Some(eps)
            &&& launch(s).shape == Cmd::Groups(one_row(rows as u64), one_row(reduction_span(h)))
        }),
{
    broadcast use group_launches;

    let s = fused_residual_ln_steps(x, res, g, b, out, rows, h, eps, dt);
    assert(launches(s).len() == 1);
}

/// Residual sum and RMS norm. The kernel finds each operand and number of the call at its own slot.
pub proof fn lemma_fused_residual_rms_norm(
    x: usize,
    res: usize,
    g: usize,
    b: usize,
    out: usize,
    rows: u32,
    h: u32,
    eps: u32,
    dt: HalfFlag,
    sum_out: usize,
)
    ensures
        ({
            let s = fused_residual_rms_norm_steps(x, res, g, b, out, rows, h, eps, dt, sum_out);
            &&& launches_once(s)
            &&& launch(s).kernel() == Some(
                if dt == HalfFlag::F32 { Kernel::FusedResidualRmsNorm } else {
                    Kernel::FusedResidualRmsNormH
                },
            )
            &&& launch(s).place(0) == Some((Buf::Arena, 0u64))
            &&& launch(s).long(1) == Some(x as u64)
            &&& launch(s).long(2) == Some(res as u64)
            &&& launch(s).long(3) == Some(g as u64)
            &&& launch(s).long(4) == Some(b as u64)
            &&& launch(s).long(5) == Some(out as u64)
            &&& launch(s).word(6) == Some(h)
            &&& launch(s).word(7) == Some(eps)
            &&& launch(s).shape == Cmd::Groups(one_row(rows as u64), one_row(reduction_span(h)))
            &&& dt == HalfFlag::F32 ==> {
                &&& launch(s).long(8) == Some(sum_out as u64)
            }
        }),
{
    broadcast use group_launches;

    let s = fused_residual_rms_norm_steps(x, res, g, b, out, rows, h, eps, dt, sum_out);
    if dt == HalfFlag::F32 {
        assert(launches(s).len() == 1);
    } else if !(dt == HalfFlag::F32) {
        assert(launches(s).len() == 1);
    }
}

/// RMS norm, one threadgroup per row. The kernel finds each operand and number of the call at its
/// own slot.
pub proof fn lemma_rms_norm(
    src: usize,
    g: usize,
    b: usize,
    dst: usize,
    rows: u32,
    h: u32,
    eps: u32,
    dt: HalfFlag,
)
    ensures
        ({
            let s = rms_norm_steps(src, g, b, dst, rows, h, eps, dt);
            &&& launches_once(s)
            &&& launch(s).kernel() == Some(
                if dt == HalfFlag::F32 { Kernel::RmsNorm } else { Kernel::RmsNormH },
            )
            &&& launch(s).place(0) == Some((Buf::Arena, 0u64))
            &&& launch(s).long(1) == Some(src as u64)
            &&& launch(s).long(2) == Some(g as u64)
            &&& launch(s).long(3) == Some(b as u64)
            &&& launch(s).long(4) == Some(dst as u64)
            &&& launch(s).word(5) == Some(h)
            &&& launch(s).word(6) == Some(eps)
            &&& launch(s).shape == Cmd::Groups(one_row(rows as u64), one_row(reduction_span(h)))
        }),
{
    broadcast use group_launches;

    let s = rms_norm_steps(src, g, b, dst, rows, h, eps, dt);
    assert(launches(s).len() == 1);
}

/// A norm with scale and shift per item; `lead_pack` tells how rows map to items. The kernel finds
/// each operand and number of the call at its own slot.
pub proof fn lemma_ada_layer_norm(
    x: usize,
    scale: usize,
    shift: usize,
    out: usize,
    rows: u32,
    h: u32,
    eps: u32,
    layer_norm: bool,
    lead_pack: Seq<u32>,
    dt: HalfFlag,
)
    ensures
        ({
            let s = ada_layer_norm_steps(
                x,
                scale,
                shift,
                out,
                rows,
                h,
                eps,
                layer_norm,
                lead_pack,
                dt,
            );
            &&& launches_once(s)
            &&& launch(s).kernel() == Some(
                if dt == HalfFlag::F32 { Kernel::AdaLayerNorm } else { Kernel::AdaLayerNormH },
            )
            &&& launch(s).place(0) == Some((Buf::Arena, x as u64))
            &&& launch(s).place(1) == Some((Buf::Arena, scale as u64))
            &&& launch(s).place(2) == Some((Buf::Arena, shift as u64))
            &&& launch(s).place(3) == Some((Buf::Arena, out as u64))
            &&& launch(s).word(4) == Some(h)
            &&& launch(s).word(5) == Some(eps)
            &&& launch(s).word(6) == Some(bit(layer_norm))
            &&& launch(s).words(7) == Some(lead_pack)
            &&& launch(s).shape == Cmd::Groups(one_row(rows as u64), one_row(reduction_span(h)))
        }),
{
    broadcast use group_launches;

    let s = ada_layer_norm_steps(x, scale, shift, out, rows, h, eps, layer_norm, lead_pack, dt);
    assert(launches(s).len() == 1);
}

/// Residual sum with a gate per item. The kernel finds each operand and number of the call at its
/// own slot.
pub proof fn lemma_gated_residual(
    x: usize,
    y: usize,
    gate: usize,
    out: usize,
    rows: u32,
    h: u32,
    lead_pack: Seq<u32>,
    dt: HalfFlag,
)
    ensures
        ({
            let s = gated_residual_steps(x, y, gate, out, rows, h, lead_pack, dt);
            &&& launches_once(s)
            &&& launch(s).kernel() == Some(
                if dt == HalfFlag::F32 { Kernel::GatedResidual } else { Kernel::GatedResidualH },
            )
            &&& launch(s).place(0) == Some((Buf::Arena, x as u64))
            &&& launch(s).place(1) == Some((Buf::Arena, y as u64))
            &&& launch(s).place(2) == Some((Buf::Arena, gate as u64))
            &&& launch(s).place(3) == Some((Buf::Arena, out as u64))
            &&& launch(s).word(4) == Some(h)
            &&& launch(s).words(5) == Some(lead_pack)
            &&& launch(s).shape == Cmd::Threads(
                one_row(sat_mul(rows, h) as u64),
                Group::ExecWidth(
                    if dt == HalfFlag::F32 { Kernel::GatedResidual } else { Kernel::GatedResidualH },
                    max_u64(sat_mul(rows, h) as u64, 1),
                ),
            )
        }),
{
    broadcast use group_launches;

    let s = gated_residual_steps(x, y, gate, out, rows, h, lead_pack, dt);
    assert(launches(s).len() == 1);
}

/// The gradient of that norm, one threadgroup per item. The kernel finds each operand and number of
/// the call at its own slot.
pub proof fn lemma_ada_layer_norm_backward(
    x: usize,
    scale: usize,
    dy: usize,
    out: usize,
    h: u32,
    eps: u32,
    layer_norm: bool,
    seq_per_mod: u32,
    mod_rows: u32,
    dt: HalfFlag,
)
    ensures
        ({
            let s = ada_layer_norm_backward_steps(
                x,
                scale,
                dy,
                out,
                h,
                eps,
                layer_norm,
                seq_per_mod,
                mod_rows,
                dt,
            );
            &&& launches_once(s)
            &&& launch(s).kernel() == Some(
                if dt == HalfFlag::F32 { Kernel::AdaLayerNormBackward } else {
                    Kernel::AdaLayerNormBackwardH
                },
            )
            &&& launch(s).place(0) == Some((Buf::Arena, x as u64))
            &&& launch(s).place(1) == Some((Buf::Arena, scale as u64))
            &&& launch(s).place(2) == Some((Buf::Arena, dy as u64))
            &&& launch(s).place(3) == Some((Buf::Arena, out as u64))
            &&& launch(s).word(4) == Some(h)
            &&& launch(s).word(5) == Some(eps)
            &&& launch(s).word(6) == Some(bit(layer_norm))
            &&& launch(s).word(7) == Some(seq_per_mod)
            &&& launch(s).word(8) == Some(mod_rows)
            &&& launch(s).shape == Cmd::Groups(one_row(mod_rows as u64), one_row(reduction_span(h)))
        }),
{
    broadcast use group_launches;

    let s = ada_layer_norm_backward_steps(x, scale, dy, out, h, eps, layer_norm, seq_per_mod, mod_rows, dt);
    assert(launches(s).len() == 1);
}

/// The gradient of the gated sum, one threadgroup per item. The kernel finds each operand and
/// number of the call at its own slot.
pub proof fn lemma_gated_residual_backward(
    y: usize,
    gate: usize,
    dy: usize,
    out: usize,
    h: u32,
    seq_per_mod: u32,
    mod_rows: u32,
    dt: HalfFlag,
)
    ensures
        ({
            let s = gated_residual_backward_steps(y, gate, dy, out, h, seq_per_mod, mod_rows, dt);
            &&& launches_once(s)
            &&& launch(s).kernel() == Some(
                if dt == HalfFlag::F32 { Kernel::GatedResidualBackward } else {
                    Kernel::GatedResidualBackwardH
                },
            )
            &&& launch(s).place(0) == Some((Buf::Arena, y as u64))
            &&& launch(s).place(1) == Some((Buf::Arena, gate as u64))
            &&& launch(s).place(2) == Some((Buf::Arena, dy as u64))
            &&& launch(s).place(3) == Some((Buf::Arena, out as u64))
            &&& launch(s).word(4) == Some(h)
            &&& launch(s).word(5) == Some(seq_per_mod)
            &&& launch(s).word(6) == Some(mod_rows)
            &&& launch(s).shape == Cmd::Groups(one_row(mod_rows as u64), one_row(reduction_span(h)))
        }),
{
    broadcast use group_launches;

    let s = gated_residual_backward_steps(y, gate, dy, out, h, seq_per_mod, mod_rows, dt);
    assert(launches(s).len() == 1);
}

/// RMS norm times the SiLU of a gate. The kernel finds each operand and number of the call at its
/// own slot.
pub proof fn lemma_rms_norm_mul_silu(
    src: usize,
    g: usize,
    b: usize,
    z: usize,
    dst: usize,
    rows: u32,
    h: u32,
    eps: u32,
)
    ensures
        ({
            let s = rms_norm_mul_silu_steps(src, g, b, z, dst, rows, h, eps);
            &&& launches_once(s)
            &&& launch(s).kernel() == Some(Kernel::RmsNormMulSilu)
            &&& launch(s).place(0) == Some((Buf::Arena, 0u64))
            &&& launch(s).long(1) == Some(src as u64)
            &&& launch(s).long(2) == Some(g as u64)
            &&& launch(s).long(3) == Some(b as u64)
            &&& launch(s).long(4) == Some(z as u64)
            &&& launch(s).long(5) == Some(dst as u64)
            &&& launch(s).word(6) == Some(h)
            &&& launch(s).word(7) == Some(eps)
            &&& launch(s).shape == Cmd::Groups(one_row(rows as u64), one_row(reduction_span(h)))
        }),
{
    broadcast use group_launches;

    let s = rms_norm_mul_silu_steps(src, g, b, z, dst, rows, h, eps);
    assert(launches(s).len() == 1);
}

/// The gradient of RMS norm with respect to its input. The kernel finds each operand and number of
/// the call at its own slot.
pub proof fn lemma_rms_norm_bwd_input(
    x: usize,
    gamma: usize,
    beta: usize,
    dy: usize,
    dx: usize,
    rows: u32,
    h: u32,
    eps: u32,
)
    ensures
        ({
            let s = rms_norm_bwd_input_steps(x, gamma, beta, dy, dx, rows, h, eps);
            &&& launches_once(s)
            &&& launch(s).kernel() == Some(Kernel::RmsNormBwd)
            &&& launch(s).place(0) == Some((Buf::Arena, x as u64))
            &&& launch(s).place(1) == Some((Buf::Arena, gamma as u64))
            &&& launch(s).place(2) == Some((Buf::Arena, beta as u64))
            &&& launch(s).place(3) == Some((Buf::Arena, dy as u64))
            &&& launch(s).place(4) == Some((Buf::Arena, dx as u64))
            &&& launch(s).word(5) == Some(h)
            &&& launch(s).word(6) == Some(eps)
            &&& launch(s).word(7) == Some(0u32)
            &&& launch(s).shape == Cmd::Groups(one_row(rows as u64), one_row(min_u64(256, h as u64)))
        }),
{
    broadcast use group_launches;

    let s = rms_norm_bwd_input_steps(x, gamma, beta, dy, dx, rows, h, eps);
    assert(launches(s).len() == 1);
}

/// The gradient of RMS norm with respect to a parameter. Each kernel finds the operands and numbers
/// of the call at their own slots.
pub proof fn lemma_rms_norm_bwd_param(
    x: usize,
    gamma: usize,
    beta: usize,
    dy: usize,
    out: usize,
    rows: u32,
    h: u32,
    eps: u32,
    wrt: u32,
    inv_r_scratch: usize,
)
    ensures
        ({
            let s = rms_norm_bwd_param_steps(
                x,
                gamma,
                beta,
                dy,
                out,
                rows,
                h,
                eps,
                wrt,
                inv_r_scratch,
            );
            &&& !(inv_r_scratch != 0 && rows > 1) ==> {
                &&& launches_once(s)
                &&& launch(s).kernel() == Some(Kernel::RmsNormBwdParam)
                &&& launch(s).place(0) == Some((Buf::Arena, x as u64))
                &&& launch(s).place(1) == Some((Buf::Arena, gamma as u64))
                &&& launch(s).place(2) == Some((Buf::Arena, beta as u64))
                &&& launch(s).place(3) == Some((Buf::Arena, dy as u64))
                &&& launch(s).place(4) == Some((Buf::Arena, out as u64))
                &&& launch(s).word(5) == Some(rows)
                &&& launch(s).word(6) == Some(h)
                &&& launch(s).word(7) == Some(eps)
                &&& launch(s).word(8) == Some(wrt)
                &&& launch(s).shape == Cmd::Threads(one_row(1), Group::Fixed(one_row(1)))
            }
            &&& !(!(inv_r_scratch != 0 && rows > 1)) && (wrt == 1) ==> {
                &&& launches(s).len() == 2
                &&& launches(s)[0].kernel() == Some(Kernel::RmsNormBwdInvRF32)
                &&& launches(s)[0].place(0) == Some((Buf::Arena, x as u64))
                &&& launches(s)[0].place(1) == Some((Buf::Arena, inv_r_scratch as u64))
                &&& launches(s)[0].word(2) == Some(h)
                &&& launches(s)[0].word(3) == Some(eps)
                &&& launches(s)[0].shape == Cmd::Threads(
                    one_row(rows as u64),
                    Group::Fixed(one_row(max_u64(min_u64(256, rows as u64), 1))),
                )
                &&& launches(s)[1].kernel() == Some(Kernel::RmsNormBwdParamReduceF32)
                &&& launches(s)[1].place(0) == Some((Buf::Arena, x as u64))
                &&& launches(s)[1].place(1) == Some((Buf::Arena, dy as u64))
                &&& launches(s)[1].place(2) == Some((Buf::Arena, inv_r_scratch as u64))
                &&& launches(s)[1].place(3) == Some((Buf::Arena, out as u64))
                &&& launches(s)[1].word(4) == Some(rows)
                &&& launches(s)[1].word(5) == Some(h)
                &&& launches(s)[1].word(6) == Some(wrt)
                &&& launches(s)[1].shape == Cmd::Threads(
                    one_row(h as u64),
                    Group::Fixed(one_row(max_u64(min_u64(256, h as u64), 1))),
                )
            }
            &&& !(!(inv_r_scratch != 0 && rows > 1)) && !(wrt == 1) ==> {
                &&& launches_once(s)
                &&& launch(s).kernel() == Some(Kernel::RmsNormBwdParamReduceF32)
                &&& launch(s).place(0) == Some((Buf::Arena, x as u64))
                &&& launch(s).place(1) == Some((Buf::Arena, dy as u64))
                &&& launch(s).place(2) == Some((Buf::Arena, inv_r_scratch as u64))
                &&& launch(s).place(3) == Some((Buf::Arena, out as u64))
                &&& launch(s).word(4) == Some(rows)
                &&& launch(s).word(5) == Some(h)
                &&& launch(s).word(6) == Some(wrt)
                &&& launch(s).shape == Cmd::Threads(
                    one_row(h as u64),
                    Group::Fixed(one_row(max_u64(min_u64(256, h as u64), 1))),
                )
            }
        }),
{
    broadcast use group_launches;

    let s = rms_norm_bwd_param_steps(x, gamma, beta, dy, out, rows, h, eps, wrt, inv_r_scratch);
    if !(inv_r_scratch != 0 && rows > 1) {
        assert(launches(s).len() == 1);
    } else if !(!(inv_r_scratch != 0 && rows > 1)) && (wrt == 1) {
        assert(launches(s).len() == 2);
    } else if !(!(inv_r_scratch != 0 && rows > 1)) && !(wrt == 1) {
        assert(launches(s).len() == 1);
    }
}

/// The gradient of layer norm with respect to its input. The kernel finds each operand and number
/// of the call at its own slot.
pub proof fn lemma_layer_norm_bwd_input(
    x: usize,
    gamma: usize,
    dy: usize,
    dx: usize,
    rows: u32,
    h: u32,
    eps: u32,
)
    ensures
        ({
            let s = layer_norm_bwd_input_steps(x, gamma, dy, dx, rows, h, eps);
            &&& launches_once(s)
            &&& launch(s).kernel() == Some(Kernel::LayerNormBwd)
            &&& launch(s).place(0) == Some((Buf::Arena, x as u64))
            &&& launch(s).place(1) == Some((Buf::Arena, gamma as u64))
            &&& launch(s).place(2) == Some((Buf::Arena, dy as u64))
            &&& launch(s).place(3) == Some((Buf::Arena, dx as u64))
            &&& launch(s).word(4) == Some(h)
            &&& launch(s).word(5) == Some(eps)
            &&& launch(s).shape == Cmd::Groups(one_row(rows as u64), one_row(reduction_span(h)))
        }),
{
    broadcast use group_launches;

    let s = layer_norm_bwd_input_steps(x, gamma, dy, dx, rows, h, eps);
    assert(launches(s).len() == 1);
}

/// The gradient of layer norm with respect to its scale. Each kernel finds the operands and numbers
/// of the call at their own slots.
pub proof fn lemma_layer_norm_bwd_gamma(
    x: usize,
    dy: usize,
    dgamma: usize,
    rows: u32,
    h: u32,
    eps: u32,
    stats_scratch: usize,
    simd: bool,
)
    ensures
        ({
            let s = layer_norm_bwd_gamma_steps(x, dy, dgamma, rows, h, eps, stats_scratch, simd);
            &&& !(stats_scratch != 0 && rows > 1) ==> {
                &&& launches_once(s)
                &&& launch(s).kernel() == Some(Kernel::LayerNormBwdGamma)
                &&& launch(s).place(0) == Some((Buf::Arena, x as u64))
                &&& launch(s).place(1) == Some((Buf::Arena, dy as u64))
                &&& launch(s).place(2) == Some((Buf::Arena, dgamma as u64))
                &&& launch(s).word(3) == Some(rows)
                &&& launch(s).word(4) == Some(h)
                &&& launch(s).word(5) == Some(eps)
                &&& launch(s).shape == Cmd::Threads(one_row(1), Group::Fixed(one_row(1)))
            }
            &&& !(!(stats_scratch != 0 && rows > 1)) && (simd) ==> {
                &&& launches(s).len() == 2
                &&& launches(s)[0].kernel() == Some(Kernel::LayerNormBwdStatsF32)
                &&& launches(s)[0].place(0) == Some((Buf::Arena, x as u64))
                &&& launches(s)[0].place(1) == Some((Buf::Arena, stats_scratch as u64))
                &&& launches(s)[0].word(2) == Some(h)
                &&& launches(s)[0].word(3) == Some(eps)
                &&& launches(s)[0].shape == Cmd::Threads(
                    one_row(rows as u64),
                    Group::Fixed(one_row(max_u64(min_u64(256, rows as u64), 1))),
                )
                &&& launches(s)[1].kernel() == Some(Kernel::LayerNormBwdGammaReduceSimd)
                &&& launches(s)[1].place(0) == Some((Buf::Arena, x as u64))
                &&& launches(s)[1].place(1) == Some((Buf::Arena, dy as u64))
                &&& launches(s)[1].place(2) == Some((Buf::Arena, stats_scratch as u64))
                &&& launches(s)[1].place(3) == Some((Buf::Arena, dgamma as u64))
                &&& launches(s)[1].word(4) == Some(rows)
                &&& launches(s)[1].word(5) == Some(h)
                &&& launches(s)[1].shape == Cmd::Groups(one_row(h as u64), one_row(32))
            }
            &&& !(!(stats_scratch != 0 && rows > 1)) && !(simd) ==> {
                &&& launches(s).len() == 2
                &&& launches(s)[0].kernel() == Some(Kernel::LayerNormBwdStatsF32)
                &&& launches(s)[0].place(0) == Some((Buf::Arena, x as u64))
                &&& launches(s)[0].place(1) == Some((Buf::Arena, stats_scratch as u64))
                &&& launches(s)[0].word(2) == Some(h)
                &&& launches(s)[0].word(3) == Some(eps)
                &&& launches(s)[0].shape == Cmd::Threads(
                    one_row(rows as u64),
                    Group::Fixed(one_row(max_u64(min_u64(256, rows as u64), 1))),
                )
                &&& launches(s)[1].kernel() == Some(Kernel::LayerNormBwdGammaReduceF32)
                &&& launches(s)[1].place(0) == Some((Buf::Arena, x as u64))
                &&& launches(s)[1].place(1) == Some((Buf::Arena, dy as u64))
                &&& launches(s)[1].place(2) == Some((Buf::Arena, stats_scratch as u64))
                &&& launches(s)[1].place(3) == Some((Buf::Arena, dgamma as u64))
                &&& launches(s)[1].word(4) == Some(rows)
                &&& launches(s)[1].word(5) == Some(h)
                &&& launches(s)[1].shape == Cmd::Threads(
                    one_row(h as u64),
                    Group::Fixed(one_row(max_u64(min_u64(256, h as u64), 1))),
                )
            }
        }),
{
    broadcast use group_launches;

    let s = layer_norm_bwd_gamma_steps(x, dy, dgamma, rows, h, eps, stats_scratch, simd);
    if !(stats_scratch != 0 && rows > 1) {
        assert(launches(s).len() == 1);
    } else if !(!(stats_scratch != 0 && rows > 1)) && (simd) {
        assert(launches(s).len() == 2);
    } else if !(!(stats_scratch != 0 && rows > 1)) && !(simd) {
        assert(launches(s).len() == 2);
    }
}

/// Group norm, one threadgroup per batch item and group. The kernel finds each operand and number
/// of the call at its own slot.
pub proof fn lemma_group_norm(
    src: usize,
    g: usize,
    b: usize,
    dst: usize,
    n: u32,
    c: u32,
    h: u32,
    w: u32,
    num_groups: u32,
    eps: u32,
)
    ensures
        ({
            let s = group_norm_steps(src, g, b, dst, n, c, h, w, num_groups, eps);
            &&& launches_once(s)
            &&& launch(s).kernel() == Some(Kernel::GroupNorm)
            &&& launch(s).place(0) == Some((Buf::Arena, src as u64))
            &&& launch(s).place(1) == Some((Buf::Arena, g as u64))
            &&& launch(s).place(2) == Some((Buf::Arena, b as u64))
            &&& launch(s).place(3) == Some((Buf::Arena, dst as u64))
            &&& launch(s).arg(4) == Some(Cmd::U32x4(4, n, c, h, w))
            &&& launch(s).word(5) == Some(num_groups)
            &&& launch(s).word(6) == Some(eps)
            &&& launch(s).shape == Cmd::Groups(
                one_row(max_u64((n * num_groups) as u64, 1)),
                one_row(256),
            )
        }),
{
    broadcast use group_launches;

    let s = group_norm_steps(src, g, b, dst, n, c, h, w, num_groups, eps);
    assert(launches(s).len() == 1);
}

/// The gradient of group norm with respect to its input. The kernel finds each operand and number
/// of the call at its own slot.
pub proof fn lemma_group_norm_bwd_input(
    x: usize,
    gamma: usize,
    dy: usize,
    dx: usize,
    n: u32,
    c: u32,
    h: u32,
    w: u32,
    num_groups: u32,
    eps: u32,
)
    ensures
        ({
            let s = group_norm_bwd_input_steps(x, gamma, dy, dx, n, c, h, w, num_groups, eps);
            &&& launches_once(s)
            &&& launch(s).kernel() == Some(Kernel::GroupNormBwdInput)
            &&& launch(s).place(0) == Some((Buf::Arena, x as u64))
            &&& launch(s).place(1) == Some((Buf::Arena, gamma as u64))
            &&& launch(s).place(2) == Some((Buf::Arena, dy as u64))
            &&& launch(s).place(3) == Some((Buf::Arena, dx as u64))
            &&& launch(s).arg(4) == Some(Cmd::U32x4(4, n, c, h, w))
            &&& launch(s).word(5) == Some(num_groups)
            &&& launch(s).word(6) == Some(eps)
            &&& launch(s).shape == Cmd::Groups(
                one_row(max_u64((n * num_groups) as u64, 1)),
                one_row(256),
            )
        }),
{
    broadcast use group_launches;

    let s = group_norm_bwd_input_steps(x, gamma, dy, dx, n, c, h, w, num_groups, eps);
    assert(launches(s).len() == 1);
}

/// The gradient of group norm with respect to its scale. The kernel finds each operand and number
/// of the call at its own slot.
pub proof fn lemma_group_norm_bwd_gamma(
    x: usize,
    dy: usize,
    dgamma: usize,
    n: u32,
    c: u32,
    h: u32,
    w: u32,
    num_groups: u32,
    eps: u32,
)
    ensures
        ({
            let s = group_norm_bwd_gamma_steps(x, dy, dgamma, n, c, h, w, num_groups, eps);
            &&& launches_once(s)
            &&& launch(s).kernel() == Some(Kernel::GroupNormBwdGamma)
            &&& launch(s).place(0) == Some((Buf::Arena, x as u64))
            &&& launch(s).place(1) == Some((Buf::Arena, dy as u64))
            &&& launch(s).place(2) == Some((Buf::Arena, dgamma as u64))
            &&& launch(s).arg(3) == Some(Cmd::U32x4(3, n, c, h, w))
            &&& launch(s).word(4) == Some(num_groups)
            &&& launch(s).word(5) == Some(eps)
            &&& launch(s).shape == Cmd::Threads(one_row(1), Group::Fixed(one_row(1)))
        }),
{
    broadcast use group_launches;

    let s = group_norm_bwd_gamma_steps(x, dy, dgamma, n, c, h, w, num_groups, eps);
    assert(launches(s).len() == 1);
}

/// The gradient of group norm with respect to its shift. The kernel finds each operand and number
/// of the call at its own slot.
pub proof fn lemma_group_norm_bwd_beta(dy: usize, dbeta: usize, n: u32, c: u32, h: u32, w: u32)
    ensures
        ({
            let s = group_norm_bwd_beta_steps(dy, dbeta, n, c, h, w);
            &&& launches_once(s)
            &&& launch(s).kernel() == Some(Kernel::GroupNormBwdBeta)
            &&& launch(s).place(0) == Some((Buf::Arena, dy as u64))
            &&& launch(s).place(1) == Some((Buf::Arena, dbeta as u64))
            &&& launch(s).arg(2) == Some(Cmd::U32x4(2, n, c, h, w))
            &&& launch(s).shape == Cmd::Threads(one_row(1), Group::Fixed(one_row(1)))
        }),
{
    broadcast use group_launches;

    let s = group_norm_bwd_beta_steps(dy, dbeta, n, c, h, w);
    assert(launches(s).len() == 1);
}

/// Layer norm over the channels of every pixel. The kernel finds each operand and number of the
/// call at its own slot.
pub proof fn lemma_layer_norm2d(
    src: usize,
    g: usize,
    b: usize,
    dst: usize,
    n: u32,
    c: u32,
    h: u32,
    w: u32,
    eps: u32,
)
    ensures
        ({
            let s = layer_norm2d_steps(src, g, b, dst, n, c, h, w, eps);
            &&& launches_once(s)
            &&& launch(s).kernel() == Some(Kernel::LayerNorm2d)
            &&& launch(s).place(0) == Some((Buf::Arena, src as u64))
            &&& launch(s).place(1) == Some((Buf::Arena, g as u64))
            &&& launch(s).place(2) == Some((Buf::Arena, b as u64))
            &&& launch(s).place(3) == Some((Buf::Arena, dst as u64))
            &&& launch(s).arg(4) == Some(Cmd::U32x4(4, n, c, h, w))
            &&& launch(s).word(5) == Some(eps)
            &&& launch(s).shape == Cmd::Threads(
                Size { width: w as u64, height: h as u64, depth: n as u64 },
                Group::Fixed(plane(min_u64(8, w as u64), min_u64(8, h as u64))),
            )
        }),
{
    broadcast use group_launches;

    let s = layer_norm2d_steps(src, g, b, dst, n, c, h, w, eps);
    assert(launches(s).len() == 1);
}

/// Rotary embedding, one thread per value, head and token. The kernel finds each operand and number
/// of the call at its own slot.
pub proof fn lemma_rope(
    src: usize,
    cos: usize,
    sin: usize,
    dst: usize,
    batch: u32,
    seq: u32,
    hidden: u32,
    head_dim: u32,
    n_rot: u32,
    dt: HalfFlag,
    src_row_stride: u32,
    seq_stride: u32,
    cos_per_token: bool,
    interleaved: bool,
)
    ensures
        ({
            let s = rope_steps(
                src,
                cos,
                sin,
                dst,
                batch,
                seq,
                hidden,
                head_dim,
                n_rot,
                dt,
                src_row_stride,
                seq_stride,
                cos_per_token,
                interleaved,
            );
            &&& launches_once(s)
            &&& launch(s).kernel() == Some(
                if dt == HalfFlag::F32 { Kernel::Rope } else { Kernel::RopeH },
            )
            &&& launch(s).place(0) == Some((Buf::Arena, src as u64))
            &&& launch(s).place(1) == Some((Buf::Arena, cos as u64))
            &&& launch(s).place(2) == Some((Buf::Arena, sin as u64))
            &&& launch(s).place(3) == Some((Buf::Arena, dst as u64))
            &&& launch(s).word(4) == Some(batch)
            &&& launch(s).word(5) == Some(seq)
            &&& launch(s).word(6) == Some(hidden)
            &&& launch(s).word(7) == Some(head_dim)
            &&& launch(s).word(8) == Some(src_row_stride)
            &&& launch(s).word(9) == Some(seq_stride)
            &&& launch(s).word(10) == Some(n_rot)
            &&& launch(s).word(11) == Some(bit(cos_per_token))
            &&& launch(s).word(12) == Some(bit(interleaved))
            &&& launch(s).shape == Cmd::Threads(
                Size {
                    width: head_dim as u64, height: (hidden / head_dim) as u64, depth: (batch * seq) as u64,
                },
                Group::Fixed(
                    plane(min_u64(head_dim as u64, 16), min_u64((hidden / head_dim) as u64, 8)),
                ),
            )
        }),
{
    broadcast use group_launches;

    let s = rope_steps(
        src,
        cos,
        sin,
        dst,
        batch,
        seq,
        hidden,
        head_dim,
        n_rot,
        dt,
        src_row_stride,
        seq_stride,
        cos_per_token,
        interleaved,
    );
    assert(launches(s).len() == 1);
}

/// The gradient of the rotary embedding. The kernel finds each operand and number of the call at
/// its own slot.
pub proof fn lemma_rope_bwd(
    dy: usize,
    cos: usize,
    sin: usize,
    dx: usize,
    batch: u32,
    seq: u32,
    hidden: u32,
    head_dim: u32,
    n_rot: u32,
    cos_len: u32,
)
    ensures
        ({
            let s = rope_bwd_steps(dy, cos, sin, dx, batch, seq, hidden, head_dim, n_rot, cos_len);
            &&& launches_once(s)
            &&& launch(s).kernel() == Some(Kernel::RopeBwd)
            &&& launch(s).place(0) == Some((Buf::Arena, dy as u64))
            &&& launch(s).place(1) == Some((Buf::Arena, cos as u64))
            &&& launch(s).place(2) == Some((Buf::Arena, sin as u64))
            &&& launch(s).place(3) == Some((Buf::Arena, dx as u64))
            &&& launch(s).word(4) == Some(batch)
            &&& launch(s).word(5) == Some(seq)
            &&& launch(s).word(6) == Some(hidden)
            &&& launch(s).word(7) == Some(head_dim)
            &&& launch(s).word(8) == Some(n_rot)
            &&& launch(s).word(9) == Some(cos_len)
            &&& launch(s).shape == Cmd::Threads(
                Size {
                    width: head_dim as u64, height: (hidden / if head_dim == 0 { 1 } else { head_dim }) as u64, depth: (batch * seq) as u64,
                },
                Group::Fixed(
                    plane(
                        min_u64(head_dim as u64, 16),
                        min_u64((hidden / if head_dim == 0 { 1 } else { head_dim }) as u64, 8),
                    ),
                ),
            )
        }),
{
    broadcast use group_launches;

    let s = rope_bwd_steps(dy, cos, sin, dx, batch, seq, hidden, head_dim, n_rot, cos_len);
    assert(launches(s).len() == 1);
}

} // verus!
