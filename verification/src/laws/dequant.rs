//! Products with quantized matrices: what each kernel is handed and what its launch covers.

use vstd::prelude::*;

use crate::command::{Buf, Cmd, Group, Kernel, bit, div_up, low_word, min_u64, one_row, plane};
use crate::encode::quant::{
    PackedFormat, dequant_matmul_fp8_steps, dequant_matmul_mlx_gemm_steps,
    dequant_matmul_mlx_gemv_steps, dequant_matmul_mxfp4x2_steps, dequant_matmul_nvfp4_steps,
    dequant_matmul_steps, fused_mlp_gate_up_gelu_steps, fused_mlp_gate_up_swiglu_steps,
    gate_up_steps, grouped_dequant_matmul_mlx_gemm_steps, grouped_dequant_matmul_mlx_gemv_steps,
    iq1_m_mv_f32_steps, iq1_s_mv_f32_steps, iq2_s_mv_f32_steps, iq2_xs_mv_f32_steps,
    iq2_xxs_mv_f32_steps, iq3_s_mv_f32_steps, iq3_xxs_mv_f32_steps, iq4_nl_mv_f32_steps,
    q1_0_dual_mv_f32_sg_flags_steps, q1_0_mm_f32_steps, q1_0_mv_f32_sg_flags_steps,
    q1_0_mv_f32_steps, q1_0_mv_residual_f32_steps, q1_0_swiglu_mv_f32_steps, q3k_mv_f32_sg_steps,
    q3k_mv_f32_steps, q4_0_mv_f32_sg_steps, q4_0_mv_f32_steps, q4_1_mv_f32_sg_steps,
    q4_1_mv_f32_steps, q4k_mv_f32_sg_steps, q4k_mv_f32_steps, q4k_mv_residual_f32_steps,
    q6k_mv_f32_sg_steps, q6k_mv_f32_steps, q8_0_mv_f32_sg_steps, q8_0_mv_f32_steps,
    residual_mv_kernel, simd_threads, swiglu_mv_kernel,
};
use crate::launch::{group_launches, launch, launches, launches_once};
use crate::laws::packed::{
    lemma_simdgroup_product, lemma_simdgroups_reach, lemma_vector_product, multiplies_packed,
};

verus! {

/// Product of a one- or two-bit matrix, in a buffer of its own, with one vector. The kernel finds
/// each operand and number of the call at its own slot.
pub proof fn lemma_q1_0_mv_f32(
    scheme: PackedFormat,
    w_buffer: Buf,
    x: usize,
    w_raw: usize,
    dst: usize,
    k_dim: usize,
    n_dim: usize,
)
    ensures
        ({
            let s = q1_0_mv_f32_steps(scheme, w_buffer, x, w_raw, dst, k_dim, n_dim);
            &&& launches_once(s)
            &&& launch(s).kernel() == Some(
                if scheme == PackedFormat::Q1 { Kernel::Q10MvF32 } else { Kernel::Q20MvF32 },
            )
            &&& launch(s).place(0) == Some((Buf::Arena, 0u64))
            &&& launch(s).long(1) == Some(x as u64)
            &&& launch(s).long(2) == Some(w_raw as u64)
            &&& launch(s).long(3) == Some(dst as u64)
            &&& launch(s).word(4) == Some(low_word(k_dim as u64))
            &&& launch(s).word(5) == Some(low_word(n_dim as u64))
            &&& launch(s).place(7) == Some((w_buffer, 0u64))
            &&& launch(s).shape == Cmd::Threads(
                one_row(n_dim as u64),
                Group::Fixed(one_row(min_u64(256, n_dim as u64))),
            )
        }),
{
    broadcast use group_launches;

    let s = q1_0_mv_f32_steps(scheme, w_buffer, x, w_raw, dst, k_dim, n_dim);
    assert(launches(s).len() == 1);
}

/// The same by simdgroups, with the precision of input and output as flags. The kernel finds each
/// operand and number of the call at its own slot.
pub proof fn lemma_q1_0_mv_f32_sg_flags(
    scheme: PackedFormat,
    w_buffer: Buf,
    x: usize,
    w_raw: usize,
    dst: usize,
    k_dim: usize,
    n_dim: usize,
    x_f16: bool,
    dst_f16: bool,
)
    ensures
        ({
            let s = q1_0_mv_f32_sg_flags_steps(
                scheme,
                w_buffer,
                x,
                w_raw,
                dst,
                k_dim,
                n_dim,
                x_f16,
                dst_f16,
            );
            &&& launches_once(s)
            &&& launch(s).kernel() == Some(
                if scheme == PackedFormat::Q1 { Kernel::Q10MvF32Sg } else { Kernel::Q20MvF32Sg },
            )
            &&& launch(s).place(0) == Some((Buf::Arena, 0u64))
            &&& launch(s).long(1) == Some(x as u64)
            &&& launch(s).long(2) == Some(w_raw as u64)
            &&& launch(s).long(3) == Some(dst as u64)
            &&& launch(s).word(4) == Some(low_word(k_dim as u64))
            &&& launch(s).word(5) == Some(low_word(n_dim as u64))
            &&& launch(s).word(6) == Some((bit(x_f16) + bit(dst_f16) * 2) as u32)
            &&& launch(s).place(7) == Some((w_buffer, 0u64))
            &&& launch(s).shape == Cmd::Threads(
                one_row(simd_threads(n_dim, 2, 8) as u64),
                Group::Fixed(one_row(64)),
            )
        }),
{
    broadcast use group_launches;

    let s = q1_0_mv_f32_sg_flags_steps(scheme, w_buffer, x, w_raw, dst, k_dim, n_dim, x_f16, dst_f16);
    assert(launches(s).len() == 1);
}

/// Two such products that share their input. The kernel finds each operand and number of the call
/// at its own slot.
pub proof fn lemma_q1_0_dual_mv_f32_sg_flags(
    scheme: PackedFormat,
    w_buffer: Buf,
    x: usize,
    w0_raw: usize,
    w1_raw: usize,
    dst0: usize,
    dst1: usize,
    k_dim: usize,
    n0: usize,
    n1: usize,
    x_f16: bool,
    dst_f16: bool,
)
    ensures
        ({
            let s = q1_0_dual_mv_f32_sg_flags_steps(
                scheme,
                w_buffer,
                x,
                w0_raw,
                w1_raw,
                dst0,
                dst1,
                k_dim,
                n0,
                n1,
                x_f16,
                dst_f16,
            );
            &&& launches_once(s)
            &&& launch(s).kernel() == Some(
                if scheme == PackedFormat::Q1 {
                    Kernel::Q10DualMvF32Sg
                } else { Kernel::Q20DualMvF32Sg },
            )
            &&& launch(s).place(0) == Some((Buf::Arena, 0u64))
            &&& launch(s).long(1) == Some(x as u64)
            &&& launch(s).long(2) == Some(w0_raw as u64)
            &&& launch(s).long(3) == Some(w1_raw as u64)
            &&& launch(s).long(4) == Some(dst0 as u64)
            &&& launch(s).long(5) == Some(dst1 as u64)
            &&& launch(s).arg(6) == Some(
                Cmd::U32x4(
                    6,
                    low_word(k_dim as u64),
                    low_word(n0 as u64),
                    low_word(n1 as u64),
                    (bit(x_f16) + bit(dst_f16) * 2) as u32,
                ),
            )
            &&& launch(s).place(7) == Some((w_buffer, 0u64))
            &&& launch(s).shape == Cmd::Threads(
                one_row(simd_threads(if n0 >= n1 { n0 } else { n1 }, 2, 8) as u64),
                Group::Fixed(one_row(64)),
            )
        }),
{
    broadcast use group_launches;

    let s = q1_0_dual_mv_f32_sg_flags_steps(
        scheme,
        w_buffer,
        x,
        w0_raw,
        w1_raw,
        dst0,
        dst1,
        k_dim,
        n0,
        n1,
        x_f16,
        dst_f16,
    );
    assert(launches(s).len() == 1);
}

/// Product of a one- or two-bit matrix with several rows. The kernel finds each operand and number
/// of the call at its own slot.
pub proof fn lemma_q1_0_mm_f32(
    scheme: PackedFormat,
    w_buffer: Buf,
    x: usize,
    w_raw: usize,
    dst: usize,
    m_dim: usize,
    k_dim: usize,
    n_dim: usize,
)
    ensures
        ({
            let s = q1_0_mm_f32_steps(scheme, w_buffer, x, w_raw, dst, m_dim, k_dim, n_dim);
            &&& launches_once(s)
            &&& launch(s).kernel() == Some(
                if scheme == PackedFormat::Q1 { Kernel::Q10MmF32 } else { Kernel::Q20MmF32 },
            )
            &&& launch(s).place(0) == Some((Buf::Arena, 0u64))
            &&& launch(s).long(1) == Some(x as u64)
            &&& launch(s).long(2) == Some(w_raw as u64)
            &&& launch(s).long(3) == Some(dst as u64)
            &&& launch(s).word(4) == Some(low_word(m_dim as u64))
            &&& launch(s).word(5) == Some(low_word(k_dim as u64))
            &&& launch(s).word(6) == Some(low_word(n_dim as u64))
            &&& launch(s).place(7) == Some((w_buffer, 0u64))
            &&& launch(s).shape == Cmd::Threads(
                plane(n_dim as u64, div_up(m_dim as u64, 8)),
                Group::Fixed(one_row(min_u64(n_dim as u64, 64))),
            )
        }),
{
    broadcast use group_launches;

    let s = q1_0_mm_f32_steps(scheme, w_buffer, x, w_raw, dst, m_dim, k_dim, n_dim);
    assert(launches(s).len() == 1);
}

/// Gate and up projection with SwiGLU on one- or two-bit weights: by simdgroups where the width is
/// a multiple of eight and `simd` allows. The kernel finds each operand and number of the call at
/// its own slot.
pub proof fn lemma_q1_0_swiglu_mv_f32(
    scheme: PackedFormat,
    w_buffer: Buf,
    x: usize,
    gate_raw: usize,
    up_raw: usize,
    dst: usize,
    k_dim: usize,
    n_dim: usize,
    x_f16: bool,
    dst_f16: bool,
    simd: bool,
)
    ensures
        ({
            let s = q1_0_swiglu_mv_f32_steps(
                scheme,
                w_buffer,
                x,
                gate_raw,
                up_raw,
                dst,
                k_dim,
                n_dim,
                x_f16,
                dst_f16,
                simd,
            );
            &&& launches_once(s)
            &&& launch(s).kernel() == Some(swiglu_mv_kernel(scheme, n_dim % 8 == 0 && simd))
            &&& launch(s).place(0) == Some((Buf::Arena, 0u64))
            &&& launch(s).long(1) == Some(x as u64)
            &&& launch(s).long(2) == Some(gate_raw as u64)
            &&& launch(s).long(3) == Some(up_raw as u64)
            &&& launch(s).long(4) == Some(dst as u64)
            &&& launch(s).word(5) == Some(low_word(k_dim as u64))
            &&& launch(s).word(6) == Some(low_word(n_dim as u64))
            &&& launch(s).place(7) == Some((w_buffer, 0u64))
            &&& n_dim % 8 == 0 && simd ==> {
                &&& launch(s).word(8) == Some((bit(x_f16) + bit(dst_f16) * 2) as u32)
                &&& launch(s).shape == Cmd::Threads(
                    one_row(simd_threads(n_dim, 2, 8) as u64),
                    Group::Fixed(one_row(64)),
                )
            }
            &&& !(n_dim % 8 == 0 && simd) ==> {
                &&& launch(s).shape == Cmd::Threads(
                    one_row(n_dim as u64),
                    Group::Fixed(one_row(min_u64(256, n_dim as u64))),
                )
            }
        }),
{
    broadcast use group_launches;

    let s = q1_0_swiglu_mv_f32_steps(
        scheme,
        w_buffer,
        x,
        gate_raw,
        up_raw,
        dst,
        k_dim,
        n_dim,
        x_f16,
        dst_f16,
        simd,
    );
    if n_dim % 8 == 0 && simd {
        assert(launches(s).len() == 1);
    } else if !(n_dim % 8 == 0 && simd) {
        assert(launches(s).len() == 1);
    }
}

/// Down projection plus residual on one- or two-bit weights, with the same choice. The kernel finds
/// each operand and number of the call at its own slot.
pub proof fn lemma_q1_0_mv_residual_f32(
    scheme: PackedFormat,
    w_buffer: Buf,
    x: usize,
    w_raw: usize,
    res: usize,
    dst: usize,
    k_dim: usize,
    n_dim: usize,
    x_f16: bool,
    dst_f16: bool,
    res_f16: bool,
    simd: bool,
)
    ensures
        ({
            let s = q1_0_mv_residual_f32_steps(
                scheme,
                w_buffer,
                x,
                w_raw,
                res,
                dst,
                k_dim,
                n_dim,
                x_f16,
                dst_f16,
                res_f16,
                simd,
            );
            &&& launches_once(s)
            &&& launch(s).kernel() == Some(residual_mv_kernel(scheme, n_dim % 8 == 0 && simd))
            &&& launch(s).place(0) == Some((Buf::Arena, 0u64))
            &&& launch(s).long(1) == Some(x as u64)
            &&& launch(s).long(2) == Some(w_raw as u64)
            &&& launch(s).long(3) == Some(dst as u64)
            &&& launch(s).long(4) == Some(res as u64)
            &&& launch(s).word(5) == Some(low_word(k_dim as u64))
            &&& launch(s).word(6) == Some(low_word(n_dim as u64))
            &&& launch(s).place(7) == Some((w_buffer, 0u64))
            &&& n_dim % 8 == 0 && simd ==> {
                &&& launch(s).word(8) == Some((bit(x_f16) + bit(dst_f16) * 2 + bit(res_f16) * 4) as u32)
                &&& launch(s).shape == Cmd::Threads(
                    one_row(simd_threads(n_dim, 2, 8) as u64),
                    Group::Fixed(one_row(64)),
                )
            }
            &&& !(n_dim % 8 == 0 && simd) ==> {
                &&& launch(s).shape == Cmd::Threads(
                    one_row(n_dim as u64),
                    Group::Fixed(one_row(min_u64(256, n_dim as u64))),
                )
            }
        }),
{
    broadcast use group_launches;

    let s = q1_0_mv_residual_f32_steps(
        scheme,
        w_buffer,
        x,
        w_raw,
        res,
        dst,
        k_dim,
        n_dim,
        x_f16,
        dst_f16,
        res_f16,
        simd,
    );
    if n_dim % 8 == 0 && simd {
        assert(launches(s).len() == 1);
    } else if !(n_dim % 8 == 0 && simd) {
        assert(launches(s).len() == 1);
    }
}

/// Down projection plus residual by a given kernel. The kernel finds each operand and number of the
/// call at its own slot.
pub proof fn lemma_q4k_mv_residual_f32(
    pipeline: Kernel,
    x: usize,
    w_q: usize,
    res: usize,
    dst: usize,
    k_dim: usize,
    n_dim: usize,
)
    ensures
        ({
            let s = q4k_mv_residual_f32_steps(pipeline, x, w_q, res, dst, k_dim, n_dim);
            &&& launches_once(s)
            &&& launch(s).kernel() == Some(pipeline)
            &&& launch(s).place(0) == Some((Buf::Arena, 0u64))
            &&& launch(s).long(1) == Some(x as u64)
            &&& launch(s).long(2) == Some(w_q as u64)
            &&& launch(s).long(3) == Some(dst as u64)
            &&& launch(s).long(4) == Some(res as u64)
            &&& launch(s).word(5) == Some(low_word(k_dim as u64))
            &&& launch(s).word(6) == Some(low_word(n_dim as u64))
            &&& launch(s).shape == Cmd::Threads(
                one_row(n_dim as u64),
                Group::Fixed(one_row(min_u64(256, n_dim as u64))),
            )
        }),
{
    broadcast use group_launches;

    let s = q4k_mv_residual_f32_steps(pipeline, x, w_q, res, dst, k_dim, n_dim);
    assert(launches(s).len() == 1);
}

/// Product with block-quantized integer weights. The kernel finds each operand and number of the
/// call at its own slot.
pub proof fn lemma_dequant_matmul(
    pipeline: Kernel,
    x: usize,
    w_q: usize,
    scale: usize,
    zp: usize,
    dst: usize,
    m: u32,
    k: u32,
    n: u32,
    block_size: u32,
    asym: u32,
)
    ensures
        ({
            let s = dequant_matmul_steps(
                pipeline,
                x,
                w_q,
                scale,
                zp,
                dst,
                m,
                k,
                n,
                block_size,
                asym,
            );
            &&& launches_once(s)
            &&& launch(s).kernel() == Some(pipeline)
            &&& launch(s).place(0) == Some((Buf::Arena, x as u64))
            &&& launch(s).place(1) == Some((Buf::Arena, w_q as u64))
            &&& launch(s).place(2) == Some((Buf::Arena, scale as u64))
            &&& launch(s).place(3) == Some((Buf::Arena, zp as u64))
            &&& launch(s).place(4) == Some((Buf::Arena, dst as u64))
            &&& launch(s).word(5) == Some(m)
            &&& launch(s).word(6) == Some(k)
            &&& launch(s).word(7) == Some(n)
            &&& launch(s).word(8) == Some(block_size)
            &&& launch(s).word(9) == Some(asym)
            &&& launch(s).shape == Cmd::Threads(
                one_row((m * n) as u64),
                Group::Fixed(one_row(min_u64((m * n) as u64, 256))),
            )
        }),
{
    broadcast use group_launches;

    let s = dequant_matmul_steps(pipeline, x, w_q, scale, zp, dst, m, k, n, block_size, asym);
    assert(launches(s).len() == 1);
}

/// Product with 8-bit float weights. The kernel finds each operand and number of the call at its
/// own slot.
pub proof fn lemma_dequant_matmul_fp8(
    pipeline: Kernel,
    x: usize,
    w_q: usize,
    scale: usize,
    dst: usize,
    m: u32,
    k: u32,
    n: u32,
    e5m2: u32,
)
    ensures
        ({
            let s = dequant_matmul_fp8_steps(pipeline, x, w_q, scale, dst, m, k, n, e5m2);
            &&& launches_once(s)
            &&& launch(s).kernel() == Some(pipeline)
            &&& launch(s).place(0) == Some((Buf::Arena, x as u64))
            &&& launch(s).place(1) == Some((Buf::Arena, w_q as u64))
            &&& launch(s).place(2) == Some((Buf::Arena, scale as u64))
            &&& launch(s).place(4) == Some((Buf::Arena, dst as u64))
            &&& launch(s).word(5) == Some(m)
            &&& launch(s).word(6) == Some(k)
            &&& launch(s).word(7) == Some(n)
            &&& launch(s).word(8) == Some(e5m2)
            &&& launch(s).shape == Cmd::Threads(
                one_row((m * n) as u64),
                Group::Fixed(one_row(min_u64((m * n) as u64, 256))),
            )
        }),
{
    broadcast use group_launches;

    let s = dequant_matmul_fp8_steps(pipeline, x, w_q, scale, dst, m, k, n, e5m2);
    assert(launches(s).len() == 1);
}

/// Product with 4-bit float weights in groups, under a global scale. The kernel finds each operand
/// and number of the call at its own slot.
pub proof fn lemma_dequant_matmul_nvfp4(
    pipeline: Kernel,
    x: usize,
    w_q: usize,
    scale: usize,
    global_scale: usize,
    dst: usize,
    m: u32,
    k: u32,
    n: u32,
    group: u32,
)
    ensures
        ({
            let s = dequant_matmul_nvfp4_steps(
                pipeline,
                x,
                w_q,
                scale,
                global_scale,
                dst,
                m,
                k,
                n,
                group,
            );
            &&& launches_once(s)
            &&& launch(s).kernel() == Some(pipeline)
            &&& launch(s).place(0) == Some((Buf::Arena, x as u64))
            &&& launch(s).place(1) == Some((Buf::Arena, w_q as u64))
            &&& launch(s).place(2) == Some((Buf::Arena, scale as u64))
            &&& launch(s).place(3) == Some((Buf::Arena, global_scale as u64))
            &&& launch(s).place(4) == Some((Buf::Arena, dst as u64))
            &&& launch(s).word(5) == Some(m)
            &&& launch(s).word(6) == Some(k)
            &&& launch(s).word(7) == Some(n)
            &&& launch(s).word(8) == Some(group)
            &&& launch(s).shape == Cmd::Threads(
                one_row((m * n) as u64),
                Group::Fixed(one_row(min_u64((m * n) as u64, 256))),
            )
        }),
{
    broadcast use group_launches;

    let s = dequant_matmul_nvfp4_steps(pipeline, x, w_q, scale, global_scale, dst, m, k, n, group);
    assert(launches(s).len() == 1);
}

/// Product with pairs of 4-bit floats. The kernel finds each operand and number of the call at its
/// own slot.
pub proof fn lemma_dequant_matmul_mxfp4x2(
    pipeline: Kernel,
    x: usize,
    w_q: usize,
    scale: usize,
    dst: usize,
    m: u32,
    k: u32,
    n: u32,
    group: u32,
)
    ensures
        ({
            let s = dequant_matmul_mxfp4x2_steps(pipeline, x, w_q, scale, dst, m, k, n, group);
            &&& launches_once(s)
            &&& launch(s).kernel() == Some(pipeline)
            &&& launch(s).place(0) == Some((Buf::Arena, x as u64))
            &&& launch(s).place(1) == Some((Buf::Arena, w_q as u64))
            &&& launch(s).place(2) == Some((Buf::Arena, scale as u64))
            &&& launch(s).place(3) == Some((Buf::Arena, dst as u64))
            &&& launch(s).word(4) == Some(m)
            &&& launch(s).word(5) == Some(k)
            &&& launch(s).word(6) == Some(n)
            &&& launch(s).word(7) == Some(group)
            &&& launch(s).shape == Cmd::Threads(
                one_row((m * n) as u64),
                Group::Fixed(one_row(min_u64((m * n) as u64, 256))),
            )
        }),
{
    broadcast use group_launches;

    let s = dequant_matmul_mxfp4x2_steps(pipeline, x, w_q, scale, dst, m, k, n, group);
    assert(launches(s).len() == 1);
}

/// Product with weights in the MLX layout, eight rows per threadgroup. The kernel finds each
/// operand and number of the call at its own slot.
pub proof fn lemma_dequant_matmul_mlx_gemm(
    pipeline: Kernel,
    x: usize,
    w_q: usize,
    scale: usize,
    zp: usize,
    dst: usize,
    m: u32,
    k: u32,
    n: u32,
    kind: u32,
    bits: u32,
    group_size: u32,
)
    ensures
        ({
            let s = dequant_matmul_mlx_gemm_steps(
                pipeline,
                x,
                w_q,
                scale,
                zp,
                dst,
                m,
                k,
                n,
                kind,
                bits,
                group_size,
            );
            &&& launches_once(s)
            &&& launch(s).kernel() == Some(pipeline)
            &&& launch(s).place(0) == Some((Buf::Arena, x as u64))
            &&& launch(s).place(1) == Some((Buf::Arena, w_q as u64))
            &&& launch(s).place(2) == Some((Buf::Arena, scale as u64))
            &&& launch(s).place(3) == Some((Buf::Arena, zp as u64))
            &&& launch(s).place(4) == Some((Buf::Arena, dst as u64))
            &&& launch(s).word(5) == Some(m)
            &&& launch(s).word(6) == Some(k)
            &&& launch(s).word(7) == Some(n)
            &&& launch(s).word(8) == Some(kind)
            &&& launch(s).word(9) == Some(bits)
            &&& launch(s).word(10) == Some(group_size)
            &&& launch(s).shape == Cmd::Groups(one_row((n * div_up(m as u64, 8)) as u64), one_row(256))
        }),
{
    broadcast use group_launches;

    let s = dequant_matmul_mlx_gemm_steps(pipeline, x, w_q, scale, zp, dst, m, k, n, kind, bits, group_size);
    assert(launches(s).len() == 1);
}

/// The same for a single row. The kernel finds each operand and number of the call at its own slot.
pub proof fn lemma_dequant_matmul_mlx_gemv(
    pipeline: Kernel,
    x: usize,
    w_q: usize,
    scale: usize,
    zp: usize,
    dst: usize,
    k: u32,
    n: u32,
    kind: u32,
    bits: u32,
    group_size: u32,
)
    ensures
        ({
            let s = dequant_matmul_mlx_gemv_steps(
                pipeline,
                x,
                w_q,
                scale,
                zp,
                dst,
                k,
                n,
                kind,
                bits,
                group_size,
            );
            &&& launches_once(s)
            &&& launch(s).kernel() == Some(pipeline)
            &&& launch(s).place(0) == Some((Buf::Arena, x as u64))
            &&& launch(s).place(1) == Some((Buf::Arena, w_q as u64))
            &&& launch(s).place(2) == Some((Buf::Arena, scale as u64))
            &&& launch(s).place(3) == Some((Buf::Arena, zp as u64))
            &&& launch(s).place(4) == Some((Buf::Arena, dst as u64))
            &&& launch(s).word(5) == Some(k)
            &&& launch(s).word(6) == Some(n)
            &&& launch(s).word(7) == Some(kind)
            &&& launch(s).word(8) == Some(bits)
            &&& launch(s).word(9) == Some(group_size)
            &&& launch(s).shape == Cmd::Groups(one_row(n as u64), one_row(256))
        }),
{
    broadcast use group_launches;

    let s = dequant_matmul_mlx_gemv_steps(pipeline, x, w_q, scale, zp, dst, k, n, kind, bits, group_size);
    assert(launches(s).len() == 1);
}

/// The same with the matrix of an expert. The kernel finds each operand and number of the call at
/// its own slot.
pub proof fn lemma_grouped_dequant_matmul_mlx_gemv(
    pipeline: Kernel,
    x: usize,
    w_q: usize,
    scale: usize,
    zp: usize,
    dst: usize,
    e_idx: usize,
    k: u32,
    n: u32,
    kind: u32,
    bits: u32,
    group_size: u32,
    slab_bytes: u32,
    scale_bf16: u32,
)
    ensures
        ({
            let s = grouped_dequant_matmul_mlx_gemv_steps(
                pipeline,
                x,
                w_q,
                scale,
                zp,
                dst,
                e_idx,
                k,
                n,
                kind,
                bits,
                group_size,
                slab_bytes,
                scale_bf16,
            );
            &&& launches_once(s)
            &&& launch(s).kernel() == Some(pipeline)
            &&& launch(s).place(0) == Some((Buf::Arena, x as u64))
            &&& launch(s).place(1) == Some((Buf::Arena, w_q as u64))
            &&& launch(s).place(2) == Some((Buf::Arena, scale as u64))
            &&& launch(s).place(3) == Some((Buf::Arena, zp as u64))
            &&& launch(s).place(4) == Some((Buf::Arena, dst as u64))
            &&& launch(s).place(5) == Some((Buf::Arena, e_idx as u64))
            &&& launch(s).word(6) == Some(k)
            &&& launch(s).word(7) == Some(n)
            &&& launch(s).word(8) == Some(kind)
            &&& launch(s).word(9) == Some(bits)
            &&& launch(s).word(10) == Some(group_size)
            &&& launch(s).word(11) == Some(slab_bytes)
            &&& launch(s).word(12) == Some(scale_bf16)
            &&& launch(s).shape == Cmd::Groups(one_row(n as u64), one_row(256))
        }),
{
    broadcast use group_launches;

    let s = grouped_dequant_matmul_mlx_gemv_steps(
        pipeline,
        x,
        w_q,
        scale,
        zp,
        dst,
        e_idx,
        k,
        n,
        kind,
        bits,
        group_size,
        slab_bytes,
        scale_bf16,
    );
    assert(launches(s).len() == 1);
}

/// Several rows with the matrices of their experts. The kernel finds each operand and number of the
/// call at its own slot.
pub proof fn lemma_grouped_dequant_matmul_mlx_gemm(
    pipeline: Kernel,
    x: usize,
    w_q: usize,
    scale: usize,
    zp: usize,
    dst: usize,
    e_idx: usize,
    m: u32,
    k: u32,
    n: u32,
    kind: u32,
    bits: u32,
    group_size: u32,
    slab_bytes: u32,
    scale_bf16: u32,
)
    ensures
        ({
            let s = grouped_dequant_matmul_mlx_gemm_steps(
                pipeline,
                x,
                w_q,
                scale,
                zp,
                dst,
                e_idx,
                m,
                k,
                n,
                kind,
                bits,
                group_size,
                slab_bytes,
                scale_bf16,
            );
            &&& launches_once(s)
            &&& launch(s).kernel() == Some(pipeline)
            &&& launch(s).place(0) == Some((Buf::Arena, x as u64))
            &&& launch(s).place(1) == Some((Buf::Arena, w_q as u64))
            &&& launch(s).place(2) == Some((Buf::Arena, scale as u64))
            &&& launch(s).place(3) == Some((Buf::Arena, zp as u64))
            &&& launch(s).place(4) == Some((Buf::Arena, dst as u64))
            &&& launch(s).place(5) == Some((Buf::Arena, e_idx as u64))
            &&& launch(s).word(6) == Some(m)
            &&& launch(s).word(7) == Some(k)
            &&& launch(s).word(8) == Some(n)
            &&& launch(s).word(9) == Some(kind)
            &&& launch(s).word(10) == Some(bits)
            &&& launch(s).word(11) == Some(group_size)
            &&& launch(s).word(12) == Some(slab_bytes)
            &&& launch(s).word(13) == Some(scale_bf16)
            &&& launch(s).shape == Cmd::Groups(one_row((n * div_up(m as u64, 8)) as u64), one_row(256))
        }),
{
    broadcast use group_launches;

    let s = grouped_dequant_matmul_mlx_gemm_steps(
        pipeline,
        x,
        w_q,
        scale,
        zp,
        dst,
        e_idx,
        m,
        k,
        n,
        kind,
        bits,
        group_size,
        slab_bytes,
        scale_bf16,
    );
    assert(launches(s).len() == 1);
}

/// The blocks that packed matrices are made of.
pub enum Blocks {
    Q40,
    Q41,
    Q80,
    Q3K,
    Q4K,
    Q6K,
    Iq4Nl,
    Iq2Xxs,
    Iq2Xs,
    Iq3Xxs,
    Iq2S,
    Iq3S,
    Iq1S,
    Iq1M,
}

/// The blocks that a kernel reads.
pub open spec fn blocks_read(kernel: Kernel) -> Option<Blocks> {
    match kernel {
        Kernel::Q40MvF32 | Kernel::Q40MvF32Sg => Some(Blocks::Q40),
        Kernel::Q41MvF32 | Kernel::Q41MvF32Sg => Some(Blocks::Q41),
        Kernel::Q80MvF32 | Kernel::Q80MvF32Sg => Some(Blocks::Q80),
        Kernel::Q3kMvF32 | Kernel::Q3kMvF32Sg => Some(Blocks::Q3K),
        Kernel::Q4kMvF32 | Kernel::Q4kMvF32Sg => Some(Blocks::Q4K),
        Kernel::Q6kMvF32 | Kernel::Q6kMvF32Sg => Some(Blocks::Q6K),
        Kernel::Iq4NlMvF32 => Some(Blocks::Iq4Nl),
        Kernel::Iq2XxsMvF32 => Some(Blocks::Iq2Xxs),
        Kernel::Iq2XsMvF32 => Some(Blocks::Iq2Xs),
        Kernel::Iq3XxsMvF32 => Some(Blocks::Iq3Xxs),
        Kernel::Iq2SMvF32 => Some(Blocks::Iq2S),
        Kernel::Iq3SMvF32 => Some(Blocks::Iq3S),
        Kernel::Iq1SMvF32 => Some(Blocks::Iq1S),
        Kernel::Iq1MMvF32 => Some(Blocks::Iq1M),
        _ => None,
    }
}

/// Outputs that one simdgroup of a kernel computes.
pub open spec fn outputs_per_simdgroup(kernel: Kernel) -> Option<u64> {
    match kernel {
        Kernel::Q4kMvF32Sg => Some(2),
        Kernel::Q80MvF32Sg | Kernel::Q40MvF32Sg | Kernel::Q41MvF32Sg => Some(4),
        Kernel::Q6kMvF32Sg => Some(1),
        Kernel::Q3kMvF32Sg => Some(2),
        _ => None,
    }
}

/// The simdgroup product with a vector reads Q4K blocks and leaves out no output.
pub proof fn lemma_q4k_mv_f32_sg(x: usize, w_q: usize, dst: usize, k_dim: usize, n_dim: usize)
    requires
        n_dim + 64 <= usize::MAX,
        simd_threads(n_dim, 4, 2) <= u64::MAX,
    ensures
        ({
            let l = launch(q4k_mv_f32_sg_steps(x, w_q, dst, k_dim, n_dim));
            &&& launches_once(q4k_mv_f32_sg_steps(x, w_q, dst, k_dim, n_dim))
            &&& l.kernel() is Some
            &&& blocks_read(l.kernel()->0) == Some(Blocks::Q4K)
            &&& multiplies_packed(l, x as int, w_q as int, dst as int, 1, k_dim, n_dim)
            &&& l.threads() is Some
            &&& (l.threads()->0).width % 32 == 0
            &&& n_dim <= (l.threads()->0).width / 32 * outputs_per_simdgroup(l.kernel()->0)->0
        }),
{
    lemma_simdgroup_product(Kernel::Q4kMvF32Sg, x, w_q, dst, k_dim, n_dim, 4, 2);
    lemma_simdgroups_reach(n_dim, 4, 2);
}

/// The simdgroup product with a vector reads Q8_0 blocks and leaves out no output.
pub proof fn lemma_q8_0_mv_f32_sg(x: usize, w_q: usize, dst: usize, k_dim: usize, n_dim: usize)
    requires
        n_dim + 64 <= usize::MAX,
        simd_threads(n_dim, 2, 4) <= u64::MAX,
    ensures
        ({
            let l = launch(q8_0_mv_f32_sg_steps(x, w_q, dst, k_dim, n_dim));
            &&& launches_once(q8_0_mv_f32_sg_steps(x, w_q, dst, k_dim, n_dim))
            &&& l.kernel() is Some
            &&& blocks_read(l.kernel()->0) == Some(Blocks::Q80)
            &&& multiplies_packed(l, x as int, w_q as int, dst as int, 1, k_dim, n_dim)
            &&& l.threads() is Some
            &&& (l.threads()->0).width % 32 == 0
            &&& n_dim <= (l.threads()->0).width / 32 * outputs_per_simdgroup(l.kernel()->0)->0
        }),
{
    lemma_simdgroup_product(Kernel::Q80MvF32Sg, x, w_q, dst, k_dim, n_dim, 2, 4);
    lemma_simdgroups_reach(n_dim, 2, 4);
}

/// The simdgroup product with a vector reads Q4_0 blocks and leaves out no output.
pub proof fn lemma_q4_0_mv_f32_sg(x: usize, w_q: usize, dst: usize, k_dim: usize, n_dim: usize)
    requires
        n_dim + 64 <= usize::MAX,
        simd_threads(n_dim, 2, 4) <= u64::MAX,
    ensures
        ({
            let l = launch(q4_0_mv_f32_sg_steps(x, w_q, dst, k_dim, n_dim));
            &&& launches_once(q4_0_mv_f32_sg_steps(x, w_q, dst, k_dim, n_dim))
            &&& l.kernel() is Some
            &&& blocks_read(l.kernel()->0) == Some(Blocks::Q40)
            &&& multiplies_packed(l, x as int, w_q as int, dst as int, 1, k_dim, n_dim)
            &&& l.threads() is Some
            &&& (l.threads()->0).width % 32 == 0
            &&& n_dim <= (l.threads()->0).width / 32 * outputs_per_simdgroup(l.kernel()->0)->0
        }),
{
    lemma_simdgroup_product(Kernel::Q40MvF32Sg, x, w_q, dst, k_dim, n_dim, 2, 4);
    lemma_simdgroups_reach(n_dim, 2, 4);
}

/// The simdgroup product with a vector reads Q4_1 blocks and leaves out no output.
pub proof fn lemma_q4_1_mv_f32_sg(x: usize, w_q: usize, dst: usize, k_dim: usize, n_dim: usize)
    requires
        n_dim + 64 <= usize::MAX,
        simd_threads(n_dim, 2, 4) <= u64::MAX,
    ensures
        ({
            let l = launch(q4_1_mv_f32_sg_steps(x, w_q, dst, k_dim, n_dim));
            &&& launches_once(q4_1_mv_f32_sg_steps(x, w_q, dst, k_dim, n_dim))
            &&& l.kernel() is Some
            &&& blocks_read(l.kernel()->0) == Some(Blocks::Q41)
            &&& multiplies_packed(l, x as int, w_q as int, dst as int, 1, k_dim, n_dim)
            &&& l.threads() is Some
            &&& (l.threads()->0).width % 32 == 0
            &&& n_dim <= (l.threads()->0).width / 32 * outputs_per_simdgroup(l.kernel()->0)->0
        }),
{
    lemma_simdgroup_product(Kernel::Q41MvF32Sg, x, w_q, dst, k_dim, n_dim, 2, 4);
    lemma_simdgroups_reach(n_dim, 2, 4);
}

/// The simdgroup product with a vector reads Q6K blocks and leaves out no output.
pub proof fn lemma_q6k_mv_f32_sg(x: usize, w_q: usize, dst: usize, k_dim: usize, n_dim: usize)
    requires
        n_dim + 64 <= usize::MAX,
        simd_threads(n_dim, 4, 1) <= u64::MAX,
    ensures
        ({
            let l = launch(q6k_mv_f32_sg_steps(x, w_q, dst, k_dim, n_dim));
            &&& launches_once(q6k_mv_f32_sg_steps(x, w_q, dst, k_dim, n_dim))
            &&& l.kernel() is Some
            &&& blocks_read(l.kernel()->0) == Some(Blocks::Q6K)
            &&& multiplies_packed(l, x as int, w_q as int, dst as int, 1, k_dim, n_dim)
            &&& l.threads() is Some
            &&& (l.threads()->0).width % 32 == 0
            &&& n_dim <= (l.threads()->0).width / 32 * outputs_per_simdgroup(l.kernel()->0)->0
        }),
{
    lemma_simdgroup_product(Kernel::Q6kMvF32Sg, x, w_q, dst, k_dim, n_dim, 4, 1);
    lemma_simdgroups_reach(n_dim, 4, 1);
}

/// The simdgroup product with a vector reads Q3K blocks and leaves out no output.
pub proof fn lemma_q3k_mv_f32_sg(x: usize, w_q: usize, dst: usize, k_dim: usize, n_dim: usize)
    requires
        n_dim + 64 <= usize::MAX,
        simd_threads(n_dim, 4, 2) <= u64::MAX,
    ensures
        ({
            let l = launch(q3k_mv_f32_sg_steps(x, w_q, dst, k_dim, n_dim));
            &&& launches_once(q3k_mv_f32_sg_steps(x, w_q, dst, k_dim, n_dim))
            &&& l.kernel() is Some
            &&& blocks_read(l.kernel()->0) == Some(Blocks::Q3K)
            &&& multiplies_packed(l, x as int, w_q as int, dst as int, 1, k_dim, n_dim)
            &&& l.threads() is Some
            &&& (l.threads()->0).width % 32 == 0
            &&& n_dim <= (l.threads()->0).width / 32 * outputs_per_simdgroup(l.kernel()->0)->0
        }),
{
    lemma_simdgroup_product(Kernel::Q3kMvF32Sg, x, w_q, dst, k_dim, n_dim, 4, 2);
    lemma_simdgroups_reach(n_dim, 4, 2);
}

/// The product with a vector reads Q3K blocks, with a thread per output.
pub proof fn lemma_q3k_mv_f32(x: usize, w_q: usize, dst: usize, k_dim: usize, n_dim: usize)
    ensures
        ({
            let l = launch(q3k_mv_f32_steps(x, w_q, dst, k_dim, n_dim));
            &&& launches_once(q3k_mv_f32_steps(x, w_q, dst, k_dim, n_dim))
            &&& l.kernel() is Some
            &&& blocks_read(l.kernel()->0) == Some(Blocks::Q3K)
            &&& multiplies_packed(l, x as int, w_q as int, dst as int, 1, k_dim, n_dim)
            &&& l.threads() == Some(one_row(n_dim as u64))
        }),
{
    lemma_vector_product(Kernel::Q3kMvF32, x, w_q, dst, k_dim, n_dim);
}

/// The product with a vector reads Q6K blocks, with a thread per output.
pub proof fn lemma_q6k_mv_f32(x: usize, w_q: usize, dst: usize, k_dim: usize, n_dim: usize)
    ensures
        ({
            let l = launch(q6k_mv_f32_steps(x, w_q, dst, k_dim, n_dim));
            &&& launches_once(q6k_mv_f32_steps(x, w_q, dst, k_dim, n_dim))
            &&& l.kernel() is Some
            &&& blocks_read(l.kernel()->0) == Some(Blocks::Q6K)
            &&& multiplies_packed(l, x as int, w_q as int, dst as int, 1, k_dim, n_dim)
            &&& l.threads() == Some(one_row(n_dim as u64))
        }),
{
    lemma_vector_product(Kernel::Q6kMvF32, x, w_q, dst, k_dim, n_dim);
}

/// The product with a vector reads Q4K blocks, with a thread per output.
pub proof fn lemma_q4k_mv_f32(x: usize, w_q: usize, dst: usize, k_dim: usize, n_dim: usize)
    ensures
        ({
            let l = launch(q4k_mv_f32_steps(x, w_q, dst, k_dim, n_dim));
            &&& launches_once(q4k_mv_f32_steps(x, w_q, dst, k_dim, n_dim))
            &&& l.kernel() is Some
            &&& blocks_read(l.kernel()->0) == Some(Blocks::Q4K)
            &&& multiplies_packed(l, x as int, w_q as int, dst as int, 1, k_dim, n_dim)
            &&& l.threads() == Some(one_row(n_dim as u64))
        }),
{
    lemma_vector_product(Kernel::Q4kMvF32, x, w_q, dst, k_dim, n_dim);
}

/// The product with a vector reads Q4_0 blocks, with a thread per output.
pub proof fn lemma_q4_0_mv_f32(x: usize, w_q: usize, dst: usize, k_dim: usize, n_dim: usize)
    ensures
        ({
            let l = launch(q4_0_mv_f32_steps(x, w_q, dst, k_dim, n_dim));
            &&& launches_once(q4_0_mv_f32_steps(x, w_q, dst, k_dim, n_dim))
            &&& l.kernel() is Some
            &&& blocks_read(l.kernel()->0) == Some(Blocks::Q40)
            &&& multiplies_packed(l, x as int, w_q as int, dst as int, 1, k_dim, n_dim)
            &&& l.threads() == Some(one_row(n_dim as u64))
        }),
{
    lemma_vector_product(Kernel::Q40MvF32, x, w_q, dst, k_dim, n_dim);
}

/// The product with a vector reads Q4_1 blocks, with a thread per output.
pub proof fn lemma_q4_1_mv_f32(x: usize, w_q: usize, dst: usize, k_dim: usize, n_dim: usize)
    ensures
        ({
            let l = launch(q4_1_mv_f32_steps(x, w_q, dst, k_dim, n_dim));
            &&& launches_once(q4_1_mv_f32_steps(x, w_q, dst, k_dim, n_dim))
            &&& l.kernel() is Some
            &&& blocks_read(l.kernel()->0) == Some(Blocks::Q41)
            &&& multiplies_packed(l, x as int, w_q as int, dst as int, 1, k_dim, n_dim)
            &&& l.threads() == Some(one_row(n_dim as u64))
        }),
{
    lemma_vector_product(Kernel::Q41MvF32, x, w_q, dst, k_dim, n_dim);
}

/// The product with a vector reads Q8_0 blocks, with a thread per output.
pub proof fn lemma_q8_0_mv_f32(x: usize, w_q: usize, dst: usize, k_dim: usize, n_dim: usize)
    ensures
        ({
            let l = launch(q8_0_mv_f32_steps(x, w_q, dst, k_dim, n_dim));
            &&& launches_once(q8_0_mv_f32_steps(x, w_q, dst, k_dim, n_dim))
            &&& l.kernel() is Some
            &&& blocks_read(l.kernel()->0) == Some(Blocks::Q80)
            &&& multiplies_packed(l, x as int, w_q as int, dst as int, 1, k_dim, n_dim)
            &&& l.threads() == Some(one_row(n_dim as u64))
        }),
{
    lemma_vector_product(Kernel::Q80MvF32, x, w_q, dst, k_dim, n_dim);
}

/// The product with a vector reads IQ4_NL blocks, with a thread per output.
pub proof fn lemma_iq4_nl_mv_f32(x: usize, w_q: usize, dst: usize, k_dim: usize, n_dim: usize)
    ensures
        ({
            let l = launch(iq4_nl_mv_f32_steps(x, w_q, dst, k_dim, n_dim));
            &&& launches_once(iq4_nl_mv_f32_steps(x, w_q, dst, k_dim, n_dim))
            &&& l.kernel() is Some
            &&& blocks_read(l.kernel()->0) == Some(Blocks::Iq4Nl)
            &&& multiplies_packed(l, x as int, w_q as int, dst as int, 1, k_dim, n_dim)
            &&& l.threads() == Some(one_row(n_dim as u64))
        }),
{
    lemma_vector_product(Kernel::Iq4NlMvF32, x, w_q, dst, k_dim, n_dim);
}

/// The product with a vector reads IQ2_XXS blocks, with a thread per output.
pub proof fn lemma_iq2_xxs_mv_f32(x: usize, w_q: usize, dst: usize, k_dim: usize, n_dim: usize)
    ensures
        ({
            let l = launch(iq2_xxs_mv_f32_steps(x, w_q, dst, k_dim, n_dim));
            &&& launches_once(iq2_xxs_mv_f32_steps(x, w_q, dst, k_dim, n_dim))
            &&& l.kernel() is Some
            &&& blocks_read(l.kernel()->0) == Some(Blocks::Iq2Xxs)
            &&& multiplies_packed(l, x as int, w_q as int, dst as int, 1, k_dim, n_dim)
            &&& l.threads() == Some(one_row(n_dim as u64))
            &&& l.place(6) == Some((Buf::IqGrid, 0u64))
        }),
{
    lemma_vector_product(Kernel::Iq2XxsMvF32, x, w_q, dst, k_dim, n_dim);
}

/// The product with a vector reads IQ2_XS blocks, with a thread per output.
pub proof fn lemma_iq2_xs_mv_f32(x: usize, w_q: usize, dst: usize, k_dim: usize, n_dim: usize)
    ensures
        ({
            let l = launch(iq2_xs_mv_f32_steps(x, w_q, dst, k_dim, n_dim));
            &&& launches_once(iq2_xs_mv_f32_steps(x, w_q, dst, k_dim, n_dim))
            &&& l.kernel() is Some
            &&& blocks_read(l.kernel()->0) == Some(Blocks::Iq2Xs)
            &&& multiplies_packed(l, x as int, w_q as int, dst as int, 1, k_dim, n_dim)
            &&& l.threads() == Some(one_row(n_dim as u64))
            &&& l.place(6) == Some((Buf::IqGrid, 0u64))
        }),
{
    lemma_vector_product(Kernel::Iq2XsMvF32, x, w_q, dst, k_dim, n_dim);
}

/// The product with a vector reads IQ3_XXS blocks, with a thread per output.
pub proof fn lemma_iq3_xxs_mv_f32(x: usize, w_q: usize, dst: usize, k_dim: usize, n_dim: usize)
    ensures
        ({
            let l = launch(iq3_xxs_mv_f32_steps(x, w_q, dst, k_dim, n_dim));
            &&& launches_once(iq3_xxs_mv_f32_steps(x, w_q, dst, k_dim, n_dim))
            &&& l.kernel() is Some
            &&& blocks_read(l.kernel()->0) == Some(Blocks::Iq3Xxs)
            &&& multiplies_packed(l, x as int, w_q as int, dst as int, 1, k_dim, n_dim)
            &&& l.threads() == Some(one_row(n_dim as u64))
            &&& l.place(6) == Some((Buf::IqGrid, 0u64))
        }),
{
    lemma_vector_product(Kernel::Iq3XxsMvF32, x, w_q, dst, k_dim, n_dim);
}

/// The product with a vector reads IQ2_S blocks, with a thread per output.
pub proof fn lemma_iq2_s_mv_f32(x: usize, w_q: usize, dst: usize, k_dim: usize, n_dim: usize)
    ensures
        ({
            let l = launch(iq2_s_mv_f32_steps(x, w_q, dst, k_dim, n_dim));
            &&& launches_once(iq2_s_mv_f32_steps(x, w_q, dst, k_dim, n_dim))
            &&& l.kernel() is Some
            &&& blocks_read(l.kernel()->0) == Some(Blocks::Iq2S)
            &&& multiplies_packed(l, x as int, w_q as int, dst as int, 1, k_dim, n_dim)
            &&& l.threads() == Some(one_row(n_dim as u64))
            &&& l.place(6) == Some((Buf::IqGrid, 0u64))
        }),
{
    lemma_vector_product(Kernel::Iq2SMvF32, x, w_q, dst, k_dim, n_dim);
}

/// The product with a vector reads IQ3_S blocks, with a thread per output.
pub proof fn lemma_iq3_s_mv_f32(x: usize, w_q: usize, dst: usize, k_dim: usize, n_dim: usize)
    ensures
        ({
            let l = launch(iq3_s_mv_f32_steps(x, w_q, dst, k_dim, n_dim));
            &&& launches_once(iq3_s_mv_f32_steps(x, w_q, dst, k_dim, n_dim))
            &&& l.kernel() is Some
            &&& blocks_read(l.kernel()->0) == Some(Blocks::Iq3S)
            &&& multiplies_packed(l, x as int, w_q as int, dst as int, 1, k_dim, n_dim)
            &&& l.threads() == Some(one_row(n_dim as u64))
            &&& l.place(6) == Some((Buf::IqGrid, 0u64))
        }),
{
    lemma_vector_product(Kernel::Iq3SMvF32, x, w_q, dst, k_dim, n_dim);
}

/// The product with a vector reads IQ1_S blocks, with a thread per output.
pub proof fn lemma_iq1_s_mv_f32(x: usize, w_q: usize, dst: usize, k_dim: usize, n_dim: usize)
    ensures
        ({
            let l = launch(iq1_s_mv_f32_steps(x, w_q, dst, k_dim, n_dim));
            &&& launches_once(iq1_s_mv_f32_steps(x, w_q, dst, k_dim, n_dim))
            &&& l.kernel() is Some
            &&& blocks_read(l.kernel()->0) == Some(Blocks::Iq1S)
            &&& multiplies_packed(l, x as int, w_q as int, dst as int, 1, k_dim, n_dim)
            &&& l.threads() == Some(one_row(n_dim as u64))
            &&& l.place(6) == Some((Buf::IqGrid, 0u64))
        }),
{
    lemma_vector_product(Kernel::Iq1SMvF32, x, w_q, dst, k_dim, n_dim);
}

/// The product with a vector reads IQ1_M blocks, with a thread per output.
pub proof fn lemma_iq1_m_mv_f32(x: usize, w_q: usize, dst: usize, k_dim: usize, n_dim: usize)
    ensures
        ({
            let l = launch(iq1_m_mv_f32_steps(x, w_q, dst, k_dim, n_dim));
            &&& launches_once(iq1_m_mv_f32_steps(x, w_q, dst, k_dim, n_dim))
            &&& l.kernel() is Some
            &&& blocks_read(l.kernel()->0) == Some(Blocks::Iq1M)
            &&& multiplies_packed(l, x as int, w_q as int, dst as int, 1, k_dim, n_dim)
            &&& l.threads() == Some(one_row(n_dim as u64))
            &&& l.place(6) == Some((Buf::IqGrid, 0u64))
        }),
{
    lemma_vector_product(Kernel::Iq1MMvF32, x, w_q, dst, k_dim, n_dim);
}

/// A fused gate and up product reads the vector, both matrices and leaves the result of the call, with
/// a thread per output.
pub proof fn lemma_gate_up(
    kernel: Kernel,
    x: usize,
    gate_w: usize,
    up_w: usize,
    dst: usize,
    k_dim: usize,
    n_dim: usize,
)
    ensures
        ({
            let s = gate_up_steps(kernel, x, gate_w, up_w, dst, k_dim, n_dim);
            let l = launch(s);
            &&& launches_once(s)
            &&& l.kernel() == Some(kernel)
            &&& l.place(0) == Some((Buf::Arena, 0u64))
            &&& l.long(1) == Some(x as u64)
            &&& l.long(2) == Some(gate_w as u64)
            &&& l.long(3) == Some(up_w as u64)
            &&& l.long(4) == Some(dst as u64)
            &&& l.word(5) == Some(low_word(k_dim as u64))
            &&& l.word(6) == Some(low_word(n_dim as u64))
            &&& l.threads() == Some(one_row(n_dim as u64))
        }),
{
    broadcast use group_launches;

    assert(launches_once(gate_up_steps(kernel, x, gate_w, up_w, dst, k_dim, n_dim)));
}

/// The scheme of the blocks that a gated kernel reads, and whether it gates with Silu or with Gelu.
pub open spec fn gated_scheme(kernel: Kernel) -> Option<(PackedFormat, bool)> {
    match kernel {
        Kernel::Q4kSwigluMvF32 => Some((PackedFormat::Q4K, true)),
        Kernel::Q50SwigluMvF32 => Some((PackedFormat::Q5, true)),
        Kernel::Q10SwigluMvF32 | Kernel::Q10SwigluMvF32Sg => Some((PackedFormat::Q1, true)),
        Kernel::Q20SwigluMvF32 | Kernel::Q20SwigluMvF32Sg => Some((PackedFormat::Q2, true)),
        Kernel::Q4kGeluMvF32 => Some((PackedFormat::Q4K, false)),
        Kernel::Q50GeluMvF32 => Some((PackedFormat::Q5, false)),
        _ => None,
    }
}

/// The gated products read the blocks of their scheme and gate with their own function.
pub proof fn lemma_gated_products(
    scheme: PackedFormat,
    x: usize,
    gate_w: usize,
    up_w: usize,
    dst: usize,
    k_dim: usize,
    n_dim: usize,
)
    requires
        scheme == PackedFormat::Q4K || scheme == PackedFormat::Q5,
    ensures
        ({
            let silu = fused_mlp_gate_up_swiglu_steps(scheme, x, gate_w, up_w, dst, k_dim, n_dim);
            let gelu = fused_mlp_gate_up_gelu_steps(scheme, x, gate_w, up_w, dst, k_dim, n_dim);
            &&& launches_once(silu) && launches_once(gelu)
            &&& gated_scheme(launch(silu).kernel()->0) == Some((scheme, true))
            &&& gated_scheme(launch(gelu).kernel()->0) == Some((scheme, false))
            &&& silu == gate_up_steps(launch(silu).kernel()->0, x, gate_w, up_w, dst, k_dim, n_dim)
            &&& gelu == gate_up_steps(launch(gelu).kernel()->0, x, gate_w, up_w, dst, k_dim, n_dim)
        }),
{
    lemma_gate_up(Kernel::Q4kSwigluMvF32, x, gate_w, up_w, dst, k_dim, n_dim);
    lemma_gate_up(Kernel::Q50SwigluMvF32, x, gate_w, up_w, dst, k_dim, n_dim);
    lemma_gate_up(Kernel::Q4kGeluMvF32, x, gate_w, up_w, dst, k_dim, n_dim);
    lemma_gate_up(Kernel::Q50GeluMvF32, x, gate_w, up_w, dst, k_dim, n_dim);
}

/// The scheme of the blocks that a kernel with an added vector reads.
pub open spec fn residual_scheme(kernel: Kernel) -> Option<PackedFormat> {
    match kernel {
        Kernel::Q10MvResidualF32 | Kernel::Q10MvResidualF32Sg => Some(PackedFormat::Q1),
        Kernel::Q20MvResidualF32 | Kernel::Q20MvResidualF32Sg => Some(PackedFormat::Q2),
        _ => None,
    }
}

/// Kernels that run by simdgroups.
pub open spec fn by_simdgroups(kernel: Kernel) -> bool {
    kernel == Kernel::Q10SwigluMvF32Sg || kernel == Kernel::Q20SwigluMvF32Sg || kernel
        == Kernel::Q10MvResidualF32Sg || kernel == Kernel::Q20MvResidualF32Sg
}

/// The kernels of the one- and two-bit schemes read the blocks of the scheme that is asked for.
pub proof fn lemma_low_bit_kernels(scheme: PackedFormat, simdgroups: bool)
    requires
        scheme == PackedFormat::Q1 || scheme == PackedFormat::Q2,
    ensures
        gated_scheme(swiglu_mv_kernel(scheme, simdgroups)) == Some((scheme, true)),
        residual_scheme(residual_mv_kernel(scheme, simdgroups)) == Some(scheme),
        by_simdgroups(swiglu_mv_kernel(scheme, simdgroups)) == simdgroups,
        by_simdgroups(residual_mv_kernel(scheme, simdgroups)) == simdgroups,
{
}

} // verus!
