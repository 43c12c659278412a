//! Broadcast operators, gradients and regions: what each kernel is handed and what its launch covers.

use vstd::prelude::*;

use crate::command::{
    Buf, Cmd, Group, HalfFlag, Kernel, Size, f32_index, max_u64, min_u64, one_row, plane,
};
use crate::encode::elementwise::{
    activation_backward_steps, arena_cast_steps, batch_elementwise_region_steps, bias_add_steps,
    binary_broadcast_1ax_steps, binary_broadcast_rank2_steps, binary_broadcast_rhs_col_steps,
    binary_broadcast_rhs_row_steps, binary_broadcast_rhs_scalar_steps,
    complex_norm_sq_backward_steps, complex_norm_sq_steps, conjugate_c64_steps,
    elementwise_region_steps, fake_quantize_fixed_steps, fake_quantize_perbatch_steps, fma_steps,
    gelu_approx_out_steps, in_fours, relu_backward_steps, spline_activation_steps,
};
use crate::launch::{group_launches, launch, launches, launches_once};

verus! {

/// Runs a given conversion kernel over the arena. The kernel finds each operand and number of the
/// call at its own slot.
pub proof fn lemma_arena_cast(pipeline: Kernel, src_off: usize, dst_off: usize, len: u32)
    ensures
        ({
            let s = arena_cast_steps(pipeline, src_off, dst_off, len);
            &&& launches_once(s)
            &&& launch(s).kernel() == Some(pipeline)
            &&& launch(s).place(0) == Some((Buf::Arena, src_off as u64))
            &&& launch(s).place(1) == Some((Buf::Arena, dst_off as u64))
            &&& launch(s).word(2) == Some(len)
            &&& launch(s).shape == Cmd::Threads(
                one_row(len as u64),
                Group::Fixed(one_row(max_u64(min_u64(256, len as u64), 1))),
            )
        }),
{
    broadcast use group_launches;

    let s = arena_cast_steps(pipeline, src_off, dst_off, len);
    assert(launches(s).len() == 1);
}

/// Adds a bias to every row. The kernel finds each operand and number of the call at its own slot.
pub proof fn lemma_bias_add(
    data_buf: Buf,
    data_off: usize,
    bias_buf: Buf,
    bias_off: usize,
    m: u32,
    n: u32,
    dt: HalfFlag,
)
    ensures
        ({
            let s = bias_add_steps(data_buf, data_off, bias_buf, bias_off, m, n, dt);
            &&& launches_once(s)
            &&& launch(s).kernel() == Some(
                if dt == HalfFlag::F32 { Kernel::BiasAdd } else { Kernel::BiasAddH },
            )
            &&& launch(s).place(0) == Some((data_buf, data_off as u64))
            &&& launch(s).place(1) == Some((bias_buf, bias_off as u64))
            &&& launch(s).word(2) == Some(m)
            &&& launch(s).word(3) == Some(n)
            &&& launch(s).shape == Cmd::Threads(
                plane(n as u64, m as u64),
                Group::Fixed(plane(min_u64(16, n as u64), min_u64(16, m as u64))),
            )
        }),
{
    broadcast use group_launches;

    let s = bias_add_steps(data_buf, data_off, bias_buf, bias_off, m, n, dt);
    assert(launches(s).len() == 1);
}

/// Approximate GELU from one tensor into another, on groups of four. The kernel finds each operand
/// and number of the call at its own slot.
pub proof fn lemma_gelu_approx_out(src: usize, dst: usize, len: u32)
    ensures
        ({
            let s = gelu_approx_out_steps(src, dst, len);
            &&& launches_once(s)
            &&& launch(s).kernel() == Some(Kernel::GeluApproxOut4)
            &&& launch(s).place(0) == Some((Buf::Arena, 0u64))
            &&& launch(s).long(1) == Some(src as u64)
            &&& launch(s).long(2) == Some(dst as u64)
            &&& launch(s).word(3) == Some(len / 4)
            &&& launch(s).shape == Cmd::Threads(
                one_row((len / 4) as u64),
                Group::ExecWidth(Kernel::GeluApproxOut4, (len / 4) as u64),
            )
        }),
{
    broadcast use group_launches;

    let s = gelu_approx_out_steps(src, dst, len);
    assert(launches(s).len() == 1);
}

/// A binary operator whose one side repeats along a single middle axis. The kernel finds each
/// operand and number of the call at its own slot.
pub proof fn lemma_binary_broadcast_1ax(
    lhs: usize,
    rhs: usize,
    dst: usize,
    rows: u32,
    cols: u32,
    mid: u32,
    op: u32,
    rhs_is_broadcast: bool,
)
    ensures
        ({
            let s = binary_broadcast_1ax_steps(lhs, rhs, dst, rows, cols, mid, op, rhs_is_broadcast);
            &&& launches_once(s)
            &&& launch(s).place(0) == Some(
                (Buf::Arena, (if rhs_is_broadcast { lhs } else { rhs }) as u64),
            )
            &&& launch(s).place(1) == Some(
                (Buf::Arena, (if rhs_is_broadcast { rhs } else { lhs }) as u64),
            )
            &&& launch(s).place(2) == Some((Buf::Arena, dst as u64))
            &&& launch(s).word(3) == Some(rows)
            &&& launch(s).word(5) == Some(mid)
            &&& launch(s).word(6) == Some(op)
            &&& in_fours(cols) ==> {
                &&& launch(s).kernel() == Some(Kernel::BinaryBroadcast1ax4)
                &&& launch(s).word(4) == Some(cols / 4)
                &&& launch(s).shape == Cmd::Threads(
                    plane((cols / 4) as u64, rows as u64),
                    Group::Fixed(plane(min_u64(64, (cols / 4) as u64), min_u64(4, rows as u64))),
                )
            }
            &&& !(in_fours(cols)) ==> {
                &&& launch(s).kernel() == Some(Kernel::BinaryBroadcast1axF32)
                &&& launch(s).word(4) == Some(cols)
                &&& launch(s).shape == Cmd::Threads(
                    plane((cols) as u64, rows as u64),
                    Group::Fixed(plane(min_u64(32, (cols) as u64), min_u64(8, rows as u64))),
                )
            }
        }),
{
    broadcast use group_launches;

    let s = binary_broadcast_1ax_steps(lhs, rhs, dst, rows, cols, mid, op, rhs_is_broadcast);
    if in_fours(cols) {
        assert(launches(s).len() == 1);
    } else if !(in_fours(cols)) {
        assert(launches(s).len() == 1);
    }
}

/// A binary operator whose one side is a single value. The kernel finds each operand and number of
/// the call at its own slot.
pub proof fn lemma_binary_broadcast_rhs_scalar(
    lhs: usize,
    rhs: usize,
    dst: usize,
    len: u32,
    op: u32,
    rhs_is_scalar: bool,
)
    ensures
        ({
            let s = binary_broadcast_rhs_scalar_steps(lhs, rhs, dst, len, op, rhs_is_scalar);
            &&& launches_once(s)
            &&& launch(s).place(0) == Some((Buf::Arena, 0u64))
            &&& launch(s).long(1) == Some((if rhs_is_scalar { lhs } else { rhs }) as u64)
            &&& launch(s).long(2) == Some((if rhs_is_scalar { rhs } else { lhs }) as u64)
            &&& launch(s).long(3) == Some(dst as u64)
            &&& launch(s).word(5) == Some(op)
            &&& in_fours(len) ==> {
                &&& launch(s).kernel() == Some(Kernel::BinaryBroadcastRhsScalar4)
                &&& launch(s).word(4) == Some(len / 4)
                &&& launch(s).shape == Cmd::Threads(
                    one_row((len / 4) as u64),
                    Group::ExecWidth(Kernel::BinaryBroadcastRhsScalar4, (len / 4) as u64),
                )
            }
            &&& !(in_fours(len)) ==> {
                &&& launch(s).kernel() == Some(Kernel::BinaryBroadcastRhsScalarF32)
                &&& launch(s).word(4) == Some(len)
                &&& launch(s).shape == Cmd::Threads(
                    one_row((len) as u64),
                    Group::ExecWidth(Kernel::BinaryBroadcastRhsScalarF32, (len) as u64),
                )
            }
        }),
{
    broadcast use group_launches;

    let s = binary_broadcast_rhs_scalar_steps(lhs, rhs, dst, len, op, rhs_is_scalar);
    if in_fours(len) {
        assert(launches(s).len() == 1);
    } else if !(in_fours(len)) {
        assert(launches(s).len() == 1);
    }
}

/// A binary operator whose one side has one value per row. The kernel finds each operand and number
/// of the call at its own slot.
pub proof fn lemma_binary_broadcast_rhs_row(
    lhs: usize,
    rhs: usize,
    dst: usize,
    rows: u32,
    cols: u32,
    op: u32,
    rhs_is_broadcast: bool,
)
    ensures
        ({
            let s = binary_broadcast_rhs_row_steps(lhs, rhs, dst, rows, cols, op, rhs_is_broadcast);
            &&& launches_once(s)
            &&& launch(s).place(0) == Some(
                (Buf::Arena, (if rhs_is_broadcast { lhs } else { rhs }) as u64),
            )
            &&& launch(s).place(1) == Some(
                (Buf::Arena, (if rhs_is_broadcast { rhs } else { lhs }) as u64),
            )
            &&& launch(s).place(2) == Some((Buf::Arena, dst as u64))
            &&& launch(s).word(3) == Some(rows)
            &&& launch(s).word(5) == Some(op)
            &&& in_fours(cols) ==> {
                &&& launch(s).kernel() == Some(Kernel::BinaryBroadcastRhsRow4)
                &&& launch(s).word(4) == Some(cols / 4)
                &&& launch(s).shape == Cmd::Threads(
                    plane((cols / 4) as u64, rows as u64),
                    Group::Fixed(plane(min_u64(64, (cols / 4) as u64), min_u64(4, rows as u64))),
                )
            }
            &&& !(in_fours(cols)) ==> {
                &&& launch(s).kernel() == Some(Kernel::BinaryBroadcastRhsRowF32)
                &&& launch(s).word(4) == Some(cols)
                &&& launch(s).shape == Cmd::Threads(
                    plane((cols) as u64, rows as u64),
                    Group::Fixed(plane(min_u64(32, (cols) as u64), min_u64(8, rows as u64))),
                )
            }
        }),
{
    broadcast use group_launches;

    let s = binary_broadcast_rhs_row_steps(lhs, rhs, dst, rows, cols, op, rhs_is_broadcast);
    if in_fours(cols) {
        assert(launches(s).len() == 1);
    } else if !(in_fours(cols)) {
        assert(launches(s).len() == 1);
    }
}

/// A binary operator whose one side has one value per column. The kernel finds each operand and
/// number of the call at its own slot.
pub proof fn lemma_binary_broadcast_rhs_col(
    lhs: usize,
    rhs: usize,
    dst: usize,
    rows: u32,
    cols: u32,
    op: u32,
    rhs_is_broadcast: bool,
)
    ensures
        ({
            let s = binary_broadcast_rhs_col_steps(lhs, rhs, dst, rows, cols, op, rhs_is_broadcast);
            &&& launches_once(s)
            &&& launch(s).place(0) == Some(
                (Buf::Arena, (if rhs_is_broadcast { lhs } else { rhs }) as u64),
            )
            &&& launch(s).place(1) == Some(
                (Buf::Arena, (if rhs_is_broadcast { rhs } else { lhs }) as u64),
            )
            &&& launch(s).place(2) == Some((Buf::Arena, dst as u64))
            &&& launch(s).word(3) == Some(rows)
            &&& launch(s).word(5) == Some(op)
            &&& in_fours(cols) ==> {
                &&& launch(s).kernel() == Some(Kernel::BinaryBroadcastRhsCol4)
                &&& launch(s).word(4) == Some(cols / 4)
                &&& launch(s).shape == Cmd::Threads(
                    plane((cols / 4) as u64, rows as u64),
                    Group::Fixed(plane(min_u64(64, (cols / 4) as u64), min_u64(4, rows as u64))),
                )
            }
            &&& !(in_fours(cols)) ==> {
                &&& launch(s).kernel() == Some(Kernel::BinaryBroadcastRhsColF32)
                &&& launch(s).word(4) == Some(cols)
                &&& launch(s).shape == Cmd::Threads(
                    plane((cols) as u64, rows as u64),
                    Group::Fixed(plane(min_u64(32, (cols) as u64), min_u64(8, rows as u64))),
                )
            }
        }),
{
    broadcast use group_launches;

    let s = binary_broadcast_rhs_col_steps(lhs, rhs, dst, rows, cols, op, rhs_is_broadcast);
    if in_fours(cols) {
        assert(launches(s).len() == 1);
    } else if !(in_fours(cols)) {
        assert(launches(s).len() == 1);
    }
}

/// A binary operator on two axes with strides of their own for each side. The kernel finds each
/// operand and number of the call at its own slot.
pub proof fn lemma_binary_broadcast_rank2(
    lhs: usize,
    rhs: usize,
    dst: usize,
    len: u32,
    dim0: u32,
    dim1: u32,
    lhs_stride0: u32,
    lhs_stride1: u32,
    rhs_stride0: u32,
    rhs_stride1: u32,
    op: u32,
)
    ensures
        ({
            let s = binary_broadcast_rank2_steps(
                lhs,
                rhs,
                dst,
                len,
                dim0,
                dim1,
                lhs_stride0,
                lhs_stride1,
                rhs_stride0,
                rhs_stride1,
                op,
            );
            &&& launches_once(s)
            &&& launch(s).place(0) == Some((Buf::Arena, lhs as u64))
            &&& launch(s).place(1) == Some((Buf::Arena, rhs as u64))
            &&& launch(s).place(2) == Some((Buf::Arena, dst as u64))
            &&& launch(s).word(4) == Some(dim0)
            &&& launch(s).word(5) == Some(dim1)
            &&& launch(s).word(6) == Some(lhs_stride0)
            &&& launch(s).word(7) == Some(lhs_stride1)
            &&& launch(s).word(8) == Some(rhs_stride0)
            &&& launch(s).word(9) == Some(rhs_stride1)
            &&& launch(s).word(10) == Some(op)
            &&& in_fours(len) && dim1 % 4 == 0 && lhs_stride1 == 1 && rhs_stride1 == 1 ==> {
                &&& launch(s).kernel() == Some(Kernel::BinaryBroadcastRank24)
                &&& launch(s).word(3) == Some(len / 4)
                &&& launch(s).shape == Cmd::Threads(
                    one_row((len / 4) as u64),
                    Group::ExecWidth(Kernel::BinaryBroadcastRank24, (len / 4) as u64),
                )
            }
            &&& !(in_fours(len) && dim1 % 4 == 0 && lhs_stride1 == 1 && rhs_stride1 == 1) ==> {
                &&& launch(s).kernel() == Some(Kernel::BinaryBroadcastRank2F32)
                &&& launch(s).word(3) == Some(len)
                &&& launch(s).shape == Cmd::Threads(
                    one_row((len) as u64),
                    Group::ExecWidth(Kernel::BinaryBroadcastRank2F32, (len) as u64),
                )
            }
        }),
{
    broadcast use group_launches;

    let s = binary_broadcast_rank2_steps(
        lhs,
        rhs,
        dst,
        len,
        dim0,
        dim1,
        lhs_stride0,
        lhs_stride1,
        rhs_stride0,
        rhs_stride1,
        op,
    );
    if in_fours(len) && dim1 % 4 == 0 && lhs_stride1 == 1 && rhs_stride1 == 1 {
        assert(launches(s).len() == 1);
    } else if !(in_fours(len) && dim1 % 4 == 0 && lhs_stride1 == 1 && rhs_stride1 == 1) {
        assert(launches(s).len() == 1);
    }
}

/// `a * b + c`. The kernel finds each operand and number of the call at its own slot.
pub proof fn lemma_fma(a: usize, b: usize, c: usize, dst: usize, len: u32)
    ensures
        ({
            let s = fma_steps(a, b, c, dst, len);
            &&& launches_once(s)
            &&& launch(s).kernel() == Some(Kernel::ElemFma)
            &&& launch(s).place(0) == Some((Buf::Arena, a as u64))
            &&& launch(s).place(1) == Some((Buf::Arena, b as u64))
            &&& launch(s).place(2) == Some((Buf::Arena, c as u64))
            &&& launch(s).place(3) == Some((Buf::Arena, dst as u64))
            &&& launch(s).word(4) == Some(len)
            &&& launch(s).shape == Cmd::Threads(
                one_row(len as u64),
                Group::ExecWidth(Kernel::ElemFma, len as u64),
            )
        }),
{
    broadcast use group_launches;

    let s = fma_steps(a, b, c, dst, len);
    assert(launches(s).len() == 1);
}

/// The gradient of ReLU. The kernel finds each operand and number of the call at its own slot.
pub proof fn lemma_relu_backward(x: usize, dy: usize, dx: usize, len: u32)
    ensures
        ({
            let s = relu_backward_steps(x, dy, dx, len);
            &&& launches_once(s)
            &&& launch(s).kernel() == Some(Kernel::ReluBackward)
            &&& launch(s).place(0) == Some((Buf::Arena, x as u64))
            &&& launch(s).place(1) == Some((Buf::Arena, dy as u64))
            &&& launch(s).place(2) == Some((Buf::Arena, dx as u64))
            &&& launch(s).word(3) == Some(len)
            &&& launch(s).shape == Cmd::Threads(
                one_row(len as u64),
                Group::ExecWidth(Kernel::ReluBackward, len as u64),
            )
        }),
{
    broadcast use group_launches;

    let s = relu_backward_steps(x, dy, dx, len);
    assert(launches(s).len() == 1);
}

/// The gradient of an activation, given by its number. The kernel finds each operand and number of
/// the call at its own slot.
pub proof fn lemma_activation_backward(x: usize, dy: usize, dx: usize, len: u32, op: u32)
    ensures
        ({
            let s = activation_backward_steps(x, dy, dx, len, op);
            &&& launches_once(s)
            &&& launch(s).kernel() == Some(Kernel::ActivationBackward)
            &&& launch(s).place(0) == Some((Buf::Arena, x as u64))
            &&& launch(s).place(1) == Some((Buf::Arena, dy as u64))
            &&& launch(s).place(2) == Some((Buf::Arena, dx as u64))
            &&& launch(s).word(3) == Some(len)
            &&& launch(s).word(4) == Some(op)
            &&& launch(s).shape == Cmd::Threads(
                one_row(len as u64),
                Group::ExecWidth(Kernel::ActivationBackward, len as u64),
            )
        }),
{
    broadcast use group_launches;

    let s = activation_backward_steps(x, dy, dx, len, op);
    assert(launches(s).len() == 1);
}

/// Squared norms of complex numbers. The kernel finds each operand and number of the call at its
/// own slot.
pub proof fn lemma_complex_norm_sq(src: usize, dst: usize, len: u32)
    ensures
        ({
            let s = complex_norm_sq_steps(src, dst, len);
            &&& launches_once(s)
            &&& launch(s).kernel() == Some(Kernel::ComplexNormSq)
            &&& launch(s).place(0) == Some((Buf::Arena, src as u64))
            &&& launch(s).place(1) == Some((Buf::Arena, dst as u64))
            &&& launch(s).word(2) == Some(len)
            &&& launch(s).shape == Cmd::Threads(
                one_row(len as u64),
                Group::ExecWidth(Kernel::ComplexNormSq, len as u64),
            )
        }),
{
    broadcast use group_launches;

    let s = complex_norm_sq_steps(src, dst, len);
    assert(launches(s).len() == 1);
}

/// The gradient of the squared norm. The kernel finds each operand and number of the call at its
/// own slot.
pub proof fn lemma_complex_norm_sq_backward(z: usize, g: usize, dz: usize, len: u32)
    ensures
        ({
            let s = complex_norm_sq_backward_steps(z, g, dz, len);
            &&& launches_once(s)
            &&& launch(s).kernel() == Some(Kernel::ComplexNormSqBackward)
            &&& launch(s).place(0) == Some((Buf::Arena, z as u64))
            &&& launch(s).place(1) == Some((Buf::Arena, g as u64))
            &&& launch(s).place(2) == Some((Buf::Arena, dz as u64))
            &&& launch(s).word(3) == Some(len)
            &&& launch(s).shape == Cmd::Threads(
                one_row(len as u64),
                Group::ExecWidth(Kernel::ComplexNormSqBackward, len as u64),
            )
        }),
{
    broadcast use group_launches;

    let s = complex_norm_sq_backward_steps(z, g, dz, len);
    assert(launches(s).len() == 1);
}

/// Complex conjugates. The kernel finds each operand and number of the call at its own slot.
pub proof fn lemma_conjugate_c64(src: usize, dst: usize, len: u32)
    ensures
        ({
            let s = conjugate_c64_steps(src, dst, len);
            &&& launches_once(s)
            &&& launch(s).kernel() == Some(Kernel::ConjugateC64)
            &&& launch(s).place(0) == Some((Buf::Arena, src as u64))
            &&& launch(s).place(1) == Some((Buf::Arena, dst as u64))
            &&& launch(s).word(2) == Some(len)
            &&& launch(s).shape == Cmd::Threads(
                one_row(len as u64),
                Group::ExecWidth(Kernel::ConjugateC64, len as u64),
            )
        }),
{
    broadcast use group_launches;

    let s = conjugate_c64_steps(src, dst, len);
    assert(launches(s).len() == 1);
}

/// Rounds to a quantization grid with given scales; nothing for no elements. Each kernel finds the
/// operands and numbers of the call at their own slots.
pub proof fn lemma_fake_quantize_fixed(
    src: usize,
    scale: usize,
    dst: usize,
    n: u32,
    chan_dim: u32,
    inner: u32,
    q_max: u32,
)
    ensures
        ({
            let s = fake_quantize_fixed_steps(src, scale, dst, n, chan_dim, inner, q_max);
            &&& n == 0 ==> {
                &&& launches(s).len() == 0
            }
            &&& !(n == 0) ==> {
                &&& launches_once(s)
                &&& launch(s).kernel() == Some(Kernel::FakeQuantizeFixed)
                &&& launch(s).place(0) == Some((Buf::Arena, src as u64))
                &&& launch(s).place(1) == Some((Buf::Arena, scale as u64))
                &&& launch(s).place(2) == Some((Buf::Arena, dst as u64))
                &&& launch(s).arg(3) == Some(Cmd::U32x4(3, n, chan_dim, inner, q_max))
                &&& launch(s).shape == Cmd::Threads(
                    one_row(n as u64),
                    Group::ExecWidth(Kernel::FakeQuantizeFixed, n as u64),
                )
            }
        }),
{
    broadcast use group_launches;

    let s = fake_quantize_fixed_steps(src, scale, dst, n, chan_dim, inner, q_max);
    if n == 0 {
        assert(launches(s).len() == 0);
    } else if !(n == 0) {
        assert(launches(s).len() == 1);
    }
}

/// Rounds to a quantization grid with scales from the data; nothing for no elements. Each kernel
/// finds the operands and numbers of the call at their own slots.
pub proof fn lemma_fake_quantize_perbatch(
    src: usize,
    dst: usize,
    n: u32,
    chan_dim: u32,
    inner: u32,
    q_max: u32,
)
    ensures
        ({
            let s = fake_quantize_perbatch_steps(src, dst, n, chan_dim, inner, q_max);
            &&& n == 0 || chan_dim == 0 ==> {
                &&& launches(s).len() == 0
            }
            &&& !(n == 0 || chan_dim == 0) ==> {
                &&& launches_once(s)
                &&& launch(s).kernel() == Some(Kernel::FakeQuantizePerbatch)
                &&& launch(s).place(0) == Some((Buf::Arena, src as u64))
                &&& launch(s).place(1) == Some((Buf::Arena, dst as u64))
                &&& launch(s).arg(2) == Some(Cmd::U32x4(2, n, chan_dim, inner, q_max))
                &&& launch(s).shape == Cmd::Threads(
                    one_row(chan_dim as u64),
                    Group::ExecWidth(Kernel::FakeQuantizePerbatch, chan_dim as u64),
                )
            }
        }),
{
    broadcast use group_launches;

    let s = fake_quantize_perbatch_steps(src, dst, n, chan_dim, inner, q_max);
    if n == 0 || chan_dim == 0 {
        assert(launches(s).len() == 0);
    } else if !(n == 0 || chan_dim == 0) {
        assert(launches(s).len() == 1);
    }
}

/// A chain of elementwise steps on up to sixteen inputs. The kernel finds each operand and number
/// of the call at its own slot.
pub proof fn lemma_elementwise_region(
    len: u32,
    num_inputs: u32,
    num_steps: u32,
    dst: usize,
    input_offs: Seq<u32>,
    chain: Seq<u32>,
    scalar_input_mask: u32,
    input_modulus: Seq<u32>,
    prologue: u32,
    out_n: u32,
    out_c: u32,
    out_h: u32,
    out_w: u32,
    prologue_input: u32,
)
    ensures
        ({
            let s = elementwise_region_steps(
                len,
                num_inputs,
                num_steps,
                dst,
                input_offs,
                chain,
                scalar_input_mask,
                input_modulus,
                prologue,
                out_n,
                out_c,
                out_h,
                out_w,
                prologue_input,
            );
            &&& launches_once(s)
            &&& launch(s).kernel() == Some(Kernel::ElementwiseRegion)
            &&& launch(s).place(0) == Some((Buf::Arena, 0u64))
            &&& launch(s).word(1) == Some(len)
            &&& launch(s).word(2) == Some(num_inputs)
            &&& launch(s).word(3) == Some(num_steps)
            &&& launch(s).word(4) == Some(f32_index(dst))
            &&& launch(s).words(5) == Some(input_offs)
            &&& launch(s).words(6) == Some(chain)
            &&& launch(s).word(7) == Some(scalar_input_mask)
            &&& launch(s).words(8) == Some(input_modulus)
            &&& launch(s).word(9) == Some(prologue)
            &&& launch(s).word(10) == Some(out_n)
            &&& launch(s).word(11) == Some(out_c)
            &&& launch(s).word(12) == Some(out_h)
            &&& launch(s).word(13) == Some(out_w)
            &&& launch(s).word(14) == Some(prologue_input)
            &&& prologue != 0 && out_h > 0 && out_w > 0 ==> {
                &&& launch(s).shape == Cmd::Threads(
                    Size {
                        width: out_w as u64, height: out_h as u64, depth: (out_n * out_c) as u64,
                    },
                    Group::Fixed(plane(min_u64(8, out_w as u64), min_u64(8, out_h as u64))),
                )
            }
            &&& !(prologue != 0 && out_h > 0 && out_w > 0) ==> {
                &&& launch(s).shape == Cmd::Threads(
                    one_row(len as u64),
                    Group::ExecWidth(Kernel::ElementwiseRegion, len as u64),
                )
            }
        }),
{
    broadcast use group_launches;

    let s = elementwise_region_steps(
        len,
        num_inputs,
        num_steps,
        dst,
        input_offs,
        chain,
        scalar_input_mask,
        input_modulus,
        prologue,
        out_n,
        out_c,
        out_h,
        out_w,
        prologue_input,
    );
    if prologue != 0 && out_h > 0 && out_w > 0 {
        assert(launches(s).len() == 1);
    } else if !(prologue != 0 && out_h > 0 && out_w > 0) {
        assert(launches(s).len() == 1);
    }
}

/// The same chain on every slice of a batch. The kernel finds each operand and number of the call
/// at its own slot.
pub proof fn lemma_batch_elementwise_region(
    slice_len: u32,
    num_batch: u32,
    num_steps: u32,
    base_dst: usize,
    slice_elems: u32,
    batch_input_offs: Seq<u32>,
    chain: Seq<u32>,
    scalar_input_mask: u32,
    input_modulus: Seq<u32>,
)
    ensures
        ({
            let s = batch_elementwise_region_steps(
                slice_len,
                num_batch,
                num_steps,
                base_dst,
                slice_elems,
                batch_input_offs,
                chain,
                scalar_input_mask,
                input_modulus,
            );
            &&& launches_once(s)
            &&& launch(s).kernel() == Some(Kernel::BatchElementwiseRegion)
            &&& launch(s).place(0) == Some((Buf::Arena, 0u64))
            &&& launch(s).word(1) == Some(slice_len)
            &&& launch(s).word(2) == Some(num_batch)
            &&& launch(s).word(3) == Some(num_steps)
            &&& launch(s).word(4) == Some(f32_index(base_dst))
            &&& launch(s).word(5) == Some(slice_elems)
            &&& launch(s).words(6) == Some(batch_input_offs)
            &&& launch(s).words(7) == Some(chain)
            &&& launch(s).word(8) == Some(scalar_input_mask)
            &&& launch(s).words(9) == Some(input_modulus)
            &&& launch(s).shape == Cmd::Threads(
                Size { width: slice_len as u64, height: 1, depth: num_batch as u64 },
                Group::ExecWidth(Kernel::BatchElementwiseRegion, slice_len as u64),
            )
        }),
{
    broadcast use group_launches;

    let s = batch_elementwise_region_steps(
        slice_len,
        num_batch,
        num_steps,
        base_dst,
        slice_elems,
        batch_input_offs,
        chain,
        scalar_input_mask,
        input_modulus,
    );
    assert(launches(s).len() == 1);
}

/// A spline activation with coefficients per channel. The kernel finds each operand and number of
/// the call at its own slot.
pub proof fn lemma_spline_activation(
    x: usize,
    coeff: usize,
    dst: usize,
    total: u32,
    channels: u32,
    num_basis: u32,
    grid_min: u32,
    grid_max: u32,
)
    ensures
        ({
            let s = spline_activation_steps(
                x,
                coeff,
                dst,
                total,
                channels,
                num_basis,
                grid_min,
                grid_max,
            );
            &&& launches_once(s)
            &&& launch(s).kernel() == Some(Kernel::SplineActivation)
            &&& launch(s).place(0) == Some((Buf::Arena, 0u64))
            &&& launch(s).long(1) == Some(x as u64)
            &&& launch(s).long(2) == Some(coeff as u64)
            &&& launch(s).long(3) == Some(dst as u64)
            &&& launch(s).word(4) == Some(total)
            &&& launch(s).word(5) == Some(channels)
            &&& launch(s).word(6) == Some(num_basis)
            &&& launch(s).word(7) == Some(grid_min)
            &&& launch(s).word(8) == Some(grid_max)
            &&& launch(s).shape == Cmd::Threads(
                one_row(total as u64),
                Group::Fixed(one_row(min_u64(256, total as u64))),
            )
        }),
{
    broadcast use group_launches;

    let s = spline_activation_steps(x, coeff, dst, total, channels, num_basis, grid_min, grid_max);
    assert(launches(s).len() == 1);
}

} // verus!
