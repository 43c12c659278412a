//! Reductions, scans and softmax: what each kernel is handed and what its launch covers.

use vstd::prelude::*;

use crate::command::{
    Buf, Cmd, Group, HalfFlag, Kernel, bit, min_u64, one_row, plane, reduction_span,
};
use crate::encode::reduce::{
    ReduceOp, cum_scan_steps, cumsum_bwd_steps, cumsum_steps, gather_bwd_steps,
    grouped_matmul_steps, reduce_axes_steps, reduce_code, scatter_add_steps,
    softmax_cross_entropy_backward_steps, softmax_cross_entropy_dense_steps,
    softmax_cross_entropy_with_logits_steps, softmax_steps, suits_simdgroups, topk_steps,
};
use crate::launch::{group_launches, launch, launches, launches_once};

verus! {

/// Running sums along each row. The kernel finds each operand and number of the call at its own
/// slot.
pub proof fn lemma_cumsum(src: usize, dst: usize, rows: u32, cols: u32, exclusive: bool)
    ensures
        ({
            let s = cumsum_steps(src, dst, rows, cols, exclusive);
            &&& launches_once(s)
            &&& launch(s).kernel() == Some(Kernel::CumsumFwd)
            &&& launch(s).place(0) == Some((Buf::Arena, src as u64))
            &&& launch(s).place(1) == Some((Buf::Arena, dst as u64))
            &&& launch(s).word(2) == Some(cols)
            &&& launch(s).word(3) == Some(bit(exclusive))
            &&& launch(s).shape == Cmd::Threads(one_row(rows as u64), Group::Fixed(one_row(1)))
        }),
{
    broadcast use group_launches;

    let s = cumsum_steps(src, dst, rows, cols, exclusive);
    assert(launches(s).len() == 1);
}

/// Running products or maxima along each row. The kernel finds each operand and number of the call
/// at its own slot.
pub proof fn lemma_cum_scan(
    src: usize,
    dst: usize,
    rows: u32,
    cols: u32,
    exclusive: bool,
    is_max: bool,
)
    ensures
        ({
            let s = cum_scan_steps(src, dst, rows, cols, exclusive, is_max);
            &&& launches_once(s)
            &&& launch(s).kernel() == Some(Kernel::CumScan)
            &&& launch(s).place(0) == Some((Buf::Arena, src as u64))
            &&& launch(s).place(1) == Some((Buf::Arena, dst as u64))
            &&& launch(s).word(2) == Some(cols)
            &&& launch(s).word(3) == Some(bit(exclusive))
            &&& launch(s).word(4) == Some(bit(is_max))
            &&& launch(s).shape == Cmd::Threads(one_row(rows as u64), Group::Fixed(one_row(1)))
        }),
{
    broadcast use group_launches;

    let s = cum_scan_steps(src, dst, rows, cols, exclusive, is_max);
    assert(launches(s).len() == 1);
}

/// The gradient of running sums. The kernel finds each operand and number of the call at its own
/// slot.
pub proof fn lemma_cumsum_bwd(dy: usize, dx: usize, rows: u32, cols: u32, exclusive: bool)
    ensures
        ({
            let s = cumsum_bwd_steps(dy, dx, rows, cols, exclusive);
            &&& launches_once(s)
            &&& launch(s).kernel() == Some(Kernel::CumsumBwd)
            &&& launch(s).place(0) == Some((Buf::Arena, dy as u64))
            &&& launch(s).place(1) == Some((Buf::Arena, dx as u64))
            &&& launch(s).word(2) == Some(cols)
            &&& launch(s).word(3) == Some(bit(exclusive))
            &&& launch(s).shape == Cmd::Threads(one_row(rows as u64), Group::Fixed(one_row(1)))
        }),
{
    broadcast use group_launches;

    let s = cumsum_bwd_steps(dy, dx, rows, cols, exclusive);
    assert(launches(s).len() == 1);
}

/// The gradient of a gather: the target is zeroed where it is not empty, then added into. Each
/// kernel finds the operands and numbers of the call at their own slots.
pub proof fn lemma_gather_bwd(
    dy: usize,
    indices: usize,
    dst: usize,
    outer: u32,
    axis_dim: u32,
    num_idx: u32,
    trailing: u32,
)
    ensures
        ({
            let s = gather_bwd_steps(dy, indices, dst, outer, axis_dim, num_idx, trailing);
            &&& outer * axis_dim * trailing > 0 ==> {
                &&& launches(s).len() == 2
                &&& launches(s)[0].kernel() == Some(Kernel::GatherBwdZero)
                &&& launches(s)[0].place(0) == Some((Buf::Arena, dst as u64))
                &&& launches(s)[0].word(1) == Some((outer * axis_dim * trailing) as u32)
                &&& launches(s)[0].shape == Cmd::Threads(
                    one_row((outer * axis_dim * trailing) as u64),
                    Group::Fixed(one_row(256)),
                )
                &&& launches(s)[1].kernel() == Some(Kernel::GatherBwdAcc)
                &&& launches(s)[1].place(0) == Some((Buf::Arena, dy as u64))
                &&& launches(s)[1].place(1) == Some((Buf::Arena, indices as u64))
                &&& launches(s)[1].place(2) == Some((Buf::Arena, dst as u64))
                &&& launches(s)[1].word(3) == Some(outer)
                &&& launches(s)[1].word(4) == Some(axis_dim)
                &&& launches(s)[1].word(5) == Some(num_idx)
                &&& launches(s)[1].word(6) == Some(trailing)
                &&& launches(s)[1].shape == Cmd::Threads(
                    one_row(outer as u64),
                    Group::Fixed(one_row(1)),
                )
            }
            &&& !(outer * axis_dim * trailing > 0) ==> {
                &&& launches_once(s)
                &&& launch(s).kernel() == Some(Kernel::GatherBwdAcc)
                &&& launch(s).place(0) == Some((Buf::Arena, dy as u64))
                &&& launch(s).place(1) == Some((Buf::Arena, indices as u64))
                &&& launch(s).place(2) == Some((Buf::Arena, dst as u64))
                &&& launch(s).word(3) == Some(outer)
                &&& launch(s).word(4) == Some(axis_dim)
                &&& launch(s).word(5) == Some(num_idx)
                &&& launch(s).word(6) == Some(trailing)
                &&& launch(s).shape == Cmd::Threads(one_row(outer as u64), Group::Fixed(one_row(1)))
            }
        }),
{
    broadcast use group_launches;

    let s = gather_bwd_steps(dy, indices, dst, outer, axis_dim, num_idx, trailing);
    if outer * axis_dim * trailing > 0 {
        assert(launches(s).len() == 2);
    } else if !(outer * axis_dim * trailing > 0) {
        assert(launches(s).len() == 1);
    }
}

/// Adds updates into a zeroed target. Each kernel finds the operands and numbers of the call at
/// their own slots.
pub proof fn lemma_scatter_add(
    updates: usize,
    indices: usize,
    dst: usize,
    num_updates: u32,
    out_dim: u32,
    trailing: u32,
)
    ensures
        ({
            let s = scatter_add_steps(updates, indices, dst, num_updates, out_dim, trailing);
            &&& launches(s).len() == 2
            &&& launches(s)[0].kernel() == Some(Kernel::ScatterAddZero)
            &&& launches(s)[0].place(0) == Some((Buf::Arena, dst as u64))
            &&& launches(s)[0].word(1) == Some((out_dim * trailing) as u32)
            &&& launches(s)[0].shape == Cmd::Threads(
                one_row((out_dim * trailing) as u64),
                Group::ExecWidth(Kernel::ScatterAddZero, (out_dim * trailing) as u64),
            )
            &&& launches(s)[1].kernel() == Some(Kernel::ScatterAddAccumulate)
            &&& launches(s)[1].place(0) == Some((Buf::Arena, updates as u64))
            &&& launches(s)[1].place(1) == Some((Buf::Arena, indices as u64))
            &&& launches(s)[1].place(2) == Some((Buf::Arena, dst as u64))
            &&& launches(s)[1].word(3) == Some(trailing)
            &&& launches(s)[1].word(4) == Some(num_updates)
            &&& launches(s)[1].word(5) == Some(out_dim)
            &&& launches(s)[1].shape == Cmd::Threads(
                plane(trailing as u64, num_updates as u64),
                Group::Fixed(plane(min_u64(8, trailing as u64), min_u64(8, num_updates as u64))),
            )
        }),
{
    broadcast use group_launches;

    let s = scatter_add_steps(updates, indices, dst, num_updates, out_dim, trailing);
    assert(launches(s).len() == 2);
}

/// A product of every row with the matrix of its expert. The kernel finds each operand and number
/// of the call at its own slot.
pub proof fn lemma_grouped_matmul(
    input: usize,
    weight: usize,
    expert_idx: usize,
    dst: usize,
    m: u32,
    k_dim: u32,
    n: u32,
    num_experts: u32,
)
    ensures
        ({
            let s = grouped_matmul_steps(input, weight, expert_idx, dst, m, k_dim, n, num_experts);
            &&& launches_once(s)
            &&& launch(s).kernel() == Some(Kernel::GroupedMatmul)
            &&& launch(s).place(0) == Some((Buf::Arena, input as u64))
            &&& launch(s).place(1) == Some((Buf::Arena, weight as u64))
            &&& launch(s).place(2) == Some((Buf::Arena, expert_idx as u64))
            &&& launch(s).place(3) == Some((Buf::Arena, dst as u64))
            &&& launch(s).word(4) == Some(m)
            &&& launch(s).word(5) == Some(k_dim)
            &&& launch(s).word(6) == Some(n)
            &&& launch(s).word(7) == Some(num_experts)
            &&& launch(s).shape == Cmd::Threads(
                plane(n as u64, m as u64),
                Group::Fixed(plane(min_u64(8, n as u64), min_u64(8, m as u64))),
            )
        }),
{
    broadcast use group_launches;

    let s = grouped_matmul_steps(input, weight, expert_idx, dst, m, k_dim, n, num_experts);
    assert(launches(s).len() == 1);
}

/// The largest values along the last axis. The kernel finds each operand and number of the call at
/// its own slot.
pub proof fn lemma_topk(src: usize, dst: usize, outer: u32, axis_dim: u32, k_val: u32)
    ensures
        ({
            let s = topk_steps(src, dst, outer, axis_dim, k_val);
            &&& launches_once(s)
            &&& launch(s).kernel() == Some(Kernel::TopkLastax)
            &&& launch(s).place(0) == Some((Buf::Arena, src as u64))
            &&& launch(s).place(1) == Some((Buf::Arena, dst as u64))
            &&& launch(s).word(2) == Some(axis_dim)
            &&& launch(s).word(3) == Some(k_val)
            &&& launch(s).shape == Cmd::Threads(
                one_row(outer as u64),
                Group::ExecWidth(Kernel::TopkLastax, outer as u64),
            )
        }),
{
    broadcast use group_launches;

    let s = topk_steps(src, dst, outer, axis_dim, k_val);
    assert(launches(s).len() == 1);
}

/// Reduces the middle of three axes. The kernel finds each operand and number of the call at its
/// own slot.
pub proof fn lemma_reduce_axes(
    src: usize,
    dst: usize,
    outer: u32,
    reduced: u32,
    inner: u32,
    op: ReduceOp,
    dt: HalfFlag,
    simd: bool,
)
    ensures
        ({
            let s = reduce_axes_steps(src, dst, outer, reduced, inner, op, dt, simd);
            &&& launches_once(s)
            &&& launch(s).place(0) == Some((Buf::Arena, src as u64))
            &&& launch(s).place(1) == Some((Buf::Arena, dst as u64))
            &&& launch(s).word(2) == Some(reduced)
            &&& launch(s).word(3) == Some(inner)
            &&& launch(s).word(4) == Some(reduce_code(op))
            &&& simd && suits_simdgroups(outer, reduced, inner, op, dt) ==> {
                &&& launch(s).kernel() == Some(Kernel::ReduceAxesSumSimd)
                &&& launch(s).shape == Cmd::Groups(one_row((inner * outer) as u64), one_row(32))
            }
            &&& !(simd && suits_simdgroups(outer, reduced, inner, op, dt)) ==> {
                &&& launch(s).kernel() == Some(
                    if dt == HalfFlag::F32 { Kernel::ReduceAxes } else { Kernel::ReduceAxesH },
                )
                &&& launch(s).shape == Cmd::Threads(
                    plane(inner as u64, outer as u64),
                    Group::Fixed(plane(min_u64(16, inner as u64), min_u64(16, outer as u64))),
                )
            }
        }),
{
    broadcast use group_launches;

    let s = reduce_axes_steps(src, dst, outer, reduced, inner, op, dt, simd);
    if simd && suits_simdgroups(outer, reduced, inner, op, dt) {
        assert(launches(s).len() == 1);
    } else if !(simd && suits_simdgroups(outer, reduced, inner, op, dt)) {
        assert(launches(s).len() == 1);
    }
}

/// Softmax in place, one threadgroup per row. The kernel finds each operand and number of the call
/// at its own slot.
pub proof fn lemma_softmax(data: usize, rows: u32, cols: u32, dt: HalfFlag)
    ensures
        ({
            let s = softmax_steps(data, rows, cols, dt);
            &&& launches_once(s)
            &&& launch(s).kernel() == Some(
                if dt == HalfFlag::F32 { Kernel::SoftmaxLastax } else { Kernel::SoftmaxLastaxH },
            )
            &&& launch(s).place(0) == Some((Buf::Arena, data as u64))
            &&& launch(s).word(1) == Some(cols)
            &&& launch(s).shape == Cmd::Groups(one_row(rows as u64), one_row(reduction_span(cols)))
        }),
{
    broadcast use group_launches;

    let s = softmax_steps(data, rows, cols, dt);
    assert(launches(s).len() == 1);
}

/// Cross entropy against target distributions. The kernel finds each operand and number of the call
/// at its own slot.
pub proof fn lemma_softmax_cross_entropy_dense(
    logits: usize,
    targets: usize,
    dst: usize,
    rows: u32,
    cols: u32,
)
    ensures
        ({
            let s = softmax_cross_entropy_dense_steps(logits, targets, dst, rows, cols);
            &&& launches_once(s)
            &&& launch(s).kernel() == Some(Kernel::SoftmaxCrossEntropyDense)
            &&& launch(s).place(0) == Some((Buf::Arena, logits as u64))
            &&& launch(s).place(1) == Some((Buf::Arena, targets as u64))
            &&& launch(s).place(2) == Some((Buf::Arena, dst as u64))
            &&& launch(s).word(3) == Some(cols)
            &&& launch(s).shape == Cmd::Groups(one_row(rows as u64), one_row(reduction_span(cols)))
        }),
{
    broadcast use group_launches;

    let s = softmax_cross_entropy_dense_steps(logits, targets, dst, rows, cols);
    assert(launches(s).len() == 1);
}

/// Cross entropy against labels. The kernel finds each operand and number of the call at its own
/// slot.
pub proof fn lemma_softmax_cross_entropy_with_logits(
    logits: usize,
    labels: usize,
    dst: usize,
    rows: u32,
    cols: u32,
)
    ensures
        ({
            let s = softmax_cross_entropy_with_logits_steps(logits, labels, dst, rows, cols);
            &&& launches_once(s)
            &&& launch(s).kernel() == Some(Kernel::SoftmaxCrossEntropyWithLogits)
            &&& launch(s).place(0) == Some((Buf::Arena, logits as u64))
            &&& launch(s).place(1) == Some((Buf::Arena, labels as u64))
            &&& launch(s).place(2) == Some((Buf::Arena, dst as u64))
            &&& launch(s).word(3) == Some(cols)
            &&& launch(s).shape == Cmd::Groups(one_row(rows as u64), one_row(reduction_span(cols)))
        }),
{
    broadcast use group_launches;

    let s = softmax_cross_entropy_with_logits_steps(logits, labels, dst, rows, cols);
    assert(launches(s).len() == 1);
}

/// The gradient of cross entropy. The kernel finds each operand and number of the call at its own
/// slot.
pub proof fn lemma_softmax_cross_entropy_backward(
    logits: usize,
    labels: usize,
    d_loss: usize,
    dlogits: usize,
    rows: u32,
    cols: u32,
)
    ensures
        ({
            let s = softmax_cross_entropy_backward_steps(
                logits,
                labels,
                d_loss,
                dlogits,
                rows,
                cols,
            );
            &&& launches_once(s)
            &&& launch(s).kernel() == Some(Kernel::SoftmaxCrossEntropyBackward)
            &&& launch(s).place(0) == Some((Buf::Arena, logits as u64))
            &&& launch(s).place(1) == Some((Buf::Arena, labels as u64))
            &&& launch(s).place(2) == Some((Buf::Arena, d_loss as u64))
            &&& launch(s).place(3) == Some((Buf::Arena, dlogits as u64))
            &&& launch(s).word(4) == Some(cols)
            &&& launch(s).shape == Cmd::Groups(one_row(rows as u64), one_row(reduction_span(cols)))
        }),
{
    broadcast use group_launches;

    let s = softmax_cross_entropy_backward_steps(logits, labels, d_loss, dlogits, rows, cols);
    assert(launches(s).len() == 1);
}

} // verus!
