//! Reductions, scans and scatters.

use vstd::prelude::*;

use crate::command::{
    bit, emit, flag, least, min_u64, one_row, plane, plane_of, reduction_span, reduction_width, row,
    Buf, Cmd, Group, HalfFlag, Kernel,
};

verus! {

/// Reductions.
#[derive(Clone, Copy, Debug, PartialEq, Eq, Structural)]
pub enum ReduceOp {
    Sum,
    Mean,
    Max,
    Min,
    Prod,
}

/// The number of a reduction.
pub open spec fn reduce_code(op: ReduceOp) -> u32 {
    match op {
        ReduceOp::Sum => 0,
        ReduceOp::Mean => 1,
        ReduceOp::Max => 2,
        ReduceOp::Min => 3,
        ReduceOp::Prod => 4,
    }
}

pub fn reduce_number(op: ReduceOp) -> (r: u32)
    ensures
        r == reduce_code(op),
{
    match op {
        ReduceOp::Sum => 0,
        ReduceOp::Mean => 1,
        ReduceOp::Max => 2,
        ReduceOp::Min => 3,
        ReduceOp::Prod => 4,
    }
}

/// The steps of `encode_cumsum`.
pub open spec fn cumsum_steps(
    src: usize,
    dst: usize,
    rows: u32,
    cols: u32,
    exclusive: bool,
) -> Seq<Cmd> {
    seq![
        Cmd::Pipeline(Kernel::CumsumFwd),
        Cmd::Buffer(0, Buf::Arena, src as u64),
        Cmd::Buffer(1, Buf::Arena, dst as u64),
        Cmd::U32(2, cols),
        Cmd::U32(3, bit(exclusive)),
        Cmd::Threads(one_row(rows as u64), Group::Fixed(one_row(1))),
    ]
}

/// Running sums along each row.
pub fn encode_cumsum(
    enc: &mut Vec<Cmd>,
    src: usize,
    dst: usize,
    rows: u32,
    cols: u32,
    exclusive: bool,
)
    ensures
        final(enc)@ == old(enc)@ + cumsum_steps(src, dst, rows, cols, exclusive),
{
    emit(
        enc,
        vec![
            Cmd::Pipeline(Kernel::CumsumFwd),
            Cmd::Buffer(0, Buf::Arena, src as u64),
            Cmd::Buffer(1, Buf::Arena, dst as u64),
            Cmd::U32(2, cols),
            Cmd::U32(3, flag(exclusive)),
            Cmd::Threads(row(rows as u64), Group::Fixed(row(1))),
        ],
    );
}

/// The steps of `encode_cum_scan`.
pub open spec fn cum_scan_steps(
    src: usize,
    dst: usize,
    rows: u32,
    cols: u32,
    exclusive: bool,
    is_max: bool,
) -> Seq<Cmd> {
    seq![
        Cmd::Pipeline(Kernel::CumScan),
        Cmd::Buffer(0, Buf::Arena, src as u64),
        Cmd::Buffer(1, Buf::Arena, dst as u64),
        Cmd::U32(2, cols),
        Cmd::U32(3, bit(exclusive)),
        Cmd::U32(4, bit(is_max)),
        Cmd::Threads(one_row(rows as u64), Group::Fixed(one_row(1))),
    ]
}

/// Running products or maxima along each row.
pub fn encode_cum_scan(
    enc: &mut Vec<Cmd>,
    src: usize,
    dst: usize,
    rows: u32,
    cols: u32,
    exclusive: bool,
    is_max: bool,
)
    ensures
        final(enc)@ == old(enc)@ + cum_scan_steps(src, dst, rows, cols, exclusive, is_max),
{
    emit(
        enc,
        vec![
            Cmd::Pipeline(Kernel::CumScan),
            Cmd::Buffer(0, Buf::Arena, src as u64),
            Cmd::Buffer(1, Buf::Arena, dst as u64),
            Cmd::U32(2, cols),
            Cmd::U32(3, flag(exclusive)),
            Cmd::U32(4, flag(is_max)),
            Cmd::Threads(row(rows as u64), Group::Fixed(row(1))),
        ],
    );
}

/// The steps of `encode_cumsum_bwd`.
pub open spec fn cumsum_bwd_steps(
    dy: usize,
    dx: usize,
    rows: u32,
    cols: u32,
    exclusive: bool,
) -> Seq<Cmd> {
    seq![
        Cmd::Pipeline(Kernel::CumsumBwd),
        Cmd::Buffer(0, Buf::Arena, dy as u64),
        Cmd::Buffer(1, Buf::Arena, dx as u64),
        Cmd::U32(2, cols),
        Cmd::U32(3, bit(exclusive)),
        Cmd::Threads(one_row(rows as u64), Group::Fixed(one_row(1))),
    ]
}

/// The gradient of running sums.
pub fn encode_cumsum_bwd(
    enc: &mut Vec<Cmd>,
    dy: usize,
    dx: usize,
    rows: u32,
    cols: u32,
    exclusive: bool,
)
    ensures
        final(enc)@ == old(enc)@ + cumsum_bwd_steps(dy, dx, rows, cols, exclusive),
{
    emit(
        enc,
        vec![
            Cmd::Pipeline(Kernel::CumsumBwd),
            Cmd::Buffer(0, Buf::Arena, dy as u64),
            Cmd::Buffer(1, Buf::Arena, dx as u64),
            Cmd::U32(2, cols),
            Cmd::U32(3, flag(exclusive)),
            Cmd::Threads(row(rows as u64), Group::Fixed(row(1))),
        ],
    );
}

/// The steps of `encode_gather_bwd`.
pub open spec fn gather_bwd_steps(
    dy: usize,
    indices: usize,
    dst: usize,
    outer: u32,
    axis_dim: u32,
    num_idx: u32,
    trailing: u32,
) -> Seq<Cmd> {
    (if outer * axis_dim * trailing > 0 {
        seq![
            Cmd::Pipeline(Kernel::GatherBwdZero),
            Cmd::Buffer(0, Buf::Arena, dst as u64),
            Cmd::U32(1, (outer * axis_dim * trailing) as u32),
            Cmd::Threads(
                one_row((outer * axis_dim * trailing) as u64),
                Group::Fixed(one_row(256)),
            ),
        ]
    } else {
        Seq::<Cmd>::empty()
    }) + seq![
        Cmd::Pipeline(Kernel::GatherBwdAcc),
        Cmd::Buffer(0, Buf::Arena, dy as u64),
        Cmd::Buffer(1, Buf::Arena, indices as u64),
        Cmd::Buffer(2, Buf::Arena, dst as u64),
        Cmd::U32(3, outer),
        Cmd::U32(4, axis_dim),
        Cmd::U32(5, num_idx),
        Cmd::U32(6, trailing),
        Cmd::Threads(one_row(outer as u64), Group::Fixed(one_row(1))),
    ]
}

/// The gradient of a gather: the target is zeroed where it is not empty, then added into.
pub fn encode_gather_bwd(
    enc: &mut Vec<Cmd>,
    dy: usize,
    indices: usize,
    dst: usize,
    outer: u32,
    axis_dim: u32,
    num_idx: u32,
    trailing: u32,
)
    requires
        outer * axis_dim <= u32::MAX,
        outer * axis_dim * trailing <= u32::MAX,
    ensures
        final(enc)@ == old(enc)@ + gather_bwd_steps(
            dy,
            indices,
            dst,
            outer,
            axis_dim,
            num_idx,
            trailing,
        ),
{
    if outer * axis_dim * trailing > 0 {
        emit(
            enc,
            vec![
                Cmd::Pipeline(Kernel::GatherBwdZero),
                Cmd::Buffer(0, Buf::Arena, dst as u64),
                Cmd::U32(1, (outer * axis_dim * trailing) as u32),
                Cmd::Threads(row((outer * axis_dim * trailing) as u64), Group::Fixed(row(256))),
            ],
        );
    }
    emit(
        enc,
        vec![
            Cmd::Pipeline(Kernel::GatherBwdAcc),
            Cmd::Buffer(0, Buf::Arena, dy as u64),
            Cmd::Buffer(1, Buf::Arena, indices as u64),
            Cmd::Buffer(2, Buf::Arena, dst as u64),
            Cmd::U32(3, outer),
            Cmd::U32(4, axis_dim),
            Cmd::U32(5, num_idx),
            Cmd::U32(6, trailing),
            Cmd::Threads(row(outer as u64), Group::Fixed(row(1))),
        ],
    );
}

/// The steps of `encode_scatter_add`.
pub open spec fn scatter_add_steps(
    updates: usize,
    indices: usize,
    dst: usize,
    num_updates: u32,
    out_dim: u32,
    trailing: u32,
) -> Seq<Cmd> {
    seq![
        Cmd::Pipeline(Kernel::ScatterAddZero),
        Cmd::Buffer(0, Buf::Arena, dst as u64),
        Cmd::U32(1, (out_dim * trailing) as u32),
        Cmd::Threads(
            one_row((out_dim * trailing) as u64),
            Group::ExecWidth(Kernel::ScatterAddZero, (out_dim * trailing) as u64),
        ),
        Cmd::Pipeline(Kernel::ScatterAddAccumulate),
        Cmd::Buffer(0, Buf::Arena, updates as u64),
        Cmd::Buffer(1, Buf::Arena, indices as u64),
        Cmd::Buffer(2, Buf::Arena, dst as u64),
        Cmd::U32(3, trailing),
        Cmd::U32(4, num_updates),
        Cmd::U32(5, out_dim),
        Cmd::Threads(
            plane(trailing as u64, num_updates as u64),
            Group::Fixed(plane(min_u64(8, trailing as u64), min_u64(8, num_updates as u64))),
        ),
    ]
}

/// Adds updates into a zeroed target.
pub fn encode_scatter_add(
    enc: &mut Vec<Cmd>,
    updates: usize,
    indices: usize,
    dst: usize,
    num_updates: u32,
    out_dim: u32,
    trailing: u32,
)
    requires
        out_dim * trailing <= u32::MAX,
    ensures
        final(enc)@ == old(enc)@ + scatter_add_steps(
            updates,
            indices,
            dst,
            num_updates,
            out_dim,
            trailing,
        ),
{
    emit(
        enc,
        vec![
            Cmd::Pipeline(Kernel::ScatterAddZero),
            Cmd::Buffer(0, Buf::Arena, dst as u64),
            Cmd::U32(1, (out_dim * trailing) as u32),
            Cmd::Threads(
                row((out_dim * trailing) as u64),
                Group::ExecWidth(Kernel::ScatterAddZero, (out_dim * trailing) as u64),
            ),
            Cmd::Pipeline(Kernel::ScatterAddAccumulate),
            Cmd::Buffer(0, Buf::Arena, updates as u64),
            Cmd::Buffer(1, Buf::Arena, indices as u64),
            Cmd::Buffer(2, Buf::Arena, dst as u64),
            Cmd::U32(3, trailing),
            Cmd::U32(4, num_updates),
            Cmd::U32(5, out_dim),
            Cmd::Threads(
                plane_of(trailing as u64, num_updates as u64),
                Group::Fixed(plane_of(least(8, trailing as u64), least(8, num_updates as u64))),
            ),
        ],
    );
}

/// The steps of `encode_grouped_matmul`.
pub open spec fn grouped_matmul_steps(
    input: usize,
    weight: usize,
    expert_idx: usize,
    dst: usize,
    m: u32,
    k_dim: u32,
    n: u32,
    num_experts: u32,
) -> Seq<Cmd> {
    seq![
        Cmd::Pipeline(Kernel::GroupedMatmul),
        Cmd::Buffer(0, Buf::Arena, input as u64),
        Cmd::Buffer(1, Buf::Arena, weight as u64),
        Cmd::Buffer(2, Buf::Arena, expert_idx as u64),
        Cmd::Buffer(3, Buf::Arena, dst as u64),
        Cmd::U32(4, m),
        Cmd::U32(5, k_dim),
        Cmd::U32(6, n),
        Cmd::U32(7, num_experts),
        Cmd::Threads(
            plane(n as u64, m as u64),
            Group::Fixed(plane(min_u64(8, n as u64), min_u64(8, m as u64))),
        ),
    ]
}

/// A product of every row with the matrix of its expert.
pub fn encode_grouped_matmul(
    enc: &mut Vec<Cmd>,
    input: usize,
    weight: usize,
    expert_idx: usize,
    dst: usize,
    m: u32,
    k_dim: u32,
    n: u32,
    num_experts: u32,
)
    ensures
        final(enc)@ == old(enc)@ + grouped_matmul_steps(
            input,
            weight,
            expert_idx,
            dst,
            m,
            k_dim,
            n,
            num_experts,
        ),
{
    emit(
        enc,
        vec![
            Cmd::Pipeline(Kernel::GroupedMatmul),
            Cmd::Buffer(0, Buf::Arena, input as u64),
            Cmd::Buffer(1, Buf::Arena, weight as u64),
            Cmd::Buffer(2, Buf::Arena, expert_idx as u64),
            Cmd::Buffer(3, Buf::Arena, dst as u64),
            Cmd::U32(4, m),
            Cmd::U32(5, k_dim),
            Cmd::U32(6, n),
            Cmd::U32(7, num_experts),
            Cmd::Threads(
                plane_of(n as u64, m as u64),
                Group::Fixed(plane_of(least(8, n as u64), least(8, m as u64))),
            ),
        ],
    );
}

/// The steps of `encode_topk`.
pub open spec fn topk_steps(
    src: usize,
    dst: usize,
    outer: u32,
    axis_dim: u32,
    k_val: u32,
) -> Seq<Cmd> {
    seq![
        Cmd::Pipeline(Kernel::TopkLastax),
        Cmd::Buffer(0, Buf::Arena, src as u64),
        Cmd::Buffer(1, Buf::Arena, dst as u64),
        Cmd::U32(2, axis_dim),
        Cmd::U32(3, k_val),
        Cmd::Threads(one_row(outer as u64), Group::ExecWidth(Kernel::TopkLastax, outer as u64)),
    ]
}

/// The largest values along the last axis.
pub fn encode_topk(
    enc: &mut Vec<Cmd>,
    src: usize,
    dst: usize,
    outer: u32,
    axis_dim: u32,
    k_val: u32,
)
    ensures
        final(enc)@ == old(enc)@ + topk_steps(src, dst, outer, axis_dim, k_val),
{
    emit(
        enc,
        vec![
            Cmd::Pipeline(Kernel::TopkLastax),
            Cmd::Buffer(0, Buf::Arena, src as u64),
            Cmd::Buffer(1, Buf::Arena, dst as u64),
            Cmd::U32(2, axis_dim),
            Cmd::U32(3, k_val),
            Cmd::Threads(row(outer as u64), Group::ExecWidth(Kernel::TopkLastax, outer as u64)),
        ],
    );
}

/// A long sum or mean with few outputs, in single precision.
pub open spec fn suits_simdgroups(
    outer: u32,
    reduced: u32,
    inner: u32,
    op: ReduceOp,
    dt: HalfFlag,
) -> bool {
    &&& dt == HalfFlag::F32
    &&& op == ReduceOp::Sum || op == ReduceOp::Mean
    &&& reduced >= 64
    &&& inner * outer <= reduced
}

/// The steps of `encode_reduce_axes`.
pub open spec fn reduce_axes_steps(
    src: usize,
    dst: usize,
    outer: u32,
    reduced: u32,
    inner: u32,
    op: ReduceOp,
    dt: HalfFlag,
    simd: bool,
) -> Seq<Cmd> {
    if simd && suits_simdgroups(outer, reduced, inner, op, dt) {
        seq![
            Cmd::Pipeline(Kernel::ReduceAxesSumSimd),
            Cmd::Buffer(0, Buf::Arena, src as u64),
            Cmd::Buffer(1, Buf::Arena, dst as u64),
            Cmd::U32(2, reduced),
            Cmd::U32(3, inner),
            Cmd::U32(4, reduce_code(op)),
            Cmd::Groups(one_row((inner * outer) as u64), one_row(32)),
        ]
    } else {
        seq![
            Cmd::Pipeline(
                if dt == HalfFlag::F32 { Kernel::ReduceAxes } else { Kernel::ReduceAxesH },
            ),
            Cmd::Buffer(0, Buf::Arena, src as u64),
            Cmd::Buffer(1, Buf::Arena, dst as u64),
            Cmd::U32(2, reduced),
            Cmd::U32(3, inner),
            Cmd::U32(4, reduce_code(op)),
            Cmd::Threads(
                plane(inner as u64, outer as u64),
                Group::Fixed(plane(min_u64(16, inner as u64), min_u64(16, outer as u64))),
            ),
        ]
    }
}

/// Reduces the middle of three axes. A simdgroup per output, where asked for, suits long sums
/// with few outputs in single precision.
pub fn encode_reduce_axes(
    enc: &mut Vec<Cmd>,
    src: usize,
    dst: usize,
    outer: u32,
    reduced: u32,
    inner: u32,
    op: ReduceOp,
    dt: HalfFlag,
    simd: bool,
)
    ensures
        final(enc)@ == old(enc)@ + reduce_axes_steps(src, dst, outer, reduced, inner, op, dt, simd),
{
    assert(inner * outer <= 0xffff_ffff * 0xffff_ffff) by (nonlinear_arith);
    let outputs: u64 = (inner as u64) * (outer as u64);
    if simd && dt == HalfFlag::F32 && (op == ReduceOp::Sum || op == ReduceOp::Mean) && reduced >= 64
        && outputs <= reduced as u64 {
        emit(
            enc,
            vec![
                Cmd::Pipeline(Kernel::ReduceAxesSumSimd),
                Cmd::Buffer(0, Buf::Arena, src as u64),
                Cmd::Buffer(1, Buf::Arena, dst as u64),
                Cmd::U32(2, reduced),
                Cmd::U32(3, inner),
                Cmd::U32(4, reduce_number(op)),
                Cmd::Groups(row(outputs), row(32)),
            ],
        );
    } else {
        emit(
            enc,
            vec![
                Cmd::Pipeline(
                    if dt == HalfFlag::F32 { Kernel::ReduceAxes } else { Kernel::ReduceAxesH },
                ),
                Cmd::Buffer(0, Buf::Arena, src as u64),
                Cmd::Buffer(1, Buf::Arena, dst as u64),
                Cmd::U32(2, reduced),
                Cmd::U32(3, inner),
                Cmd::U32(4, reduce_number(op)),
                Cmd::Threads(
                    plane_of(inner as u64, outer as u64),
                    Group::Fixed(plane_of(least(16, inner as u64), least(16, outer as u64))),
                ),
            ],
        );
    }
}

/// The steps of `encode_softmax`.
pub open spec fn softmax_steps(data: usize, rows: u32, cols: u32, dt: HalfFlag) -> Seq<Cmd> {
    seq![
        Cmd::Pipeline(
            if dt == HalfFlag::F32 { Kernel::SoftmaxLastax } else { Kernel::SoftmaxLastaxH },
        ),
        Cmd::Buffer(0, Buf::Arena, data as u64),
        Cmd::U32(1, cols),
        Cmd::Groups(one_row(rows as u64), one_row(reduction_span(cols))),
    ]
}

/// Softmax in place, one threadgroup per row.
pub fn encode_softmax(enc: &mut Vec<Cmd>, data: usize, rows: u32, cols: u32, dt: HalfFlag)
    ensures
        final(enc)@ == old(enc)@ + softmax_steps(data, rows, cols, dt),
{
    emit(
        enc,
        vec![
            Cmd::Pipeline(
                if dt == HalfFlag::F32 { Kernel::SoftmaxLastax } else { Kernel::SoftmaxLastaxH },
            ),
            Cmd::Buffer(0, Buf::Arena, data as u64),
            Cmd::U32(1, cols),
            Cmd::Groups(row(rows as u64), row(reduction_width(cols))),
        ],
    );
}

/// The steps of `encode_softmax_cross_entropy_dense`.
pub open spec fn softmax_cross_entropy_dense_steps(
    logits: usize,
    targets: usize,
    dst: usize,
    rows: u32,
    cols: u32,
) -> Seq<Cmd> {
    seq![
        Cmd::Pipeline(Kernel::SoftmaxCrossEntropyDense),
        Cmd::Buffer(0, Buf::Arena, logits as u64),
        Cmd::Buffer(1, Buf::Arena, targets as u64),
        Cmd::Buffer(2, Buf::Arena, dst as u64),
        Cmd::U32(3, cols),
        Cmd::Groups(one_row(rows as u64), one_row(reduction_span(cols))),
    ]
}

/// Cross entropy against target distributions.
pub fn encode_softmax_cross_entropy_dense(
    enc: &mut Vec<Cmd>,
    logits: usize,
    targets: usize,
    dst: usize,
    rows: u32,
    cols: u32,
)
    ensures
        final(enc)@ == old(enc)@ + softmax_cross_entropy_dense_steps(
            logits,
            targets,
            dst,
            rows,
            cols,
        ),
{
    emit(
        enc,
        vec![
            Cmd::Pipeline(Kernel::SoftmaxCrossEntropyDense),
            Cmd::Buffer(0, Buf::Arena, logits as u64),
            Cmd::Buffer(1, Buf::Arena, targets as u64),
            Cmd::Buffer(2, Buf::Arena, dst as u64),
            Cmd::U32(3, cols),
            Cmd::Groups(row(rows as u64), row(reduction_width(cols))),
        ],
    );
}

/// The steps of `encode_softmax_cross_entropy_with_logits`.
pub open spec fn softmax_cross_entropy_with_logits_steps(
    logits: usize,
    labels: usize,
    dst: usize,
    rows: u32,
    cols: u32,
) -> Seq<Cmd> {
    seq![
        Cmd::Pipeline(Kernel::SoftmaxCrossEntropyWithLogits),
        Cmd::Buffer(0, Buf::Arena, logits as u64),
        Cmd::Buffer(1, Buf::Arena, labels as u64),
        Cmd::Buffer(2, Buf::Arena, dst as u64),
        Cmd::U32(3, cols),
        Cmd::Groups(one_row(rows as u64), one_row(reduction_span(cols))),
    ]
}

/// Cross entropy against labels.
pub fn encode_softmax_cross_entropy_with_logits(
    enc: &mut Vec<Cmd>,
    logits: usize,
    labels: usize,
    dst: usize,
    rows: u32,
    cols: u32,
)
    ensures
        final(enc)@ == old(enc)@ + softmax_cross_entropy_with_logits_steps(
            logits,
            labels,
            dst,
            rows,
            cols,
        ),
{
    emit(
        enc,
        vec![
            Cmd::Pipeline(Kernel::SoftmaxCrossEntropyWithLogits),
            Cmd::Buffer(0, Buf::Arena, logits as u64),
            Cmd::Buffer(1, Buf::Arena, labels as u64),
            Cmd::Buffer(2, Buf::Arena, dst as u64),
            Cmd::U32(3, cols),
            Cmd::Groups(row(rows as u64), row(reduction_width(cols))),
        ],
    );
}

/// The steps of `encode_softmax_cross_entropy_backward`.
pub open spec fn softmax_cross_entropy_backward_steps(
    logits: usize,
    labels: usize,
    d_loss: usize,
    dlogits: usize,
    rows: u32,
    cols: u32,
) -> Seq<Cmd> {
    seq![
        Cmd::Pipeline(Kernel::SoftmaxCrossEntropyBackward),
        Cmd::Buffer(0, Buf::Arena, logits as u64),
        Cmd::Buffer(1, Buf::Arena, labels as u64),
        Cmd::Buffer(2, Buf::Arena, d_loss as u64),
        Cmd::Buffer(3, Buf::Arena, dlogits as u64),
        Cmd::U32(4, cols),
        Cmd::Groups(one_row(rows as u64), one_row(reduction_span(cols))),
    ]
}

/// The gradient of cross entropy.
pub fn encode_softmax_cross_entropy_backward(
    enc: &mut Vec<Cmd>,
    logits: usize,
    labels: usize,
    d_loss: usize,
    dlogits: usize,
    rows: u32,
    cols: u32,
)
    ensures
        final(enc)@ == old(enc)@ + softmax_cross_entropy_backward_steps(
            logits,
            labels,
            d_loss,
            dlogits,
            rows,
            cols,
        ),
{
    emit(
        enc,
        vec![
            Cmd::Pipeline(Kernel::SoftmaxCrossEntropyBackward),
            Cmd::Buffer(0, Buf::Arena, logits as u64),
            Cmd::Buffer(1, Buf::Arena, labels as u64),
            Cmd::Buffer(2, Buf::Arena, d_loss as u64),
            Cmd::Buffer(3, Buf::Arena, dlogits as u64),
            Cmd::U32(4, cols),
            Cmd::Groups(row(rows as u64), row(reduction_width(cols))),
        ],
    );
}

} // verus!
