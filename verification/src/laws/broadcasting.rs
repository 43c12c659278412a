//! Strides: what an operand reads at a position of the result.

use vstd::prelude::*;

use crate::command::sat_mul;
use crate::encode::broadcast::{
    all_zero, at_least_one, axis_side, broadcast_stride, broadcast_strides, column_broadcast,
    column_operand, dense_operand, dense_stride, dense_strides, linear_index, only_zero,
    operand_len, operand_size, operand_tail, read_at, row_broadcast, row_vector_operand,
    scalar_broadcast, scalar_operand, single_axis_broadcast, single_axis_side, size_of,
};

verus! {

/// No extent is zero and the size of every tail can be counted in 32 bits.
pub open spec fn countable(dims: Seq<u32>, rank: int) -> bool {
    &&& 0 <= rank <= dims.len()
    &&& forall|k: int| 0 <= k < rank ==> #[trigger] dims[k] > 0
    &&& size_of(dims, 0, rank) <= u32::MAX
}

/// A size is at least one, and the first extent can be split off as well as the last.
pub proof fn lemma_size_split(dims: Seq<u32>, from: int, to: int)
    requires
        from < to,
    ensures
        size_of(dims, from, to) == at_least_one(dims[from]) * size_of(dims, from + 1, to),
        size_of(dims, from, to) >= 1,
        size_of(dims, from + 1, to) >= 1,
    decreases to - from,
{
    if from + 1 < to {
        lemma_size_split(dims, from, to - 1);
        if from + 1 < to - 1 {
            lemma_size_split(dims, from + 1, to - 1);
        }
        let a = at_least_one(dims[from]) as int;
        let b = size_of(dims, from + 1, to - 1);
        let c = at_least_one(dims[to - 1]) as int;
        assert((a * b) * c == a * (b * c)) by (nonlinear_arith);
        assert(b * c >= 1 && a * (b * c) >= 1) by (nonlinear_arith)
            requires
                a >= 1,
                b >= 1,
                c >= 1,
        ;
    } else {
        let a = at_least_one(dims[from]) as int;
        assert(size_of(dims, from, from) == 1);
        assert(1 * a == a * 1);
    }
}

/// Sizes only grow with more extents.
pub proof fn lemma_size_tail(dims: Seq<u32>, from: int, mid: int, to: int)
    requires
        from <= mid <= to,
    ensures
        1 <= size_of(dims, mid, to) <= size_of(dims, from, to),
    decreases mid - from,
{
    if from < mid {
        lemma_size_tail(dims, from + 1, mid, to);
        lemma_size_split(dims, from, to);
        let a = at_least_one(dims[from]) as int;
        let b = size_of(dims, from + 1, to);
        assert(b <= a * b) by (nonlinear_arith)
            requires
                a >= 1,
                b >= 1,
        ;
    } else if mid < to {
        lemma_size_split(dims, mid, to);
    }
}

/// The stride of an axis of a dense tensor is the size of all later axes.
pub proof fn lemma_dense_stride(dims: Seq<u32>, rank: int, axis: int)
    requires
        0 <= axis < rank,
        size_of(dims, 0, rank) <= u32::MAX,
    ensures
        dense_stride(dims, rank, axis) == size_of(dims, axis + 1, rank),
    decreases rank - axis,
{
    if axis + 1 < rank {
        lemma_dense_stride(dims, rank, axis + 1);
        lemma_size_split(dims, axis + 1, rank);
        lemma_size_tail(dims, 0, axis + 1, rank);
        let a = at_least_one(dims[axis + 1]) as int;
        let b = size_of(dims, axis + 2, rank);
        assert(a * b == b * a) by (nonlinear_arith);
    }
}

/// A dense operand reads, at a position of the result, the element with that position's index in row
/// order.
pub proof fn lemma_dense_reads_in_order(dims: Seq<u32>, coords: Seq<int>, rank: nat, n: int)
    requires
        countable(dims, rank as int),
        0 <= n <= rank,
    ensures
        read_at(dense_strides(dims, rank), coords, n) == linear_index(dims, coords, n) * size_of(
            dims,
            n,
            rank as int,
        ),
        read_at(dense_strides(dims, rank), coords, rank as int) == linear_index(
            dims,
            coords,
            rank as int,
        ) || n < rank,
    decreases n,
{
    let s = dense_strides(dims, rank);
    if n > 0 {
        lemma_dense_reads_in_order(dims, coords, rank, n - 1);
        lemma_dense_stride(dims, rank as int, n - 1);
        lemma_size_split(dims, n - 1, rank as int);
        let a = linear_index(dims, coords, n - 1);
        let d = dims[n - 1] as int;
        let t = size_of(dims, n, rank as int);
        let c = coords[n - 1];
        assert(at_least_one(dims[n - 1]) == d);
        assert(a * (d * t) + c * t == (a * d + c) * t) by (nonlinear_arith);
    } else {
        assert(0 * size_of(dims, 0, rank as int) == 0);
    }
    if n == rank {
        assert(size_of(dims, n, n) == 1);
    }
}

/// The extents of an operand, brought to the rank of the result by ones in front.
pub open spec fn padded(in_dims: Seq<u32>, out_rank: nat) -> Seq<u32> {
    Seq::new(out_rank, |i: int| operand_size(in_dims, out_rank as int, i))
}

/// An operand has its own extents behind ones, and no extent counts as none.
pub proof fn lemma_padded(in_dims: Seq<u32>, out_rank: nat, axis: int)
    requires
        in_dims.len() <= out_rank,
        0 <= axis < out_rank,
    ensures
        axis < out_rank - in_dims.len() ==> padded(in_dims, out_rank)[axis] == 1,
        axis >= out_rank - in_dims.len() && in_dims[axis - (out_rank - in_dims.len())] > 0 ==> padded(
            in_dims,
            out_rank,
        )[axis] == in_dims[axis - (out_rank - in_dims.len())],
        padded(in_dims, out_rank)[axis] >= 1,
{
}

proof fn lemma_operand_tail(in_dims: Seq<u32>, out_rank: nat, axis: int)
    requires
        0 <= axis < out_rank,
    ensures
        operand_tail(in_dims, out_rank as int, axis) == dense_stride(
            padded(in_dims, out_rank),
            out_rank as int,
            axis,
        ),
    decreases out_rank - axis,
{
    if axis + 1 < out_rank {
        lemma_operand_tail(in_dims, out_rank, axis + 1);
    }
}

/// Coordinates of the result as an operand sees them: on an axis where it has one element, that one.
pub open spec fn seen(in_dims: Seq<u32>, out_rank: nat, coords: Seq<int>) -> Seq<int> {
    Seq::new(
        out_rank,
        |i: int|
            if operand_size(in_dims, out_rank as int, i) == 1 {
                0
            } else {
                coords[i]
            },
    )
}

proof fn lemma_broadcast_terms(in_dims: Seq<u32>, out_rank: nat, coords: Seq<int>, n: int)
    requires
        0 <= n <= out_rank,
    ensures
        read_at(broadcast_strides(in_dims, out_rank), coords, n) == read_at(
            dense_strides(padded(in_dims, out_rank), out_rank),
            seen(in_dims, out_rank, coords),
            n,
        ),
    decreases n,
{
    if n > 0 {
        lemma_broadcast_terms(in_dims, out_rank, coords, n - 1);
        lemma_operand_tail(in_dims, out_rank, n - 1);
        let d = dense_stride(padded(in_dims, out_rank), out_rank as int, n - 1) as int;
        assert(0 * d == 0 && coords[n - 1] * 0 == 0) by (nonlinear_arith);
    }
}

/// A broadcast operand reads, at a position of the result, its own element at that position, taken
/// as the first on every axis where it has one element only.
pub proof fn lemma_broadcast_reads_own_element(
    in_dims: Seq<u32>,
    out_rank: nat,
    coords: Seq<int>,
)
    requires
        size_of(padded(in_dims, out_rank), 0, out_rank as int) <= u32::MAX,
    ensures
        read_at(broadcast_strides(in_dims, out_rank), coords, out_rank as int) == linear_index(
            padded(in_dims, out_rank),
            seen(in_dims, out_rank, coords),
            out_rank as int,
        ),
{
    let p = padded(in_dims, out_rank);
    assert forall|k: int| 0 <= k < out_rank implies #[trigger] p[k] > 0 by {}
    lemma_broadcast_terms(in_dims, out_rank, coords, out_rank as int);
    lemma_dense_reads_in_order(
        p,
        seen(in_dims, out_rank, coords),
        out_rank,
        out_rank as int,
    );
}

/// A detected row or single-axis broadcast has a dense side and one that is broadcast, says which, and
/// its rows and columns are the whole result.
pub proof fn lemma_detected_rows(rank: nat, dims: Seq<u32>, lhs: Seq<u32>, rhs: Seq<u32>)
    ensures
        match row_broadcast(rank, dims, lhs, rhs) {
            Some((rows, cols, rhs_is_row)) => {
                let (full, row) = if rhs_is_row {
                    (lhs, rhs)
                } else {
                    (rhs, lhs)
                };
                &&& dense_operand(full, dims, rank)
                &&& row_vector_operand(row, rank as int, dims)
                &&& rows * cols == size_of(dims, 0, rank as int)
                &&& cols == dims[rank - 1]
                &&& row[rank - 1] == 0
            },
            None => true,
        },
        match column_broadcast(rank, dims, lhs, rhs) {
            Some((rows, cols, _)) => rows * cols == size_of(dims, 0, rank as int) && cols
                == dims[rank - 1],
            None => true,
        },
        dense_operand(lhs, dims, rank) && row_vector_operand(rhs, rank as int, dims) && dims.len()
            >= rank && lhs.len() >= rank && dims[rank - 1] > 0 && size_of(dims, 0, rank - 1) <= u32::MAX
            ==> row_broadcast(rank, dims, lhs, rhs) is Some,
        dense_operand(lhs, dims, rank) && column_operand(rhs, rank as int) && rank >= 2 && dims.len()
            >= rank && dims[rank - 1] > 0 && size_of(dims, 0, rank - 1) <= u32::MAX
            ==> column_broadcast(rank, dims, lhs, rhs) is Some,
        dense_operand(lhs, dims, rank) && scalar_operand(rhs, rank as int) && dims.len() >= rank
            && rhs.len() >= rank ==> scalar_broadcast(rank, dims, lhs, rhs) == Some(true),
{
    if rank >= 1 && size_of(dims, 0, rank - 1) <= u32::MAX && rank >= 2 {
        lemma_size_tail(dims, 0, rank - 1, rank - 1);
        lemma_size_tail(dims, 0, 0, rank - 1);
    }
}

/// The side of a single-axis broadcast reads nothing new along one axis only; the rows are the axes up
/// to and with that one, the columns all later ones, and together they are the whole result.
pub proof fn lemma_axis_side(
    rank: nat,
    dims: Seq<u32>,
    side: Seq<u32>,
    other: Seq<u32>,
    axis: int,
)
    requires
        axis_side(rank, dims, side, other, axis) is Some,
    ensures
        ({
            let (rows, cols, mid) = axis_side(rank, dims, side, other, axis)->0;
            &&& 0 <= axis < rank
            &&& side[axis] == 0
            &&& forall|i: int| 0 <= i < rank && i != axis ==> #[trigger] side[i] != 0
            &&& dense_operand(other, dims, rank)
            &&& mid == dims[axis]
            &&& rows == size_of(dims, 0, axis + 1)
            &&& cols == size_of(dims, axis + 1, dims.len() as int)
        }),
{
    lemma_size_tail(dims, 0, 0, axis);
    if axis + 1 <= dims.len() {
        lemma_size_tail(dims, axis + 1, axis + 1, dims.len() as int);
    }
    let a = size_of(dims, 0, axis);
    let b = at_least_one(dims[axis]) as int;
    assert(a * b >= 0) by (nonlinear_arith)
        requires
            a >= 1,
            b >= 1,
    ;
}

/// A single-axis broadcast names the side that is broadcast, the right one first.
pub proof fn lemma_single_axis(rank: nat, dims: Seq<u32>, lhs: Seq<u32>, rhs: Seq<u32>)
    ensures
        match single_axis_broadcast(rank, dims, lhs, rhs) {
            Some((rows, cols, mid, rhs_is_broadcast)) => {
                &&& rank >= 2
                &&& rhs_is_broadcast ==> single_axis_side(rank, dims, rhs, lhs) == Some(
                    (rows, cols, mid),
                )
                &&& !rhs_is_broadcast ==> single_axis_side(rank, dims, rhs, lhs) is None
                    && single_axis_side(rank, dims, lhs, rhs) == Some((rows, cols, mid))
            },
            None => rank < 2 || dims.len() < rank || (single_axis_side(rank, dims, rhs, lhs) is None
                && single_axis_side(rank, dims, lhs, rhs) is None),
        },
        forall|axis: int|
            (#[trigger] axis_side(rank, dims, rhs, lhs, axis)) is Some ==> single_axis_side(
                rank,
                dims,
                rhs,
                lhs,
            ) is Some,
{
}

/// An operand has as many elements as the axes along which it moves: one where it moves along none,
/// the whole result where it moves along all, and an axis more multiplies by its extent or by one.
pub proof fn lemma_operand_len(strides: Seq<u32>, dims: Seq<u32>, n: int)
    requires
        0 <= n,
    ensures
        all_zero(strides, n) ==> operand_len(strides, dims, n) == 1,
        (forall|k: int| 0 <= k < n ==> #[trigger] strides[k] != 0 && dims[k] > 0) ==> operand_len(
            strides,
            dims,
            n,
        ) == size_of(dims, 0, n),
        strides[n] == 0 ==> operand_len(strides, dims, n + 1) == operand_len(strides, dims, n),
        strides[n] != 0 ==> operand_len(strides, dims, n + 1) == operand_len(strides, dims, n)
            * dims[n],
    decreases n,
{
    if n > 0 {
        lemma_operand_len(strides, dims, n - 1);
        if forall|k: int| 0 <= k < n ==> #[trigger] strides[k] != 0 && dims[k] > 0 {
            assert(strides[n - 1] != 0);
        }
    }
}

} // verus!
