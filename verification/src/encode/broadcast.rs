//! Strides of broadcast operands, and the broadcast shapes that have kernels of their own.

use vstd::prelude::*;

use crate::command::{sat_mul, saturating_product};

verus! {

/// A dimension, with an empty one counted as one.
pub open spec fn at_least_one(d: u32) -> u32 {
    if d == 0 {
        1
    } else {
        d
    }
}

fn one_or(d: u32) -> (r: u32)
    ensures
        r == at_least_one(d),
{
    if d == 0 {
        1
    } else {
        d
    }
}

/// The stride of an axis in row-major order: the product of the later dimensions.
pub open spec fn dense_stride(dims: Seq<u32>, rank: int, axis: int) -> u32
    decreases rank - axis,
{
    if axis + 1 >= rank {
        1
    } else {
        sat_mul(dense_stride(dims, rank, axis + 1), at_least_one(dims[axis + 1]))
    }
}

pub open spec fn dense_strides(dims: Seq<u32>, rank: nat) -> Seq<u32> {
    Seq::new(rank, |i: int| dense_stride(dims, rank as int, i))
}

/// Row-major strides of the first `rank` dimensions.
pub fn dense_row_major_strides(out_dims: &[u32], rank: usize) -> (r: Vec<u32>)
    requires
        rank <= out_dims@.len(),
    ensures
        r@ == dense_strides(out_dims@, rank as nat),
{
    let mut dense: Vec<u32> = Vec::new();
    let mut filled: usize = 0;
    while filled < rank
        invariant
            filled <= rank,
            dense@.len() == filled,
            forall|i: int| 0 <= i < filled ==> dense@[i] == 1,
        decreases rank - filled,
    {
        dense.push(1);
        filled = filled + 1;
    }
    if rank > 1 {
        let mut i: usize = rank - 1;
        while i > 0
            invariant
                0 <= i < rank <= out_dims@.len(),
                dense@.len() == rank,
                forall|k: int|
                    i <= k < rank ==> dense@[k] == dense_stride(out_dims@, rank as int, k),
            decreases i,
        {
            let next: u32 = saturating_product(dense[i], one_or(out_dims[i]));
            i = i - 1;
            dense.set(i, next);
            assert(dense@[i as int] == dense_stride(out_dims@, rank as int, i as int));
        }
    }
    assert(dense@ =~= dense_strides(out_dims@, rank as nat));
    dense
}

/// The size of an operand along an output axis; missing leading axes have size one.
pub open spec fn operand_size(in_dims: Seq<u32>, out_rank: int, axis: int) -> u32 {
    let pad = if out_rank >= in_dims.len() {
        out_rank - in_dims.len()
    } else {
        0
    };
    if axis < pad {
        1
    } else {
        at_least_one(in_dims[axis - pad])
    }
}

/// Elements of an operand behind an axis.
pub open spec fn operand_tail(in_dims: Seq<u32>, out_rank: int, axis: int) -> u32
    decreases out_rank - axis,
{
    if axis + 1 >= out_rank {
        1
    } else {
        sat_mul(
            operand_tail(in_dims, out_rank, axis + 1),
            operand_size(in_dims, out_rank, axis + 1),
        )
    }
}

/// The stride of an operand along an output axis: zero where it repeats.
pub open spec fn broadcast_stride(in_dims: Seq<u32>, out_rank: int, axis: int) -> u32 {
    if operand_size(in_dims, out_rank, axis) == 1 {
        0
    } else {
        operand_tail(in_dims, out_rank, axis)
    }
}

pub open spec fn broadcast_strides(in_dims: Seq<u32>, out_rank: nat) -> Seq<u32> {
    Seq::new(out_rank, |i: int| broadcast_stride(in_dims, out_rank as int, i))
}

/// Strides of an operand of shape `in_dims` under an output of shape `out_dims`.
pub fn broadcast_strides_u32(in_dims: &[u32], out_dims: &[u32]) -> (r: Vec<u32>)
    ensures
        r@ == broadcast_strides(in_dims@, out_dims@.len()),
{
    let r_out: usize = out_dims.len();
    let r_in: usize = in_dims.len();
    let pad: usize = if r_out >= r_in {
        r_out - r_in
    } else {
        0
    };
    let mut strides: Vec<u32> = Vec::new();
    let mut filled: usize = 0;
    while filled < r_out
        invariant
            filled <= r_out,
            strides@.len() == filled,
        decreases r_out - filled,
    {
        strides.push(0);
        filled = filled + 1;
    }
    let mut acc: u32 = 1;
    let mut d: usize = r_out;
    while d > 0
        invariant
            d <= r_out,
            r_out == out_dims@.len(),
            r_in == in_dims@.len(),
            pad == (if r_out >= r_in {
                r_out - r_in
            } else {
                0
            }),
            strides@.len() == r_out,
            d > 0 ==> acc == operand_tail(in_dims@, r_out as int, d - 1),
            forall|k: int|
                d <= k < r_out ==> strides@[k] == broadcast_stride(in_dims@, r_out as int, k),
        decreases d,
    {
        d = d - 1;
        let in_size: u32 = if d < pad {
            1
        } else {
            one_or(in_dims[d - pad])
        };
        if in_size == 1 {
            strides.set(d, 0);
        } else {
            strides.set(d, acc);
        }
        proof {
            assert(in_size == operand_size(in_dims@, r_out as int, d as int));
            if in_size == 1 {
                assert(acc * 1 == acc);
            }
        }
        if in_size != 1 {
            acc = saturating_product(acc, in_size);
        }
    }
    assert(strides@ =~= broadcast_strides(in_dims@, r_out as nat));
    strides
}

/// Whether the first `rank` strides are all zero.
pub open spec fn all_zero(strides: Seq<u32>, rank: int) -> bool {
    forall|i: int| 0 <= i < rank ==> #[trigger] strides[i] == 0
}

/// An operand that is a single value.
pub open spec fn scalar_operand(strides: Seq<u32>, rank: int) -> bool {
    rank == 0 || (strides.len() >= rank && all_zero(strides, rank))
}

fn zero_upto(strides: &[u32], n: usize) -> (r: bool)
    requires
        n <= strides@.len(),
    ensures
        r == all_zero(strides@, n as int),
{
    let mut i: usize = 0;
    while i < n
        invariant
            i <= n <= strides@.len(),
            all_zero(strides@, i as int),
        decreases n - i,
    {
        if strides[i] != 0 {
            assert(strides@[i as int] != 0);
            return false;
        }
        i = i + 1;
    }
    true
}

pub fn is_scalar_broadcast(strides: &[u32], rank: usize) -> (r: bool)
    ensures
        r == scalar_operand(strides@, rank as int),
{
    rank == 0 || (strides.len() >= rank && zero_upto(strides, rank))
}

/// An operand laid out like the output.
pub open spec fn dense_operand(strides: Seq<u32>, dims: Seq<u32>, rank: nat) -> bool {
    strides.len() >= rank && strides.take(rank as int) == dense_strides(dims, rank)
}

fn same_prefix(a: &[u32], b: &[u32], n: usize) -> (r: bool)
    requires
        n <= a@.len(),
        n <= b@.len(),
    ensures
        r == (a@.take(n as int) == b@.take(n as int)),
{
    let mut i: usize = 0;
    while i < n
        invariant
            i <= n <= a@.len(),
            n <= b@.len(),
            forall|k: int| 0 <= k < i ==> a@[k] == b@[k],
        decreases n - i,
    {
        if a[i] != b[i] {
            assert(a@.take(n as int)[i as int] != b@.take(n as int)[i as int]);
            return false;
        }
        i = i + 1;
    }
    assert(a@.take(n as int) =~= b@.take(n as int));
    true
}

fn is_dense(strides: &[u32], dense: &[u32], rank: usize, Ghost(dims): Ghost<Seq<u32>>) -> (r: bool)
    requires
        dense@ == dense_strides(dims, rank as nat),
    ensures
        r == dense_operand(strides@, dims, rank as nat),
{
    assert(dense@.take(rank as int) =~= dense@);
    strides.len() >= rank && same_prefix(strides, dense, rank)
}

/// The output shape with its last axis repeated.
pub open spec fn row_vector_dims(dims: Seq<u32>, rank: int) -> Seq<u32> {
    dims.take(rank - 1).push(1)
}

/// An operand with one value per row.
pub open spec fn row_vector_operand(strides: Seq<u32>, rank: int, dims: Seq<u32>) -> bool {
    &&& rank >= 2
    &&& strides.len() >= rank
    &&& strides[rank - 1] == 0
    &&& strides.take(rank) == broadcast_strides(row_vector_dims(dims, rank), dims.len()).take(rank)
}

pub fn is_row_vector_broadcast(strides: &[u32], rank: usize, out_dims: &[u32]) -> (r: bool)
    requires
        rank <= out_dims@.len(),
    ensures
        r == row_vector_operand(strides@, rank as int, out_dims@),
{
    if rank < 2 || strides.len() < rank || strides[rank - 1] != 0 {
        return false;
    }
    let mut in_dims: Vec<u32> = Vec::new();
    let mut i: usize = 0;
    while i < rank - 1
        invariant
            i <= rank - 1,
            2 <= rank <= out_dims@.len(),
            in_dims@ == out_dims@.take(i as int),
        decreases rank - 1 - i,
    {
        in_dims.push(out_dims[i]);
        i = i + 1;
        assert(in_dims@ =~= out_dims@.take(i as int));
    }
    in_dims.push(1);
    let expected: Vec<u32> = broadcast_strides_u32(&in_dims, out_dims);
    same_prefix(strides, &expected, rank)
}

/// Whether one side is laid out like the output and the other is a single value; true where
/// that is the right side.
pub open spec fn scalar_broadcast(
    rank: nat,
    dims: Seq<u32>,
    lhs: Seq<u32>,
    rhs: Seq<u32>,
) -> Option<bool> {
    if dims.len() < rank || lhs.len() < rank || rhs.len() < rank {
        None
    } else if dense_operand(lhs, dims, rank) && scalar_operand(rhs, rank as int) {
        Some(true)
    } else if dense_operand(rhs, dims, rank) && scalar_operand(lhs, rank as int) {
        Some(false)
    } else {
        None
    }
}

pub fn detect_scalar_broadcast(
    rank: u32,
    out_dims: &[u32],
    lhs_strides: &[u32],
    rhs_strides: &[u32],
) -> (r: Option<bool>)
    ensures
        r == scalar_broadcast(rank as nat, out_dims@, lhs_strides@, rhs_strides@),
{
    let rank: usize = rank as usize;
    if out_dims.len() < rank {
        return None;
    }
    let dense: Vec<u32> = dense_row_major_strides(out_dims, rank);
    if lhs_strides.len() >= rank && rhs_strides.len() >= rank && is_dense(
        lhs_strides,
        &dense,
        rank,
        Ghost(out_dims@),
    ) && is_scalar_broadcast(rhs_strides, rank) {
        return Some(true);
    }
    if rhs_strides.len() >= rank && lhs_strides.len() >= rank && is_dense(
        rhs_strides,
        &dense,
        rank,
        Ghost(out_dims@),
    ) && is_scalar_broadcast(lhs_strides, rank) {
        return Some(false);
    }
    None
}

/// The product of dimensions from `from` up to `to`, empty ones counted as one.
pub open spec fn size_of(dims: Seq<u32>, from: int, to: int) -> int
    decreases to - from,
{
    if to <= from {
        1
    } else {
        size_of(dims, from, to - 1) * at_least_one(dims[to - 1])
    }
}

proof fn lemma_size_positive(dims: Seq<u32>, from: int, to: int)
    ensures
        size_of(dims, from, to) >= 1,
    decreases to - from,
{
    if to > from {
        lemma_size_positive(dims, from, to - 1);
        let a = size_of(dims, from, to - 1);
        let b = at_least_one(dims[to - 1]) as int;
        assert(a * b >= 1) by (nonlinear_arith)
            requires
                a >= 1,
                b >= 1,
        ;
    }
}

proof fn lemma_size_grows(dims: Seq<u32>, from: int, mid: int, to: int)
    requires
        from <= mid <= to,
    ensures
        size_of(dims, from, mid) <= size_of(dims, from, to),
    decreases to - mid,
{
    if mid < to {
        lemma_size_grows(dims, from, mid, to - 1);
        lemma_size_positive(dims, from, to - 1);
        let a = size_of(dims, from, to - 1);
        let b = at_least_one(dims[to - 1]) as int;
        assert(a <= a * b) by (nonlinear_arith)
            requires
                a >= 1,
                b >= 1,
        ;
    }
}

/// The product of some dimensions, where it fits in 32 bits.
pub fn size_in_32_bits(dims: &[u32], from: usize, to: usize) -> (r: Option<u32>)
    requires
        from <= to <= dims@.len(),
    ensures
        r is Some <==> size_of(dims@, from as int, to as int) <= u32::MAX,
        r matches Some(n) ==> n == size_of(dims@, from as int, to as int),
{
    let mut acc: u64 = 1;
    let mut i: usize = from;
    while i < to
        invariant
            from <= i <= to <= dims@.len(),
            1 <= acc <= u32::MAX,
            acc == size_of(dims@, from as int, i as int),
        decreases to - i,
    {
        let d: u32 = one_or(dims[i]);
        assert(1 <= acc * d <= 0xffff_ffff * 0xffff_ffff) by (nonlinear_arith)
            requires
                1 <= acc <= 0xffff_ffff,
                1 <= d,
        ;
        acc = acc * (d as u64);
        i = i + 1;
        if acc > u32::MAX as u64 {
            proof {
                lemma_size_grows(dims@, from as int, i as int, to as int);
            }
            return None;
        }
    }
    Some(acc as u32)
}

/// An operand with one value per column.
pub open spec fn column_operand(strides: Seq<u32>, rank: int) -> bool {
    strides.len() >= rank && strides[rank - 1] == 1 && all_zero(strides, rank - 1)
}

/// Rows and columns of an output whose one side has one value per column; the flag is true where
/// that is the right side.
pub open spec fn column_broadcast(
    rank: nat,
    dims: Seq<u32>,
    lhs: Seq<u32>,
    rhs: Seq<u32>,
) -> Option<(u32, u32, bool)> {
    if rank < 2 || dims.len() < rank || dims[rank - 1] == 0 || size_of(dims, 0, rank - 1)
        > u32::MAX || lhs.len() < rank || rhs.len() < rank {
        None
    } else {
        let rows = size_of(dims, 0, rank - 1) as u32;
        let cols = dims[rank - 1];
        if dense_operand(lhs, dims, rank) && column_operand(rhs, rank as int) {
            Some((rows, cols, true))
        } else if dense_operand(rhs, dims, rank) && column_operand(lhs, rank as int) {
            Some((rows, cols, false))
        } else {
            None
        }
    }
}

fn is_column_vector(strides: &[u32], rank: usize) -> (r: bool)
    requires
        rank >= 1,
    ensures
        r == column_operand(strides@, rank as int),
{
    strides.len() >= rank && strides[rank - 1] == 1 && zero_upto(strides, rank - 1)
}

pub fn detect_last_axis_col_broadcast(
    rank: u32,
    out_dims: &[u32],
    lhs_strides: &[u32],
    rhs_strides: &[u32],
) -> (r: Option<(u32, u32, bool)>)
    ensures
        r == column_broadcast(rank as nat, out_dims@, lhs_strides@, rhs_strides@),
{
    let rank: usize = rank as usize;
    if rank < 2 || out_dims.len() < rank {
        return None;
    }
    let cols: u32 = out_dims[rank - 1];
    if cols == 0 {
        return None;
    }
    let rows: u32 = match size_in_32_bits(out_dims, 0, rank - 1) {
        Some(n) => n,
        None => return None,
    };
    let dense: Vec<u32> = dense_row_major_strides(out_dims, rank);
    if lhs_strides.len() >= rank && rhs_strides.len() >= rank && is_dense(
        lhs_strides,
        &dense,
        rank,
        Ghost(out_dims@),
    ) && is_column_vector(rhs_strides, rank) {
        return Some((rows, cols, true));
    }
    if rhs_strides.len() >= rank && lhs_strides.len() >= rank && is_dense(
        rhs_strides,
        &dense,
        rank,
        Ghost(out_dims@),
    ) && is_column_vector(lhs_strides, rank) {
        return Some((rows, cols, false));
    }
    None
}

/// The same for one value per row.
pub open spec fn row_broadcast(
    rank: nat,
    dims: Seq<u32>,
    lhs: Seq<u32>,
    rhs: Seq<u32>,
) -> Option<(u32, u32, bool)> {
    if rank < 2 || dims.len() < rank || dims[rank - 1] == 0 || size_of(dims, 0, rank - 1)
        > u32::MAX || lhs.len() < rank || rhs.len() < rank {
        None
    } else {
        let rows = size_of(dims, 0, rank - 1) as u32;
        let cols = dims[rank - 1];
        if dense_operand(lhs, dims, rank) && row_vector_operand(rhs, rank as int, dims) {
            Some((rows, cols, true))
        } else if dense_operand(rhs, dims, rank) && row_vector_operand(lhs, rank as int, dims) {
            Some((rows, cols, false))
        } else {
            None
        }
    }
}

pub fn detect_last_axis_row_broadcast(
    rank: u32,
    out_dims: &[u32],
    lhs_strides: &[u32],
    rhs_strides: &[u32],
) -> (r: Option<(u32, u32, bool)>)
    ensures
        r == row_broadcast(rank as nat, out_dims@, lhs_strides@, rhs_strides@),
{
    let rank: usize = rank as usize;
    if rank < 2 || out_dims.len() < rank {
        return None;
    }
    let cols: u32 = out_dims[rank - 1];
    if cols == 0 {
        return None;
    }
    let rows: u32 = match size_in_32_bits(out_dims, 0, rank - 1) {
        Some(n) => n,
        None => return None,
    };
    let dense: Vec<u32> = dense_row_major_strides(out_dims, rank);
    if lhs_strides.len() >= rank && rhs_strides.len() >= rank && is_dense(
        lhs_strides,
        &dense,
        rank,
        Ghost(out_dims@),
    ) && is_row_vector_broadcast(rhs_strides, rank, out_dims) {
        return Some((rows, cols, true));
    }
    if rhs_strides.len() >= rank && lhs_strides.len() >= rank && is_dense(
        rhs_strides,
        &dense,
        rank,
        Ghost(out_dims@),
    ) && is_row_vector_broadcast(lhs_strides, rank, out_dims) {
        return Some((rows, cols, false));
    }
    None
}

/// Whether `axis` is the only one of the first `rank` with a zero stride.
pub open spec fn only_zero(strides: Seq<u32>, rank: int, axis: int) -> bool {
    &&& 0 <= axis < rank
    &&& strides[axis] == 0
    &&& forall|i: int| 0 <= i < rank && i != axis ==> #[trigger] strides[i] != 0
}

/// Rows up to and with the repeated axis, elements behind it, and its size, for a side that
/// repeats along `axis` alone under an output that the other side matches.
pub open spec fn axis_side(
    rank: nat,
    dims: Seq<u32>,
    side: Seq<u32>,
    other: Seq<u32>,
    axis: int,
) -> Option<(u32, u32, u32)> {
    let rows = size_of(dims, 0, axis) * at_least_one(dims[axis]);
    let cols = size_of(dims, axis + 1, dims.len() as int);
    if side.len() >= rank && dense_operand(other, dims, rank) && only_zero(
        side,
        rank as int,
        axis,
    ) && side.take(rank as int) == broadcast_strides(
        dims.take(rank as int).update(axis, 1),
        dims.len(),
    ).take(rank as int) && rows <= u32::MAX && cols <= u32::MAX {
        Some((rows as u32, cols as u32, dims[axis]))
    } else {
        None
    }
}

/// The result for whichever axis it is.
pub open spec fn single_axis_side(
    rank: nat,
    dims: Seq<u32>,
    side: Seq<u32>,
    other: Seq<u32>,
) -> Option<(u32, u32, u32)> {
    if exists|axis: int| (#[trigger] axis_side(rank, dims, side, other, axis)) is Some {
        let axis = choose|axis: int| (#[trigger] axis_side(rank, dims, side, other, axis)) is Some;
        axis_side(rank, dims, side, other, axis)
    } else {
        None
    }
}

proof fn lemma_single_axis(
    rank: nat,
    dims: Seq<u32>,
    side: Seq<u32>,
    other: Seq<u32>,
    axis: int,
)
    requires
        only_zero(side, rank as int, axis),
    ensures
        single_axis_side(rank, dims, side, other) == axis_side(rank, dims, side, other, axis),
{
    assert forall|a: int| (#[trigger] axis_side(rank, dims, side, other, a)) is Some implies a
        == axis by {
        if a != axis {
            assert(side[a] != 0);
        }
    }
    if axis_side(rank, dims, side, other, axis) is Some {
        assert(exists|a: int| (#[trigger] axis_side(rank, dims, side, other, a)) is Some);
    }
}

fn find_single_axis(
    rank: usize,
    out_dims: &[u32],
    dense: &[u32],
    side: &[u32],
    other: &[u32],
) -> (r: Option<(u32, u32, u32)>)
    requires
        2 <= rank <= out_dims@.len(),
        dense@ == dense_strides(out_dims@, rank as nat),
    ensures
        r == single_axis_side(rank as nat, out_dims@, side@, other@),
{
    if side.len() < rank || !is_dense(other, dense, rank, Ghost(out_dims@)) {
        return None;
    }
    let mut axis: usize = rank;
    let mut zeros: usize = 0;
    let mut i: usize = 0;
    while i < rank
        invariant
            i <= rank <= side@.len(),
            zeros <= i,
            zeros == 0 ==> forall|k: int| 0 <= k < i ==> side@[k] != 0,
            zeros == 1 ==> axis < i && only_zero(side@, i as int, axis as int),
            zeros >= 2 ==> exists|a: int, b: int|
                0 <= a < b < i && #[trigger] side@[a] == 0 && #[trigger] side@[b] == 0,
        decreases rank - i,
    {
        if side[i] == 0 {
            proof {
                if zeros == 1 {
                    assert(side@[axis as int] == 0 && side@[i as int] == 0);
                }
            }
            axis = i;
            zeros = zeros + 1;
        }
        i = i + 1;
    }
    if zeros != 1 {
        proof {
            assert forall|a: int|
                (#[trigger] axis_side(
                    rank as nat,
                    out_dims@,
                    side@,
                    other@,
                    a,
                )) is None by {
                if only_zero(side@, rank as int, a) {
                    if zeros >= 2 {
                        let (x, y) = choose|x: int, y: int|
                            0 <= x < y < rank && #[trigger] side@[x] == 0 && #[trigger] side@[y]
                                == 0;
                        assert(side@[x] == 0 && side@[y] == 0);
                    }
                }
            }
        }
        return None;
    }
    proof {
        lemma_single_axis(rank as nat, out_dims@, side@, other@, axis as int);
    }
    let mut in_dims: Vec<u32> = Vec::new();
    let mut j: usize = 0;
    while j < rank
        invariant
            j <= rank <= out_dims@.len(),
            in_dims@ == out_dims@.take(j as int),
        decreases rank - j,
    {
        in_dims.push(out_dims[j]);
        j = j + 1;
        assert(in_dims@ =~= out_dims@.take(j as int));
    }
    in_dims.set(axis, 1);
    let expected: Vec<u32> = broadcast_strides_u32(&in_dims, out_dims);
    if !same_prefix(side, &expected, rank) {
        return None;
    }
    let mid: u32 = out_dims[axis];
    let rows: Option<u32> = size_in_32_bits(out_dims, 0, axis + 1);
    let cols: Option<u32> = size_in_32_bits(out_dims, axis + 1, out_dims.len());
    match (rows, cols) {
        (Some(rows), Some(cols)) => Some((rows, cols, mid)),
        _ => None,
    }
}

/// Exactly one repeated axis on one side; the flag is true where that is the right side.
pub open spec fn single_axis_broadcast(
    rank: nat,
    dims: Seq<u32>,
    lhs: Seq<u32>,
    rhs: Seq<u32>,
) -> Option<(u32, u32, u32, bool)> {
    if rank < 2 || dims.len() < rank {
        None
    } else {
        match single_axis_side(rank, dims, rhs, lhs) {
            Some((rows, cols, mid)) => Some((rows, cols, mid, true)),
            None => match single_axis_side(rank, dims, lhs, rhs) {
                Some((rows, cols, mid)) => Some((rows, cols, mid, false)),
                None => None,
            },
        }
    }
}

pub fn detect_single_axis_broadcast(
    rank: u32,
    out_dims: &[u32],
    lhs_strides: &[u32],
    rhs_strides: &[u32],
) -> (r: Option<(u32, u32, u32, bool)>)
    ensures
        r == single_axis_broadcast(rank as nat, out_dims@, lhs_strides@, rhs_strides@),
{
    let rank: usize = rank as usize;
    if rank < 2 || out_dims.len() < rank {
        return None;
    }
    let dense: Vec<u32> = dense_row_major_strides(out_dims, rank);
    if let Some((rows, cols, mid)) = find_single_axis(
        rank,
        out_dims,
        &dense,
        rhs_strides,
        lhs_strides,
    ) {
        return Some((rows, cols, mid, true));
    }
    if let Some((rows, cols, mid)) = find_single_axis(
        rank,
        out_dims,
        &dense,
        lhs_strides,
        rhs_strides,
    ) {
        return Some((rows, cols, mid, false));
    }
    None
}

/// Elements of an operand: the output's dimensions along which it does not repeat.
pub open spec fn operand_len(strides: Seq<u32>, dims: Seq<u32>, n: int) -> int
    decreases n,
{
    if n <= 0 {
        1
    } else if strides[n - 1] != 0 {
        operand_len(strides, dims, n - 1) * dims[n - 1]
    } else {
        operand_len(strides, dims, n - 1)
    }
}

pub fn inferred_input_len(strides: &[u32], out_dims: &[u32]) -> (r: usize)
    requires
        strides@.len() >= out_dims@.len(),
        forall|n: int|
            0 <= n <= out_dims@.len() ==> #[trigger] operand_len(strides@, out_dims@, n)
                <= usize::MAX,
    ensures
        r == operand_len(strides@, out_dims@, out_dims@.len() as int),
{
    let mut acc: usize = 1;
    let mut d: usize = 0;
    while d < out_dims.len()
        invariant
            d <= out_dims@.len() <= strides@.len(),
            acc == operand_len(strides@, out_dims@, d as int),
            forall|n: int|
                0 <= n <= out_dims@.len() ==> #[trigger] operand_len(strides@, out_dims@, n)
                    <= usize::MAX,
        decreases out_dims@.len() - d,
    {
        assert(operand_len(strides@, out_dims@, d + 1) <= usize::MAX);
        if strides[d] != 0 {
            acc = acc * (out_dims[d] as usize);
        }
        d = d + 1;
    }
    acc
}

/// Where an operand is read for given coordinates of the output.
pub open spec fn read_at(strides: Seq<u32>, coords: Seq<int>, n: int) -> int
    decreases n,
{
    if n <= 0 {
        0
    } else {
        read_at(strides, coords, n - 1) + coords[n - 1] * strides[n - 1]
    }
}

/// A single-value operand is read at its start whatever the coordinates.
pub proof fn lemma_scalar_operand_reads_start(strides: Seq<u32>, coords: Seq<int>, rank: int)
    requires
        0 <= rank <= strides.len(),
        scalar_operand(strides, rank),
    ensures
        read_at(strides, coords, rank) == 0,
    decreases rank,
{
    if rank > 0 {
        assert forall|i: int| 0 <= i < rank - 1 implies #[trigger] strides[i] == 0 by {}
        lemma_scalar_operand_reads_start(strides, coords, rank - 1);
        assert(strides[rank - 1] == 0);
        assert(coords[rank - 1] * 0 == 0);
    }
}

/// An operand with one value per column is read at the column.
pub proof fn lemma_column_operand_reads_column(strides: Seq<u32>, coords: Seq<int>, rank: int)
    requires
        1 <= rank,
        column_operand(strides, rank),
    ensures
        read_at(strides, coords, rank) == coords[rank - 1],
{
    lemma_scalar_operand_reads_start(strides, coords, rank - 1);
    assert(coords[rank - 1] * 1 == coords[rank - 1]);
}

/// The row-major index of coordinates.
pub open spec fn linear_index(dims: Seq<u32>, coords: Seq<int>, n: int) -> int
    decreases n,
{
    if n <= 0 {
        0
    } else {
        linear_index(dims, coords, n - 1) * dims[n - 1] + coords[n - 1]
    }
}

/// The remainder of an output index by the number of columns is the column: what the kernel for
/// one value per column computes is what the strides say.
pub proof fn lemma_column_is_index_modulo_columns(
    dims: Seq<u32>,
    strides: Seq<u32>,
    coords: Seq<int>,
    rank: int,
)
    requires
        1 <= rank <= dims.len(),
        column_operand(strides, rank),
        0 <= coords[rank - 1] < dims[rank - 1],
    ensures
        read_at(strides, coords, rank) == linear_index(dims, coords, rank) % dims[rank - 1] as int,
{
    lemma_column_operand_reads_column(strides, coords, rank);
    let q = linear_index(dims, coords, rank - 1);
    let d = dims[rank - 1] as int;
    let c = coords[rank - 1];
    assert((q * d + c) % d == c) by (nonlinear_arith)
        requires
            0 <= c < d,
    ;
}

/// A detected broadcast side never lies: the side that is reported as repeating does repeat, and
/// the other is laid out like the output.
pub proof fn lemma_detected_sides(
    rank: nat,
    dims: Seq<u32>,
    lhs: Seq<u32>,
    rhs: Seq<u32>,
)
    ensures
        scalar_broadcast(rank, dims, lhs, rhs) == Some(true) ==> dense_operand(lhs, dims, rank)
            && scalar_operand(rhs, rank as int),
        scalar_broadcast(rank, dims, lhs, rhs) == Some(false) ==> dense_operand(rhs, dims, rank)
            && scalar_operand(lhs, rank as int),
        column_broadcast(rank, dims, lhs, rhs) matches Some((rows, cols, true)) ==> dense_operand(
            lhs,
            dims,
            rank,
        ) && column_operand(rhs, rank as int),
        column_broadcast(rank, dims, lhs, rhs) matches Some((rows, cols, false)) ==> dense_operand(
            rhs,
            dims,
            rank,
        ) && column_operand(lhs, rank as int),
{
}

/// Where an operand is read for the output index `i` over the first `n` axes: the index is taken
/// apart from the last axis on.
pub open spec fn offset_for(i: int, dims: Seq<u32>, strides: Seq<u32>, n: int) -> int
    decreases n,
{
    if n <= 0 {
        0
    } else {
        offset_for(i / dims[n - 1] as int, dims, strides, n - 1) + (i % dims[n - 1] as int)
            * strides[n - 1]
    }
}

proof fn lemma_offset_nonnegative(i: int, dims: Seq<u32>, strides: Seq<u32>, n: int)
    requires
        0 <= i,
        forall|k: int| 0 <= k < n ==> #[trigger] dims[k] > 0,
    ensures
        0 <= offset_for(i, dims, strides, n),
    decreases n,
{
    if n > 0 {
        let d = dims[n - 1] as int;
        assert(d > 0);
        assert(0 <= i / d && 0 <= i % d) by (nonlinear_arith)
            requires
                0 <= i,
                d > 0,
        ;
        lemma_offset_nonnegative(i / d, dims, strides, n - 1);
        let c = i % d;
        let s = strides[n - 1] as int;
        assert(0 <= c * s) by (nonlinear_arith)
            requires
                0 <= c,
                0 <= s,
        ;
    }
}

/// Taking an index apart gives back the coordinates that it was made of.
pub proof fn lemma_offset_of_linear_index(
    dims: Seq<u32>,
    strides: Seq<u32>,
    coords: Seq<int>,
    n: int,
)
    requires
        0 <= n,
        forall|k: int| 0 <= k < n ==> 0 <= #[trigger] coords[k] < dims[k],
    ensures
        offset_for(linear_index(dims, coords, n), dims, strides, n) == read_at(strides, coords, n),
    decreases n,
{
    if n > 0 {
        assert forall|k: int| 0 <= k < n - 1 implies 0 <= #[trigger] coords[k] < dims[k] by {}
        lemma_offset_of_linear_index(dims, strides, coords, n - 1);
        let q = linear_index(dims, coords, n - 1);
        let d = dims[n - 1] as int;
        let c = coords[n - 1];
        assert(0 <= c < d);
        assert((q * d + c) % d == c && (q * d + c) / d == q) by (nonlinear_arith)
            requires
                0 <= c < d,
        ;
    }
}

/// The offset at which an operand is read for an output index.
pub fn broadcast_offset(index: usize, rank: usize, out_dims: &[u32], strides: &[u32]) -> (r: usize)
    requires
        rank <= out_dims@.len(),
        rank <= strides@.len(),
        forall|k: int| 0 <= k < rank ==> #[trigger] out_dims@[k] > 0,
        offset_for(index as int, out_dims@, strides@, rank as int) <= usize::MAX,
    ensures
        r == offset_for(index as int, out_dims@, strides@, rank as int),
{
    let mut rem: usize = index;
    let mut at: usize = 0;
    let mut ax: usize = rank;
    let ghost whole = offset_for(index as int, out_dims@, strides@, rank as int);
    while ax > 0
        invariant
            ax <= rank <= out_dims@.len(),
            rank <= strides@.len(),
            forall|k: int| 0 <= k < rank ==> #[trigger] out_dims@[k] > 0,
            whole == at + offset_for(rem as int, out_dims@, strides@, ax as int),
            whole <= usize::MAX,
        decreases ax,
    {
        ax = ax - 1;
        let size: usize = out_dims[ax] as usize;
        assert(out_dims@[ax as int] > 0);
        let coord: usize = rem % size;
        proof {
            let s = strides@[ax as int] as int;
            lemma_offset_nonnegative(rem as int / size as int, out_dims@, strides@, ax as int);
            assert(0 <= coord * s) by (nonlinear_arith)
                requires
                    0 <= s,
            ;
        }
        rem = rem / size;
        at = at + coord * (strides[ax] as usize);
    }
    at
}

/// For every output element, where the two operands are read.
pub fn broadcast_pairs(
    out_len: usize,
    rank: usize,
    out_dims: &[u32],
    lhs_strides: &[u32],
    rhs_strides: &[u32],
) -> (r: Vec<(usize, usize)>)
    requires
        rank <= out_dims@.len(),
        rank <= lhs_strides@.len(),
        rank <= rhs_strides@.len(),
        forall|k: int| 0 <= k < rank ==> #[trigger] out_dims@[k] > 0,
        forall|i: int|
            0 <= i < out_len ==> #[trigger] offset_for(i, out_dims@, lhs_strides@, rank as int)
                <= usize::MAX,
        forall|i: int|
            0 <= i < out_len ==> #[trigger] offset_for(i, out_dims@, rhs_strides@, rank as int)
                <= usize::MAX,
    ensures
        r@.len() == out_len,
        forall|i: int|
            0 <= i < out_len ==> (#[trigger] r@[i]).0 == offset_for(
                i,
                out_dims@,
                lhs_strides@,
                rank as int,
            ) && r@[i].1 == offset_for(i, out_dims@, rhs_strides@, rank as int),
{
    let mut out: Vec<(usize, usize)> = Vec::new();
    let mut i: usize = 0;
    while i < out_len
        invariant
            i <= out_len,
            rank <= out_dims@.len(),
            rank <= lhs_strides@.len(),
            rank <= rhs_strides@.len(),
            forall|k: int| 0 <= k < rank ==> #[trigger] out_dims@[k] > 0,
            forall|i: int|
                0 <= i < out_len ==> #[trigger] offset_for(
                    i,
                    out_dims@,
                    lhs_strides@,
                    rank as int,
                ) <= usize::MAX,
            forall|i: int|
                0 <= i < out_len ==> #[trigger] offset_for(
                    i,
                    out_dims@,
                    rhs_strides@,
                    rank as int,
                ) <= usize::MAX,
            out@.len() == i,
            forall|k: int|
                0 <= k < i ==> (#[trigger] out@[k]).0 == offset_for(
                    k,
                    out_dims@,
                    lhs_strides@,
                    rank as int,
                ) && out@[k].1 == offset_for(k, out_dims@, rhs_strides@, rank as int),
        decreases out_len - i,
    {
        let l: usize = broadcast_offset(i, rank, out_dims, lhs_strides);
        let r: usize = broadcast_offset(i, rank, out_dims, rhs_strides);
        out.push((l, r));
        i = i + 1;
    }
    out
}

} // verus!
