//! Detected transposes: what the strides read is the tensor with two axes exchanged.

use vstd::prelude::*;

use crate::command::sat_mul;
use crate::encode::broadcast::{
    at_least_one, dense_stride, dense_strides, linear_index, read_at, size_of,
};
use crate::encode::shape::{last2_swap, middle_swap, swapped_stride};
use crate::laws::broadcasting::{
    countable, lemma_dense_reads_in_order, lemma_dense_stride, lemma_size_split, lemma_size_tail,
};

verus! {

/// A sequence with its last two exchanged.
pub open spec fn exchanged<A>(s: Seq<A>) -> Seq<A> {
    let n = s.len() as int;
    s.update(n - 2, s[n - 1]).update(n - 1, s[n - 2])
}

proof fn lemma_swapped_stride(dims: Seq<u32>, axis: int)
    requires
        dims.len() >= 3,
        0 <= axis <= dims.len() - 3,
        countable(exchanged(dims), dims.len() as int),
    ensures
        swapped_stride(dims, axis) == dense_stride(exchanged(dims), dims.len() as int, axis),
    decreases dims.len() - axis,
{
    let rank = dims.len() as int;
    let e = exchanged(dims);
    lemma_dense_stride(e, rank, axis);
    assert(e[rank - 2] > 0 && e[rank - 1] > 0);
    if axis == rank - 3 {
        lemma_dense_stride(e, rank, rank - 2);
        assert(dense_stride(e, rank, rank - 1) == 1);
        assert(dense_stride(e, rank, rank - 2) == sat_mul(1, at_least_one(e[rank - 1])));
        let a = dims[rank - 2];
        let b = dims[rank - 1];
        assert(dense_stride(e, rank, rank - 2) == a);
        assert(dense_stride(e, rank, rank - 3) == sat_mul(a, b));
    } else {
        lemma_swapped_stride(dims, axis + 1);
        assert(e[axis + 1] == dims[axis + 1]);
        assert(e[axis + 1] > 0);
    }
}

proof fn lemma_same_terms(a: Seq<u32>, b: Seq<u32>, c: Seq<int>, d: Seq<int>, n: int)
    requires
        0 <= n,
        forall|k: int| 0 <= k < n ==> #[trigger] a[k] == b[k],
        forall|k: int| 0 <= k < n ==> #[trigger] c[k] == d[k],
    ensures
        read_at(a, c, n) == read_at(b, d, n),
    decreases n,
{
    if n > 0 {
        lemma_same_terms(a, b, c, d, n - 1);
        assert(a[n - 1] == b[n - 1]);
        assert(c[n - 1] == d[n - 1]);
    }
}

/// Where a swap of the last two axes is found, the operand read at a position of the result is its
/// element at that position with the last two coordinates exchanged, and batch, rows and columns are
/// the extents of the operand.
pub proof fn lemma_last_axes_exchanged(dims: Seq<u32>, strides: Seq<u32>, coords: Seq<int>)
    requires
        last2_swap(dims, strides) is Some,
        countable(exchanged(dims), dims.len() as int),
        coords.len() == dims.len(),
    ensures
        read_at(strides, coords, dims.len() as int) == linear_index(
            exchanged(dims),
            exchanged(coords),
            dims.len() as int,
        ),
        ({
            let (batch, rows, cols) = last2_swap(dims, strides)->0;
            let e = exchanged(dims);
            &&& rows == e[e.len() - 2]
            &&& cols == e[e.len() - 1]
            &&& batch * rows * cols == size_of(e, 0, e.len() as int)
        }),
{
    let rank = dims.len() as int;
    let e = exchanged(dims);
    let f = exchanged(coords);
    let d = dense_strides(e, rank as nat);
    assert forall|k: int| 0 <= k < rank - 2 implies #[trigger] strides[k] == d[k] by {
        lemma_swapped_stride(dims, k);
        assert(strides[k] == swapped_stride(dims, k));
    }
    lemma_same_terms(strides, d, coords, f, rank - 2);
    lemma_dense_reads_in_order(e, f, rank as nat, rank);
    assert(e[rank - 1] > 0 && e[rank - 2] > 0);
    assert(dense_stride(e, rank, rank - 1) == 1);
    assert(dense_stride(e, rank, rank - 2) == dims[rank - 2]);
    reveal_with_fuel(read_at, 3);
    let a = coords[rank - 2];
    let b = coords[rank - 1];
    let w = dims[rank - 2] as int;
    assert(a * 1 == a);
    assert(read_at(strides, coords, rank) == read_at(strides, coords, rank - 2) + a + b * w);
    assert(read_at(d, f, rank) == read_at(d, f, rank - 2) + b * w + a);
    lemma_same_sizes(dims, e, rank - 2);
    lemma_size_tail(e, 0, 0, rank - 2);
    let t = size_of(e, 0, rank - 2);
    reveal_with_fuel(size_of, 3);
    let r = e[rank - 2] as int;
    let c = e[rank - 1] as int;
    assert(size_of(e, 0, rank) == t * r * c);
    assert(t <= t * r * c) by (nonlinear_arith)
        requires
            t >= 1,
            r >= 1,
            c >= 1,
    ;
}

proof fn lemma_same_sizes(a: Seq<u32>, b: Seq<u32>, n: int)
    requires
        0 <= n,
        forall|k: int| 0 <= k < n ==> #[trigger] a[k] == b[k],
    ensures
        size_of(a, 0, n) == size_of(b, 0, n),
    decreases n,
{
    if n > 0 {
        lemma_same_sizes(a, b, n - 1);
        assert(a[n - 1] == b[n - 1]);
    }
}

/// Where a swap of the two middle axes is found, the operand read at a position of the result is its
/// element at that position with the two middle coordinates exchanged.
pub proof fn lemma_middle_axes_exchanged(
    dims: Seq<u32>,
    strides: Seq<u32>,
    b: int,
    r: int,
    c: int,
    t: int,
)
    requires
        middle_swap(dims, strides) is Some,
        dims[2] * dims[1] * dims[3] <= u32::MAX,
    ensures
        read_at(strides, seq![b, r, c, t], 4) == linear_index(
            seq![dims[0], dims[2], dims[1], dims[3]],
            seq![b, c, r, t],
            4,
        ),
        middle_swap(dims, strides) == Some((dims[0], dims[1], dims[2], dims[3])),
{
    reveal_with_fuel(read_at, 5);
    reveal_with_fuel(linear_index, 5);
    let p = dims[1] as int;
    let q = dims[2] as int;
    let w = dims[3] as int;
    assert(q * p <= u32::MAX && p * w <= u32::MAX) by (nonlinear_arith)
        requires
            q * p * w <= u32::MAX,
            p >= 1,
            q >= 1,
            w >= 1,
    ;
    assert(sat_mul(dims[2], dims[1]) == q * p);
    let m = b * q;
    assert((m + c) * p == m * p + c * p) by (nonlinear_arith);
    assert(m * p == b * (q * p)) by (nonlinear_arith)
        requires
            m == b * q,
    ;
    let x = q * p;
    let y = c * p;
    let z = b * x;
    assert((z + y + r) * w == z * w + y * w + r * w) by (nonlinear_arith);
    assert(z * w == b * (x * w)) by (nonlinear_arith)
        requires
            z == b * x,
    ;
    assert(y * w == c * (p * w)) by (nonlinear_arith)
        requires
            y == c * p,
    ;
}

/// A tensor read with its last two axes exchanged is found to be one, whatever its rank from three on.
pub proof fn lemma_exchange_is_found(dims: Seq<u32>)
    requires
        dims.len() >= 3,
        countable(exchanged(dims), dims.len() as int),
    ensures
        last2_swap(dims, exchanged(dense_strides(exchanged(dims), dims.len()))) is Some,
{
    let rank = dims.len() as int;
    let e = exchanged(dims);
    let strides = exchanged(dense_strides(e, dims.len()));
    assert forall|i: int| 0 <= i <= rank - 3 implies #[trigger] strides[i] == swapped_stride(
        dims,
        i,
    ) by {
        lemma_swapped_stride(dims, i);
    }
    assert(e[rank - 1] > 0 && e[rank - 2] > 0);
    assert(dense_stride(e, rank, rank - 1) == 1);
    assert(e[rank - 1] == dims[rank - 2]);
    let w = dims[rank - 2];
    assert(w > 0);
    assert(at_least_one(e[rank - 1]) == w);
    assert(1 * w == w) by (nonlinear_arith);
    assert(sat_mul(1, w) == w);
    assert(dense_stride(e, rank, rank - 2) == w);
    lemma_same_sizes(dims, e, rank - 2);
    lemma_size_tail(e, 0, 0, rank - 2);
    let t = size_of(e, 0, rank - 2);
    reveal_with_fuel(size_of, 3);
    let r = e[rank - 2] as int;
    let c = e[rank - 1] as int;
    assert(size_of(e, 0, rank) == t * r * c);
    assert(t <= t * r * c) by (nonlinear_arith)
        requires
            t >= 1,
            r >= 1,
            c >= 1,
    ;
}

} // verus!
