//! Products with packed matrices, one per token or one per expert: the kernel reads the scheme's
//! blocks, the token's row and its expert's matrix, and leaves the token's row of the result.

use vstd::prelude::*;

use crate::command::{div_up, low_word, one_row, plane, Buf, Cmd, Kernel, MatmulBt, Order};
use crate::encode::grouped::{
    all_singleton, block_count, expert_steps, experts_steps, lemma_packed_offsets,
    lemma_row_offset, lemma_slab_nonnegative, lemma_slab_offset, packed_in, packed_out, path_of,
    rows_kernel, rows_of, rows_possible, simd_q4k, slab_size, sorted_offsets, sorted_operands_fit,
    sorted_steps, token_operands_fit, token_steps, unpack_steps, vector_steps, GroupedFlags,
    GroupedPath, GroupedShape,
};
use crate::encode::quant::{
    gemv_steps, grid_gemv_steps, rows_gemm_steps, simd_gemv_steps, simd_threads, PackedFormat,
};
use crate::launch::{
    behind, group_launches, launch, launches, launches_once, lemma_behind_keeps,
    lemma_behind_kernel, lemma_launches_append, Launch,
};

verus! {

/// The scheme whose blocks a kernel reads.
pub open spec fn scheme_read(kernel: Kernel) -> PackedFormat {
    match kernel {
        Kernel::Q80MvF32 | Kernel::Q80MvF32Sg => PackedFormat::Q8,
        Kernel::Q40MvF32 | Kernel::Q40MvF32Sg => PackedFormat::Q4,
        Kernel::Q4kMvF32 | Kernel::Q4kMvF32Sg | Kernel::Q4kMmF32 => PackedFormat::Q4K,
        Kernel::Q6kMvF32 | Kernel::Q6kMvF32Sg | Kernel::Q6kMmF32 => PackedFormat::Q6K,
        _ => PackedFormat::Other,
    }
}

/// Kernels that take several rows at once, and their count in front of the inner dimension.
pub open spec fn takes_rows(kernel: Kernel) -> bool {
    kernel == Kernel::Q4kMmF32 || kernel == Kernel::Q6kMmF32
}

/// A launch that multiplies `rows` vectors of `k` floats from byte `x` on with the packed matrix at
/// byte `w`, and leaves as many vectors of `n` floats from byte `y` on.
pub open spec fn multiplies_packed(
    l: Launch,
    x: int,
    w: int,
    y: int,
    rows: usize,
    k: usize,
    n: usize,
) -> bool {
    &&& l.kernel() is Some
    &&& l.place(0) == Some((Buf::Arena, 0u64))
    &&& l.long(1) is Some && l.long(1)->0 == x
    &&& l.long(2) is Some && l.long(2)->0 == w
    &&& l.long(3) is Some && l.long(3)->0 == y
    &&& if takes_rows(l.kernel()->0) {
        &&& l.word(4) == Some(low_word(rows as u64))
        &&& l.word(5) == Some(low_word(k as u64))
        &&& l.word(6) == Some(low_word(n as u64))
    } else {
        &&& rows == 1
        &&& l.word(4) == Some(low_word(k as u64))
        &&& l.word(5) == Some(low_word(n as u64))
    }
}

/// A product with one vector has a thread per output, or a simdgroup per few outputs: no output is
/// left out.
pub proof fn lemma_vector_product(
    kernel: Kernel,
    x: usize,
    w: usize,
    y: usize,
    k: usize,
    n: usize,
)
    requires
        !takes_rows(kernel),
    ensures
        launches_once(gemv_steps(kernel, x, w, y, k, n)),
        launch(gemv_steps(kernel, x, w, y, k, n)).kernel() == Some(kernel),
        multiplies_packed(launch(gemv_steps(kernel, x, w, y, k, n)), x as int, w as int, y as int, 1, k, n),
        launch(gemv_steps(kernel, x, w, y, k, n)).threads() == Some(one_row(n as u64)),
        launches_once(grid_gemv_steps(kernel, x, w, y, k, n)),
        launch(grid_gemv_steps(kernel, x, w, y, k, n)).kernel() == Some(kernel),
        multiplies_packed(launch(grid_gemv_steps(kernel, x, w, y, k, n)), x as int, w as int, y as int, 1, k, n),
        launch(grid_gemv_steps(kernel, x, w, y, k, n)).place(6) == Some((Buf::IqGrid, 0u64)),
        launch(grid_gemv_steps(kernel, x, w, y, k, n)).threads() == Some(one_row(n as u64)),
{
    broadcast use group_launches;

}

/// Simdgroups of 32 threads, each with `rows` outputs, `nsg` of them in a threadgroup: together they
/// reach every output, and fewer threadgroups would not.
pub proof fn lemma_simdgroups_reach(n: usize, nsg: u64, rows: u64)
    requires
        0 < nsg <= 8,
        0 < rows <= 8,
        n + 64 <= usize::MAX,
    ensures
        simd_threads(n, nsg, rows) % 32 == 0,
        simd_threads(n, nsg, rows) % (nsg * 32) == 0,
        n <= simd_threads(n, nsg, rows) / 32 * rows,
        simd_threads(n, nsg, rows) / 32 * rows < n + rows * nsg,
{
    let a = div_up(n as u64, rows) as int;
    let b = div_up(a as u64, nsg) as int;
    let t = simd_threads(n, nsg, rows);
    lemma_round_up(n as int, rows as int);
    lemma_round_up(a, nsg as int);
    assert(a <= n + 7) by (nonlinear_arith)
        requires
            a * rows < n + rows,
            0 < rows <= 8,
            0 <= n,
    ;
    assert(t == b * nsg * 32);
    assert(t / 32 == b * nsg);
    assert(b * nsg * 32 == b * (nsg * 32)) by (nonlinear_arith);
    vstd::arithmetic::div_mod::lemma_mod_multiples_basic(b, nsg * 32);
    assert(n <= (b * nsg) * rows) by (nonlinear_arith)
        requires
            n <= a * rows,
            a <= b * nsg,
            0 < rows,
    ;
    assert((b * nsg) * rows < n + rows * nsg) by (nonlinear_arith)
        requires
            a * rows < n + rows,
            b * nsg < a + nsg,
            0 < rows,
            0 < nsg,
    ;
}

proof fn lemma_round_up(a: int, b: int)
    requires
        0 <= a,
        0 < b <= 8,
        a + b <= u64::MAX,
    ensures
        a <= div_up(a as u64, b as u64) * b < a + b,
        0 <= div_up(a as u64, b as u64) <= a,
{
    let q = (a + b - 1) / b;
    vstd::arithmetic::div_mod::lemma_fundamental_div_mod(a + b - 1, b);
    assert(q * b == b * q) by (nonlinear_arith);
    vstd::arithmetic::div_mod::lemma_mod_bound(a + b - 1, b);
    assert(0 <= q <= a) by (nonlinear_arith)
        requires
            a <= q * b < a + b,
            0 < b,
            0 <= a,
    ;
}

/// A simdgroup product is handed what the plain one is.
pub proof fn lemma_simdgroup_product(
    kernel: Kernel,
    x: usize,
    w: usize,
    y: usize,
    k: usize,
    n: usize,
    nsg: u64,
    rows: u64,
)
    requires
        !takes_rows(kernel),
    ensures
        launches_once(simd_gemv_steps(kernel, x, w, y, k, n, nsg, rows)),
        launch(simd_gemv_steps(kernel, x, w, y, k, n, nsg, rows)).kernel() == Some(kernel),
        multiplies_packed(
            launch(simd_gemv_steps(kernel, x, w, y, k, n, nsg, rows)),
            x as int,
            w as int,
            y as int,
            1,
            k,
            n,
        ),
        launch(simd_gemv_steps(kernel, x, w, y, k, n, nsg, rows)).threads() == Some(
            one_row(simd_threads(n, nsg, rows) as u64),
        ),
{
    broadcast use group_launches;

}

/// A product with several rows has a thread per output column and eight rows.
pub proof fn lemma_rows_product(
    kernel: Kernel,
    x: usize,
    w: usize,
    y: usize,
    m: usize,
    k: usize,
    n: usize,
)
    ensures
        ({
            let l = launch(rows_gemm_steps(kernel, x, w, y, m, k, n));
            &&& launches_once(rows_gemm_steps(kernel, x, w, y, m, k, n))
            &&& l.kernel() == Some(kernel)
            &&& l.place(0) == Some((Buf::Arena, 0u64))
            &&& l.long(1) == Some(x as u64)
            &&& l.long(2) == Some(w as u64)
            &&& l.long(3) == Some(y as u64)
            &&& l.word(4) == Some(low_word(m as u64))
            &&& l.word(5) == Some(low_word(k as u64))
            &&& l.word(6) == Some(low_word(n as u64))
            &&& takes_rows(kernel) ==> multiplies_packed(l, x as int, w as int, y as int, m, k, n)
            &&& l.threads() is Some
            &&& (l.threads()->0).width == n
            &&& m + 8 <= usize::MAX ==> m <= (l.threads()->0).height * 8 < m + 8
            &&& (l.threads()->0).depth == 1
        }),
{
    broadcast use group_launches;

    if m + 8 <= usize::MAX {
        lemma_round_up(m as int, 8);
    }
}

/// One vector times one expert's matrix is a single launch that reads the blocks of the scheme.
pub proof fn lemma_vector_steps(s: GroupedShape, f: GroupedFlags, x: usize, w: usize, y: usize)
    ensures
        launches_once(vector_steps(s, f, x, w, y)),
        multiplies_packed(
            launch(vector_steps(s, f, x, w, y)),
            x as int,
            w as int,
            y as int,
            1,
            s.k_dim,
            s.n,
        ),
        s.scheme == PackedFormat::Q4 || s.scheme == PackedFormat::Q8 || s.scheme == PackedFormat::Q4K
            || s.scheme == PackedFormat::Q6K ==> scheme_read(
            launch(vector_steps(s, f, x, w, y)).kernel()->0,
        ) == s.scheme,
        launch(vector_steps(s, f, x, w, y)).kernel() == Some(Kernel::Q4kMvF32Sg) <==> simd_q4k(s, f),
{
    match s.scheme {
        PackedFormat::Q8 => lemma_vector_product(Kernel::Q80MvF32, x, w, y, s.k_dim, s.n),
        PackedFormat::Q4 => lemma_vector_product(Kernel::Q40MvF32, x, w, y, s.k_dim, s.n),
        PackedFormat::Q4K => {
            lemma_vector_product(Kernel::Q4kMvF32, x, w, y, s.k_dim, s.n);
            lemma_simdgroup_product(Kernel::Q4kMvF32Sg, x, w, y, s.k_dim, s.n, 4, 2);
        },
        _ => lemma_rows_product(Kernel::Q6kMmF32, x, w, y, 1, s.k_dim, s.n),
    }
}

proof fn lemma_packed_behind(
    a: Seq<Cmd>,
    l: Launch,
    x: int,
    w: int,
    y: int,
    rows: usize,
    k: usize,
    n: usize,
)
    requires
        multiplies_packed(l, x, w, y, rows, k, n),
    ensures
        multiplies_packed(behind(a, l), x, w, y, rows, k, n),
        behind(a, l).kernel() == l.kernel(),
{
    broadcast use {lemma_behind_keeps, lemma_behind_kernel};

}

proof fn lemma_token_offsets(
    s: GroupedShape,
    input: usize,
    w_q: usize,
    dst: usize,
    experts: Seq<usize>,
    r: int,
)
    requires
        token_operands_fit(s, input, w_q, dst, experts),
        0 <= r < s.m,
    ensures
        0 <= input + r * s.k_dim * 4 <= usize::MAX,
        0 <= dst + r * s.n * 4 <= usize::MAX,
        0 <= w_q + experts[r] * slab_size(s) <= usize::MAX,
{
    lemma_slab_nonnegative(s);
    lemma_row_offset(input as int, r, s.k_dim as int, s.m as int);
    lemma_row_offset(dst as int, r, s.n as int, s.m as int);
    lemma_slab_offset(w_q as int, experts[r] as int, slab_size(s), s.num_experts as int);
}

/// Token by token, there is one launch per token, in order. That of token `r` reads the token's own
/// row of the input and the matrix of the token's own expert, and leaves its result in the token's
/// own row of the output.
pub proof fn lemma_token_rows(
    s: GroupedShape,
    f: GroupedFlags,
    input: usize,
    w_q: usize,
    dst: usize,
    experts: Seq<usize>,
    rows: int,
)
    requires
        token_operands_fit(s, input, w_q, dst, experts),
        0 <= rows <= s.m,
    ensures
        launches(token_steps(s, f, input, w_q, dst, experts, rows)).len() == rows,
        forall|r: int|
            0 <= r < rows ==> multiplies_packed(
                #[trigger] launches(token_steps(s, f, input, w_q, dst, experts, rows))[r],
                input + r * s.k_dim * 4,
                w_q + experts[r] * slab_size(s),
                dst + r * s.n * 4,
                1,
                s.k_dim,
                s.n,
            ),
        forall|r: int|
            0 <= r < rows && rows_possible(s.scheme, s.k_dim, f) ==> scheme_read(
                (#[trigger] launches(token_steps(s, f, input, w_q, dst, experts, rows))[r]).kernel()->0,
            ) == s.scheme,
    decreases rows,
{
    if rows > 0 {
        let q = rows - 1;
        lemma_token_rows(s, f, input, w_q, dst, experts, q);
        lemma_token_offsets(s, input, w_q, dst, experts, q);
        let a = token_steps(s, f, input, w_q, dst, experts, q);
        let x = (input + q * s.k_dim * 4) as usize;
        let w = (w_q + experts[q] * slab_size(s)) as usize;
        let y = (dst + q * s.n * 4) as usize;
        let b = vector_steps(s, f, x, w, y);
        lemma_vector_steps(s, f, x, w, y);
        lemma_launches_append(a, b);
        assert(launches(b)[0] == launch(b));
        assert(launches(a + b)[q] == behind(a, launch(b)));
        lemma_packed_behind(a, launch(b), x as int, w as int, y as int, 1, s.k_dim, s.n);
        assert forall|r: int| 0 <= r < rows implies multiplies_packed(
            #[trigger] launches(token_steps(s, f, input, w_q, dst, experts, rows))[r],
            input + r * s.k_dim * 4,
            w_q + experts[r] * slab_size(s),
            dst + r * s.n * 4,
            1,
            s.k_dim,
            s.n,
        ) by {
            if r < q {
                assert(launches(a + b)[r] == launches(a)[r]);
            }
        }
        assert forall|r: int| 0 <= r < rows && rows_possible(s.scheme, s.k_dim, f) implies scheme_read(
            (#[trigger] launches(token_steps(s, f, input, w_q, dst, experts, rows))[r]).kernel()->0,
        ) == s.scheme by {
            if r < q {
                assert(launches(a + b)[r] == launches(a)[r]);
            }
        }
    }
}

/// The byte at which a launch reads its vector, and at which it leaves its result.
pub open spec fn reads_from(l: Launch) -> int {
    l.long(1)->0 as int
}

pub open spec fn writes_from(l: Launch) -> int {
    l.long(3)->0 as int
}

/// The results of the tokens lie one behind the other: no two overlap, there is no gap, and together
/// they are the whole output. The same holds of what is read.
pub proof fn lemma_token_rows_partition(
    s: GroupedShape,
    f: GroupedFlags,
    input: usize,
    w_q: usize,
    dst: usize,
    experts: Seq<usize>,
    r: int,
    q: int,
)
    requires
        token_operands_fit(s, input, w_q, dst, experts),
        0 <= r < q < s.m,
    ensures
        ({
            let ls = launches(token_steps(s, f, input, w_q, dst, experts, s.m as int));
            &&& ls.len() == s.m
            &&& writes_from(ls[r]) + s.n * 4 <= writes_from(ls[q])
            &&& reads_from(ls[r]) + s.k_dim * 4 <= reads_from(ls[q])
            &&& q == r + 1 ==> writes_from(ls[r]) + s.n * 4 == writes_from(ls[q])
            &&& q == r + 1 ==> reads_from(ls[r]) + s.k_dim * 4 == reads_from(ls[q])
            &&& r == 0 ==> writes_from(ls[r]) == dst && reads_from(ls[r]) == input
            &&& q == s.m - 1 ==> writes_from(ls[q]) + s.n * 4 == dst + s.m * s.n * 4
            &&& q == s.m - 1 ==> reads_from(ls[q]) + s.k_dim * 4 == input + s.m * s.k_dim * 4
        }),
{
    let ls = launches(token_steps(s, f, input, w_q, dst, experts, s.m as int));
    lemma_token_rows(s, f, input, w_q, dst, experts, s.m as int);
    assert(multiplies_packed(
        ls[r],
        input + r * s.k_dim * 4,
        w_q + experts[r] * slab_size(s),
        dst + r * s.n * 4,
        1,
        s.k_dim,
        s.n,
    ));
    assert(multiplies_packed(
        ls[q],
        input + q * s.k_dim * 4,
        w_q + experts[q] * slab_size(s),
        dst + q * s.n * 4,
        1,
        s.k_dim,
        s.n,
    ));
    lemma_consecutive(r, q, s.n as int);
    lemma_consecutive(r, q, s.k_dim as int);
    lemma_consecutive(q, q + 1, s.n as int);
    lemma_consecutive(q, q + 1, s.k_dim as int);
}

proof fn lemma_consecutive(r: int, q: int, width: int)
    requires
        r < q,
        0 <= width,
    ensures
        r * width + width <= q * width,
        q == r + 1 ==> r * width + width == q * width,
        r == 0 ==> r * width == 0,
{
    assert(r * width + width <= q * width) by (nonlinear_arith)
        requires
            r < q,
            0 <= width,
    ;
    assert((r + 1) * width == r * width + width) by (nonlinear_arith);
}

/// Unpacking a matrix reads it where it lies, leaves floats from the target on, counted in floats,
/// and has a thread per block.
pub proof fn lemma_unpack(w_q: usize, dst: usize, scheme_id: u32, blocks: int)
    ensures
        ({
            let l = launch(unpack_steps(w_q, dst, scheme_id, blocks));
            &&& launches_once(unpack_steps(w_q, dst, scheme_id, blocks))
            &&& l.kernel() == Some(Kernel::DequantGguf)
            &&& l.place(0) == Some((Buf::Arena, 0u64))
            &&& l.long(1) == Some(w_q as u64)
            &&& l.long(2) is Some && l.long(2)->0 == dst / 4
            &&& l.word(3) == Some(scheme_id)
            &&& l.word(4) == Some(low_word(blocks as u64))
            &&& l.place(5) == Some((Buf::IqGrid, 0u64))
            &&& l.threads() == Some(one_row(blocks as u64))
        }),
{
    broadcast use group_launches;

}

/// What one expert's part does with the expert's rows of the sorted tokens: nothing without a token;
/// a fused product of those rows with the expert's matrix; or the matrix unpacked into scratch and
/// multiplied by the vendor's product. The inputs are the rows from the expert's start on, the
/// outputs lie in the same rows of the result.
pub proof fn lemma_expert(
    s: GroupedShape,
    f: GroupedFlags,
    scratch: usize,
    w_q: usize,
    offsets: Seq<usize>,
    e: int,
)
    requires
        sorted_operands_fit(s, scratch, w_q, offsets),
        0 <= e < s.num_experts,
    ensures
        ({
            let path = path_of(s, f, all_singleton(offsets, s.num_experts as int));
            let t = expert_steps(s, f, path, scratch, w_q, offsets, e);
            let x = packed_in(s, scratch as int) + offsets[e] * s.k_dim * 4;
            let w = w_q + e * slab_size(s);
            let y = packed_out(s, scratch as int) + offsets[e] * s.n * 4;
            let count = rows_of(offsets, e);
            &&& 0 <= count <= s.m
            &&& count == 0 ==> t.len() == 0
            &&& count > 0 ==> launches_once(t)
            &&& count > 0 && path != GroupedPath::Unpack ==> {
                &&& multiplies_packed(launch(t), x, w, y, count as usize, s.k_dim, s.n)
                &&& scheme_read(launch(t).kernel()->0) == s.scheme
                &&& forall|i: int| 0 <= i < t.len() ==> !(#[trigger] t[i] is VendorMatmulBt)
            }
            &&& count > 0 && path == GroupedPath::Unpack ==> {
                let l = launch(t);
                &&& l.kernel() == Some(Kernel::DequantGguf)
                &&& l.long(1) is Some && l.long(1)->0 == w
                &&& l.long(2) is Some && l.long(2)->0 == scratch / 4
                &&& l.word(3) == Some(s.scheme_id)
                &&& l.word(4) == Some(low_word(block_count(s) as u64))
                &&& t.last() == Cmd::VendorMatmulBt(
                    MatmulBt {
                        a: x as usize,
                        b: scratch,
                        c: y as usize,
                        m: count as usize,
                        k: s.k_dim,
                        n: s.n,
                    },
                )
            }
        }),
{
    let path = path_of(s, f, all_singleton(offsets, s.num_experts as int));
    let t = expert_steps(s, f, path, scratch, w_q, offsets, e);
    let count = rows_of(offsets, e);
    assert(offsets[e] <= offsets[e + 1]);
    assert(offsets[e + 1] <= offsets[s.num_experts as int]);
    lemma_packed_offsets(s, scratch, offsets[e] as int);
    lemma_slab_nonnegative(s);
    lemma_slab_offset(w_q as int, e, slab_size(s), s.num_experts as int);
    let x = (packed_in(s, scratch as int) + offsets[e] * s.k_dim * 4) as usize;
    let y = (packed_out(s, scratch as int) + offsets[e] * s.n * 4) as usize;
    let w = (w_q + e * slab_size(s)) as usize;
    if count > 0 {
        match path {
            GroupedPath::Vectors => {
                assert(rows_of(offsets, e) <= 1);
                lemma_vector_steps(s, f, x, w, y);
            },
            GroupedPath::Rows => {
                lemma_rows_product(rows_kernel(s.scheme), x, w, y, count as usize, s.k_dim, s.n);
            },
            GroupedPath::Unpack => {
                lemma_unpacked(w, scratch, s.scheme_id, block_count(s), t.last());
            },
        }
    }
}

proof fn lemma_unpacked(w: usize, scratch: usize, scheme_id: u32, blocks: int, vendor: Cmd)
    requires
        vendor is VendorMatmulBt,
    ensures
        ({
            let t = seq![Cmd::Begin(Order::Serial)] + unpack_steps(w, scratch, scheme_id, blocks)
                + seq![Cmd::End, vendor];
            let l = launch(t);
            &&& launches_once(t)
            &&& l.kernel() == Some(Kernel::DequantGguf)
            &&& l.long(1) is Some && l.long(1)->0 == w
            &&& l.long(2) is Some && l.long(2)->0 == scratch / 4
            &&& l.word(3) == Some(scheme_id)
            &&& l.word(4) == Some(low_word(blocks as u64))
        }),
{
    broadcast use group_launches;

}

/// Every expert's part stands in the stream of the sorted product, in the order of the experts.
pub proof fn lemma_experts_in_order(
    s: GroupedShape,
    f: GroupedFlags,
    path: GroupedPath,
    scratch: usize,
    w_q: usize,
    offsets: Seq<usize>,
    e: int,
    upto: int,
)
    requires
        0 <= e < upto,
    ensures
        experts_steps(s, f, path, scratch, w_q, offsets, e + 1).is_prefix_of(
            experts_steps(s, f, path, scratch, w_q, offsets, upto),
        ),
        experts_steps(s, f, path, scratch, w_q, offsets, e + 1) == experts_steps(
            s,
            f,
            path,
            scratch,
            w_q,
            offsets,
            e,
        ) + expert_steps(s, f, path, scratch, w_q, offsets, e),
    decreases upto,
{
    let a = experts_steps(s, f, path, scratch, w_q, offsets, e + 1);
    if e + 1 < upto {
        lemma_experts_in_order(s, f, path, scratch, w_q, offsets, e, upto - 1);
        let b = experts_steps(s, f, path, scratch, w_q, offsets, upto - 1);
        let c = experts_steps(s, f, path, scratch, w_q, offsets, upto);
        assert(c.subrange(0, a.len() as int) =~= b.subrange(0, a.len() as int));
    } else {
        assert(a.subrange(0, a.len() as int) =~= a);
    }
}

/// A fused product runs in one encoder whose dispatches may overlap.
pub proof fn lemma_sorted_encoder(
    s: GroupedShape,
    f: GroupedFlags,
    scratch: usize,
    w_q: usize,
    offsets: Seq<usize>,
)
    ensures
        ({
            let path = path_of(s, f, all_singleton(offsets, s.num_experts as int));
            let inner = experts_steps(s, f, path, scratch, w_q, offsets, s.num_experts as int);
            let t = sorted_steps(s, f, scratch, w_q, offsets);
            &&& path != GroupedPath::Unpack ==> t.first() == Cmd::Begin(Order::Concurrent) && t.last()
                == Cmd::End && t.subrange(1, t.len() - 1) =~= inner
            &&& path == GroupedPath::Unpack ==> t == inner
        }),
{
}

/// Tokens go out on their own where the format has a vector kernel and rows are whole blocks of it; a
/// switch holds back its own format, and the first all of them.
pub proof fn lemma_rows_possible(s: PackedFormat, k_dim: usize, f: GroupedFlags)
    ensures
        f.gemv_disabled ==> !rows_possible(s, k_dim, f),
        rows_possible(s, k_dim, f) ==> s == PackedFormat::Q4 || s == PackedFormat::Q8 || s
            == PackedFormat::Q4K || s == PackedFormat::Q6K,
        rows_possible(s, k_dim, f) && (s == PackedFormat::Q4K || s == PackedFormat::Q6K) ==> k_dim % 256
            == 0,
        rows_possible(s, k_dim, f) ==> k_dim % 32 == 0,
        f.q4k_fused_disabled ==> !rows_possible(PackedFormat::Q4K, k_dim, f),
        f.q6k_gemm_disabled ==> !rows_possible(PackedFormat::Q6K, k_dim, f),
        !f.gemv_disabled && k_dim % 32 == 0 ==> rows_possible(PackedFormat::Q4, k_dim, f)
            && rows_possible(PackedFormat::Q8, k_dim, f),
        !f.gemv_disabled && !f.q4k_fused_disabled && k_dim % 256 == 0 ==> rows_possible(
            PackedFormat::Q4K,
            k_dim,
            f,
        ),
        !f.gemv_disabled && !f.q6k_gemm_disabled && k_dim % 256 == 0 ==> rows_possible(
            PackedFormat::Q6K,
            k_dim,
            f,
        ),
{
}

} // verus!
