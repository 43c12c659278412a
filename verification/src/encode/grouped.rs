//! Products of tokens with the quantized matrices of their experts.

use vstd::prelude::*;

use crate::command::{
    emit, least, low32, low_word, min_u64, one_row, row, Buf, Cmd, Group, Kernel, MatmulBt, Order,
};
use crate::encode::quant::{
    encode_q4_0_mv_f32, encode_q4k_mv_f32, encode_q4k_mv_f32_sg, encode_q8_0_mv_f32,
    encode_qk_mm_f32, gemv_steps, rows_gemm_steps, simd_gemv_steps, simd_threads, PackedFormat,
};

verus! {

/// Operator settings of grouped products.
#[derive(Clone, Copy, Debug, PartialEq, Eq, Structural)]
pub struct GroupedFlags {
    pub gemv_disabled: bool,
    pub q4k_fused_disabled: bool,
    pub q4k_gemm_disabled: bool,
    pub q6k_gemm_disabled: bool,
    pub q4k_simd_disabled: bool,
}

/// The shape of a grouped product. A block of `block_elems` weights takes `block_bytes` bytes.
#[derive(Clone, Copy, Debug, PartialEq, Eq, Structural)]
pub struct GroupedShape {
    pub m: usize,
    pub k_dim: usize,
    pub n: usize,
    pub num_experts: usize,
    pub scheme: PackedFormat,
    /// The number of the scheme in the dequantization kernel.
    pub scheme_id: u32,
    pub block_elems: usize,
    pub block_bytes: usize,
}

/// Blocks of one expert's matrix.
pub open spec fn block_count(s: GroupedShape) -> int {
    (s.k_dim * s.n) / s.block_elems as int
}

/// Bytes of one expert's matrix.
pub open spec fn slab_size(s: GroupedShape) -> int {
    block_count(s) * s.block_bytes
}

/// Whether every token can be dispatched on its own.
pub open spec fn rows_possible(s: PackedFormat, k_dim: usize, f: GroupedFlags) -> bool {
    !f.gemv_disabled && match s {
        PackedFormat::Q4 | PackedFormat::Q8 => k_dim % 32 == 0,
        PackedFormat::Q4K => k_dim % 256 == 0 && !f.q4k_fused_disabled,
        PackedFormat::Q6K => k_dim % 256 == 0 && !f.q6k_gemm_disabled,
        _ => false,
    }
}

pub fn dequant_grouped_can_encode_per_row(
    scheme: PackedFormat,
    k_dim: usize,
    f: GroupedFlags,
) -> (r: bool)
    ensures
        r == rows_possible(scheme, k_dim, f),
{
    if f.gemv_disabled {
        return false;
    }
    match scheme {
        PackedFormat::Q4 | PackedFormat::Q8 => k_dim % 32 == 0,
        PackedFormat::Q4K => k_dim % 256 == 0 && !f.q4k_fused_disabled,
        PackedFormat::Q6K => k_dim % 256 == 0 && !f.q6k_gemm_disabled,
        _ => false,
    }
}

/// Whether the simdgroup kernel serves Q4_K.
pub open spec fn simd_q4k(s: GroupedShape, f: GroupedFlags) -> bool {
    s.scheme == PackedFormat::Q4K && s.n % 8 == 0 && !f.q4k_simd_disabled
}

/// One vector times one expert's matrix.
pub open spec fn vector_steps(
    s: GroupedShape,
    f: GroupedFlags,
    x: usize,
    w: usize,
    y: usize,
) -> Seq<Cmd> {
    match s.scheme {
        PackedFormat::Q8 => gemv_steps(Kernel::Q80MvF32, x, w, y, s.k_dim, s.n),
        PackedFormat::Q4 => gemv_steps(Kernel::Q40MvF32, x, w, y, s.k_dim, s.n),
        PackedFormat::Q4K => if simd_q4k(s, f) {
            simd_gemv_steps(Kernel::Q4kMvF32Sg, x, w, y, s.k_dim, s.n, 4, 2)
        } else {
            gemv_steps(Kernel::Q4kMvF32, x, w, y, s.k_dim, s.n)
        },
        _ => rows_gemm_steps(Kernel::Q6kMmF32, x, w, y, 1, s.k_dim, s.n),
    }
}

fn emit_vector(
    enc: &mut Vec<Cmd>,
    s: GroupedShape,
    f: GroupedFlags,
    x: usize,
    w: usize,
    y: usize,
)
    requires
        simd_q4k(s, f) ==> simd_threads(s.n, 4, 2) <= u64::MAX,
    ensures
        final(enc)@ == old(enc)@ + vector_steps(s, f, x, w, y),
{
    match s.scheme {
        PackedFormat::Q8 => encode_q8_0_mv_f32(enc, x, w, y, s.k_dim, s.n),
        PackedFormat::Q4 => encode_q4_0_mv_f32(enc, x, w, y, s.k_dim, s.n),
        PackedFormat::Q4K => {
            if s.n % 8 == 0 && !f.q4k_simd_disabled {
                encode_q4k_mv_f32_sg(enc, x, w, y, s.k_dim, s.n)
            } else {
                encode_q4k_mv_f32(enc, x, w, y, s.k_dim, s.n)
            }
        },
        _ => encode_qk_mm_f32(enc, Kernel::Q6kMmF32, x, w, y, 1, s.k_dim, s.n),
    }
}

/// The steps of the first `rows` tokens, each with the matrix of its own expert.
pub open spec fn token_steps(
    s: GroupedShape,
    f: GroupedFlags,
    input: usize,
    w_q: usize,
    dst: usize,
    experts: Seq<usize>,
    rows: int,
) -> Seq<Cmd>
    decreases rows,
{
    if rows <= 0 {
        Seq::<Cmd>::empty()
    } else {
        let r = rows - 1;
        token_steps(s, f, input, w_q, dst, experts, r) + vector_steps(
            s,
            f,
            (input + r * s.k_dim * 4) as usize,
            (w_q + experts[r] * slab_size(s)) as usize,
            (dst + r * s.n * 4) as usize,
        )
    }
}

/// The operands stay within the address space.
pub open spec fn token_operands_fit(
    s: GroupedShape,
    input: usize,
    w_q: usize,
    dst: usize,
    experts: Seq<usize>,
) -> bool {
    &&& s.block_elems > 0
    &&& experts.len() == s.m
    &&& forall|r: int| 0 <= r < experts.len() ==> (#[trigger] experts[r]) < s.num_experts
    &&& s.k_dim * s.n <= usize::MAX
    &&& slab_size(s) <= usize::MAX
    &&& input + s.m * s.k_dim * 4 <= usize::MAX
    &&& dst + s.m * s.n * 4 <= usize::MAX
    &&& w_q + s.num_experts * slab_size(s) <= usize::MAX
}

pub proof fn lemma_row_offset(base: int, r: int, width: int, rows: int)
    requires
        0 <= base,
        0 <= r < rows,
        0 <= width,
        base + rows * width * 4 <= usize::MAX,
    ensures
        0 <= r * width,
        0 <= r * width * 4,
        r * width * 4 <= usize::MAX,
        base + r * width * 4 <= usize::MAX,
{
    assert(0 <= r * width <= rows * width) by (nonlinear_arith)
        requires
            0 <= r < rows,
            0 <= width,
    ;
}

pub proof fn lemma_slab_offset(base: int, e: int, slab: int, count: int)
    requires
        0 <= base,
        0 <= e < count,
        0 <= slab,
        base + count * slab <= usize::MAX,
    ensures
        0 <= e * slab,
        base + e * slab <= usize::MAX,
{
    assert(0 <= e * slab <= count * slab) by (nonlinear_arith)
        requires
            0 <= e < count,
            0 <= slab,
    ;
}

pub proof fn lemma_slab_nonnegative(s: GroupedShape)
    requires
        s.block_elems > 0,
    ensures
        0 <= block_count(s) <= s.k_dim * s.n,
        0 <= slab_size(s),
{
    let t = s.k_dim * s.n;
    let b = s.block_elems as int;
    assert(0 <= t) by (nonlinear_arith)
        requires
            t == s.k_dim * s.n,
    ;
    assert(0 <= t / b <= t) by (nonlinear_arith)
        requires
            0 <= t,
            0 < b,
    ;
    let c = block_count(s);
    let bytes = s.block_bytes as int;
    assert(0 <= c * bytes) by (nonlinear_arith)
        requires
            0 <= c,
            0 <= bytes,
    ;
}

/// Dispatches every token on its own, in the given order.
pub fn encode_dequant_grouped_matmul_gguf_per_row(
    enc: &mut Vec<Cmd>,
    s: GroupedShape,
    f: GroupedFlags,
    input: usize,
    w_q: usize,
    dst: usize,
    experts: &[usize],
)
    requires
        rows_possible(s.scheme, s.k_dim, f),
        token_operands_fit(s, input, w_q, dst, experts@),
        simd_q4k(s, f) ==> simd_threads(s.n, 4, 2) <= u64::MAX,
    ensures
        final(enc)@ == old(enc)@ + token_steps(s, f, input, w_q, dst, experts@, s.m as int),
{
    proof {
        lemma_slab_nonnegative(s);
    }
    let slab_bytes: usize = (s.k_dim * s.n) / s.block_elems * s.block_bytes;
    let ghost start = enc@;
    let mut r: usize = 0;
    while r < s.m
        invariant
            r <= s.m,
            token_operands_fit(s, input, w_q, dst, experts@),
            slab_bytes == slab_size(s),
            simd_q4k(s, f) ==> simd_threads(s.n, 4, 2) <= u64::MAX,
            enc@ == start + token_steps(s, f, input, w_q, dst, experts@, r as int),
        decreases s.m - r,
    {
        let e: usize = experts[r];
        proof {
            lemma_row_offset(input as int, r as int, s.k_dim as int, s.m as int);
            lemma_row_offset(dst as int, r as int, s.n as int, s.m as int);
            lemma_slab_offset(w_q as int, e as int, slab_bytes as int, s.num_experts as int);
        }
        let x_off: usize = input + r * s.k_dim * 4;
        let y_off: usize = dst + r * s.n * 4;
        let w_off: usize = w_q + e * slab_bytes;
        emit_vector(enc, s, f, x_off, w_off, y_off);
        r = r + 1;
        assert(enc@ =~= start + token_steps(s, f, input, w_q, dst, experts@, r as int));
    }
}

/// Rows of the tokens that an expert has after sorting.
pub open spec fn rows_of(offsets: Seq<usize>, e: int) -> int {
    offsets[e + 1] - offsets[e]
}

/// No expert has more than one token.
pub open spec fn all_singleton(offsets: Seq<usize>, num_experts: int) -> bool {
    forall|e: int| 0 <= e < num_experts ==> #[trigger] rows_of(offsets, e) <= 1
}

/// How a sorted product is carried out.
#[derive(Clone, Copy, Debug, PartialEq, Eq, Structural)]
pub enum GroupedPath {
    /// One fused product with a vector per expert.
    Vectors,
    /// One fused product with several rows per expert.
    Rows,
    /// Each matrix unpacked into scratch and multiplied by the vendor's product.
    Unpack,
}

/// Vectors where every expert has at most one token and the scheme has such a kernel; otherwise
/// rows where the scheme has that; otherwise unpacking.
pub open spec fn path_of(s: GroupedShape, f: GroupedFlags, singleton: bool) -> GroupedPath {
    let vectors = !f.gemv_disabled && singleton && match s.scheme {
        PackedFormat::Q4 | PackedFormat::Q8 => s.k_dim % 32 == 0,
        PackedFormat::Q4K => s.k_dim % 256 == 0 && !f.q4k_fused_disabled,
        _ => false,
    };
    let rows = !f.gemv_disabled && s.k_dim % 256 == 0 && match s.scheme {
        PackedFormat::Q4K => !f.q4k_gemm_disabled,
        PackedFormat::Q6K => !f.q6k_gemm_disabled,
        _ => false,
    };
    if vectors {
        GroupedPath::Vectors
    } else if rows {
        GroupedPath::Rows
    } else {
        GroupedPath::Unpack
    }
}

fn choose_path(s: GroupedShape, f: GroupedFlags, singleton: bool) -> (r: GroupedPath)
    ensures
        r == path_of(s, f, singleton),
{
    let vectors: bool = !f.gemv_disabled && singleton && match s.scheme {
        PackedFormat::Q4 | PackedFormat::Q8 => s.k_dim % 32 == 0,
        PackedFormat::Q4K => s.k_dim % 256 == 0 && !f.q4k_fused_disabled,
        _ => false,
    };
    let rows: bool = !f.gemv_disabled && s.k_dim % 256 == 0 && match s.scheme {
        PackedFormat::Q4K => !f.q4k_gemm_disabled,
        PackedFormat::Q6K => !f.q6k_gemm_disabled,
        _ => false,
    };
    if vectors {
        GroupedPath::Vectors
    } else if rows {
        GroupedPath::Rows
    } else {
        GroupedPath::Unpack
    }
}

fn is_all_singleton(offsets: &[usize], num_experts: usize) -> (r: bool)
    requires
        sorted_offsets(offsets@, num_experts as int),
    ensures
        r == all_singleton(offsets@, num_experts as int),
{
    let mut e: usize = 0;
    while e < num_experts
        invariant
            e <= num_experts,
            sorted_offsets(offsets@, num_experts as int),
            forall|i: int| 0 <= i < e ==> #[trigger] rows_of(offsets@, i) <= 1,
        decreases num_experts - e,
    {
        let count: usize = offsets[e + 1] - offsets[e];
        if count > 1 {
            assert(rows_of(offsets@, e as int) > 1);
            return false;
        }
        e = e + 1;
    }
    true
}

/// Starts of the experts' rows after sorting, and the end of the last.
pub open spec fn sorted_offsets(offsets: Seq<usize>, num_experts: int) -> bool {
    &&& 0 <= num_experts < offsets.len()
    &&& forall|i: int, j: int|
        0 <= i <= j <= num_experts ==> (#[trigger] offsets[i]) <= (#[trigger] offsets[j])
}

/// Where the sorted inputs start in scratch, behind one unpacked matrix.
pub open spec fn packed_in(s: GroupedShape, scratch: int) -> int {
    scratch + s.k_dim * s.n * 4
}

/// Where the sorted outputs start, behind the inputs.
pub open spec fn packed_out(s: GroupedShape, scratch: int) -> int {
    scratch + (s.k_dim * s.n + s.m * s.k_dim) * 4
}

/// Unpacking one matrix.
pub open spec fn unpack_steps(
    w_q: usize,
    dst: usize,
    scheme_id: u32,
    blocks: int,
) -> Seq<Cmd> {
    seq![
        Cmd::Pipeline(Kernel::DequantGguf),
        Cmd::Buffer(0, Buf::Arena, 0),
        Cmd::U64(1, w_q as u64),
        Cmd::U64(2, (dst / 4) as u64),
        Cmd::U32(3, scheme_id),
        Cmd::U32(4, low_word(blocks as u64)),
        Cmd::Buffer(5, Buf::IqGrid, 0),
        Cmd::Threads(one_row(blocks as u64), Group::Fixed(one_row(min_u64(256, blocks as u64)))),
    ]
}

/// Unpacks a matrix of `k_dim` by `n_dim` weights into floats.
pub fn encode_dequant_gguf(
    enc: &mut Vec<Cmd>,
    w_q: usize,
    dst: usize,
    scheme_id: u32,
    block_elems: usize,
    k_dim: usize,
    n_dim: usize,
)
    requires
        k_dim * n_dim <= usize::MAX,
    ensures
        final(enc)@ == old(enc)@ + unpack_steps(
            w_q,
            dst,
            scheme_id,
            (k_dim * n_dim) / if block_elems == 0 {
                1
            } else {
                block_elems as int
            },
        ),
{
    let total: usize = k_dim * n_dim;
    let per_block: usize = if block_elems == 0 {
        1
    } else {
        block_elems
    };
    let blocks: usize = total / per_block;
    emit(
        enc,
        vec![
            Cmd::Pipeline(Kernel::DequantGguf),
            Cmd::Buffer(0, Buf::Arena, 0),
            Cmd::U64(1, w_q as u64),
            Cmd::U64(2, (dst / 4) as u64),
            Cmd::U32(3, scheme_id),
            Cmd::U32(4, low32(blocks as u64)),
            Cmd::Buffer(5, Buf::IqGrid, 0),
            Cmd::Threads(row(blocks as u64), Group::Fixed(row(least(256, blocks as u64)))),
        ],
    );
}

/// The kernel of a product with several rows.
pub open spec fn rows_kernel(s: PackedFormat) -> Kernel {
    if s == PackedFormat::Q4K {
        Kernel::Q4kMmF32
    } else {
        Kernel::Q6kMmF32
    }
}

/// The steps of one expert; none where it has no token.
pub open spec fn expert_steps(
    s: GroupedShape,
    f: GroupedFlags,
    path: GroupedPath,
    scratch: usize,
    w_q: usize,
    offsets: Seq<usize>,
    e: int,
) -> Seq<Cmd> {
    let x = (packed_in(s, scratch as int) + offsets[e] * s.k_dim * 4) as usize;
    let y = (packed_out(s, scratch as int) + offsets[e] * s.n * 4) as usize;
    let w = (w_q + e * slab_size(s)) as usize;
    let count = rows_of(offsets, e) as usize;
    if count == 0 {
        Seq::<Cmd>::empty()
    } else {
        match path {
            GroupedPath::Vectors => vector_steps(s, f, x, w, y),
            GroupedPath::Rows => rows_gemm_steps(
                rows_kernel(s.scheme),
                x,
                w,
                y,
                count,
                s.k_dim,
                s.n,
            ),
            GroupedPath::Unpack => seq![Cmd::Begin(Order::Serial)] + unpack_steps(
                w,
                scratch,
                s.scheme_id,
                block_count(s),
            ) + seq![
                Cmd::End,
                Cmd::VendorMatmulBt(
                    MatmulBt { a: x, b: scratch, c: y, m: count, k: s.k_dim, n: s.n },
                ),
            ],
        }
    }
}

pub open spec fn experts_steps(
    s: GroupedShape,
    f: GroupedFlags,
    path: GroupedPath,
    scratch: usize,
    w_q: usize,
    offsets: Seq<usize>,
    upto: int,
) -> Seq<Cmd>
    decreases upto,
{
    if upto <= 0 {
        Seq::<Cmd>::empty()
    } else {
        experts_steps(s, f, path, scratch, w_q, offsets, upto - 1) + expert_steps(
            s,
            f,
            path,
            scratch,
            w_q,
            offsets,
            upto - 1,
        )
    }
}

/// The whole sorted product: fused paths share one encoder whose dispatches may overlap, the
/// unpacking path opens one per expert.
pub open spec fn sorted_steps(
    s: GroupedShape,
    f: GroupedFlags,
    scratch: usize,
    w_q: usize,
    offsets: Seq<usize>,
) -> Seq<Cmd> {
    let path = path_of(s, f, all_singleton(offsets, s.num_experts as int));
    let inner = experts_steps(s, f, path, scratch, w_q, offsets, s.num_experts as int);
    if path == GroupedPath::Unpack {
        inner
    } else {
        seq![Cmd::Begin(Order::Concurrent)] + inner + seq![Cmd::End]
    }
}

/// Scratch, weights and rows stay within the address space.
pub open spec fn sorted_operands_fit(
    s: GroupedShape,
    scratch: usize,
    w_q: usize,
    offsets: Seq<usize>,
) -> bool {
    &&& s.block_elems > 0
    &&& sorted_offsets(offsets, s.num_experts as int)
    &&& offsets[s.num_experts as int] <= s.m
    &&& s.k_dim * s.n <= usize::MAX
    &&& s.m * s.k_dim <= usize::MAX
    &&& slab_size(s) <= usize::MAX
    &&& packed_out(s, scratch as int) + s.m * s.n * 4 <= usize::MAX
    &&& w_q + s.num_experts * slab_size(s) <= usize::MAX
}

pub proof fn lemma_packed_offsets(s: GroupedShape, scratch: usize, o: int)
    requires
        0 <= o <= s.m,
        packed_out(s, scratch as int) + s.m * s.n * 4 <= usize::MAX,
    ensures
        0 <= s.k_dim * s.n,
        0 <= s.m * s.k_dim,
        s.k_dim * s.n * 4 <= usize::MAX,
        (s.k_dim * s.n + s.m * s.k_dim) * 4 <= usize::MAX,
        packed_in(s, scratch as int) <= packed_out(s, scratch as int) <= usize::MAX,
        0 <= o * s.k_dim,
        0 <= o * s.n,
        o * s.k_dim * 4 <= usize::MAX,
        o * s.n * 4 <= usize::MAX,
        packed_in(s, scratch as int) + o * s.k_dim * 4 <= packed_out(s, scratch as int),
        packed_out(s, scratch as int) + o * s.n * 4 <= usize::MAX,
{
    let a = s.k_dim * s.n;
    let b = s.m * s.k_dim;
    let c = s.m * s.n;
    assert(0 <= a && 0 <= b && 0 <= c) by (nonlinear_arith)
        requires
            a == s.k_dim * s.n,
            b == s.m * s.k_dim,
            c == s.m * s.n,
    ;
    assert(0 <= o * s.k_dim <= b) by (nonlinear_arith)
        requires
            0 <= o <= s.m,
            b == s.m * s.k_dim,
    ;
    assert(0 <= o * s.n <= c) by (nonlinear_arith)
        requires
            0 <= o <= s.m,
            c == s.m * s.n,
    ;
}

/// Carries out the product on tokens sorted by expert. The sorted inputs are expected in scratch,
/// and the sorted outputs are left there.
pub fn encode_dequant_grouped_matmul_gguf(
    enc: &mut Vec<Cmd>,
    s: GroupedShape,
    f: GroupedFlags,
    scratch_off: usize,
    w_q: usize,
    offsets: &[usize],
)
    requires
        sorted_operands_fit(s, scratch_off, w_q, offsets@),
        simd_q4k(s, f) ==> simd_threads(s.n, 4, 2) <= u64::MAX,
    ensures
        final(enc)@ == old(enc)@ + sorted_steps(s, f, scratch_off, w_q, offsets@),
{
    proof {
        lemma_slab_nonnegative(s);
        lemma_packed_offsets(s, scratch_off, 0);
    }
    let slab_bytes: usize = (s.k_dim * s.n) / s.block_elems * s.block_bytes;
    let pack_in_off: usize = scratch_off + s.k_dim * s.n * 4;
    let pack_out_off: usize = scratch_off + (s.k_dim * s.n + s.m * s.k_dim) * 4;
    let singleton: bool = is_all_singleton(offsets, s.num_experts);
    let path: GroupedPath = choose_path(s, f, singleton);
    let ghost before = enc@;
    if path != GroupedPath::Unpack {
        emit(enc, vec![Cmd::Begin(Order::Concurrent)]);
    }
    let ghost start = enc@;
    let mut e: usize = 0;
    while e < s.num_experts
        invariant
            e <= s.num_experts,
            sorted_operands_fit(s, scratch_off, w_q, offsets@),
            simd_q4k(s, f) ==> simd_threads(s.n, 4, 2) <= u64::MAX,
            slab_bytes == slab_size(s),
            0 <= slab_size(s),
            pack_in_off == packed_in(s, scratch_off as int),
            pack_out_off == packed_out(s, scratch_off as int),
            path == path_of(s, f, all_singleton(offsets@, s.num_experts as int)),
            enc@ == start + experts_steps(s, f, path, scratch_off, w_q, offsets@, e as int),
        decreases s.num_experts - e,
    {
        let first: usize = offsets[e];
        let count: usize = offsets[e + 1] - offsets[e];
        let ghost done = enc@;
        proof {
            assert(offsets@[e as int] <= offsets@[s.num_experts as int]);
            lemma_packed_offsets(s, scratch_off, first as int);
            lemma_slab_offset(w_q as int, e as int, slab_bytes as int, s.num_experts as int);
            lemma_slab_nonnegative(s);
        }
        if count > 0 {
            let x_off: usize = pack_in_off + first * s.k_dim * 4;
            let y_off: usize = pack_out_off + first * s.n * 4;
            let w_off: usize = w_q + e * slab_bytes;
            match path {
                GroupedPath::Vectors => {
                    emit_vector(enc, s, f, x_off, w_off, y_off);
                },
                GroupedPath::Rows => {
                    let pipeline: Kernel = match s.scheme {
                        PackedFormat::Q4K => Kernel::Q4kMmF32,
                        _ => Kernel::Q6kMmF32,
                    };
                    encode_qk_mm_f32(enc, pipeline, x_off, w_off, y_off, count, s.k_dim, s.n);
                },
                GroupedPath::Unpack => {
                    emit(enc, vec![Cmd::Begin(Order::Serial)]);
                    encode_dequant_gguf(
                        enc,
                        w_off,
                        scratch_off,
                        s.scheme_id,
                        s.block_elems,
                        s.k_dim,
                        s.n,
                    );
                    emit(
                        enc,
                        vec![
                            Cmd::End,
                            Cmd::VendorMatmulBt(
                                MatmulBt {
                                    a: x_off,
                                    b: scratch_off,
                                    c: y_off,
                                    m: count,
                                    k: s.k_dim,
                                    n: s.n,
                                },
                            ),
                        ],
                    );
                },
            }
        }
        assert(enc@ =~= done + expert_steps(
            s,
            f,
            path,
            scratch_off,
            w_q,
            offsets@,
            e as int,
        ));
        e = e + 1;
        assert(enc@ =~= start + experts_steps(
            s,
            f,
            path,
            scratch_off,
            w_q,
            offsets@,
            e as int,
        ));
    }
    if path != GroupedPath::Unpack {
        emit(enc, vec![Cmd::End]);
    }
    assert(enc@ =~= before + sorted_steps(s, f, scratch_off, w_q, offsets@));
}

/// The sorted inputs of an expert end before the next expert's start and before the outputs,
/// and its outputs end before the next expert's.
pub proof fn lemma_expert_rows_disjoint(
    s: GroupedShape,
    scratch: usize,
    w_q: usize,
    offsets: Seq<usize>,
    e: int,
    later: int,
)
    requires
        sorted_operands_fit(s, scratch, w_q, offsets),
        0 <= e < later < s.num_experts,
    ensures
        packed_in(s, scratch as int) + (offsets[e] + rows_of(offsets, e)) * s.k_dim * 4
            <= packed_in(s, scratch as int) + offsets[later] * s.k_dim * 4 <= packed_out(
            s,
            scratch as int,
        ),
        packed_out(s, scratch as int) + (offsets[e] + rows_of(offsets, e)) * s.n * 4
            <= packed_out(s, scratch as int) + offsets[later] * s.n * 4 <= packed_out(
            s,
            scratch as int,
        ) + s.m * s.n * 4,
{
    let a = offsets[e + 1] as int;
    let b = offsets[later] as int;
    assert(offsets[e + 1] <= offsets[later]);
    assert(offsets[later] <= offsets[s.num_experts as int]);
    lemma_packed_offsets(s, scratch, b);
    let k = s.k_dim as int;
    let n = s.n as int;
    let m = s.m as int;
    assert(a * k <= b * k && a * n <= b * n && b * n <= m * n) by (nonlinear_arith)
        requires
            a <= b,
            b <= m,
            0 <= k,
            0 <= n,
    ;
}

/// A fused product with vectors is used only where no expert has two tokens to share it.
pub proof fn lemma_vectors_only_for_singletons(
    s: GroupedShape,
    f: GroupedFlags,
    offsets: Seq<usize>,
    e: int,
)
    requires
        path_of(s, f, all_singleton(offsets, s.num_experts as int)) == GroupedPath::Vectors,
        0 <= e < s.num_experts,
    ensures
        rows_of(offsets, e) <= 1,
        s.scheme == PackedFormat::Q4 || s.scheme == PackedFormat::Q8 || s.scheme == PackedFormat::Q4K,
{
}

} // verus!
