//! Graphs, and the smaller pieces: what sizes, work counts, gates and probes come to.

use vstd::prelude::*;

use crate::blas::product_steps;
use crate::calibrate::{layout, repeated_product};
use crate::command::{low_word, one_row, Buf, Cmd, Group, HalfFlag, Kernel};
use crate::cost::{picked, MetalHwModel, SgemmSettings};
use crate::double_single::{data_bytes, sum_steps, DATA, RESULT, THREADS};
use crate::gpu_span::{measurable, span, GpuSpan};
use crate::graph::{
    conv_work, extent_product, node_work, product_dims, word_bytes, DType, Graph, Op, Shape,
};
use crate::hc_sinkhorn_gate::{gate_columns, gate_rows, gate_steps};
use crate::launch::{group_launches, launch, launches, launches_once};
use crate::run::number_at;
use crate::sdpa::{
    align256, at_least_one, clamp_int, partition_count, partitions_by_keys,
    partitions_by_occupancy, sdpa_kernel, sdpa_stat, streams, Attention, PrefillStat, SdpaFlags,
};

verus! {

/// Elements are known exactly where every extent is, and there are none where an extent is zero.
pub proof fn lemma_extents_known(dims: Seq<Option<usize>>)
    ensures
        extent_product(dims) is Some <==> (forall|i: int|
            0 <= i < dims.len() ==> (#[trigger] dims[i]) is Some),
        extent_product(dims) matches Some(p) ==> (p == 0 <==> exists|i: int|
            0 <= i < dims.len() && #[trigger] dims[i] == Some(0usize)),
    decreases dims.len(),
{
    if dims.len() > 0 {
        let rest = dims.drop_last();
        lemma_extents_known(rest);
        assert(forall|i: int| 0 <= i < rest.len() ==> rest[i] == dims[i]);
        let last = dims.len() - 1;
        if extent_product(rest) is Some && dims.last() is Some {
            let p = extent_product(rest)->0;
            let d = dims.last()->0 as nat;
            assert(p * d == 0 <==> p == 0 || d == 0) by (nonlinear_arith);
            if p == 0 {
                let i = choose|i: int| 0 <= i < rest.len() && #[trigger] rest[i] == Some(0usize);
                assert(dims[i] == Some(0usize));
            }
            if d == 0 {
                assert(dims[last] == Some(0usize));
            }
        }
        if extent_product(rest) is None {
            let i = choose|i: int| 0 <= i < rest.len() && (#[trigger] rest[i]) is None;
            assert(dims[i] is None);
        }
    }
}

/// The elements of a shape are those of its front times those of its back.
pub proof fn lemma_extents_multiply(front: Seq<Option<usize>>, back: Seq<Option<usize>>)
    requires
        extent_product(front) is Some,
        extent_product(back) is Some,
    ensures
        extent_product(front + back) == Some(
            (extent_product(front)->0 * extent_product(back)->0) as nat,
        ),
    decreases back.len(),
{
    let f = extent_product(front)->0;
    if back.len() == 0 {
        assert(front + back =~= front);
        assert(f * 1 == f) by (nonlinear_arith);
    } else {
        let rest = back.drop_last();
        lemma_extents_multiply(front, rest);
        assert((front + back).drop_last() =~= front + rest);
        assert((front + back).last() == back.last());
        let r = extent_product(rest)->0;
        let d = back.last()->0 as nat;
        assert(f * r * d == f * (r * d)) by (nonlinear_arith);
    }
}

/// A product of `m` rows of `k` with `n` columns is found again from the two shapes.
pub proof fn lemma_product_dims(out: Shape, a: Shape, m: nat, k: nat, n: usize)
    requires
        m > 0,
        n > 0,
        out.dims@.last() == Some(n),
        out.count() == Some((m * n) as nat),
        a.count() == Some((m * k) as nat),
    ensures
        product_dims(out, a) == Some((m, k, n as nat)),
{
    let w = n as nat;
    assert((m * w) / w == m) by (nonlinear_arith)
        requires
            w > 0,
    ;
    assert((m * k) / m == k) by (nonlinear_arith)
        requires
            m > 0,
    ;
}

/// A product takes a multiplication for each row, column and inner step, fused or not; what neither
/// multiplies nor convolves takes none.
pub proof fn lemma_product_work(g: &Graph, i: int, m: nat, k: nat, n: usize)
    requires
        m > 0,
        n > 0,
        g.nodes@[i].shape.dims@.last() == Some(n),
        g.nodes@[i].shape.count() == Some((m * n) as nat),
        g.input_shape(i, 0).count() == Some((m * k) as nat),
    ensures
        g.nodes@[i].op is MatMul || g.nodes@[i].op is FusedMatMulBiasAct ==> node_work(g, i) == m * k
            * n,
        !(g.nodes@[i].op is MatMul || g.nodes@[i].op is FusedMatMulBiasAct || g.nodes@[i].op is Conv
            || g.nodes@[i].op is Conv2dBackwardInput || g.nodes@[i].op is Conv2dBackwardWeight)
            ==> node_work(g, i) == 0,
{
    lemma_product_dims(g.nodes@[i].shape, g.input_shape(i, 0), m, k, n);
    assert(m * k * n >= 0) by (nonlinear_arith);
}

/// A convolution takes, for each element of its result, a multiplication for each weight of one output
/// channel.
pub proof fn lemma_conv_work(out: Shape, w: Shape, total: nat, channels: usize, per: nat)
    requires
        channels > 0,
        per > 0,
        out.count() == Some(total),
        w.dims@[0] == Some(channels),
        w.count() == Some((channels * per) as nat),
    ensures
        conv_work(out, w) == total * per,
{
    let c = channels as nat;
    assert((c * per) / c == per) by (nonlinear_arith)
        requires
            c > 0,
    ;
    assert(total * per >= 0) by (nonlinear_arith);
}

/// The bytes of a word, the lowest first, make the word again.
pub proof fn lemma_word_bytes(word: u32)
    ensures
        word_bytes(word).len() == 4,
        word == word_bytes(word)[0] + 256 * word_bytes(word)[1] + 65536 * word_bytes(word)[2]
            + 16777216 * word_bytes(word)[3],
{
    assert(word == word % 256 + 256 * (word / 256 % 256) + 65536 * (word / 65536 % 256) + 16777216 * (
    word / 16777216)) by (bit_vector);
}

/// Half floats take half of a single float, doubles take twice, and whole numbers take what their bits
/// ask for.
pub proof fn lemma_widths(d: DType)
    ensures
        2 * DType::F16.width() == DType::F32.width(),
        DType::BF16.width() == DType::F16.width(),
        DType::F64.width() == 2 * DType::F32.width(),
        DType::F32.width() * 8 == 32,
        DType::I8.width() * 8 == 8,
        DType::U8.width() == DType::I8.width(),
        DType::Bool.width() == DType::U8.width(),
        DType::I32.width() * 8 == 32,
        DType::U32.width() == DType::I32.width(),
        DType::I64.width() * 8 == 64,
        1 <= d.width() <= 8,
{
}

/// A gate is handed its three inputs, its result, its rows and the three numbers of its attributes, and
/// has a thread for each row.
pub proof fn lemma_gate(attrs: Seq<u8>, inputs: Seq<usize>, out_off: usize, out_len: u32)
    ensures
        ({
            let s = gate_steps(attrs, inputs, out_off, out_len);
            let rows = gate_rows(number_at(attrs, 0, 4), out_len);
            &&& launches_once(s)
            &&& launch(s).kernel() == Some(Kernel::HcSinkhornGate)
            &&& launch(s).place(0) == Some((Buf::Arena, inputs[0] as u64))
            &&& launch(s).place(1) == Some((Buf::Arena, inputs[1] as u64))
            &&& launch(s).place(2) == Some((Buf::Arena, inputs[2] as u64))
            &&& launch(s).place(3) == Some((Buf::Arena, out_off as u64))
            &&& launch(s).word(4) == Some(rows)
            &&& launch(s).word(5) == Some(number_at(attrs, 0, 4) as u32)
            &&& launch(s).word(6) == Some(number_at(attrs, 4, 4) as u32)
            &&& launch(s).word(7) == Some(number_at(attrs, 8, 4) as u32)
            &&& rows > 0 ==> launch(s).shape == Cmd::Threads(
                one_row(rows as u64),
                Group::ExecWidth(Kernel::HcSinkhornGate, rows as u64),
            )
            &&& rows == 0 ==> launch(s).shape == Cmd::Threads(
                one_row(0),
                Group::ExecWidth(Kernel::HcSinkhornGate, 1),
            )
        }),
{
    broadcast use group_launches;

    let s = gate_steps(attrs, inputs, out_off, out_len);
    assert(launches(s).len() == 1);
}

/// A row of a gate's result holds two weights for each lane and a square matrix over the lanes; whole
/// rows fill the result.
pub proof fn lemma_gate_rows(hc: nat, rows: u32, out_len: u32)
    requires
        hc > 0,
        rows * (hc + hc + hc * hc) == out_len,
    ensures
        gate_rows(hc, out_len) == rows,
        gate_columns(hc) == hc + hc + hc * hc,
{
    let c: nat = hc + hc + hc * hc;
    assert(hc * hc >= 0) by (nonlinear_arith);
    assert((rows * c) / c as int == rows) by (nonlinear_arith)
        requires
            c > 0,
    ;
}

/// A sum is handed its data, where its result goes and how many numbers there are, and runs as one
/// threadgroup; its data's buffer holds every number, and is never empty.
pub proof fn lemma_sum(len: usize)
    ensures
        ({
            let s = sum_steps(len);
            &&& launches_once(s)
            &&& launch(s).kernel() == Some(Kernel::DwSum)
            &&& launch(s).place(0) == Some((Buf::Tensor(DATA), 0u64))
            &&& launch(s).place(1) == Some((Buf::Tensor(RESULT), 0u64))
            &&& launch(s).word(2) == Some(low_word(len as u64))
            &&& launch(s).shape == Cmd::Groups(one_row(1), one_row(THREADS))
        }),
        DATA != RESULT,
        len > 0 ==> data_bytes(len) == 4 * len,
        data_bytes(len) >= 4,
{
    broadcast use group_launches;

    let s = sum_steps(len);
    assert(launches(s).len() == 1);
}

/// A probe repeats one product on its own three areas, as often as it is told.
pub proof fn lemma_probe_repeats(
    hw: MetalHwModel,
    s: SgemmSettings,
    m: usize,
    k: usize,
    n: usize,
    first: nat,
    more: nat,
)
    ensures
        repeated_product(hw, s, m, k, n, first + more) == repeated_product(hw, s, m, k, n, first)
            + repeated_product(hw, s, m, k, n, more),
        repeated_product(hw, s, m, k, n, 0).len() == 0,
        ({
            let l = layout(m as int, k as int, n as int);
            repeated_product(hw, s, m, k, n, 1) == product_steps(
                picked(hw, s, m as int, k as int, n as int),
                Buf::Arena,
                l.a_off,
                Buf::Arena,
                l.b_off,
                Buf::Arena,
                l.c_off,
                m,
                k,
                n,
            )
        }),
    decreases more,
{
    reveal_with_fuel(repeated_product, 2);
    if more > 0 {
        lemma_probe_repeats(hw, s, m, k, n, first, (more - 1) as nat);
        assert((first + more - 1) as nat == first + (more - 1) as nat);
    }
    assert(repeated_product(hw, s, m, k, n, first + more) =~= repeated_product(hw, s, m, k, n, first)
        + repeated_product(hw, s, m, k, n, more));
}

/// A recorded span is read back as it was measured.
pub proof fn lemma_span(bits: u64)
    ensures
        measurable(bits) ==> span(GpuSpan { bits }) == Some(bits),
        measurable(bits) ==> bits > 0 && bits / 0x8000_0000_0000_0000 == 0,
{
}

/// A prefill is counted exactly where many rows stream through one of the kernels that go row by row,
/// and as flash attention where the kernel is one.
pub proof fn lemma_prefill_counted(p: Attention, f: SdpaFlags, dt: HalfFlag)
    ensures
        ({
            let kernel = sdpa_kernel(p, f, dt);
            let counted = streams(p, dt) && p.seq > 1 && kernel != Kernel::SdpaMma && kernel
                != Kernel::SdpaFa2 && kernel != Kernel::SdpaSplitk;
            &&& sdpa_stat(p, f, dt) is Some <==> counted
            &&& counted ==> (sdpa_stat(p, f, dt) == Some(PrefillStat::FlashAttention) <==> kernel
                == Kernel::SdpaFaF32 || kernel == Kernel::SdpaPrefillFa || kernel
                == Kernel::SdpaPrefillFaMma)
        }),
{
}

/// Partitions: an operator's choice stands, at least one; otherwise there are enough to occupy the GPU,
/// and no more than the keys allow.
pub proof fn lemma_partitions(
    forced: u32,
    batch: int,
    heads: int,
    kv_seq: int,
    tile_n: int,
    tile_k: int,
    pad_kv: int,
)
    requires
        batch >= 0,
        heads >= 0,
    ensures
        forced >= 1 ==> partition_count(
            Some(forced),
            batch,
            heads,
            kv_seq,
            tile_n,
            tile_k,
            pad_kv,
        ) == forced,
        partition_count(Some(0), batch, heads, kv_seq, tile_n, tile_k, pad_kv) == 1,
        ({
            let p = partition_count(None, batch, heads, kv_seq, tile_n, tile_k, pad_kv);
            let by_keys = partitions_by_keys(kv_seq, tile_k, pad_kv);
            &&& p <= by_keys
            &&& p < 64 && p < by_keys ==> p * at_least_one(batch * heads) >= 128
            &&& p > 1 ==> (p - 1) * at_least_one(batch * heads) < 1024
        }),
{
    let bh = at_least_one(batch * heads);
    let a = partitions_by_occupancy(batch, heads, tile_n);
    let target = if clamp_int(tile_n, 32, 1024) > 128 {
        clamp_int(tile_n, 32, 1024)
    } else {
        128
    };
    let p = partition_count(None, batch, heads, kv_seq, tile_n, tile_k, pad_kv);
    assert(a * bh >= target && (a - 1) * bh < target && a >= 1) by (nonlinear_arith)
        requires
            a == (target + bh - 1) / bh,
            bh >= 1,
            target >= 128,
    ;
    assert(p <= a);
    assert((p - 1) * bh <= (a - 1) * bh) by (nonlinear_arith)
        requires
            p <= a,
            bh >= 1,
    ;
}

/// Aligned sizes are the least multiples of 256 that hold what they are for.
pub proof fn lemma_aligned(x: int)
    ensures
        align256(x) % 256 == 0,
        x <= align256(x) < x + 256,
{
}

} // verus!
