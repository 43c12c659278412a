//! Attention: every kernel finds each of its parameters where its signature has it, and every
//! query row is computed.

use vstd::prelude::*;

use crate::command::{div_up, low_word, one_row, Buf, Cmd, HalfFlag, Kernel};
use crate::launch::{
    behind, group_launches, launch, launches, launches_once, lemma_launches_append, Launch,
};
use crate::sdpa::{
    arena_bindings, combine_steps, decode_constants, flash_decode_steps, k_scales, kv_head_count,
    modes_word, partial_kernel, quant_decode_steps, quant_partial_steps, quant_rows,
    quant_sizes_fit, quant_steps, sdpa_counts_fit, sdpa_kernel, sdpa_steps, streams, uses_decode,
    v_dim, v_scales, v_section, Attention, QuantFlags, SdpaFlags,
};

verus! {

/// A number that an attention kernel reads.
pub enum AttentionNumber {
    Batch,
    /// Query rows.
    Rows,
    Heads,
    HeadDim,
    RowStride,
    MaskKind,
    /// Key and value rows.
    Keys,
    KeyStride,
    HeadsFirst,
    Window,
    Scale,
    Softcap,
}

/// What an attention has for a number.
pub open spec fn number_of(p: Attention, x: AttentionNumber) -> u32 {
    match x {
        AttentionNumber::Batch => p.batch,
        AttentionNumber::Rows => p.seq,
        AttentionNumber::Heads => p.heads,
        AttentionNumber::HeadDim => p.head_dim,
        AttentionNumber::RowStride => p.seq_stride,
        AttentionNumber::MaskKind => p.mask_kind,
        AttentionNumber::Keys => p.kv_seq,
        AttentionNumber::KeyStride => p.kv_stride,
        AttentionNumber::HeadsFirst => p.bhsd,
        AttentionNumber::Window => p.window,
        AttentionNumber::Scale => p.score_scale,
        AttentionNumber::Softcap => p.softcap,
    }
}

/// The parameters that a kernel has: buffers first, next the numbers, among them a row count
/// unless it attends for one query row, next the offsets.
pub struct AttentionList {
    pub buffers: u64,
    pub one_row: bool,
}

/// The list of a kernel that attends for one query row, over all keys or over one partition.
pub open spec fn one_row_list() -> AttentionList {
    AttentionList { buffers: 5, one_row: true }
}

/// The list of a kernel that attends for many query rows.
pub open spec fn many_row_list() -> AttentionList {
    AttentionList { buffers: 5, one_row: false }
}

/// The list of the kernel that attends over a partition of quantized keys.
pub open spec fn quantized_list() -> AttentionList {
    AttentionList { buffers: 6, one_row: true }
}

/// The list that a kernel is written for.
pub open spec fn list_of(kernel: Kernel) -> AttentionList {
    if kernel == Kernel::SdpaDecodeM1PartialW8a8 {
        quantized_list()
    } else if kernel == Kernel::SdpaDecodeM1 || kernel == Kernel::SdpaDecodeM1F16kv || kernel
        == Kernel::SdpaDecodeM1Partial || kernel == Kernel::SdpaDecodeM1PartialF16kv || kernel
        == Kernel::SdpaDecodeM1PartialHd || kernel == Kernel::SdpaDecodeM1PartialHdF16kv {
        one_row_list()
    } else {
        many_row_list()
    }
}

/// The place of a number behind the buffers of a list.
pub open spec fn number_place(list: AttentionList, x: AttentionNumber) -> Option<int> {
    let gap = if list.one_row {
        0int
    } else {
        1int
    };
    match x {
        AttentionNumber::Batch => Some(0),
        AttentionNumber::Rows => if list.one_row {
            None
        } else {
            Some(1)
        },
        AttentionNumber::Heads => Some(1 + gap),
        AttentionNumber::HeadDim => Some(2 + gap),
        AttentionNumber::RowStride => Some(3 + gap),
        AttentionNumber::MaskKind => Some(4 + gap),
        AttentionNumber::Keys => Some(5 + gap),
        AttentionNumber::KeyStride => Some(6 + gap),
        AttentionNumber::HeadsFirst => Some(7 + gap),
        AttentionNumber::Window => Some(8 + gap),
        AttentionNumber::Scale => Some(9 + gap),
        AttentionNumber::Softcap => Some(10 + gap),
    }
}

/// The number that a launched kernel finds where a list has it.
pub open spec fn number_read(l: Launch, list: AttentionList, x: AttentionNumber) -> Option<u32> {
    match number_place(list, x) {
        Some(place) => l.word((list.buffers + place) as u64),
        None => None,
    }
}

/// The slot behind the numbers: the five tensor offsets, the KV head count and the V head width.
pub open spec fn offsets_slot(list: AttentionList) -> u64 {
    (list.buffers + (if list.one_row {
        11int
    } else {
        12int
    })) as u64
}

/// Q, K, V, mask and result lie where the attention has them, and the last word holds the number
/// of KV heads below and the width of a V head above.
pub open spec fn offsets_right(c: Option<Cmd>, p: Attention) -> bool {
    match c {
        Some(Cmd::U64x6(_, q, k, v, mask, out, heads_and_width)) => {
            &&& q == p.q
            &&& k == p.k
            &&& v == p.v
            &&& mask == p.mask
            &&& out == p.out
            &&& heads_and_width as int % 0x1_0000_0000 == kv_head_count(p)
            &&& heads_and_width as int / 0x1_0000_0000 == v_dim(p)
        },
        _ => false,
    }
}

/// The kernel finds every number of the attention where the list has it, and where the tensors
/// lie; five buffers are the arena.
pub open spec fn reads_attention(l: Launch, list: AttentionList, p: Attention) -> bool {
    &&& forall|x: AttentionNumber|
        number_place(list, x) is Some ==> #[trigger] number_read(l, list, x) == Some(
            number_of(p, x),
        )
    &&& offsets_right(l.arg(offsets_slot(list)), p)
}

/// The first five buffers are the arena from its start.
pub open spec fn reads_arena(l: Launch) -> bool {
    forall|i: u64| i < 5 ==> #[trigger] l.place(i) == Some((Buf::Arena, 0u64))
}

/// Threads that a kernel wants in each of its groups; none where single threads are launched.
pub open spec fn group_threads(kernel: Kernel, head_dim: u32) -> Option<u64> {
    match kernel {
        Kernel::SdpaFa2 | Kernel::SdpaFaF32 => Some(64),
        Kernel::SdpaPrefillFa | Kernel::SdpaPrefillFaMma => Some(128),
        Kernel::SdpaLong | Kernel::SdpaLongOccpad => None,
        Kernel::SdpaDecodeM1 | Kernel::SdpaDecodeM1F16kv => Some(
            if head_dim <= 128 {
                32
            } else {
                1
            },
        ),
        _ => Some(32),
    }
}

/// Every query row of every head and batch item is computed.
pub open spec fn covers_rows(l: Launch, p: Attention) -> bool {
    let rows = p.batch * p.heads * p.seq;
    match l.kernel() {
        Some(kernel) => match group_threads(kernel, p.head_dim) {
            None => l.threads() == Some(one_row(rows as u64)),
            Some(threads) => match l.groups() {
                Some((count, size)) => {
                    &&& size == one_row(threads)
                    &&& match kernel {
                        // A group per eight rows.
                        Kernel::SdpaMma
                        | Kernel::SdpaFa2
                        | Kernel::SdpaFaF32
                        | Kernel::SdpaPrefillFa
                        | Kernel::SdpaPrefillFaMma => {
                            &&& p.seq <= count.width * 8 < p.seq + 8
                            &&& count.height == p.heads
                            &&& count.depth == p.batch
                        },
                        // A group per row.
                        Kernel::SdpaSplitk => count == one_row(rows as u64),
                        // A group per head.
                        _ => count == one_row((p.batch * p.heads) as u64),
                    }
                },
                None => false,
            },
        },
        None => false,
    }
}

/// Q's heads are split evenly among the KV heads, and a KV head count that divides is taken.
pub proof fn lemma_heads_are_shared_evenly(p: Attention)
    requires
        p.heads > 0,
    ensures
        kv_head_count(p) > 0,
        p.heads as int % kv_head_count(p) as int == 0,
        p.kv_heads > 0 && p.heads as int % p.kv_heads as int == 0 ==> kv_head_count(p)
            == p.kv_heads,
        p.kv_heads == 0 || p.heads as int % p.kv_heads as int != 0 ==> kv_head_count(p) == p.heads,
        v_dim(p) == p.v_head_dim || (p.v_head_dim == 0 && v_dim(p) == p.head_dim),
{
    assert(p.heads as int % p.heads as int == 0) by (nonlinear_arith)
        requires
            p.heads > 0,
    ;
}

proof fn lemma_offsets_word(p: Attention)
    ensures
        ({
            let w = (kv_head_count(p) + v_dim(p) * 0x1_0000_0000) as u64;
            &&& w as int % 0x1_0000_0000 == kv_head_count(p)
            &&& w as int / 0x1_0000_0000 == v_dim(p)
        }),
{
    let a = kv_head_count(p) as int;
    let b = v_dim(p) as int;
    let w = a + b * 0x1_0000_0000;
    assert(0 <= w <= u64::MAX);
    assert(w % 0x1_0000_0000 == a && w / 0x1_0000_0000 == b);
}

proof fn lemma_many_row_numbers(l: Launch, p: Attention)
    requires
        l.word(5) == Some(p.batch),
        l.word(6) == Some(p.seq),
        l.word(7) == Some(p.heads),
        l.word(8) == Some(p.head_dim),
        l.word(9) == Some(p.seq_stride),
        l.word(10) == Some(p.mask_kind),
        l.word(11) == Some(p.kv_seq),
        l.word(12) == Some(p.kv_stride),
        l.word(13) == Some(p.bhsd),
        l.word(14) == Some(p.window),
        l.word(15) == Some(p.score_scale),
        l.word(16) == Some(p.softcap),
        offsets_right(l.arg(17), p),
    ensures
        reads_attention(l, many_row_list(), p),
{
}

proof fn lemma_one_row_numbers(l: Launch, n: u64, p: Attention)
    requires
        n <= 100,
        l.word(n) == Some(p.batch),
        l.word((n + 1) as u64) == Some(p.heads),
        l.word((n + 2) as u64) == Some(p.head_dim),
        l.word((n + 3) as u64) == Some(p.seq_stride),
        l.word((n + 4) as u64) == Some(p.mask_kind),
        l.word((n + 5) as u64) == Some(p.kv_seq),
        l.word((n + 6) as u64) == Some(p.kv_stride),
        l.word((n + 7) as u64) == Some(p.bhsd),
        l.word((n + 8) as u64) == Some(p.window),
        l.word((n + 9) as u64) == Some(p.score_scale),
        l.word((n + 10) as u64) == Some(p.softcap),
        offsets_right(l.arg((n + 11) as u64), p),
    ensures
        reads_attention(l, AttentionList { buffers: n, one_row: true }, p),
{
}

proof fn lemma_five_places(l: Launch)
    requires
        l.place(0) == Some((Buf::Arena, 0u64)),
        l.place(1) == Some((Buf::Arena, 0u64)),
        l.place(2) == Some((Buf::Arena, 0u64)),
        l.place(3) == Some((Buf::Arena, 0u64)),
        l.place(4) == Some((Buf::Arena, 0u64)),
    ensures
        reads_arena(l),
{
    assert forall|i: u64| i < 5 implies #[trigger] l.place(i) == Some((Buf::Arena, 0u64)) by {
        assert(i == 0 || i == 1 || i == 2 || i == 3 || i == 4);
    }
}

/// Attention with one query row over another number of keys is handed the list of one row where
/// the kernels for one row are on and its heads are narrow enough; all other attention is handed
/// the list of many rows.
pub open spec fn handed_list(p: Attention, f: SdpaFlags, dt: HalfFlag) -> AttentionList {
    if dt == HalfFlag::F32 && p.seq == 1 && p.kv_seq != 1 && p.head_dim <= 512 && f.decode_m1 {
        one_row_list()
    } else {
        many_row_list()
    }
}

/// Attention launches one kernel, which finds every number of the attention in its place: on one
/// query row too the number of keys is that of the keys. The list is the one that the kernel is
/// written for, except where narrow heads over many keys send a single row to the tiled kernel.
pub proof fn lemma_attention_arguments(p: Attention, f: SdpaFlags, dt: HalfFlag)
    ensures
        launches_once(sdpa_steps(p, f, dt)),
        reads_arena(launch(sdpa_steps(p, f, dt))),
        reads_attention(launch(sdpa_steps(p, f, dt)), handed_list(p, f, dt), p),
        !(f.fa && p.seq == 1 && p.kv_seq >= 256 && p.head_dim <= 32) ==> match launch(
            sdpa_steps(p, f, dt),
        ).kernel() {
            Some(kernel) => list_of(kernel) == handed_list(p, f, dt),
            None => false,
        },
{
    broadcast use group_launches;

    lemma_offsets_word(p);
    let s = sdpa_steps(p, f, dt);
    if streams(p, dt) && uses_decode(p, f) {
        assert(launches_once(s));
        lemma_one_row_numbers(launch(s), 5, p);
        lemma_five_places(launch(s));
    } else if streams(p, dt) {
        assert(launches_once(s));
        lemma_many_row_numbers(launch(s), p);
        lemma_five_places(launch(s));
    } else {
        assert(launches_once(s));
        lemma_many_row_numbers(launch(s), p);
        lemma_five_places(launch(s));
    }
}

/// A kernel for one query row and one for many rows are handed the same number of keys.
pub proof fn lemma_same_keys(
    p: Attention,
    f: SdpaFlags,
    dt: HalfFlag,
    q: Attention,
    g: SdpaFlags,
    e: HalfFlag,
)
    requires
        p.kv_seq == q.kv_seq,
    ensures
        number_read(launch(sdpa_steps(p, f, dt)), handed_list(p, f, dt), AttentionNumber::Keys)
            == number_read(
            launch(sdpa_steps(q, g, e)),
            handed_list(q, g, e),
            AttentionNumber::Keys,
        ),
{
    lemma_attention_arguments(p, f, dt);
    lemma_attention_arguments(q, g, e);
    assert(number_place(handed_list(p, f, dt), AttentionNumber::Keys) is Some);
    assert(number_place(handed_list(q, g, e), AttentionNumber::Keys) is Some);
}

/// Every query row of every head and batch item is computed by the launch, whichever kernel runs.
pub proof fn lemma_attention_covers_rows(p: Attention, f: SdpaFlags, dt: HalfFlag)
    requires
        sdpa_counts_fit(p, dt),
        !(f.fa && p.seq == 1 && p.kv_seq >= 256 && p.head_dim <= 32),
    ensures
        covers_rows(launch(sdpa_steps(p, f, dt)), p),
{
    broadcast use group_launches;

    let s = sdpa_steps(p, f, dt);
    if streams(p, dt) && uses_decode(p, f) {
        assert(launches_once(s));
    } else if streams(p, dt) {
        assert(launches_once(s));
        lemma_tiles_cover(p.seq);
    } else {
        assert(launches_once(s));
    }
}

proof fn lemma_tiles_cover(rows: u32)
    ensures
        rows <= div_up(rows as u64, 8) * 8 < rows + 8,
{
}

/// Which kernel runs follows the operator's settings: each optional kernel needs its own switch,
/// and half-precision attention has one kernel of its own.
pub proof fn lemma_attention_follows_switches(p: Attention, f: SdpaFlags)
    ensures
        ({
            let kernel = sdpa_kernel(p, f, HalfFlag::F32);
            &&& sdpa_kernel(p, f, HalfFlag::F16) == Kernel::SdpaH
            &&& kernel != Kernel::SdpaH
            &&& kernel == Kernel::SdpaMma ==> f.mma && p.seq > 1 && p.head_dim % 8 == 0 && v_dim(p)
                % 8 == 0
            &&& kernel == Kernel::SdpaFa2 ==> f.fa2 && p.seq > 1
            &&& kernel == Kernel::SdpaSplitk ==> f.splitk && p.seq > 1
            &&& kernel == Kernel::SdpaFaF32 ==> f.fa && p.kv_seq >= 256
            &&& kernel == Kernel::SdpaPrefillFa ==> f.prefill_fa && p.seq > 1 && p.mask_kind != 3
            &&& kernel == Kernel::SdpaPrefillFaMma ==> f.prefill_fa && f.prefill_fa_mma && p.seq > 1
                && p.mask_kind != 3 && p.head_dim % 8 == 0 && v_dim(p) % 8 == 0
            &&& kernel == Kernel::SdpaDecodeM1 ==> f.decode_m1 && p.seq == 1 && !p.kv_f16
            &&& kernel == Kernel::SdpaDecodeM1F16kv ==> f.decode_m1 && p.seq == 1 && p.kv_f16
            &&& kernel == Kernel::SdpaLongOccpad ==> f.occpad && p.seq > 1
            &&& kernel == Kernel::SdpaSimdH16 ==> f.h16
            &&& kernel == Kernel::SdpaSimd ==> f.simd && !f.h16
            &&& kernel == Kernel::Sdpa ==> !f.simd && !f.h16
        }),
{
}

/// With all optional kernels off, attention that fits no block of scores streams over the keys.
pub proof fn lemma_attention_without_switches(p: Attention, f: SdpaFlags)
    requires
        !f.mma && !f.fa2 && !f.splitk && !f.fa && !f.prefill_fa && !f.decode_m1 && !f.occpad && !f.simd
            && !f.h16,
    ensures
        sdpa_kernel(p, f, HalfFlag::F32) == Kernel::SdpaLong <==> !(p.seq <= 64 && p.kv_seq
            == p.seq),
        sdpa_kernel(p, f, HalfFlag::F32) == Kernel::Sdpa <==> p.seq <= 64 && p.kv_seq == p.seq,
{
}

/// The merge of the partitions: their partial results, what it writes, and how many there are.
pub open spec fn merges(l: Launch, p: Attention, n_part: u32) -> bool {
    &&& l.kernel() == Some(Kernel::SdpaDecodeM1Combine)
    &&& l.place(0) == Some((Buf::Scratch, 0u64))
    &&& l.place(1) == Some((Buf::Arena, 0u64))
    &&& l.word(2) == Some(p.batch)
    &&& l.word(3) == Some(p.heads)
    &&& l.word(4) == Some(n_part)
    &&& l.word(5) == Some(p.head_dim)
    &&& l.word(6) == Some(p.seq_stride)
    &&& l.word(7) == Some(p.bhsd)
    &&& offsets_right(l.arg(8), p)
    &&& match l.groups() {
        Some((count, size)) => {
            &&& count == one_row((p.batch * p.heads) as u64)
            &&& 1 <= size.width <= 128
            &&& v_dim(p) <= 128 ==> v_dim(p) <= size.width
        },
        None => false,
    }
}

/// Kernels that read K and V in half precision.
pub open spec fn reads_half_cache(kernel: Kernel) -> bool {
    ||| kernel == Kernel::SdpaDecodeM1F16kv
    ||| kernel == Kernel::SdpaDecodeM1PartialF16kv
    ||| kernel == Kernel::SdpaDecodeM1PartialHdF16kv
    ||| kernel == Kernel::KvQuantI8F16
}

proof fn lemma_merge(p: Attention, n_part: u32)
    ensures
        launches_once(combine_steps(p, n_part)),
        merges(launch(combine_steps(p, n_part)), p, n_part),
{
    broadcast use group_launches;

    lemma_offsets_word(p);
    assert(launches_once(combine_steps(p, n_part)));
}

proof fn lemma_merge_behind(a: Seq<Cmd>, p: Attention, n_part: u32)
    ensures
        launches(a + combine_steps(p, n_part)).len() == launches(a).len() + 1,
        forall|i: int| 0 <= i < launches(a).len() ==> #[trigger] launches(
            a + combine_steps(p, n_part),
        )[i] == launches(a)[i],
        merges(launches(a + combine_steps(p, n_part))[launches(a).len() as int], p, n_part),
{
    broadcast use crate::launch::lemma_behind_keeps;

    let b = combine_steps(p, n_part);
    lemma_launches_append(a, b);
    lemma_merge(p, n_part);
    assert(launches(b)[0] == launch(b));
}

/// Split attention launches a kernel over all partitions, which finds every number of the
/// attention and the partition count, and a merge. The first reads the cache in its precision and
/// leaves its results where the merge takes them.
pub proof fn lemma_split_attention_arguments(p: Attention, f: SdpaFlags, n_part: u32)
    ensures
        ({
            let ls = launches(flash_decode_steps(p, f, n_part));
            &&& ls.len() == 2
            &&& reads_arena(ls[0])
            &&& reads_attention(ls[0], one_row_list(), p)
            &&& ls[0].kernel() is Some
            &&& list_of(ls[0].kernel()->0) == one_row_list()
            &&& reads_half_cache(ls[0].kernel()->0) <==> p.kv_f16
            &&& ls[0].word(18) == Some(n_part)
            &&& ls[0].groups() == Some(
                (one_row((p.batch * p.heads * n_part) as u64), one_row(32)),
            )
            &&& ls[0].place(17) == ls[1].place(0)
            &&& merges(ls[1], p, n_part)
        }),
{
    broadcast use group_launches;

    lemma_offsets_word(p);
    let first = seq![Cmd::Pipeline(partial_kernel(p, f))] + arena_bindings() + decode_constants(p)
        + seq![
        Cmd::Buffer(17, Buf::Scratch, 0),
        Cmd::U32(18, n_part),
        Cmd::Groups(one_row((p.batch * p.heads * n_part) as u64), one_row(32)),
    ];
    lemma_merge_behind(first, p, n_part);
    assert(launches_once(first));
    let ls = launches(flash_decode_steps(p, f, n_part));
    assert(ls.len() == 2);
    assert(ls[0] == launch(first));
    lemma_one_row_numbers(ls[0], 5, p);
    lemma_five_places(ls[0]);
}

/// One quantization pass: what it reads, where it leaves the values and their scales, and the
/// shape of a row.
pub open spec fn quantizes(
    l: Launch,
    p: Attention,
    g: QuantFlags,
    src: usize,
    values: int,
    scales: int,
    width: u32,
) -> bool {
    &&& l.kernel() is Some
    &&& l.kernel()->0 == Kernel::KvQuantI8 || l.kernel()->0 == Kernel::KvQuantI8F16
    &&& reads_half_cache(l.kernel()->0) <==> p.kv_f16
    &&& l.place(0) == Some((Buf::Arena, 0u64))
    &&& l.place(1) == Some((Buf::IntScratch, values as u64))
    &&& l.place(2) == Some((Buf::IntScratch, scales as u64))
    &&& l.long(3) == Some(src as u64)
    &&& l.word(4) == Some(low_word((p.batch * kv_head_count(p) * p.kv_seq) as u64))
    &&& l.word(5) == Some(width)
    &&& l.word(6) == Some(p.bhsd)
    &&& l.word(7) == Some(kv_head_count(p))
    &&& l.word(8) == Some(p.kv_seq)
    &&& l.word(9) == Some(p.kv_stride)
    &&& l.word(10) == Some(
        if g.block {
            1u32
        } else {
            0u32
        },
    )
    &&& match l.groups() {
        Some((count, size)) => size == one_row(64) && count == one_row(count.width)
            && quant_rows(p, g) <= count.width * 64 < quant_rows(p, g) + 64,
        None => false,
    }
}

/// Rows of the cache that are quantized: those of the last tokens where fewer are asked for, all
/// of them otherwise.
pub proof fn lemma_quantized_rows(p: Attention, g: QuantFlags)
    ensures
        quant_rows(p, g) <= p.batch * kv_head_count(p) * p.kv_seq,
        g.last_tokens == 0 ==> quant_rows(p, g) == p.batch * kv_head_count(p) * p.kv_seq,
        g.last_tokens > 0 ==> quant_rows(p, g) <= g.last_tokens * kv_head_count(p) * p.batch,
        quant_rows(p, g) == p.batch * kv_head_count(p) * p.kv_seq || quant_rows(p, g)
            == g.last_tokens * kv_head_count(p) * p.batch,
{
}

/// Split attention on a quantized cache quantizes K, quantizes V unless V is read as floats,
/// attends over all partitions of what was quantized, and merges: the attention reads K, V and
/// their scales from where the passes left them.
pub proof fn lemma_quantized_attention_arguments(p: Attention, g: QuantFlags, n_part: u32)
    requires
        quant_sizes_fit(p, g, n_part),
    ensures
        ({
            let ls = launches(quant_decode_steps(p, g, n_part));
            let partial = ls[ls.len() - 2];
            &&& ls.len() == if g.v_float {
                3int
            } else {
                4int
            }
            &&& quantizes(ls[0], p, g, p.k, 0, k_scales(p), p.head_dim)
            &&& !g.v_float ==> quantizes(
                ls[1],
                p,
                g,
                p.v,
                v_section(p),
                v_scales(p, g),
                v_dim(p),
            )
            &&& partial.kernel() == Some(Kernel::SdpaDecodeM1PartialW8a8)
            &&& reads_attention(partial, quantized_list(), p)
            &&& partial.place(0) == Some((Buf::Arena, 0u64))
            &&& partial.place(1) == ls[0].place(1)
            &&& partial.place(4) == ls[0].place(2)
            &&& !g.v_float ==> partial.place(2) == ls[1].place(1) && partial.place(5)
                == ls[1].place(2)
            &&& partial.place(3) == Some((Buf::Arena, 0u64))
            &&& partial.place(18) == ls[ls.len() - 1].place(0)
            &&& partial.groups() == Some(
                (one_row((p.batch * p.heads * n_part) as u64), one_row(32)),
            )
            &&& partial.word(19) is Some
            &&& modes_right(partial.word(19)->0, n_part, g)
            &&& merges(ls[ls.len() - 1], p, n_part)
        }),
{
    let k = quant_steps(p, g, p.k, 0, k_scales(p), p.head_dim);
    let v = quant_steps(p, g, p.v, v_section(p), v_scales(p, g), v_dim(p));
    let part = quant_partial_steps(p, g, n_part);
    lemma_quant_pass(p, g, n_part, p.k, 0, k_scales(p), p.head_dim);
    lemma_quant_pass(p, g, n_part, p.v, v_section(p), v_scales(p, g), v_dim(p));
    lemma_quant_partial(p, g, n_part);
    let passes = k + (if g.v_float {
        Seq::<Cmd>::empty()
    } else {
        v
    });
    lemma_launches_append(passes, part);
    lemma_merge_behind(passes + part, p, n_part);
    let ls = launches(quant_decode_steps(p, g, n_part));
    assert(launches(part)[0] == launch(part));
    assert(launches(k)[0] == launch(k));
    if g.v_float {
        assert(passes =~= k);
        assert(ls[0] == launch(k));
        lemma_partial_behind(k, p, g, n_part);
        assert(ls[1] == behind(k, launch(part)));
    } else {
        lemma_launches_append(k, v);
        assert(launches(v)[0] == launch(v));
        lemma_pass_behind(k, p, g, n_part);
        lemma_partial_behind(passes, p, g, n_part);
        assert(ls[0] == launch(k));
        assert(ls[1] == behind(k, launch(v)));
        assert(ls[2] == behind(passes, launch(part)));
    }
}

proof fn lemma_quant_pass(
    p: Attention,
    g: QuantFlags,
    n_part: u32,
    src: usize,
    to: int,
    scales: int,
    width: u32,
)
    requires
        quant_sizes_fit(p, g, n_part),
    ensures
        launches_once(quant_steps(p, g, src, to, scales, width)),
        quantizes(
            launch(quant_steps(p, g, src, to, scales, width)),
            p,
            g,
            src,
            to,
            scales,
            width,
        ),
{
    broadcast use group_launches;

    lemma_quant_groups(p, g, n_part);
    assert(launches_once(quant_steps(p, g, src, to, scales, width)));
}

proof fn lemma_pass_behind(a: Seq<Cmd>, p: Attention, g: QuantFlags, n_part: u32)
    requires
        quant_sizes_fit(p, g, n_part),
    ensures
        quantizes(
            behind(
                a,
                launch(quant_steps(p, g, p.v, v_section(p), v_scales(p, g), v_dim(p))),
            ),
            p,
            g,
            p.v,
            v_section(p),
            v_scales(p, g),
            v_dim(p),
        ),
{
    broadcast use {crate::launch::lemma_behind_keeps, crate::launch::lemma_behind_kernel};

    lemma_quant_pass(p, g, n_part, p.v, v_section(p), v_scales(p, g), v_dim(p));
}

/// The partitions of a quantized cache: K, V and their scales from their sections.
pub open spec fn attends_quantized(
    l: Launch,
    p: Attention,
    g: QuantFlags,
    n_part: u32,
) -> bool {
    &&& l.kernel() == Some(Kernel::SdpaDecodeM1PartialW8a8)
    &&& reads_attention(l, quantized_list(), p)
    &&& l.place(0) == Some((Buf::Arena, 0u64))
    &&& l.place(1) == Some((Buf::IntScratch, 0u64))
    &&& l.place(2) == Some((Buf::IntScratch, v_section(p) as u64))
    &&& l.place(3) == Some((Buf::Arena, 0u64))
    &&& l.place(4) == Some((Buf::IntScratch, k_scales(p) as u64))
    &&& l.place(5) == Some((Buf::IntScratch, v_scales(p, g) as u64))
    &&& l.place(18) == Some((Buf::Scratch, 0u64))
    &&& l.groups() == Some((one_row((p.batch * p.heads * n_part) as u64), one_row(32)))
    &&& l.word(19) is Some
    &&& modes_right(l.word(19)->0, n_part, g)
}

#[verifier::spinoff_prover]
proof fn lemma_quant_partial(p: Attention, g: QuantFlags, n_part: u32)
    ensures
        launches_once(quant_partial_steps(p, g, n_part)),
        attends_quantized(launch(quant_partial_steps(p, g, n_part)), p, g, n_part),
{
    broadcast use group_launches;

    lemma_offsets_word(p);
    lemma_modes(n_part, g);
    let s = quant_partial_steps(p, g, n_part);
    assert(launches_once(s));
    lemma_one_row_numbers(launch(s), 6, p);
}

proof fn lemma_partial_behind(a: Seq<Cmd>, p: Attention, g: QuantFlags, n_part: u32)
    ensures
        attends_quantized(behind(a, launch(quant_partial_steps(p, g, n_part))), p, g, n_part),
{
    broadcast use {crate::launch::lemma_behind_keeps, crate::launch::lemma_behind_kernel};

    lemma_quant_partial(p, g, n_part);
    let l = launch(quant_partial_steps(p, g, n_part));
    let m = behind(a, l);
    assert forall|x: AttentionNumber| number_place(quantized_list(), x) is Some implies
        #[trigger] number_read(m, quantized_list(), x) == Some(number_of(p, x)) by {
        assert(number_read(l, quantized_list(), x) == Some(number_of(p, x)));
    }
}

proof fn lemma_quant_groups(p: Attention, g: QuantFlags, n_part: u32)
    requires
        quant_sizes_fit(p, g, n_part),
    ensures
        quant_rows(p, g) <= div_up(quant_rows(p, g) as u64, 64) * 64 < quant_rows(p, g) + 64,
{
    let a = g.last_tokens as int;
    let b = kv_head_count(p) as int;
    let c = p.batch as int;
    assert(0 <= a * b * c) by (nonlinear_arith)
        requires
            0 <= a,
            0 <= b,
            0 <= c,
    ;
}

/// The word of read modes: the partition count below, and a bit per operand that is read as
/// integers and for scales per block.
pub open spec fn modes_right(w: u32, n_part: u32, g: QuantFlags) -> bool {
    &&& w as int % 0x1_0000 == n_part as int % 0x1_0000
    &&& w as int / 0x1_0000 % 2 == 1 <==> !g.q_float
    &&& w as int / 0x2_0000 % 2 == 1 <==> !g.v_float
    &&& w as int / 0x4_0000 % 2 == 1 <==> g.block
    &&& w as int / 0x8_0000 % 2 == 1 <==> !g.k_float
    &&& w < 0x10_0000
}

proof fn lemma_modes(n_part: u32, g: QuantFlags)
    ensures
        modes_right(modes_word(n_part, g), n_part, g),
{
}

/// The partial pass splits its heads where it may and both widths divide, and reads a half-precision
/// cache exactly where there is one.
pub proof fn lemma_partial_kernel(p: Attention, f: SdpaFlags)
    ensures
        ({
            let kernel = partial_kernel(p, f);
            let split = kernel == Kernel::SdpaDecodeM1PartialHd || kernel
                == Kernel::SdpaDecodeM1PartialHdF16kv;
            &&& !f.hdsplit ==> !split
            &&& p.head_dim % 32 != 0 || v_dim(p) % 32 != 0 ==> !split
            &&& f.hdsplit && p.head_dim % 32 == 0 && v_dim(p) % 32 == 0 ==> split
            &&& p.kv_f16 <==> kernel == Kernel::SdpaDecodeM1PartialHdF16kv || kernel
                == Kernel::SdpaDecodeM1PartialF16kv
            &&& !p.kv_f16 && !split ==> kernel == Kernel::SdpaDecodeM1Partial
        }),
{
}

} // verus!
