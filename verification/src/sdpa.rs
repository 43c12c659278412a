//! Scaled dot-product attention: the choice among its kernels, and their launches.

use vstd::prelude::*;

use crate::command::{
    bit, ceil_div, div_up, emit, flag, least, low32, low_word, max_u64, min_u64, most, one_row,
    row, Buf, Cmd, Group, HalfFlag, Kernel, Size,
};

verus! {

/// One attention: byte offsets of its tensors in the arena, its shape, and its scalars, of which
/// the floats are given by their bit patterns.
#[derive(Clone, Copy, Debug, PartialEq, Eq, Structural)]
pub struct Attention {
    pub q: usize,
    pub k: usize,
    pub v: usize,
    pub mask: usize,
    pub out: usize,
    pub batch: u32,
    pub seq: u32,
    pub heads: u32,
    pub kv_heads: u32,
    pub head_dim: u32,
    pub v_head_dim: u32,
    pub seq_stride: u32,
    pub mask_kind: u32,
    pub window: u32,
    pub kv_seq: u32,
    pub kv_stride: u32,
    pub bhsd: u32,
    pub score_scale: u32,
    pub softcap: u32,
    pub kv_f16: bool,
}

/// Operator settings of attention.
#[derive(Clone, Copy, Debug, PartialEq, Eq, Structural)]
pub struct SdpaFlags {
    pub fa: bool,
    /// On unless switched off.
    pub decode_m1: bool,
    pub mma: bool,
    pub fa2: bool,
    pub splitk: bool,
    /// On unless switched off.
    pub prefill_fa: bool,
    pub prefill_fa_mma: bool,
    pub occpad: bool,
    pub simd: bool,
    pub h16: bool,
    pub hdsplit: bool,
}

/// Heads of K and V: as many as of Q where none are given or they do not divide Q's.
pub open spec fn kv_head_count(p: Attention) -> u32 {
    if p.kv_heads == 0 || p.heads % p.kv_heads != 0 {
        p.heads
    } else {
        p.kv_heads
    }
}

/// Width of a head of V: that of a head of Q where none is given.
pub open spec fn v_dim(p: Attention) -> u32 {
    if p.v_head_dim == 0 {
        p.head_dim
    } else {
        p.v_head_dim
    }
}

/// The five offsets, and the KV head count in the low and the V head width in the high half of
/// a sixth word.
pub open spec fn offsets_step(slot: u64, p: Attention) -> Cmd {
    Cmd::U64x6(
        slot,
        p.q as u64,
        p.k as u64,
        p.v as u64,
        p.mask as u64,
        p.out as u64,
        (kv_head_count(p) + v_dim(p) * 0x1_0000_0000) as u64,
    )
}

fn kv_head_number(p: Attention) -> (r: u32)
    ensures
        r == kv_head_count(p),
{
    if p.kv_heads == 0 || p.heads % p.kv_heads != 0 {
        p.heads
    } else {
        p.kv_heads
    }
}

fn v_width(p: Attention) -> (r: u32)
    ensures
        r == v_dim(p),
{
    if p.v_head_dim == 0 {
        p.head_dim
    } else {
        p.v_head_dim
    }
}

fn pack_offsets(slot: u64, p: Attention) -> (r: Cmd)
    ensures
        r == offsets_step(slot, p),
{
    let packed: u64 = (kv_head_number(p) as u64) + (v_width(p) as u64) * 0x1_0000_0000;
    Cmd::U64x6(
        slot,
        p.q as u64,
        p.k as u64,
        p.v as u64,
        p.mask as u64,
        p.out as u64,
        packed,
    )
}

/// The kernels whose scores fit a 64 by 64 block serve only square attention up to that size;
/// all other single-precision attention goes to the kernels that stream over the keys.
pub open spec fn streams(p: Attention, dt: HalfFlag) -> bool {
    dt == HalfFlag::F32 && (p.seq > 64 || p.kv_seq > 64 || p.kv_seq != p.seq)
}

pub open spec fn uses_fa(p: Attention, f: SdpaFlags) -> bool {
    p.kv_seq >= 256 && p.head_dim <= 32 && v_dim(p) == p.head_dim && f.fa
}

pub open spec fn uses_decode(p: Attention, f: SdpaFlags) -> bool {
    p.seq == 1 && p.kv_seq != p.seq && p.head_dim <= 512 && f.decode_m1
}

pub open spec fn uses_mma(p: Attention, f: SdpaFlags) -> bool {
    p.seq > 1 && p.head_dim <= 64 && v_dim(p) <= 64 && p.head_dim % 8 == 0 && v_dim(p) % 8 == 0
        && f.mma
}

pub open spec fn uses_fa2(p: Attention, f: SdpaFlags) -> bool {
    p.seq > 1 && !uses_mma(p, f) && p.head_dim <= 64 && v_dim(p) <= 64 && f.fa2
}

pub open spec fn uses_splitk(p: Attention, f: SdpaFlags) -> bool {
    p.seq > 1 && !uses_fa2(p, f) && !uses_mma(p, f) && p.head_dim <= 128 && v_dim(p) <= 128
        && f.splitk
}

pub open spec fn uses_prefill_fa(p: Attention, f: SdpaFlags) -> bool {
    p.seq > 1 && !uses_mma(p, f) && !uses_fa2(p, f) && !uses_splitk(p, f) && !uses_fa(p, f)
        && p.head_dim <= 128 && v_dim(p) <= 128 && p.mask_kind != 3 && f.prefill_fa
}

/// The pipeline that an attention runs.
pub open spec fn sdpa_kernel(p: Attention, f: SdpaFlags, dt: HalfFlag) -> Kernel {
    if streams(p, dt) {
        if uses_mma(p, f) {
            Kernel::SdpaMma
        } else if uses_fa2(p, f) {
            Kernel::SdpaFa2
        } else if uses_splitk(p, f) {
            Kernel::SdpaSplitk
        } else if uses_fa(p, f) {
            Kernel::SdpaFaF32
        } else if uses_prefill_fa(p, f) {
            if p.head_dim % 8 == 0 && v_dim(p) % 8 == 0 && f.prefill_fa_mma {
                Kernel::SdpaPrefillFaMma
            } else {
                Kernel::SdpaPrefillFa
            }
        } else if uses_decode(p, f) {
            if p.kv_f16 {
                Kernel::SdpaDecodeM1F16kv
            } else {
                Kernel::SdpaDecodeM1
            }
        } else if p.seq > 1 && f.occpad {
            Kernel::SdpaLongOccpad
        } else {
            Kernel::SdpaLong
        }
    } else {
        match dt {
            HalfFlag::F16 => Kernel::SdpaH,
            HalfFlag::F32 => if f.h16 {
                Kernel::SdpaSimdH16
            } else if f.simd {
                Kernel::SdpaSimd
            } else {
                Kernel::Sdpa
            },
        }
    }
}

/// Which counter of multi-row attention an attention adds to.
#[derive(Clone, Copy, Debug, PartialEq, Eq, Structural)]
pub enum PrefillStat {
    FlashAttention,
    Long,
}

pub open spec fn sdpa_stat(p: Attention, f: SdpaFlags, dt: HalfFlag) -> Option<PrefillStat> {
    if !streams(p, dt) || p.seq <= 1 || uses_mma(p, f) || uses_fa2(p, f) || uses_splitk(p, f) {
        None
    } else if uses_fa(p, f) || uses_prefill_fa(p, f) {
        Some(PrefillStat::FlashAttention)
    } else {
        Some(PrefillStat::Long)
    }
}

/// The arena at every tensor slot; offsets travel as constants.
pub open spec fn arena_bindings() -> Seq<Cmd> {
    seq![
        Cmd::Buffer(0, Buf::Arena, 0),
        Cmd::Buffer(1, Buf::Arena, 0),
        Cmd::Buffer(2, Buf::Arena, 0),
        Cmd::Buffer(3, Buf::Arena, 0),
        Cmd::Buffer(4, Buf::Arena, 0),
    ]
}

/// The constants of a kernel for many query rows.
pub open spec fn rows_constants(p: Attention) -> Seq<Cmd> {
    seq![
        Cmd::U32(5, p.batch),
        Cmd::U32(6, p.seq),
        Cmd::U32(7, p.heads),
        Cmd::U32(8, p.head_dim),
        Cmd::U32(9, p.seq_stride),
        Cmd::U32(10, p.mask_kind),
        Cmd::U32(11, p.kv_seq),
        Cmd::U32(12, p.kv_stride),
        Cmd::U32(13, p.bhsd),
        Cmd::U32(14, p.window),
        Cmd::U32(15, p.score_scale),
        Cmd::U32(16, p.softcap),
        offsets_step(17, p),
    ]
}

/// The constants of a kernel for a single query row.
pub open spec fn decode_constants(p: Attention) -> Seq<Cmd> {
    seq![
        Cmd::U32(5, p.batch),
        Cmd::U32(6, p.heads),
        Cmd::U32(7, p.head_dim),
        Cmd::U32(8, p.seq_stride),
        Cmd::U32(9, p.mask_kind),
        Cmd::U32(10, p.kv_seq),
        Cmd::U32(11, p.kv_stride),
        Cmd::U32(12, p.bhsd),
        Cmd::U32(13, p.window),
        Cmd::U32(14, p.score_scale),
        Cmd::U32(15, p.softcap),
        offsets_step(16, p),
    ]
}

/// One threadgroup per eight query rows, head and batch item.
pub open spec fn query_tiles(p: Attention) -> Size {
    Size { width: div_up(p.seq as u64, 8), height: p.heads as u64, depth: p.batch as u64 }
}

pub open spec fn query_rows(p: Attention) -> int {
    p.batch * p.heads * p.seq
}

/// The launch of a streaming kernel for many rows.
pub open spec fn rows_launch(p: Attention, f: SdpaFlags) -> Cmd {
    if uses_mma(p, f) {
        Cmd::Groups(query_tiles(p), one_row(32))
    } else if uses_fa2(p, f) {
        Cmd::Groups(query_tiles(p), one_row(64))
    } else if uses_splitk(p, f) {
        Cmd::Groups(one_row(query_rows(p) as u64), one_row(32))
    } else if uses_fa(p, f) {
        Cmd::Groups(query_tiles(p), one_row(64))
    } else if uses_prefill_fa(p, f) {
        Cmd::Groups(query_tiles(p), one_row(128))
    } else {
        let total = query_rows(p) as u64;
        Cmd::Threads(one_row(total), Group::Fixed(one_row(max_u64(min_u64(64, total), 1))))
    }
}

/// Every step of an attention.
pub open spec fn sdpa_steps(p: Attention, f: SdpaFlags, dt: HalfFlag) -> Seq<Cmd> {
    seq![Cmd::Pipeline(sdpa_kernel(p, f, dt))] + arena_bindings() + if streams(p, dt)
        && uses_decode(p, f) {
        decode_constants(p) + seq![
            Cmd::Groups(
                one_row((p.batch * p.heads) as u64),
                one_row(
                    if p.head_dim <= 128 {
                        32
                    } else {
                        1
                    },
                ),
            ),
        ]
    } else if streams(p, dt) {
        rows_constants(p) + seq![rows_launch(p, f)]
    } else {
        rows_constants(p) + seq![Cmd::Groups(one_row((p.batch * p.heads) as u64), one_row(32))]
    }
}

/// Counts that a launch forms stay within machine integers.
pub open spec fn sdpa_counts_fit(p: Attention, dt: HalfFlag) -> bool {
    if streams(p, dt) {
        query_rows(p) <= u64::MAX
    } else {
        p.batch * p.heads <= u32::MAX
    }
}

fn bind_arena(enc: &mut Vec<Cmd>)
    ensures
        final(enc)@ == old(enc)@ + arena_bindings(),
{
    emit(
        enc,
        vec![
            Cmd::Buffer(0, Buf::Arena, 0),
            Cmd::Buffer(1, Buf::Arena, 0),
            Cmd::Buffer(2, Buf::Arena, 0),
            Cmd::Buffer(3, Buf::Arena, 0),
            Cmd::Buffer(4, Buf::Arena, 0),
        ],
    );
}

fn emit_rows_constants(enc: &mut Vec<Cmd>, p: Attention)
    ensures
        final(enc)@ == old(enc)@ + rows_constants(p),
{
    emit(
        enc,
        vec![
            Cmd::U32(5, p.batch),
            Cmd::U32(6, p.seq),
            Cmd::U32(7, p.heads),
            Cmd::U32(8, p.head_dim),
            Cmd::U32(9, p.seq_stride),
            Cmd::U32(10, p.mask_kind),
            Cmd::U32(11, p.kv_seq),
            Cmd::U32(12, p.kv_stride),
            Cmd::U32(13, p.bhsd),
            Cmd::U32(14, p.window),
            Cmd::U32(15, p.score_scale),
            Cmd::U32(16, p.softcap),
            pack_offsets(17, p),
        ],
    );
}

fn emit_decode_constants(enc: &mut Vec<Cmd>, p: Attention)
    ensures
        final(enc)@ == old(enc)@ + decode_constants(p),
{
    emit(
        enc,
        vec![
            Cmd::U32(5, p.batch),
            Cmd::U32(6, p.heads),
            Cmd::U32(7, p.head_dim),
            Cmd::U32(8, p.seq_stride),
            Cmd::U32(9, p.mask_kind),
            Cmd::U32(10, p.kv_seq),
            Cmd::U32(11, p.kv_stride),
            Cmd::U32(12, p.bhsd),
            Cmd::U32(13, p.window),
            Cmd::U32(14, p.score_scale),
            Cmd::U32(15, p.softcap),
            pack_offsets(16, p),
        ],
    );
}

fn tiles_of_queries(p: Attention) -> (r: Size)
    ensures
        r == query_tiles(p),
{
    Size { width: ceil_div(p.seq as u64, 8), height: p.heads as u64, depth: p.batch as u64 }
}

fn count_heads(p: Attention) -> (r: u64)
    ensures
        r == p.batch * p.heads,
{
    assert(p.batch * p.heads <= 0xffff_ffff * 0xffff_ffff) by (nonlinear_arith);
    (p.batch as u64) * (p.heads as u64)
}

fn count_rows(p: Attention) -> (r: u64)
    requires
        query_rows(p) <= u64::MAX,
    ensures
        r == query_rows(p),
{
    assert(p.batch * p.heads <= 0xffff_ffff * 0xffff_ffff) by (nonlinear_arith);
    (p.batch as u64) * (p.heads as u64) * (p.seq as u64)
}

/// Encodes one attention and says which counter it adds to.
pub fn encode_sdpa(enc: &mut Vec<Cmd>, p: Attention, f: SdpaFlags, dt: HalfFlag) -> (stat: Option<
    PrefillStat,
>)
    requires
        sdpa_counts_fit(p, dt),
    ensures
        final(enc)@ == old(enc)@ + sdpa_steps(p, f, dt),
        stat == sdpa_stat(p, f, dt),
{
    let ghost start = enc@;
    let v_head_dim: u32 = v_width(p);
    let is_f32: bool = matches!(dt, HalfFlag::F32);
    if is_f32 && (p.seq > 64 || p.kv_seq > 64 || p.kv_seq != p.seq) {
        let use_fa: bool = p.kv_seq >= 256 && p.head_dim <= 32 && v_head_dim == p.head_dim && f.fa;
        let use_decode_m1: bool = p.seq == 1 && p.kv_seq != p.seq && p.head_dim <= 512
            && f.decode_m1;
        let use_mma: bool = p.seq > 1 && p.head_dim <= 64 && v_head_dim <= 64 && p.head_dim % 8
            == 0 && v_head_dim % 8 == 0 && f.mma;
        let use_fa2: bool = p.seq > 1 && !use_mma && p.head_dim <= 64 && v_head_dim <= 64 && f.fa2;
        let use_splitk: bool = p.seq > 1 && !use_fa2 && !use_mma && p.head_dim <= 128
            && v_head_dim <= 128 && f.splitk;
        let use_prefill_fa: bool = p.seq > 1 && !use_mma && !use_fa2 && !use_splitk && !use_fa
            && p.head_dim <= 128 && v_head_dim <= 128 && p.mask_kind != 3 && f.prefill_fa;
        let use_prefill_fa_mma: bool = use_prefill_fa && p.head_dim % 8 == 0 && v_head_dim % 8 == 0
            && f.prefill_fa_mma;
        let mut stat: Option<PrefillStat> = None;
        let pipeline: Kernel = if use_mma {
            Kernel::SdpaMma
        } else if use_fa2 {
            Kernel::SdpaFa2
        } else if use_splitk {
            Kernel::SdpaSplitk
        } else if use_fa {
            if p.seq > 1 {
                stat = Some(PrefillStat::FlashAttention);
            }
            Kernel::SdpaFaF32
        } else if use_prefill_fa {
            stat = Some(PrefillStat::FlashAttention);
            if use_prefill_fa_mma {
                Kernel::SdpaPrefillFaMma
            } else {
                Kernel::SdpaPrefillFa
            }
        } else if use_decode_m1 {
            if p.kv_f16 {
                Kernel::SdpaDecodeM1F16kv
            } else {
                Kernel::SdpaDecodeM1
            }
        } else if p.seq > 1 && f.occpad {
            stat = Some(PrefillStat::Long);
            Kernel::SdpaLongOccpad
        } else {
            if p.seq > 1 {
                stat = Some(PrefillStat::Long);
            }
            Kernel::SdpaLong
        };
        emit(enc, vec![Cmd::Pipeline(pipeline)]);
        bind_arena(enc);
        if use_decode_m1 {
            emit_decode_constants(enc, p);
            let threads_per_tg: u64 = if p.head_dim <= 128 {
                32
            } else {
                1
            };
            emit(enc, vec![Cmd::Groups(row(count_heads(p)), row(threads_per_tg))]);
            assert(enc@ =~= start + sdpa_steps(p, f, dt));
            return stat;
        }
        emit_rows_constants(enc, p);
        let launch: Cmd = if use_fa2 || use_mma {
            Cmd::Groups(
                tiles_of_queries(p),
                row(
                    if use_mma {
                        32
                    } else {
                        64
                    },
                ),
            )
        } else if use_splitk {
            Cmd::Groups(row(count_rows(p)), row(32))
        } else if use_fa {
            Cmd::Groups(tiles_of_queries(p), row(64))
        } else if use_prefill_fa {
            Cmd::Groups(tiles_of_queries(p), row(128))
        } else {
            let total: u64 = count_rows(p);
            Cmd::Threads(row(total), Group::Fixed(row(most(least(64, total), 1))))
        };
        emit(enc, vec![launch]);
        assert(enc@ =~= start + sdpa_steps(p, f, dt));
        return stat;
    }
    let use_simd: bool = is_f32 && f.simd;
    let use_h16: bool = is_f32 && f.h16 && p.seq <= 64 && p.kv_seq <= 64;
    let pipeline: Kernel = if use_h16 {
        Kernel::SdpaSimdH16
    } else if use_simd {
        Kernel::SdpaSimd
    } else if is_f32 {
        Kernel::Sdpa
    } else {
        Kernel::SdpaH
    };
    emit(enc, vec![Cmd::Pipeline(pipeline)]);
    bind_arena(enc);
    emit_rows_constants(enc, p);
    emit(enc, vec![Cmd::Groups(row(count_heads(p)), row(32))]);
    assert(enc@ =~= start + sdpa_steps(p, f, dt));
    None
}

/// Kernels that hold their scores in a 64 by 64 block are never run on a larger attention.
pub proof fn lemma_block_kernels_fit(p: Attention, f: SdpaFlags)
    ensures
        sdpa_kernel(p, f, HalfFlag::F32) == Kernel::Sdpa || sdpa_kernel(p, f, HalfFlag::F32)
            == Kernel::SdpaSimd || sdpa_kernel(p, f, HalfFlag::F32) == Kernel::SdpaSimdH16
            ==> p.seq <= 64 && p.kv_seq == p.seq,
{
}

/// Kernels with register tiles for narrow heads are never run on wider ones.
pub proof fn lemma_head_widths_respected(p: Attention, f: SdpaFlags)
    ensures
        ({
            let kernel = sdpa_kernel(p, f, HalfFlag::F32);
            &&& kernel == Kernel::SdpaMma || kernel == Kernel::SdpaFa2 ==> p.head_dim <= 64
                && v_dim(p) <= 64
            &&& kernel == Kernel::SdpaSplitk || kernel == Kernel::SdpaPrefillFa || kernel
                == Kernel::SdpaPrefillFaMma ==> p.head_dim <= 128 && v_dim(p) <= 128
            &&& kernel == Kernel::SdpaFaF32 ==> p.head_dim <= 32 && v_dim(p) == p.head_dim
            &&& kernel == Kernel::SdpaDecodeM1 || kernel == Kernel::SdpaDecodeM1F16kv ==> p.seq
                == 1 && p.head_dim <= 512
        }),
{
}

pub open spec fn clamp_int(x: int, lo: int, hi: int) -> int {
    if x < lo {
        lo
    } else if x > hi {
        hi
    } else {
        x
    }
}

pub open spec fn at_least_one(x: int) -> int {
    if x < 1 {
        1
    } else {
        x
    }
}

/// The keys after rounding up to a multiple of the padding.
pub open spec fn padded_keys(kv_seq: int, pad_kv: int) -> int {
    (kv_seq + at_least_one(pad_kv) - 1) / at_least_one(pad_kv) * at_least_one(pad_kv)
}

/// Partitions that fill the GPU.
pub open spec fn partitions_by_occupancy(batch: int, heads: int, tile_n: int) -> int {
    let bh = at_least_one(batch * heads);
    let target = if clamp_int(tile_n, 32, 1024) > 128 {
        clamp_int(tile_n, 32, 1024)
    } else {
        128
    };
    (target + bh - 1) / bh
}

/// Partitions that leave each enough keys.
pub open spec fn partitions_by_keys(kv_seq: int, tile_k: int, pad_kv: int) -> int {
    at_least_one(padded_keys(kv_seq, pad_kv) / clamp_int(tile_k, 64, 1024))
}

/// The number of partitions of split attention on one query row.
pub open spec fn partition_count(
    forced: Option<u32>,
    batch: int,
    heads: int,
    kv_seq: int,
    tile_n: int,
    tile_k: int,
    pad_kv: int,
) -> int {
    match forced {
        Some(p) => at_least_one(p as int),
        None => {
            let a = partitions_by_occupancy(batch, heads, tile_n);
            let b = partitions_by_keys(kv_seq, tile_k, pad_kv);
            let least = if a <= b {
                a
            } else {
                b
            };
            if at_least_one(least) > 64 {
                64
            } else {
                at_least_one(least)
            }
        },
    }
}

fn clamp_u32(x: u32, lo: u32, hi: u32) -> (r: u32)
    requires
        lo <= hi,
    ensures
        r == clamp_int(x as int, lo as int, hi as int),
{
    if x < lo {
        lo
    } else if x > hi {
        hi
    } else {
        x
    }
}

/// Partition count with the default tiles.
pub fn sdpa_flash_partitions(forced: Option<u32>, batch: u32, heads: u32, kv_seq: u32) -> (r: u32)
    requires
        forced is None ==> batch * heads <= u32::MAX,
    ensures
        r == partition_count(
            forced,
            batch as int,
            heads as int,
            kv_seq as int,
            128,
            32,
            1,
        ),
{
    assert((kv_seq as int + 1 - 1) / 1 * 1 == kv_seq) by (nonlinear_arith);
    sdpa_flash_partitions_tuned(forced, batch, heads, kv_seq, 128, 32, 1)
}

/// Partition count for given tiles; `forced` is the operator's choice.
pub fn sdpa_flash_partitions_tuned(
    forced: Option<u32>,
    batch: u32,
    heads: u32,
    kv_seq: u32,
    tile_n: u32,
    tile_k: u32,
    pad_kv: u32,
) -> (r: u32)
    requires
        forced is None ==> batch * heads <= u32::MAX && padded_keys(kv_seq as int, pad_kv as int)
            <= u32::MAX,
    ensures
        r == partition_count(
            forced,
            batch as int,
            heads as int,
            kv_seq as int,
            tile_n as int,
            tile_k as int,
            pad_kv as int,
        ),
{
    if let Some(p) = forced {
        return if p < 1 {
            1
        } else {
            p
        };
    }
    let heads_total: u32 = batch * heads;
    let bh: u32 = if heads_total < 1 {
        1
    } else {
        heads_total
    };
    let tile: u32 = clamp_u32(tile_n, 32, 1024);
    let target_tg: u32 = if tile > 128 {
        tile
    } else {
        128
    };
    let by_occupancy: u64 = ceil_div(target_tg as u64, bh as u64);
    let keys_per_part: u32 = clamp_u32(tile_k, 64, 1024);
    let pad: u32 = if pad_kv < 1 {
        1
    } else {
        pad_kv
    };
    let blocks: u64 = ceil_div(kv_seq as u64, pad as u64);
    let padded_kv: u64 = blocks * (pad as u64);
    let whole: u64 = padded_kv / (keys_per_part as u64);
    let by_keys: u64 = most(whole, 1);
    let least_parts: u64 = most(least(by_occupancy, by_keys), 1);
    least(least_parts, 64) as u32
}

/// Without an operator's choice there are 1 to 64 partitions, and where there is more than one,
/// each has at least 64 keys.
pub proof fn lemma_partitions_are_fat(
    batch: int,
    heads: int,
    kv_seq: int,
    tile_n: int,
    tile_k: int,
    pad_kv: int,
)
    requires
        0 <= kv_seq,
    ensures
        ({
            let p = partition_count(None, batch, heads, kv_seq, tile_n, tile_k, pad_kv);
            1 <= p <= 64 && (p > 1 ==> p * 64 <= padded_keys(kv_seq, pad_kv))
        }),
{
    let p = partition_count(None, batch, heads, kv_seq, tile_n, tile_k, pad_kv);
    let keys = padded_keys(kv_seq, pad_kv);
    let per = clamp_int(tile_k, 64, 1024);
    if p > 1 {
        assert(p <= keys / per);
        assert(p * 64 <= keys) by (nonlinear_arith)
            requires
                p <= keys / per,
                per >= 64,
                p > 0,
        ;
    }
}

/// The pipeline of the partial pass.
pub open spec fn partial_kernel(p: Attention, f: SdpaFlags) -> Kernel {
    let split = p.head_dim % 32 == 0 && v_dim(p) % 32 == 0 && f.hdsplit;
    if split {
        if p.kv_f16 {
            Kernel::SdpaDecodeM1PartialHdF16kv
        } else {
            Kernel::SdpaDecodeM1PartialHd
        }
    } else if p.kv_f16 {
        Kernel::SdpaDecodeM1PartialF16kv
    } else {
        Kernel::SdpaDecodeM1Partial
    }
}

/// The pass that merges the partials.
pub open spec fn combine_steps(p: Attention, n_part: u32) -> Seq<Cmd> {
    seq![
        Cmd::Pipeline(Kernel::SdpaDecodeM1Combine),
        Cmd::Buffer(0, Buf::Scratch, 0),
        Cmd::Buffer(1, Buf::Arena, 0),
        Cmd::U32(2, p.batch),
        Cmd::U32(3, p.heads),
        Cmd::U32(4, n_part),
        Cmd::U32(5, p.head_dim),
        Cmd::U32(6, p.seq_stride),
        Cmd::U32(7, p.bhsd),
        offsets_step(8, p),
        Cmd::Groups(
            one_row((p.batch * p.heads) as u64),
            one_row(min_u64(max_u64(v_dim(p) as u64, 1), 128)),
        ),
    ]
}

fn emit_combine(enc: &mut Vec<Cmd>, p: Attention, n_part: u32)
    ensures
        final(enc)@ == old(enc)@ + combine_steps(p, n_part),
{
    let threads: u64 = least(most(v_width(p) as u64, 1), 128);
    emit(
        enc,
        vec![
            Cmd::Pipeline(Kernel::SdpaDecodeM1Combine),
            Cmd::Buffer(0, Buf::Scratch, 0),
            Cmd::Buffer(1, Buf::Arena, 0),
            Cmd::U32(2, p.batch),
            Cmd::U32(3, p.heads),
            Cmd::U32(4, n_part),
            Cmd::U32(5, p.head_dim),
            Cmd::U32(6, p.seq_stride),
            Cmd::U32(7, p.bhsd),
            pack_offsets(8, p),
            Cmd::Groups(row(count_heads(p)), row(threads)),
        ],
    );
}

fn count_parts(p: Attention, n_part: u32) -> (r: u64)
    requires
        p.batch * p.heads * n_part <= u64::MAX,
    ensures
        r == p.batch * p.heads * n_part,
{
    assert(p.batch * p.heads <= 0xffff_ffff * 0xffff_ffff) by (nonlinear_arith);
    (p.batch as u64) * (p.heads as u64) * (n_part as u64)
}

pub open spec fn flash_decode_steps(p: Attention, f: SdpaFlags, n_part: u32) -> Seq<Cmd> {
    seq![Cmd::Pipeline(partial_kernel(p, f))] + arena_bindings() + decode_constants(p) + seq![
        Cmd::Buffer(17, Buf::Scratch, 0),
        Cmd::U32(18, n_part),
        Cmd::Groups(one_row((p.batch * p.heads * n_part) as u64), one_row(32)),
    ] + combine_steps(p, n_part)
}

/// Split attention on one query row: every partition of the keys on its own, then the merge.
pub fn encode_sdpa_flash_decode(enc: &mut Vec<Cmd>, p: Attention, f: SdpaFlags, n_part: u32)
    requires
        p.batch * p.heads * n_part <= u64::MAX,
    ensures
        final(enc)@ == old(enc)@ + flash_decode_steps(p, f, n_part),
{
    let v_head_dim: u32 = v_width(p);
    let hd_split: bool = p.head_dim % 32 == 0 && v_head_dim % 32 == 0 && f.hdsplit;
    let partial: Kernel = match (hd_split, p.kv_f16) {
        (true, true) => Kernel::SdpaDecodeM1PartialHdF16kv,
        (true, false) => Kernel::SdpaDecodeM1PartialHd,
        (false, true) => Kernel::SdpaDecodeM1PartialF16kv,
        (false, false) => Kernel::SdpaDecodeM1Partial,
    };
    emit(enc, vec![Cmd::Pipeline(partial)]);
    bind_arena(enc);
    emit_decode_constants(enc, p);
    emit(
        enc,
        vec![
            Cmd::Buffer(17, Buf::Scratch, 0),
            Cmd::U32(18, n_part),
            Cmd::Groups(row(count_parts(p, n_part)), row(32)),
        ],
    );
    emit_combine(enc, p, n_part);
}

/// Operator settings of attention on a quantized cache.
#[derive(Clone, Copy, Debug, PartialEq, Eq, Structural)]
pub struct QuantFlags {
    /// One scale per 32 values in place of one per row.
    pub block: bool,
    /// Q, K or V is read as floats.
    pub q_float: bool,
    pub k_float: bool,
    pub v_float: bool,
    /// Quantize only the rows of that many last tokens; zero for all rows.
    pub last_tokens: u64,
}

pub open spec fn align256(x: int) -> int {
    (x + 255) / 256 * 256
}

pub open spec fn cache_rows(p: Attention) -> int {
    p.batch * kv_head_count(p) * p.kv_seq
}

pub open spec fn scales_per_row(p: Attention, g: QuantFlags) -> int {
    if g.block {
        p.head_dim as int / 32
    } else {
        1
    }
}

/// Where the quantized V starts behind the quantized K.
pub open spec fn v_section(p: Attention) -> int {
    align256(cache_rows(p) * p.head_dim)
}

/// Where the scales of K start.
pub open spec fn k_scales(p: Attention) -> int {
    align256(v_section(p) + cache_rows(p) * v_dim(p))
}

/// Where the scales of V start.
pub open spec fn v_scales(p: Attention, g: QuantFlags) -> int {
    align256(k_scales(p) + cache_rows(p) * scales_per_row(p, g) * 4)
}

/// The rows that are quantized.
pub open spec fn quant_rows(p: Attention, g: QuantFlags) -> int {
    let asked = g.last_tokens * kv_head_count(p) * p.batch;
    if g.last_tokens > 0 && asked < cache_rows(p) {
        asked
    } else {
        cache_rows(p)
    }
}

/// One quantization pass over K or V.
pub open spec fn quant_steps(
    p: Attention,
    g: QuantFlags,
    src: usize,
    to: int,
    scales: int,
    width: u32,
) -> Seq<Cmd> {
    seq![
        Cmd::Pipeline(
            if p.kv_f16 {
                Kernel::KvQuantI8F16
            } else {
                Kernel::KvQuantI8
            },
        ),
        Cmd::Buffer(0, Buf::Arena, 0),
        Cmd::Buffer(1, Buf::IntScratch, to as u64),
        Cmd::Buffer(2, Buf::IntScratch, scales as u64),
        Cmd::U64(3, src as u64),
        Cmd::U32(4, low_word(cache_rows(p) as u64)),
        Cmd::U32(5, width),
        Cmd::U32(6, p.bhsd),
        Cmd::U32(7, kv_head_count(p)),
        Cmd::U32(8, p.kv_seq),
        Cmd::U32(9, p.kv_stride),
        Cmd::U32(10, bit(g.block)),
        Cmd::Groups(one_row(div_up(quant_rows(p, g) as u64, 64)), one_row(64)),
    ]
}

/// Partition count and read modes in one word.
pub open spec fn modes_word(n_part: u32, g: QuantFlags) -> u32 {
    (n_part as int % 0x1_0000 + bit(!g.q_float) * 0x1_0000 + bit(!g.v_float) * 0x2_0000 + bit(
        g.block,
    ) * 0x4_0000 + bit(!g.k_float) * 0x8_0000) as u32
}

pub open spec fn quant_partial_steps(p: Attention, g: QuantFlags, n_part: u32) -> Seq<Cmd> {
    seq![
        Cmd::Pipeline(Kernel::SdpaDecodeM1PartialW8a8),
        Cmd::Buffer(0, Buf::Arena, 0),
        Cmd::Buffer(1, Buf::IntScratch, 0),
        Cmd::Buffer(2, Buf::IntScratch, v_section(p) as u64),
        Cmd::Buffer(3, Buf::Arena, 0),
        Cmd::Buffer(4, Buf::IntScratch, k_scales(p) as u64),
        Cmd::Buffer(5, Buf::IntScratch, v_scales(p, g) as u64),
        Cmd::U32(6, p.batch),
        Cmd::U32(7, p.heads),
        Cmd::U32(8, p.head_dim),
        Cmd::U32(9, p.seq_stride),
        Cmd::U32(10, p.mask_kind),
        Cmd::U32(11, p.kv_seq),
        Cmd::U32(12, p.kv_stride),
        Cmd::U32(13, p.bhsd),
        Cmd::U32(14, p.window),
        Cmd::U32(15, p.score_scale),
        Cmd::U32(16, p.softcap),
        offsets_step(17, p),
        Cmd::Buffer(18, Buf::Scratch, 0),
        Cmd::U32(19, modes_word(n_part, g)),
        Cmd::Groups(one_row((p.batch * p.heads * n_part) as u64), one_row(32)),
    ]
}

/// The sizes of the quantized cache stay within machine integers.
pub open spec fn quant_sizes_fit(p: Attention, g: QuantFlags, n_part: u32) -> bool {
    &&& cache_rows(p) * p.head_dim + 255 <= u64::MAX
    &&& v_section(p) + cache_rows(p) * v_dim(p) + 255 <= u64::MAX
    &&& k_scales(p) + cache_rows(p) * scales_per_row(p, g) * 4 + 255 <= u64::MAX
    &&& cache_rows(p) <= u64::MAX
    &&& p.batch * p.heads * n_part <= u64::MAX
    &&& g.last_tokens > 0 ==> g.last_tokens * kv_head_count(p) <= u64::MAX && g.last_tokens
        * kv_head_count(p) * p.batch <= u64::MAX
}

fn align_256(x: u64) -> (r: u64)
    requires
        x + 255 <= u64::MAX,
    ensures
        r == align256(x as int),
{
    (x + 255) / 256 * 256
}

fn emit_quant(
    enc: &mut Vec<Cmd>,
    p: Attention,
    g: QuantFlags,
    src: usize,
    to: u64,
    scales: u64,
    width: u32,
    rows: u64,
    quantized: u64,
)
    requires
        rows == cache_rows(p),
        quantized == quant_rows(p, g),
    ensures
        final(enc)@ == old(enc)@ + quant_steps(p, g, src, to as int, scales as int, width),
{
    let pipeline: Kernel = if p.kv_f16 {
        Kernel::KvQuantI8F16
    } else {
        Kernel::KvQuantI8
    };
    emit(
        enc,
        vec![
            Cmd::Pipeline(pipeline),
            Cmd::Buffer(0, Buf::Arena, 0),
            Cmd::Buffer(1, Buf::IntScratch, to),
            Cmd::Buffer(2, Buf::IntScratch, scales),
            Cmd::U64(3, src as u64),
            Cmd::U32(4, low32(rows)),
            Cmd::U32(5, width),
            Cmd::U32(6, p.bhsd),
            Cmd::U32(7, kv_head_number(p)),
            Cmd::U32(8, p.kv_seq),
            Cmd::U32(9, p.kv_stride),
            Cmd::U32(10, flag(g.block)),
            Cmd::Groups(row(ceil_div(quantized, 64)), row(64)),
        ],
    );
}

fn modes_of(n_part: u32, g: QuantFlags) -> (r: u32)
    ensures
        r == modes_word(n_part, g),
{
    n_part % 0x1_0000 + flag(!g.q_float) * 0x1_0000 + flag(!g.v_float) * 0x2_0000 + flag(g.block)
        * 0x4_0000 + flag(!g.k_float) * 0x8_0000
}

pub open spec fn quant_decode_steps(p: Attention, g: QuantFlags, n_part: u32) -> Seq<Cmd> {
    quant_steps(p, g, p.k, 0, k_scales(p), p.head_dim) + (if g.v_float {
        Seq::<Cmd>::empty()
    } else {
        quant_steps(p, g, p.v, v_section(p), v_scales(p, g), v_dim(p))
    }) + quant_partial_steps(p, g, n_part) + combine_steps(p, n_part)
}

/// Split attention on a cache that is quantized first: K, then V unless it is read as floats,
/// then the partitions, then the merge.
pub fn encode_sdpa_flash_decode_w8a8(enc: &mut Vec<Cmd>, p: Attention, g: QuantFlags, n_part: u32)
    requires
        quant_sizes_fit(p, g, n_part),
    ensures
        final(enc)@ == old(enc)@ + quant_decode_steps(p, g, n_part),
{
    let kv_heads: u32 = kv_head_number(p);
    let v_head_dim: u32 = v_width(p);
    assert(p.batch * kv_heads <= 0xffff_ffff * 0xffff_ffff) by (nonlinear_arith);
    let rows: u64 = (p.batch as u64) * (kv_heads as u64) * (p.kv_seq as u64);
    proof {
        lemma_sections_nonnegative(p, g);
    }
    let nbk: u64 = if g.block {
        p.head_dim as u64 / 32
    } else {
        1
    };
    let v_off: u64 = align_256(rows * (p.head_dim as u64));
    let ksc_off: u64 = align_256(v_off + rows * (v_head_dim as u64));
    assert(rows * nbk * 4 == cache_rows(p) * scales_per_row(p, g) * 4);
    assert(0 <= rows * nbk) by (nonlinear_arith);
    let vsc_off: u64 = align_256(ksc_off + rows * nbk * 4);
    let quantized: u64 = if g.last_tokens > 0 {
        least(g.last_tokens * (kv_heads as u64) * (p.batch as u64), rows)
    } else {
        rows
    };
    emit_quant(enc, p, g, p.k, 0, ksc_off, p.head_dim, rows, quantized);
    if !g.v_float {
        emit_quant(enc, p, g, p.v, v_off, vsc_off, v_head_dim, rows, quantized);
    }
    let ghost second = enc@;
    emit(
        enc,
        vec![
            Cmd::Pipeline(Kernel::SdpaDecodeM1PartialW8a8),
            Cmd::Buffer(0, Buf::Arena, 0),
            Cmd::Buffer(1, Buf::IntScratch, 0),
            Cmd::Buffer(2, Buf::IntScratch, v_off),
            Cmd::Buffer(3, Buf::Arena, 0),
            Cmd::Buffer(4, Buf::IntScratch, ksc_off),
            Cmd::Buffer(5, Buf::IntScratch, vsc_off),
            Cmd::U32(6, p.batch),
            Cmd::U32(7, p.heads),
            Cmd::U32(8, p.head_dim),
            Cmd::U32(9, p.seq_stride),
            Cmd::U32(10, p.mask_kind),
            Cmd::U32(11, p.kv_seq),
            Cmd::U32(12, p.kv_stride),
            Cmd::U32(13, p.bhsd),
            Cmd::U32(14, p.window),
            Cmd::U32(15, p.score_scale),
            Cmd::U32(16, p.softcap),
            pack_offsets(17, p),
            Cmd::Buffer(18, Buf::Scratch, 0),
            Cmd::U32(19, modes_of(n_part, g)),
            Cmd::Groups(row(count_parts(p, n_part)), row(32)),
        ],
    );
    assert(enc@ =~= second + quant_partial_steps(p, g, n_part));
    emit_combine(enc, p, n_part);
}

proof fn lemma_sections_nonnegative(p: Attention, g: QuantFlags)
    ensures
        0 <= cache_rows(p),
        0 <= cache_rows(p) * p.head_dim,
        0 <= cache_rows(p) * v_dim(p),
        0 <= cache_rows(p) * scales_per_row(p, g),
{
    let b = p.batch as int;
    let h = kv_head_count(p) as int;
    let s = p.kv_seq as int;
    assert(0 <= b * h * s) by (nonlinear_arith)
        requires
            0 <= b,
            0 <= h,
            0 <= s,
    ;
    let r = cache_rows(p);
    let n = scales_per_row(p, g);
    assert(0 <= r * p.head_dim) by (nonlinear_arith)
        requires
            0 <= r,
    ;
    let w = v_dim(p);
    assert(0 <= r * w) by (nonlinear_arith)
        requires
            0 <= r,
    ;
    assert(0 <= r * n) by (nonlinear_arith)
        requires
            0 <= r,
            0 <= n,
    ;
}

/// The four sections of the quantized cache start at multiples of 256 bytes, in order, and none
/// reaches into the next.
pub proof fn lemma_quant_sections_disjoint(p: Attention, g: QuantFlags)
    ensures
        v_section(p) % 256 == 0,
        k_scales(p) % 256 == 0,
        v_scales(p, g) % 256 == 0,
        cache_rows(p) * p.head_dim <= v_section(p),
        v_section(p) + cache_rows(p) * v_dim(p) <= k_scales(p),
        k_scales(p) + cache_rows(p) * scales_per_row(p, g) * 4 <= v_scales(p, g),
{
    lemma_sections_nonnegative(p, g);
}

} // verus!
