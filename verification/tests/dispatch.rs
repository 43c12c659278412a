use rlx_metal::blas::{
    encode_sgemm_buffers, metal_hgemm, metal_hgemm_bias, metal_sgemm, metal_sgemm_bias,
    metal_sgemm_bufs, metal_sgemm_f16a_bufs, metal_sgemm_f16w, metal_sgemm_residual_bufs, FusedAct,
};
use rlx_metal::command::{Buf, Cmd, Group, HalfFlag, Kernel, Size};
use rlx_metal::cost::{AppleGpuFamily, MetalHwModel, SgemmSettings};
use rlx_metal::fft_dispatch::{
    encode_fft_butterfly_stage, fast_fft_enabled, fft_max_radix, grid_1d, run_fft_gpu, FftCall,
    FftGpuPlan,
};
use rlx_metal::sdpa::{
    encode_sdpa, encode_sdpa_flash_decode, encode_sdpa_flash_decode_w8a8, sdpa_flash_partitions,
    sdpa_flash_partitions_tuned, Attention, PrefillStat, QuantFlags, SdpaFlags,
};

fn size(width: u64, height: u64, depth: u64) -> Size {
    Size { width, height, depth }
}

fn arena(slot: u64, off: u64) -> Cmd {
    Cmd::Buffer(slot, Buf::Arena, off)
}

fn fixed(width: u64, height: u64, depth: u64) -> Group {
    Group::Fixed(size(width, height, depth))
}

fn steps(f: impl FnOnce(&mut Vec<Cmd>)) -> Vec<Cmd> {
    let mut enc = Vec::new();
    f(&mut enc);
    enc
}

fn pipelines(enc: &[Cmd]) -> Vec<Kernel> {
    enc.iter()
        .filter_map(|c| match c {
            Cmd::Pipeline(k) => Some(*k),
            _ => None,
        })
        .collect()
}

fn model() -> MetalHwModel {
    MetalHwModel::detect(AppleGpuFamily::M4, true, None)
}

fn without_mps() -> SgemmSettings {
    SgemmSettings {
        pin: None,
        table: None,
        mps_forced: false,
        mps_disabled: true,
        mps_supported: true,
        no_sgemm64: false,
        splitk: false,
        precise: false,
        no_small_m_mps: false,
    }
}

#[test]
fn products_launch_the_picked_kernel() {
    let run = |m, k, n| steps(|e| metal_sgemm(e, &model(), &without_mps(), 16, 32, 64, m, k, n));
    assert_eq!(
        run(32, 64, 96),
        vec![
            arena(0, 16),
            arena(1, 32),
            arena(2, 64),
            Cmd::U32(3, 32),
            Cmd::U32(4, 64),
            Cmd::U32(5, 96),
            Cmd::Pipeline(Kernel::SgemmSimd4x4),
            Cmd::Groups(size(3, 1, 1), size(512, 1, 1)),
        ]
    );
    assert_eq!(
        run(512, 64, 512)[6..],
        [
            Cmd::Pipeline(Kernel::SgemmSimd64),
            Cmd::Groups(size(8, 8, 1), size(32, 8, 1)),
        ]
    );
    assert_eq!(
        run(16, 24, 40)[6..],
        [
            Cmd::Pipeline(Kernel::SgemmSimd),
            Cmd::Groups(size(5, 2, 1), size(32, 1, 1)),
        ]
    );
    assert_eq!(
        run(33, 24, 41)[6..],
        [
            Cmd::Pipeline(Kernel::SgemmSimdPadded),
            Cmd::Groups(size(6, 5, 1), size(32, 1, 1)),
        ]
    );
    assert_eq!(
        run(33, 25, 41)[6..],
        [
            Cmd::Pipeline(Kernel::SgemmTiled),
            Cmd::Threads(size(48, 48, 1), fixed(16, 16, 1)),
        ]
    );
    assert_eq!(
        run(3, 25, 5)[6..],
        [
            Cmd::Pipeline(Kernel::Sgemm),
            Cmd::Threads(size(5, 3, 1), fixed(5, 3, 1)),
        ]
    );
}

#[test]
fn vendor_shapes_fall_back_inside_an_encoder() {
    let s = SgemmSettings { mps_disabled: false, mps_forced: true, ..without_mps() };
    let e = steps(|e| metal_sgemm(e, &model(), &s, 0, 0, 0, 33, 8, 33));
    assert_eq!(
        e[6..],
        [
            Cmd::Pipeline(Kernel::SgemmSimd4x4),
            Cmd::Groups(size(2, 2, 1), size(512, 1, 1)),
        ]
    );
}

#[test]
fn split_products_clear_their_result_first() {
    let s = SgemmSettings { splitk: true, ..without_mps() };
    let e = steps(|e| {
        metal_sgemm_bufs(
            e, &model(), &s, Buf::Arena, 4, Buf::Weights, 8, Buf::Arena, 12, 64, 8192, 64,
        )
    });
    assert_eq!(
        pipelines(&e),
        vec![Kernel::ZeroF32, Kernel::SgemmSimd64Splitk]
    );
    assert_eq!(
        e[6..10],
        [
            Cmd::Pipeline(Kernel::ZeroF32),
            arena(0, 12),
            Cmd::U32(1, 4096),
            Cmd::Threads(size(4096, 1, 1), fixed(256, 1, 1)),
        ]
    );
    let splits = model().ksplits(64, 8192, 64);
    assert!(splits >= 4);
    assert_eq!(e[13], Cmd::U32(6, splits));
    assert_eq!(
        *e.last().unwrap(),
        Cmd::Groups(size(1, 1, splits as u64), size(32, 8, 1))
    );
    // Where the result cannot be cleared, the product is not split.
    let whole = steps(|e| {
        encode_sgemm_buffers(
            e, &model(), &s, Buf::Tensor(0), Buf::Tensor(1), Buf::Tensor(2), 64, 8192, 64,
        )
    });
    assert_eq!(pipelines(&whole), vec![Kernel::SgemmSimd64]);
}

#[test]
fn residuals_are_added_where_the_kernel_can() {
    let hw = model();
    let run = |m, k, n| {
        let mut enc = Vec::new();
        let applied = metal_sgemm_residual_bufs(
            &mut enc,
            &hw,
            &without_mps(),
            Buf::Arena,
            4,
            Buf::Arena,
            8,
            Buf::Arena,
            12,
            Buf::Arena,
            16,
            m,
            k,
            n,
        );
        (applied, enc)
    };
    let (applied, e) = run(3, 24, 41);
    assert!(applied);
    assert_eq!(e[0], Cmd::Pipeline(Kernel::SgemmSimdPaddedResidual));
    assert_eq!(e[7], arena(6, 16));
    let (applied, e) = run(32, 32, 32);
    assert!(!applied);
    assert_eq!(pipelines(&e), vec![Kernel::SgemmSimd4x4]);
}

#[test]
fn half_precision_weights_have_kernels_for_few_rows() {
    let run = |split, m, k, n| {
        steps(|e| metal_sgemm_f16w(e, &model(), &without_mps(), split, 4, 8, 12, m, k, n))
    };
    assert_eq!(
        run(true, 1, 512, 100)[6..],
        [
            Cmd::Pipeline(Kernel::GemvF16wSplitk),
            Cmd::U32(3, 512),
            Cmd::U32(4, 100),
            Cmd::Groups(size(2, 1, 1), size(32, 32, 1)),
        ]
    );
    assert_eq!(
        run(false, 1, 512, 100)[6..],
        [
            Cmd::Pipeline(Kernel::SgemmF16wSmallM),
            Cmd::Threads(size(100, 1, 1), fixed(64, 1, 1)),
        ]
    );
    assert_eq!(pipelines(&run(true, 1, 512, 101)), vec![Kernel::SgemmF16wSmallM]);
    assert_eq!(
        run(true, 5, 256, 256)[6..],
        [
            Cmd::Pipeline(Kernel::SgemmSimdPaddedF16w),
            Cmd::Groups(size(32, 1, 1), size(32, 1, 1)),
        ]
    );
    assert_eq!(
        run(true, 5, 255, 256)[6..],
        [
            Cmd::Pipeline(Kernel::SgemmF16w),
            Cmd::Threads(size(256, 5, 1), fixed(16, 5, 1)),
        ]
    );
    let a = steps(|e| {
        metal_sgemm_f16a_bufs(e, Buf::Arena, 0, Buf::Arena, 4, Buf::Arena, 8, 3, 5, 40)
    });
    assert_eq!(pipelines(&a), vec![Kernel::SgemmF16a]);
    assert_eq!(
        steps(|e| metal_hgemm(e, 0, 4, 8, 33, 5, 40)).last(),
        Some(&Cmd::Groups(size(2, 2, 1), size(512, 1, 1)))
    );
}

#[test]
fn biases_are_fused_or_added_behind() {
    let run = |m, k, n, act| {
        steps(|e| metal_sgemm_bias(e, &model(), &without_mps(), 4, 8, 12, 16, m, k, n, act))
    };
    let fused = run(32, 32, 32, FusedAct::Silu);
    assert_eq!(
        fused,
        vec![
            arena(0, 4),
            arena(1, 8),
            arena(2, 12),
            arena(3, 16),
            Cmd::U32(4, 32),
            Cmd::U32(5, 32),
            Cmd::U32(6, 32),
            Cmd::U32(7, 2),
            Cmd::Pipeline(Kernel::SgemmSimd4x4Bias),
            Cmd::Groups(size(1, 1, 1), size(512, 1, 1)),
        ]
    );
    assert_eq!(
        pipelines(&run(16, 24, 40, FusedAct::Identity)),
        vec![Kernel::SgemmSimdBias]
    );
    assert_eq!(
        pipelines(&run(33, 24, 41, FusedAct::Identity)),
        vec![Kernel::SgemmSimdPaddedBias]
    );
    let behind = run(3, 25, 5, FusedAct::Gelu);
    assert_eq!(
        pipelines(&behind),
        vec![Kernel::Sgemm, Kernel::BiasAdd, Kernel::GeluInplace]
    );
    assert_eq!(
        *behind.last().unwrap(),
        Cmd::Threads(size(15, 1, 1), Group::ExecWidth(Kernel::GeluInplace, 15))
    );
    assert_eq!(
        behind[behind.len() - 4..behind.len() - 1],
        [arena(0, 0), Cmd::U64(1, 16), Cmd::U32(2, 15)]
    );
    let silu = run(3, 25, 5, FusedAct::Silu);
    assert_eq!(
        silu[silu.len() - 4..],
        [
            Cmd::Pipeline(Kernel::SiluInplace),
            arena(0, 16),
            Cmd::U32(1, 15),
            Cmd::Threads(size(15, 1, 1), Group::ExecWidth(Kernel::SiluInplace, 15)),
        ]
    );
    assert_eq!(
        pipelines(&run(3, 25, 5, FusedAct::Identity)),
        vec![Kernel::Sgemm, Kernel::BiasAdd]
    );
    let half = steps(|e| metal_hgemm_bias(e, 4, 8, 12, 16, 33, 5, 40, FusedAct::Gelu));
    assert_eq!(half[7], Cmd::U32(7, 1));
    assert_eq!(half[8], Cmd::Pipeline(Kernel::HgemmSimd4x4Bias));
}

fn attention() -> Attention {
    Attention {
        q: 1,
        k: 2,
        v: 3,
        mask: 4,
        out: 5,
        batch: 2,
        seq: 32,
        heads: 8,
        kv_heads: 2,
        head_dim: 64,
        v_head_dim: 0,
        seq_stride: 512,
        mask_kind: 1,
        window: 9,
        kv_seq: 32,
        kv_stride: 128,
        bhsd: 1,
        score_scale: 77,
        softcap: 88,
        kv_f16: false,
    }
}

fn sdpa_flags() -> SdpaFlags {
    SdpaFlags {
        fa: false,
        decode_m1: true,
        mma: false,
        fa2: false,
        splitk: false,
        prefill_fa: true,
        prefill_fa_mma: false,
        occpad: false,
        simd: false,
        h16: false,
        hdsplit: false,
    }
}

fn run_sdpa(p: Attention, f: SdpaFlags, dt: HalfFlag) -> (Option<PrefillStat>, Vec<Cmd>) {
    let mut enc = Vec::new();
    let stat = encode_sdpa(&mut enc, p, f, dt);
    (stat, enc)
}

#[test]
fn short_attention_keeps_its_scores_on_chip() {
    let (stat, e) = run_sdpa(attention(), sdpa_flags(), HalfFlag::F32);
    assert_eq!(stat, None);
    assert_eq!(
        e,
        vec![
            Cmd::Pipeline(Kernel::Sdpa),
            arena(0, 0),
            arena(1, 0),
            arena(2, 0),
            arena(3, 0),
            arena(4, 0),
            Cmd::U32(5, 2),
            Cmd::U32(6, 32),
            Cmd::U32(7, 8),
            Cmd::U32(8, 64),
            Cmd::U32(9, 512),
            Cmd::U32(10, 1),
            Cmd::U32(11, 32),
            Cmd::U32(12, 128),
            Cmd::U32(13, 1),
            Cmd::U32(14, 9),
            Cmd::U32(15, 77),
            Cmd::U32(16, 88),
            Cmd::U64x6(17, 1, 2, 3, 4, 5, 2 | (64 << 32)),
            Cmd::Groups(size(16, 1, 1), size(32, 1, 1)),
        ]
    );
    let f = SdpaFlags { simd: true, h16: true, ..sdpa_flags() };
    assert_eq!(run_sdpa(attention(), f, HalfFlag::F32).1[0], Cmd::Pipeline(Kernel::SdpaSimdH16));
    let f = SdpaFlags { simd: true, ..sdpa_flags() };
    assert_eq!(run_sdpa(attention(), f, HalfFlag::F32).1[0], Cmd::Pipeline(Kernel::SdpaSimd));
    let long = Attention { seq: 100, kv_seq: 100, ..attention() };
    assert_eq!(run_sdpa(long, f, HalfFlag::F16).1[0], Cmd::Pipeline(Kernel::SdpaH));
}

#[test]
fn unshared_heads_stand_in_for_odd_groupings() {
    for (kv_heads, seen) in [(0, 8), (3, 8), (4, 4)] {
        let p = Attention { kv_heads, v_head_dim: 32, ..attention() };
        let (_, e) = run_sdpa(p, sdpa_flags(), HalfFlag::F32);
        assert_eq!(e[18], Cmd::U64x6(17, 1, 2, 3, 4, 5, seen | (32 << 32)));
    }
}

#[test]
fn long_attention_picks_its_kernel() {
    let long = Attention { seq: 100, kv_seq: 300, ..attention() };
    let kernel = |p, f| {
        let (stat, e) = run_sdpa(p, f, HalfFlag::F32);
        (stat, pipelines(&e)[0], *e.last().unwrap())
    };
    assert_eq!(
        kernel(long, sdpa_flags()),
        (
            Some(PrefillStat::FlashAttention),
            Kernel::SdpaPrefillFa,
            Cmd::Groups(size(13, 8, 2), size(128, 1, 1))
        )
    );
    let f = SdpaFlags { prefill_fa_mma: true, ..sdpa_flags() };
    assert_eq!(kernel(long, f).1, Kernel::SdpaPrefillFaMma);
    let f = SdpaFlags { mma: true, fa2: true, splitk: true, ..sdpa_flags() };
    assert_eq!(
        kernel(long, f),
        (None, Kernel::SdpaMma, Cmd::Groups(size(13, 8, 2), size(32, 1, 1)))
    );
    let f = SdpaFlags { fa2: true, splitk: true, ..sdpa_flags() };
    assert_eq!(
        kernel(long, f),
        (None, Kernel::SdpaFa2, Cmd::Groups(size(13, 8, 2), size(64, 1, 1)))
    );
    let f = SdpaFlags { splitk: true, ..sdpa_flags() };
    assert_eq!(
        kernel(long, f),
        (None, Kernel::SdpaSplitk, Cmd::Groups(size(1600, 1, 1), size(32, 1, 1)))
    );
    let narrow = Attention { head_dim: 32, ..long };
    let f = SdpaFlags { fa: true, ..sdpa_flags() };
    assert_eq!(kernel(narrow, f).1, Kernel::SdpaFaF32);
    let biased = Attention { mask_kind: 3, ..long };
    assert_eq!(
        kernel(biased, sdpa_flags()),
        (
            Some(PrefillStat::Long),
            Kernel::SdpaLong,
            Cmd::Threads(size(1600, 1, 1), fixed(64, 1, 1))
        )
    );
    let f = SdpaFlags { occpad: true, ..sdpa_flags() };
    assert_eq!(kernel(biased, f).1, Kernel::SdpaLongOccpad);
}

#[test]
fn single_queries_decode() {
    let one = Attention { seq: 1, kv_seq: 300, ..attention() };
    let (stat, e) = run_sdpa(one, sdpa_flags(), HalfFlag::F32);
    assert_eq!(stat, None);
    assert_eq!(e[0], Cmd::Pipeline(Kernel::SdpaDecodeM1));
    assert_eq!(e[7], Cmd::U32(6, 8));
    assert_eq!(e[17], Cmd::U64x6(16, 1, 2, 3, 4, 5, 2 | (64 << 32)));
    let half = Attention { kv_f16: true, ..one };
    assert_eq!(
        run_sdpa(half, sdpa_flags(), HalfFlag::F32).1[0],
        Cmd::Pipeline(Kernel::SdpaDecodeM1F16kv)
    );
    let f = SdpaFlags { decode_m1: false, ..sdpa_flags() };
    assert_eq!(
        run_sdpa(one, f, HalfFlag::F32).1[0],
        Cmd::Pipeline(Kernel::SdpaLong)
    );
}

#[test]
fn keys_are_split_by_occupancy_and_length() {
    assert_eq!(sdpa_flash_partitions(None, 1, 16, 4096), 8);
    assert_eq!(sdpa_flash_partitions(None, 1, 16, 256), 4);
    assert_eq!(sdpa_flash_partitions(None, 1, 16, 10), 1);
    assert_eq!(sdpa_flash_partitions(None, 1, 1, 1 << 20), 64);
    assert_eq!(sdpa_flash_partitions(Some(0), 1, 1, 10), 1);
    assert_eq!(sdpa_flash_partitions(Some(99), 1, 1, 10), 99);
    assert_eq!(sdpa_flash_partitions_tuned(None, 1, 16, 4096, 512, 128, 1), 32);
    assert_eq!(sdpa_flash_partitions_tuned(None, 1, 1, 100, 128, 64, 64), 2);
}

#[test]
fn split_decoding_joins_its_parts() {
    let one = Attention { seq: 1, kv_seq: 300, ..attention() };
    let e = steps(|e| encode_sdpa_flash_decode(e, one, sdpa_flags(), 4));
    assert_eq!(
        pipelines(&e),
        vec![Kernel::SdpaDecodeM1Partial, Kernel::SdpaDecodeM1Combine]
    );
    assert!(e.contains(&Cmd::U32(18, 4)));
    assert!(e.contains(&Cmd::Groups(size(64, 1, 1), size(32, 1, 1))));
    assert_eq!(*e.last().unwrap(), Cmd::Groups(size(16, 1, 1), size(64, 1, 1)));
    let f = SdpaFlags { hdsplit: true, ..sdpa_flags() };
    let half = Attention { kv_f16: true, ..one };
    let e = steps(|e| encode_sdpa_flash_decode(e, half, f, 4));
    assert_eq!(pipelines(&e)[0], Kernel::SdpaDecodeM1PartialHdF16kv);
    let odd = Attention { v_head_dim: 40, ..one };
    let e = steps(|e| encode_sdpa_flash_decode(e, odd, f, 4));
    assert_eq!(pipelines(&e)[0], Kernel::SdpaDecodeM1Partial);
}

#[test]
fn quantized_decoding_fills_the_cache_first() {
    let one = Attention { seq: 1, kv_seq: 300, ..attention() };
    let g = QuantFlags {
        block: false,
        q_float: false,
        k_float: false,
        v_float: false,
        last_tokens: 0,
    };
    let e = steps(|e| encode_sdpa_flash_decode_w8a8(e, one, g, 4));
    assert_eq!(
        pipelines(&e),
        vec![
            Kernel::KvQuantI8,
            Kernel::KvQuantI8,
            Kernel::SdpaDecodeM1PartialW8a8,
            Kernel::SdpaDecodeM1Combine
        ]
    );
    let rows = 2 * 2 * 300;
    let v_off = rows * 64;
    let k_scale = v_off + rows * 64;
    let v_scale = (k_scale + rows * 4 + 255) / 256 * 256;
    assert_eq!(e[2], Cmd::Buffer(1, Buf::IntScratch, 0));
    assert_eq!(e[3], Cmd::Buffer(2, Buf::IntScratch, k_scale));
    assert!(e.contains(&Cmd::Buffer(1, Buf::IntScratch, v_off)));
    assert!(e.contains(&Cmd::Buffer(2, Buf::IntScratch, v_scale)));
    assert!(e.contains(&Cmd::Groups(size(19, 1, 1), size(64, 1, 1))));
    assert!(e.contains(&Cmd::U32(19, 4 | (1 << 16) | (1 << 17) | (1 << 19))));

    let g = QuantFlags { block: true, v_float: true, last_tokens: 1, ..g };
    let half = Attention { kv_f16: true, ..one };
    let e = steps(|e| encode_sdpa_flash_decode_w8a8(e, half, g, 4));
    assert_eq!(
        pipelines(&e),
        vec![
            Kernel::KvQuantI8F16,
            Kernel::SdpaDecodeM1PartialW8a8,
            Kernel::SdpaDecodeM1Combine
        ]
    );
    assert!(e.contains(&Cmd::Groups(size(1, 1, 1), size(64, 1, 1))));
    assert!(e.contains(&Cmd::U32(19, 4 | (1 << 16) | (1 << 18) | (1 << 19))));
}

fn transform(n: u32, fast: Option<u32>) -> FftCall {
    FftCall {
        src_off: 3,
        dst_off: 5,
        outer: 2,
        n,
        inverse: true,
        norm_scale: 99,
        real_input: false,
        fast,
    }
}

fn plan() -> FftGpuPlan {
    FftGpuPlan {
        single_inner: false,
        inner_stages: 10,
        outer_rad4_q: vec![1024, 4096],
        outer_r2_hs: None,
    }
}

#[test]
fn transforms_stay_on_chip_where_they_fit() {
    let kernel = |n, fast, real_input| {
        let c = FftCall { real_input, ..transform(n, fast) };
        pipelines(&steps(|e| run_fft_gpu(e, c, &plan())))
    };
    assert_eq!(kernel(4096, Some(8), false), vec![Kernel::FftRadix8FullF32]);
    assert_eq!(kernel(4096, Some(16), false), vec![Kernel::FftRadix16FullF32]);
    assert_eq!(kernel(4096, Some(16), true), vec![Kernel::FftRadix8FullF32]);
    assert_eq!(kernel(2048, Some(16), false), vec![Kernel::FftRadix4FullF32]);
    assert_eq!(kernel(2048, Some(2), false), vec![Kernel::FftRadix2FullBigF32]);
    assert_eq!(kernel(2048, Some(2), true), vec![Kernel::FftRadix4FullF32]);
    let e = steps(|e| run_fft_gpu(e, transform(4096, Some(8)), &plan()));
    assert_eq!(
        e,
        vec![
            arena(0, 0),
            Cmd::Pipeline(Kernel::FftRadix8FullF32),
            Cmd::U32(1, 3),
            Cmd::U32(2, 5),
            Cmd::U32(3, 4096),
            Cmd::U32(4, 12),
            Cmd::U32(5, 1),
            Cmd::U32(6, 99),
            Cmd::U32(7, 2),
            Cmd::U32(8, 0),
            Cmd::Groups(size(2, 1, 1), size(256, 1, 1)),
        ]
    );
    let none = FftCall { outer: 0, ..transform(4096, Some(8)) };
    assert!(steps(|e| run_fft_gpu(e, none, &plan())).is_empty());
}

#[test]
fn large_transforms_are_scaled_once() {
    let c = transform(16384, Some(8));
    let e = steps(|e| run_fft_gpu(e, c, &plan()));
    assert_eq!(
        pipelines(&e),
        vec![
            Kernel::FftBitReverseF32,
            Kernel::FftInnerF32,
            Kernel::FftOuterR4F32,
            Kernel::FftOuterR4F32
        ]
    );
    let scales: Vec<u32> = e
        .iter()
        .filter_map(|s| match s {
            Cmd::U32(_, w) if *w == 99 || *w == 1.0f32.to_bits() => Some(*w),
            _ => None,
        })
        .collect();
    let one = 1.0f32.to_bits();
    assert_eq!(scales, vec![one, one, 99]);
    let with_half = FftGpuPlan { outer_r2_hs: Some(8192), ..plan() };
    let e = steps(|e| run_fft_gpu(e, c, &with_half));
    assert_eq!(*pipelines(&e).last().unwrap(), Kernel::FftOuterR2F32);
    assert_eq!(
        *e.last().unwrap(),
        Cmd::Groups(size(grid_1d(8192), 2, 1), size(256, 1, 1))
    );
    let inner = FftGpuPlan { single_inner: true, ..plan() };
    let e = steps(|e| run_fft_gpu(e, transform(64, None), &inner));
    assert_eq!(pipelines(&e), vec![Kernel::FftRadix2FullF32]);
    assert_eq!(*e.last().unwrap(), Cmd::Groups(size(2, 1, 1), size(64, 1, 1)));
}

#[test]
fn transform_settings_have_defaults() {
    assert_eq!(fft_max_radix(None), 8);
    assert_eq!(fft_max_radix(Some("16")), 16);
    assert_eq!(fft_max_radix(Some("4")), 4);
    assert_eq!(fft_max_radix(Some("2")), 2);
    assert_eq!(fft_max_radix(Some("5")), 8);
    assert!(fast_fft_enabled(None));
    assert!(!fast_fft_enabled(Some("0")));
    assert_eq!(grid_1d(1), 1);
    assert_eq!(grid_1d(257), 2);
    assert!(steps(|e| encode_fft_butterfly_stage(e, 0, 0, 0, 0, 0, 0, 0, 8, 0)).is_empty());
    assert!(steps(|e| encode_fft_butterfly_stage(e, 0, 0, 0, 0, 0, 0, 2, 1, 0)).is_empty());
    assert_eq!(
        pipelines(&steps(|e| encode_fft_butterfly_stage(e, 0, 4, 8, 12, 16, 20, 2, 8, 1))),
        vec![Kernel::FftButterflyStage]
    );
}
