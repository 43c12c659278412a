use rlx_metal::command::{Activation, Buf, Cmd, Group, HalfFlag, Kernel, MatmulBt, Order, Size};
use rlx_metal::encode::broadcast::{
    broadcast_offset, broadcast_pairs, broadcast_strides_u32, dense_row_major_strides,
    detect_last_axis_col_broadcast, detect_last_axis_row_broadcast, detect_scalar_broadcast,
    detect_single_axis_broadcast, inferred_input_len, is_row_vector_broadcast,
    is_scalar_broadcast,
};
use rlx_metal::encode::conv::{encode_conv2d, encode_conv2d_backward_weight_2pass, encode_pool2d};
use rlx_metal::encode::elementwise::{
    encode_activation, encode_activation_out, encode_bias_add, encode_binary,
    encode_binary_broadcast_1ax, encode_binary_broadcast_rank2,
    encode_binary_broadcast_rhs_scalar, encode_cast, encode_compare, encode_copy,
    encode_elementwise_region, encode_fused_binary_activation, encode_fused_swiglu, BinaryOp,
    CompareOp,
};
use rlx_metal::encode::grouped::{
    dequant_grouped_can_encode_per_row, encode_dequant_gguf, encode_dequant_grouped_matmul_gguf,
    encode_dequant_grouped_matmul_gguf_per_row, GroupedFlags, GroupedShape,
};
use rlx_metal::encode::norm::{
    encode_ada_layer_norm, encode_group_norm, encode_layer_norm, encode_rms_norm_bwd_param,
    encode_rope,
};
use rlx_metal::encode::quant::{
    encode_dequant_matmul_mlx_gemm, encode_iq2_xxs_mv_f32, encode_q1_0_mv_f32, encode_q4k_mv_f32,
    encode_q4k_mv_f32_sg, encode_qk_mm_f32, PackedFormat,
};
use rlx_metal::encode::recurrent::{encode_gated_delta_net, encode_lstm, encode_selective_scan};
use rlx_metal::encode::reduce::{
    encode_gather_bwd, encode_reduce_axes, encode_softmax, encode_topk, ReduceOp,
};
use rlx_metal::encode::shape::{
    detect_last2_batched_swap, detect_swap12_batched_trailing, encode_concat_lastax,
    encode_concat_midaxis, encode_gather, encode_narrow, encode_transpose, encode_transpose_2d,
    flush_pending_narrow_batch, narrow_segments_partition, try_queue_narrow_batch,
    PendingNarrowBatch,
};
use rlx_metal::encode::synth::{encode_synth_bwd, encode_synth_matmul};

fn size(width: u64, height: u64, depth: u64) -> Size {
    Size { width, height, depth }
}

fn arena(slot: u64, off: u64) -> Cmd {
    Cmd::Buffer(slot, Buf::Arena, off)
}

fn fixed(width: u64, height: u64, depth: u64) -> Group {
    Group::Fixed(size(width, height, depth))
}

fn steps(f: impl FnOnce(&mut Vec<Cmd>)) -> Vec<Cmd> {
    let mut enc = Vec::new();
    f(&mut enc);
    enc
}

fn pipelines(enc: &[Cmd]) -> Vec<Kernel> {
    enc.iter()
        .filter_map(|c| match c {
            Cmd::Pipeline(k) => Some(*k),
            _ => None,
        })
        .collect()
}

fn has(enc: &[Cmd], c: Cmd) -> bool {
    enc.contains(&c)
}

#[test]
fn casts_convert_or_copy() {
    assert_eq!(
        steps(|e| encode_cast(e, 16, 64, 10, HalfFlag::F32, HalfFlag::F16)),
        vec![
            Cmd::Pipeline(Kernel::CastF32ToF16),
            arena(0, 16),
            arena(1, 64),
            Cmd::U32(2, 10),
            Cmd::Threads(size(10, 1, 1), Group::ExecWidth(Kernel::CastF32ToF16, 10)),
        ]
    );
    let same = steps(|e| encode_cast(e, 16, 64, 11, HalfFlag::F16, HalfFlag::F16));
    assert_eq!(same[0], Cmd::Pipeline(Kernel::CopyF32));
    assert_eq!(same[3], Cmd::U32(2, 6));
    let up = steps(|e| encode_cast(e, 16, 64, 10, HalfFlag::F16, HalfFlag::F32));
    assert_eq!(up[0], Cmd::Pipeline(Kernel::CastF16ToF32));
}

#[test]
fn biases_are_added_in_tiles() {
    assert_eq!(
        steps(|e| encode_bias_add(e, Buf::Arena, 4, Buf::Weights, 8, 3, 100, HalfFlag::F16)),
        vec![
            Cmd::Pipeline(Kernel::BiasAddH),
            arena(0, 4),
            Cmd::Buffer(1, Buf::Weights, 8),
            Cmd::U32(2, 3),
            Cmd::U32(3, 100),
            Cmd::Threads(size(100, 3, 1), fixed(16, 3, 1)),
        ]
    );
}

#[test]
fn copies_go_by_fours_where_they_can() {
    let four = steps(|e| encode_copy(e, 4, 8, 16, HalfFlag::F32));
    assert_eq!(
        four,
        vec![
            Cmd::Pipeline(Kernel::Copy4),
            arena(0, 0),
            Cmd::U64(1, 4),
            Cmd::U64(2, 8),
            Cmd::U32(3, 4),
            Cmd::Threads(size(4, 1, 1), Group::ExecWidth(Kernel::Copy4, 4)),
        ]
    );
    let half = steps(|e| encode_copy(e, 4, 8, 17, HalfFlag::F16));
    assert_eq!(pipelines(&half), vec![Kernel::CopyF32]);
    assert_eq!(half[4], Cmd::U32(3, 9));
}

#[test]
fn activations_run_in_place_or_after_a_copy() {
    let silu = steps(|e| encode_activation_out(e, 0, 64, 16, Activation::Silu, HalfFlag::F32));
    assert_eq!(pipelines(&silu), vec![Kernel::SiluOut4]);
    let gelu =
        steps(|e| encode_activation_out(e, 0, 64, 16, Activation::GeluApprox, HalfFlag::F32));
    assert_eq!(pipelines(&gelu), vec![Kernel::GeluApproxOut4]);
    let relu = steps(|e| encode_activation_out(e, 0, 64, 16, Activation::Relu, HalfFlag::F16));
    assert_eq!(pipelines(&relu), vec![Kernel::CopyF32, Kernel::ReluInplaceH]);
    let exp = steps(|e| encode_activation(e, 8, 5, Activation::Exp, HalfFlag::F32));
    assert_eq!(pipelines(&exp), vec![Kernel::ExpInplace]);
}

#[test]
fn binary_operations_pick_their_kernels() {
    let add = steps(|e| encode_binary(e, 0, 4, 8, 8, BinaryOp::Add, HalfFlag::F32));
    assert_eq!(pipelines(&add), vec![Kernel::ElemAdd4]);
    let odd = steps(|e| encode_binary(e, 0, 4, 8, 7, BinaryOp::Add, HalfFlag::F32));
    assert_eq!(pipelines(&odd), vec![Kernel::ElemAdd]);
    let half = steps(|e| encode_binary(e, 0, 4, 8, 8, BinaryOp::Div, HalfFlag::F16));
    assert_eq!(pipelines(&half), vec![Kernel::ElemDivH]);
    let fused =
        steps(|e| encode_fused_binary_activation(e, 0, 4, 8, 12, 2, Activation::Tanh));
    assert_eq!(
        fused,
        vec![
            Cmd::Pipeline(Kernel::FusedBinaryActivation4),
            arena(0, 0),
            arena(1, 4),
            arena(2, 8),
            Cmd::U32(3, 3),
            Cmd::U32(4, 2),
            Cmd::U32(5, 4),
            Cmd::Threads(
                size(3, 1, 1),
                Group::ExecWidth(Kernel::FusedBinaryActivation4, 3)
            ),
        ]
    );
    let none = steps(|e| encode_fused_binary_activation(e, 0, 4, 8, 5, 2, Activation::Exp));
    assert!(has(&none, Cmd::U32(5, 255)));
}

#[test]
fn broadcasts_bind_the_larger_operand_first() {
    let e = steps(|e| encode_binary_broadcast_1ax(e, 100, 200, 300, 6, 8, 3, 1, false));
    assert_eq!(
        e,
        vec![
            Cmd::Pipeline(Kernel::BinaryBroadcast1ax4),
            arena(0, 200),
            arena(1, 100),
            arena(2, 300),
            Cmd::U32(3, 6),
            Cmd::U32(4, 2),
            Cmd::U32(5, 3),
            Cmd::U32(6, 1),
            Cmd::Threads(size(2, 6, 1), fixed(2, 4, 1)),
        ]
    );
    let e = steps(|e| encode_binary_broadcast_1ax(e, 100, 200, 300, 60, 65, 3, 1, true));
    assert_eq!(e[1], arena(0, 100));
    assert_eq!(e[8], Cmd::Threads(size(65, 60, 1), fixed(32, 8, 1)));
    let s = steps(|e| encode_binary_broadcast_rhs_scalar(e, 4, 8, 12, 6, 3, false));
    assert_eq!(s[2..5], [Cmd::U64(1, 8), Cmd::U64(2, 4), Cmd::U64(3, 12)]);
    assert_eq!(pipelines(&s), vec![Kernel::BinaryBroadcastRhsScalarF32]);
}

#[test]
fn rank_two_broadcasts_go_by_fours_on_dense_rows() {
    let dense =
        steps(|e| encode_binary_broadcast_rank2(e, 0, 4, 8, 16, 2, 8, 8, 1, 0, 1, 0));
    assert_eq!(pipelines(&dense), vec![Kernel::BinaryBroadcastRank24]);
    assert_eq!(dense[4], Cmd::U32(3, 4));
    let column =
        steps(|e| encode_binary_broadcast_rank2(e, 0, 4, 8, 16, 2, 8, 8, 1, 1, 0, 0));
    assert_eq!(pipelines(&column), vec![Kernel::BinaryBroadcastRank2F32]);
    assert_eq!(column[4], Cmd::U32(3, 16));
}

#[test]
fn comparisons_flag_their_scalars() {
    let plain = steps(|e| encode_compare(e, 0, 4, 8, 9, CompareOp::Ge, false, false));
    assert_eq!(
        plain,
        vec![
            Cmd::Pipeline(Kernel::ElemCompare),
            arena(0, 0),
            arena(1, 4),
            arena(2, 8),
            Cmd::U32(3, 9),
            Cmd::U32(4, 5),
            Cmd::Threads(size(9, 1, 1), Group::ExecWidth(Kernel::ElemCompare, 9)),
        ]
    );
    let right = steps(|e| encode_compare(e, 0, 4, 8, 9, CompareOp::Lt, false, true));
    assert_eq!(right[0], Cmd::Pipeline(Kernel::ElemCompareBcast));
    assert_eq!(right[6], Cmd::U32(5, 2));
    let both = steps(|e| encode_compare(e, 0, 4, 8, 9, CompareOp::Lt, true, true));
    assert_eq!(both[6], Cmd::U32(5, 3));
}

#[test]
fn gates_convert_between_precisions() {
    let mut seen = Vec::new();
    for src in [HalfFlag::F32, HalfFlag::F16] {
        for dst in [HalfFlag::F32, HalfFlag::F16] {
            let e = steps(|e| encode_fused_swiglu(e, 0, 4, 8, 16, src, dst, true));
            seen.push(pipelines(&e)[0]);
            assert_eq!(e[5], Cmd::U32(4, 1));
        }
    }
    assert_eq!(
        seen,
        vec![
            Kernel::FusedSwiglu,
            Kernel::FusedSwigluCastF32ToF16,
            Kernel::FusedSwigluCastF16ToF32,
            Kernel::FusedSwigluH,
        ]
    );
}

#[test]
fn regions_cover_a_volume_behind_a_prologue() {
    let offs = [1u32; 16];
    let chain = [2u32; 128];
    let region = |prologue| {
        steps(|e| {
            encode_elementwise_region(
                e, 60, 1, 2, 64, &offs, &chain, 5, &offs, prologue, 2, 3, 9, 4, 0,
            )
        })
    };
    let flat = region(0);
    assert!(has(&flat, Cmd::U32(4, 16)));
    assert_eq!(
        *flat.last().unwrap(),
        Cmd::Threads(size(60, 1, 1), Group::ExecWidth(Kernel::ElementwiseRegion, 60))
    );
    let volume = region(1);
    assert_eq!(
        *volume.last().unwrap(),
        Cmd::Threads(size(4, 9, 6), fixed(4, 8, 1))
    );
    assert_eq!(volume.iter().filter(|c| matches!(c, Cmd::Word(_))).count(), 160);
}

#[test]
fn narrows_pass_byte_offsets() {
    let four = steps(|e| encode_narrow(e, 40, 80, 3, 16, 4, 8, HalfFlag::F32));
    assert_eq!(
        four,
        vec![
            Cmd::Pipeline(Kernel::NarrowLastax4),
            arena(0, 0),
            arena(1, 0),
            Cmd::U32(2, 3),
            Cmd::U32(3, 4),
            Cmd::U32(4, 1),
            Cmd::U32(5, 2),
            Cmd::U64(6, 40),
            Cmd::U64(7, 80),
            Cmd::Threads(size(2, 3, 1), fixed(2, 3, 1)),
        ]
    );
    let odd = steps(|e| encode_narrow(e, 40, 80, 30, 16, 3, 8, HalfFlag::F32));
    assert_eq!(odd[0], Cmd::Pipeline(Kernel::NarrowLastax));
    assert_eq!(odd[9], Cmd::Threads(size(8, 30, 1), fixed(8, 8, 1)));
    let half = steps(|e| encode_narrow(e, 40, 80, 30, 160, 4, 80, HalfFlag::F16));
    assert_eq!(half[0], Cmd::Pipeline(Kernel::NarrowLastaxH));
    assert_eq!(half[9], Cmd::Threads(size(80, 30, 1), fixed(32, 8, 1)));
}

#[test]
fn partitions_cover_the_axis_once() {
    assert!(narrow_segments_partition(8, &[(4, 4), (0, 4)]));
    assert!(!narrow_segments_partition(8, &[(4, 4), (1, 3)]));
    assert!(!narrow_segments_partition(8, &[(0, 5), (4, 4)]));
    assert!(!narrow_segments_partition(9, &[(0, 4), (4, 4)]));
    assert!(narrow_segments_partition(0, &[]));
    assert!(narrow_segments_partition(8, &[(0, 0), (0, 8), (8, 0)]));
    assert!(!narrow_segments_partition(8, &[(0, 4), (0, 4), (4, 4)]));
}

#[test]
fn narrows_of_one_source_are_gathered() {
    let mut batch: Option<PendingNarrowBatch> = None;
    assert!(!try_queue_narrow_batch(&mut batch, false, 0, 64, 2, 8, 0, 4, HalfFlag::F32));
    assert!(!try_queue_narrow_batch(&mut batch, true, 0, 64, 2, 8, 0, 4, HalfFlag::F16));
    assert!(!try_queue_narrow_batch(&mut batch, true, 0, 64, 0, 8, 0, 4, HalfFlag::F32));
    assert!(batch.is_none());
    assert!(try_queue_narrow_batch(&mut batch, true, 0, 64, 2, 8, 0, 4, HalfFlag::F32));
    assert!(!try_queue_narrow_batch(&mut batch, true, 4, 96, 2, 8, 4, 4, HalfFlag::F32));
    assert!(!try_queue_narrow_batch(&mut batch, true, 0, 96, 2, 8, 5, 3, HalfFlag::F32));
    let one = steps(|e| {
        let mut single = Some(PendingNarrowBatch {
            src: 0,
            outer: 2,
            src_axis: 8,
            dt: HalfFlag::F32,
            segments: vec![(64, 0, 4)],
        });
        flush_pending_narrow_batch(e, &mut single);
        assert!(single.is_none());
    });
    assert_eq!(one, steps(|e| encode_narrow(e, 0, 64, 2, 8, 0, 4, HalfFlag::F32)));
    assert!(try_queue_narrow_batch(&mut batch, true, 0, 96, 2, 8, 4, 4, HalfFlag::F32));
    let all = steps(|e| flush_pending_narrow_batch(e, &mut batch));
    assert!(batch.is_none());
    assert_eq!(pipelines(&all), vec![Kernel::SplitLastax4]);
    assert_eq!(
        *all.last().unwrap(),
        Cmd::Threads(size(1, 2, 2), fixed(1, 2, 2))
    );
    assert!(steps(|e| flush_pending_narrow_batch(e, &mut batch)).is_empty());
}

#[test]
fn concatenations_run_at_once_or_in_segments() {
    let at_once =
        steps(|e| encode_concat_lastax(e, 640, 3, 12, HalfFlag::F32, &[(0, 4), (64, 8)], true));
    assert_eq!(
        at_once,
        vec![
            Cmd::Pipeline(Kernel::ConcatLastaxMulti4),
            arena(0, 0),
            Cmd::U64(1, 640),
            Cmd::U32(2, 3),
            Cmd::U32(3, 3),
            Cmd::U32(4, 2),
            Cmd::Array(5, 8),
            Cmd::Word(0),
            Cmd::Word(0),
            Cmd::Word(0),
            Cmd::Word(4),
            Cmd::Word(64),
            Cmd::Word(0),
            Cmd::Word(4),
            Cmd::Word(8),
            Cmd::Threads(size(2, 3, 2), fixed(2, 3, 2)),
        ]
    );
    let segments =
        steps(|e| encode_concat_lastax(e, 640, 3, 9, HalfFlag::F32, &[(0, 4), (64, 5)], false));
    assert_eq!(
        pipelines(&segments),
        vec![Kernel::ConcatSegmentLastax, Kernel::ConcatSegmentLastax]
    );
    assert_eq!(segments[16], Cmd::U32(5, 4));
    let half = steps(|e| {
        encode_concat_midaxis(
            e,
            640,
            2,
            5,
            3,
            HalfFlag::F16,
            &[(0, 2), (64, 0), (128, 3)],
            &[HalfFlag::F32],
        )
    });
    assert_eq!(
        pipelines(&half),
        vec![Kernel::ConcatMidaxisSegF32ToF16, Kernel::ConcatMidaxisSegH]
    );
    assert_eq!(half[18], Cmd::U32(7, 2));
    assert_eq!(half[19], Cmd::Threads(size(18, 1, 1), fixed(18, 1, 1)));
}

#[test]
fn transpositions_are_recognised() {
    assert_eq!(detect_last2_batched_swap(&[2, 4, 3], &[12, 1, 4]), Some((2, 3, 4)));
    assert_eq!(
        detect_last2_batched_swap(&[5, 2, 4, 3], &[24, 12, 1, 4]),
        Some((10, 3, 4))
    );
    assert_eq!(detect_last2_batched_swap(&[2, 4, 3], &[12, 3, 1]), None);
    assert_eq!(detect_last2_batched_swap(&[4, 3], &[1, 4]), None);
    assert_eq!(
        detect_swap12_batched_trailing(&[2, 3, 4, 5], &[60, 5, 15, 1]),
        Some((2, 3, 4, 5))
    );
    assert_eq!(detect_swap12_batched_trailing(&[2, 3, 4, 5], &[60, 20, 5, 1]), None);
    assert_eq!(detect_swap12_batched_trailing(&[0, 3, 4, 5], &[60, 5, 15, 1]), None);
    let general = steps(|e| encode_transpose(e, 0, 96, 24, &[4, 3, 2], &[1, 8, 4], true));
    assert_eq!(
        general,
        vec![
            Cmd::Pipeline(Kernel::TransposeNdH),
            arena(0, 0),
            arena(1, 96),
            Cmd::U32(2, 3),
            Cmd::U32(3, 24),
            Cmd::Array(4, 6),
            Cmd::Word(4),
            Cmd::Word(3),
            Cmd::Word(2),
            Cmd::Word(1),
            Cmd::Word(8),
            Cmd::Word(4),
            Cmd::Threads(size(24, 1, 1), Group::ExecWidth(Kernel::TransposeNd, 24)),
        ]
    );
    let tiled = steps(|e| encode_transpose_2d(e, 0, 96, 33, 64));
    assert_eq!(
        *tiled.last().unwrap(),
        Cmd::Groups(size(2, 2, 1), size(32, 8, 1))
    );
    let small = steps(|e| encode_transpose_2d(e, 0, 96, 31, 64));
    assert_eq!(
        *small.last().unwrap(),
        Cmd::Threads(size(31, 64, 1), Group::ExecTile(Kernel::Transpose2dF32, 64, 31))
    );
    assert_eq!(
        Group::ExecTile(Kernel::Transpose2dF32, 64, 31).resolve(32),
        size(32, 8, 1)
    );
}

#[test]
fn reductions_and_softmax_launch_by_rows() {
    let simd =
        steps(|e| encode_reduce_axes(e, 0, 4, 2, 64, 32, ReduceOp::Mean, HalfFlag::F32, true));
    assert_eq!(
        simd,
        vec![
            Cmd::Pipeline(Kernel::ReduceAxesSumSimd),
            arena(0, 0),
            arena(1, 4),
            Cmd::U32(2, 64),
            Cmd::U32(3, 32),
            Cmd::U32(4, 1),
            Cmd::Groups(size(64, 1, 1), size(32, 1, 1)),
        ]
    );
    for (outer, reduced, op, dt, on) in [
        (2, 63, ReduceOp::Mean, HalfFlag::F32, true),
        (3, 64, ReduceOp::Mean, HalfFlag::F32, true),
        (2, 64, ReduceOp::Max, HalfFlag::F32, true),
        (2, 64, ReduceOp::Sum, HalfFlag::F16, true),
        (2, 64, ReduceOp::Sum, HalfFlag::F32, false),
    ] {
        let e = steps(|e| encode_reduce_axes(e, 0, 4, outer, reduced, 32, op, dt, on));
        assert_ne!(pipelines(&e), vec![Kernel::ReduceAxesSumSimd]);
        assert_eq!(
            *e.last().unwrap(),
            Cmd::Threads(size(32, outer as u64, 1), fixed(16, outer as u64, 1))
        );
    }
    let s = steps(|e| encode_softmax(e, 8, 5, 100, HalfFlag::F32));
    assert_eq!(
        s,
        vec![
            Cmd::Pipeline(Kernel::SoftmaxLastax),
            arena(0, 8),
            Cmd::U32(1, 100),
            Cmd::Groups(size(5, 1, 1), size(64, 1, 1)),
        ]
    );
    let t = steps(|e| encode_topk(e, 0, 4, 7, 50, 3));
    assert_eq!(t[3..5], [Cmd::U32(2, 50), Cmd::U32(3, 3)]);
    let g = steps(|e| encode_gather_bwd(e, 0, 4, 8, 2, 3, 5, 4));
    assert_eq!(pipelines(&g), vec![Kernel::GatherBwdZero, Kernel::GatherBwdAcc]);
    assert_eq!(g[3], Cmd::Threads(size(24, 1, 1), fixed(256, 1, 1)));
    let none = steps(|e| encode_gather_bwd(e, 0, 4, 8, 2, 0, 5, 4));
    assert_eq!(pipelines(&none), vec![Kernel::GatherBwdAcc]);
    let t = steps(|e| {
        encode_gather(e, Buf::Weights, 4, Buf::Arena, 8, Buf::Arena, 12, 3, 64, HalfFlag::F32)
    });
    assert_eq!(t[1], Cmd::Buffer(0, Buf::Weights, 4));
    assert_eq!(t[6], Cmd::Threads(size(64, 3, 1), fixed(16, 3, 1)));
}

#[test]
fn norms_reduce_over_a_power_of_two() {
    let n = steps(|e| encode_layer_norm(e, 0, 4, 8, 12, 6, 1000, 7, HalfFlag::F16));
    assert_eq!(
        n,
        vec![
            Cmd::Pipeline(Kernel::LayerNormH),
            arena(0, 0),
            arena(1, 4),
            arena(2, 8),
            arena(3, 12),
            Cmd::U32(4, 1000),
            Cmd::U32(5, 7),
            Cmd::Groups(size(6, 1, 1), size(256, 1, 1)),
        ]
    );
    let small = steps(|e| encode_layer_norm(e, 0, 4, 8, 12, 6, 7, 7, HalfFlag::F32));
    assert_eq!(small[7], Cmd::Groups(size(6, 1, 1), size(4, 1, 1)));
    let pack = [9u32; 17];
    let ada = steps(|e| {
        encode_ada_layer_norm(e, 0, 4, 8, 12, 6, 64, 7, true, &pack, HalfFlag::F32)
    });
    assert_eq!(ada[7], Cmd::U32(6, 1));
    assert_eq!(ada[8], Cmd::Array(7, 17));
    assert_eq!(ada.len(), 9 + 17 + 1);
    let group = steps(|e| encode_group_norm(e, 0, 4, 8, 12, 2, 32, 5, 6, 8, 7));
    assert_eq!(
        *group.last().unwrap(),
        Cmd::Groups(size(16, 1, 1), size(256, 1, 1))
    );
}

#[test]
fn norm_gradients_run_alone_without_scratch() {
    let alone = steps(|e| encode_rms_norm_bwd_param(e, 0, 4, 8, 12, 16, 6, 300, 7, 1, 0));
    assert_eq!(pipelines(&alone), vec![Kernel::RmsNormBwdParam]);
    assert_eq!(*alone.last().unwrap(), Cmd::Threads(size(1, 1, 1), fixed(1, 1, 1)));
    let gamma = steps(|e| encode_rms_norm_bwd_param(e, 0, 4, 8, 12, 16, 6, 300, 7, 1, 64));
    assert_eq!(
        pipelines(&gamma),
        vec![Kernel::RmsNormBwdInvRF32, Kernel::RmsNormBwdParamReduceF32]
    );
    assert_eq!(*gamma.last().unwrap(), Cmd::Threads(size(300, 1, 1), fixed(256, 1, 1)));
    let beta = steps(|e| encode_rms_norm_bwd_param(e, 0, 4, 8, 12, 16, 6, 300, 7, 2, 64));
    assert_eq!(pipelines(&beta), vec![Kernel::RmsNormBwdParamReduceF32]);
}

#[test]
fn rotations_run_over_heads() {
    let r = steps(|e| {
        encode_rope(
            e, 0, 4, 8, 12, 2, 5, 128, 32, 16, HalfFlag::F32, 256, 7, true, false,
        )
    });
    assert_eq!(
        r[5..],
        [
            Cmd::U32(4, 2),
            Cmd::U32(5, 5),
            Cmd::U32(6, 128),
            Cmd::U32(7, 32),
            Cmd::U32(8, 256),
            Cmd::U32(9, 7),
            Cmd::U32(10, 16),
            Cmd::U32(11, 1),
            Cmd::U32(12, 0),
            Cmd::Threads(size(32, 4, 10), fixed(16, 4, 1)),
        ]
    );
}

#[test]
fn convolutions_know_columns() {
    let conv = |w, w_out| {
        steps(|e| {
            encode_conv2d(
                e, 0, 4, 8, 2, 3, 20, w, 6, 18, w_out, 3, 1, 1, 1, 0, 0, 1, 1, 1,
            )
        })
    };
    let column = conv(1, 1);
    assert_eq!(column[0], Cmd::Pipeline(Kernel::Conv2dW1));
    assert_eq!(column[8], Cmd::Threads(size(1, 18, 12), fixed(1, 8, 1)));
    let plane = conv(9, 7);
    assert_eq!(
        plane,
        vec![
            Cmd::Pipeline(Kernel::Conv2d),
            arena(0, 0),
            arena(1, 4),
            arena(2, 8),
            Cmd::U32x4(3, 2, 3, 20, 9),
            Cmd::U32x4(4, 6, 18, 7, 1),
            Cmd::U32x4(5, 3, 1, 1, 1),
            Cmd::U32x4(6, 0, 0, 1, 1),
            Cmd::Threads(size(7, 18, 12), fixed(7, 8, 1)),
        ]
    );
    let pool = steps(|e| {
        encode_pool2d(e, 0, 4, 2, 3, 8, 8, 4, 4, 2, 2, 2, 2, 0, 0, ReduceOp::Max)
    });
    assert_eq!(pool[3], Cmd::U32x4(2, 2, 3, 8, 8));
    assert!(has(&pool, Cmd::U32(6, 2)));
    assert_eq!(*pool.last().unwrap(), Cmd::Threads(size(4, 4, 6), fixed(4, 4, 1)));
}

#[test]
fn weight_gradients_sum_over_samples() {
    let two = steps(|e| {
        encode_conv2d_backward_weight_2pass(
            e, 64, 0, 4, 8, 5, 6, 10, 10, 4, 8, 8, 3, 3, 1, 1, 0, 0, 1, 1, 2,
        )
    });
    assert_eq!(
        pipelines(&two),
        vec![
            Kernel::Conv2dBackwardWeightPartial,
            Kernel::Conv2dBackwardWeightReduce
        ]
    );
    assert!(has(&two, Cmd::Threads(size(27, 4, 5), fixed(8, 4, 1))));
    assert!(has(&two, Cmd::U32x2(2, 5, 108)));
    assert_eq!(*two.last().unwrap(), Cmd::Threads(size(108, 1, 1), fixed(64, 1, 1)));
}

#[test]
fn recurrent_layers_alternate_their_scratch() {
    let e = steps(|e| {
        encode_lstm(
            e, 4000, 0, 400, 800, 1200, 1600, 2000, 8000, 2, 3, 5, 4, 3, true, false,
        )
    });
    let words: Vec<u32> = e
        .iter()
        .filter_map(|c| match c {
            Cmd::U32(5, w) => Some(*w),
            _ => None,
        })
        .collect();
    let layer = 2 * 3 * 8;
    assert_eq!(
        words,
        vec![1000, 1000, 1000 + layer, 1000 + layer, 2000, 2000]
    );
    let inputs: Vec<u32> = e
        .iter()
        .filter_map(|c| match c {
            Cmd::U32(1, w) => Some(*w),
            _ => None,
        })
        .collect();
    assert_eq!(inputs, vec![0, 0, 1000, 1000, 1000 + layer, 1000 + layer]);
    let weights: Vec<u32> = e
        .iter()
        .filter_map(|c| match c {
            Cmd::U32(2, w) => Some(*w),
            _ => None,
        })
        .collect();
    assert_eq!(
        weights,
        vec![100, 180, 260, 260 + 128, 260 + 256, 260 + 384]
    );
    assert_eq!(
        e.iter().filter(|c| matches!(c, Cmd::Groups(_, _))).count(),
        6
    );
    assert_eq!(
        *e.last().unwrap(),
        Cmd::Groups(size(2, 1, 1), size(4, 1, 1))
    );
}

#[test]
fn state_machines_pick_simdgroups() {
    let delta = |state, off| {
        steps(|e| {
            encode_gated_delta_net(
                e, 4, 8, 12, 16, 20, 24, 28, 2, 3, 5, state, false, true, off,
            )
        })
    };
    let simd = delta(128, false);
    assert_eq!(simd[0], Cmd::Pipeline(Kernel::GatedDeltaNetSg));
    assert_eq!(*simd.last().unwrap(), Cmd::Groups(size(32, 5, 2), size(32, 4, 1)));
    for plain in [delta(128, true), delta(64, false)] {
        assert_eq!(plain[0], Cmd::Pipeline(Kernel::GatedDeltaNet));
        assert_eq!(
            *plain.last().unwrap(),
            Cmd::Threads(size(10, 1, 1), Group::ExecWidth(Kernel::GatedDeltaNet, 10))
        );
    }
    assert_eq!(simd[2], Cmd::U64(1, 1));
    assert_eq!(simd[8], Cmd::U64(7, 7));
    let scan = steps(|e| encode_selective_scan(e, 4, 8, 12, 16, 20, 24, 2, 3, 5, 16));
    assert_eq!(scan[2], Cmd::U32(1, 1));
    assert_eq!(scan[8], Cmd::U32x4(7, 2, 3, 5, 16));
    assert_eq!(
        scan[9],
        Cmd::Threads(size(10, 1, 1), Group::ExecWidth(Kernel::SelectiveScan, 10))
    );
}

#[test]
fn packed_products_launch_by_outputs() {
    let sg = steps(|e| encode_q4k_mv_f32_sg(e, 4, 8, 12, 256, 100));
    assert_eq!(
        sg,
        vec![
            Cmd::Pipeline(Kernel::Q4kMvF32Sg),
            arena(0, 0),
            Cmd::U64(1, 4),
            Cmd::U64(2, 8),
            Cmd::U64(3, 12),
            Cmd::U32(4, 256),
            Cmd::U32(5, 100),
            Cmd::Threads(size(13 * 128, 1, 1), fixed(128, 1, 1)),
        ]
    );
    let mv = steps(|e| encode_q4k_mv_f32(e, 4, 8, 12, 256, 100));
    assert_eq!(mv[7], Cmd::Threads(size(100, 1, 1), fixed(100, 1, 1)));
    let mm = steps(|e| encode_qk_mm_f32(e, Kernel::Q6kMmF32, 4, 8, 12, 17, 256, 100));
    assert_eq!(*mm.last().unwrap(), Cmd::Threads(size(100, 3, 1), fixed(64, 1, 1)));
    let q2 = steps(|e| encode_q1_0_mv_f32(e, PackedFormat::Q2, Buf::Weights, 4, 8, 12, 32, 300));
    assert_eq!(q2[0], Cmd::Pipeline(Kernel::Q20MvF32));
    assert_eq!(q2[7], Cmd::Buffer(7, Buf::Weights, 0));
    assert_eq!(q2[8], Cmd::Threads(size(300, 1, 1), fixed(256, 1, 1)));
    let iq = steps(|e| encode_iq2_xxs_mv_f32(e, 4, 8, 12, 256, 100));
    assert_eq!(iq[7], Cmd::Buffer(6, Buf::IqGrid, 0));
    let mlx = steps(|e| {
        encode_dequant_matmul_mlx_gemm(
            e, Kernel::Q4kMmF32, 0, 4, 8, 12, 16, 17, 64, 10, 1, 4, 32,
        )
    });
    assert_eq!(*mlx.last().unwrap(), Cmd::Groups(size(30, 1, 1), size(256, 1, 1)));
}

fn flags() -> GroupedFlags {
    GroupedFlags {
        gemv_disabled: false,
        q4k_fused_disabled: false,
        q4k_gemm_disabled: false,
        q6k_gemm_disabled: false,
        q4k_simd_disabled: false,
    }
}

fn shape_of(scheme: PackedFormat, k_dim: usize) -> GroupedShape {
    GroupedShape {
        m: 3,
        k_dim,
        n: 8,
        num_experts: 3,
        scheme,
        scheme_id: 5,
        block_elems: 32,
        block_bytes: 18,
    }
}

#[test]
fn experts_share_their_kernels() {
    let one_each = steps(|e| {
        encode_dequant_grouped_matmul_gguf(
            e,
            shape_of(PackedFormat::Q4, 32),
            flags(),
            4096,
            64,
            &[0, 1, 1, 2],
        )
    });
    assert_eq!(
        pipelines(&one_each),
        vec![Kernel::Q40MvF32, Kernel::Q40MvF32]
    );
    assert_eq!(one_each[0], Cmd::Begin(Order::Concurrent));
    assert_eq!(*one_each.last().unwrap(), Cmd::End);
    let slab = 32 * 8 / 32 * 18;
    assert!(has(&one_each, Cmd::U64(2, 64)));
    assert!(has(&one_each, Cmd::U64(2, 64 + 2 * slab)));
    assert!(has(&one_each, Cmd::U64(1, 4096 + 32 * 8 * 4 + 32 * 4)));

    let rows = steps(|e| {
        encode_dequant_grouped_matmul_gguf(
            e,
            shape_of(PackedFormat::Q6K, 256),
            flags(),
            4096,
            64,
            &[0, 2, 2, 3],
        )
    });
    assert_eq!(pipelines(&rows), vec![Kernel::Q6kMmF32, Kernel::Q6kMmF32]);
    assert!(has(&rows, Cmd::U32(4, 2)));

    let unpacked = steps(|e| {
        encode_dequant_grouped_matmul_gguf(
            e,
            shape_of(PackedFormat::Other, 256),
            flags(),
            4096,
            64,
            &[0, 0, 2, 3],
        )
    });
    assert_eq!(
        pipelines(&unpacked),
        vec![Kernel::DequantGguf, Kernel::DequantGguf]
    );
    assert_eq!(
        unpacked
            .iter()
            .filter(|c| matches!(c, Cmd::Begin(Order::Serial)))
            .count(),
        2
    );
    let in_off = 4096 + 256 * 8 * 4;
    let out_off = in_off + 3 * 256 * 4;
    assert_eq!(
        *unpacked.last().unwrap(),
        Cmd::VendorMatmulBt(MatmulBt {
            a: in_off + 2 * 256 * 4,
            b: 4096,
            c: out_off + 2 * 8 * 4,
            m: 1,
            k: 256,
            n: 8,
        })
    );
}

#[test]
fn rows_are_multiplied_by_their_experts() {
    assert!(dequant_grouped_can_encode_per_row(PackedFormat::Q8, 64, flags()));
    assert!(!dequant_grouped_can_encode_per_row(PackedFormat::Q8, 63, flags()));
    assert!(!dequant_grouped_can_encode_per_row(PackedFormat::Q6K, 128, flags()));
    assert!(!dequant_grouped_can_encode_per_row(PackedFormat::Other, 256, flags()));
    let off = GroupedFlags { gemv_disabled: true, ..flags() };
    assert!(!dequant_grouped_can_encode_per_row(PackedFormat::Q8, 64, off));
    let e = steps(|e| {
        encode_dequant_grouped_matmul_gguf_per_row(
            e,
            shape_of(PackedFormat::Q4K, 256),
            flags(),
            0,
            64,
            4096,
            &[2, 0, 2],
        )
    });
    assert_eq!(pipelines(&e), vec![Kernel::Q4kMvF32Sg; 3]);
    let slab = 256 * 8 / 32 * 18;
    let weights: Vec<u64> = e
        .iter()
        .filter_map(|c| match c {
            Cmd::U64(2, w) => Some(*w),
            _ => None,
        })
        .collect();
    assert_eq!(weights, vec![64 + 2 * slab, 64, 64 + 2 * slab]);
    let plain = steps(|e| encode_dequant_gguf(e, 16, 64, 3, 32, 64, 10));
    assert_eq!(
        plain,
        vec![
            Cmd::Pipeline(Kernel::DequantGguf),
            arena(0, 0),
            Cmd::U64(1, 16),
            Cmd::U64(2, 16),
            Cmd::U32(3, 3),
            Cmd::U32(4, 20),
            Cmd::Buffer(5, Buf::IqGrid, 0),
            Cmd::Threads(size(20, 1, 1), fixed(20, 1, 1)),
        ]
    );
}

#[test]
fn codebooks_split_small_products() {
    let small = steps(|e| encode_synth_matmul(e, 0, 4, 8, 12, 8, 64, 5, 4, 16, true));
    assert_eq!(small[0], Cmd::Pipeline(Kernel::SynthMatmulCodebookH));
    assert_eq!(*small.last().unwrap(), Cmd::Threads(size(32, 5, 8), fixed(32, 5, 1)));
    let large = steps(|e| encode_synth_matmul(e, 0, 4, 8, 12, 9, 64, 50, 4, 16, false));
    assert_eq!(large[0], Cmd::Pipeline(Kernel::SynthMatmulCodebookMm));
    assert_eq!(*large.last().unwrap(), Cmd::Threads(size(50, 9, 1), fixed(32, 8, 1)));
    let dx = steps(|e| encode_synth_bwd(e, 0, 4, 8, 12, 16, 3, 5, 64, 4, 16, true));
    assert!(has(&dx, Cmd::U64(3, 8)));
    assert_eq!(*dx.last().unwrap(), Cmd::Threads(size(64, 3, 1), fixed(16, 16, 1)));
    let book = steps(|e| encode_synth_bwd(e, 0, 4, 8, 12, 16, 3, 5, 64, 4, 16, false));
    assert!(has(&book, Cmd::U64(3, 0)));
    assert_eq!(*book.last().unwrap(), Cmd::Threads(size(4, 16, 1), fixed(4, 64, 1)));
}

#[test]
fn broadcast_shapes_are_recognised() {
    assert_eq!(dense_row_major_strides(&[2, 3, 4], 3), vec![12, 4, 1]);
    assert_eq!(broadcast_strides_u32(&[3, 1], &[2, 3, 4]), vec![0, 1, 0]);
    assert!(is_scalar_broadcast(&[0, 0], 2));
    assert!(!is_scalar_broadcast(&[0, 1], 2));
    assert!(is_row_vector_broadcast(&[1, 0], 2, &[3, 4]));
    assert!(!is_row_vector_broadcast(&[0, 1], 2, &[3, 4]));
    let dense = [4, 1];
    assert_eq!(detect_scalar_broadcast(2, &[3, 4], &dense, &[0, 0]), Some(true));
    assert_eq!(detect_scalar_broadcast(2, &[3, 4], &[0, 0], &dense), Some(false));
    assert_eq!(detect_scalar_broadcast(2, &[3, 4], &dense, &dense), None);
    assert_eq!(
        detect_last_axis_row_broadcast(2, &[3, 4], &dense, &[1, 0]),
        Some((3, 4, true))
    );
    assert_eq!(
        detect_last_axis_col_broadcast(2, &[3, 4], &[0, 1], &dense),
        Some((3, 4, false))
    );
    assert_eq!(
        detect_single_axis_broadcast(3, &[2, 3, 4], &[12, 4, 1], &[4, 0, 1]),
        Some((6, 4, 3, true))
    );
    assert_eq!(inferred_input_len(&[0, 1, 0], &[2, 3, 4]), 3);
    assert_eq!(broadcast_offset(13, 3, &[2, 3, 4], &[0, 1, 0]), 0);
    assert_eq!(broadcast_offset(17, 3, &[2, 3, 4], &[0, 1, 0]), 1);
    assert_eq!(
        broadcast_pairs(4, 2, &[2, 2], &[2, 1], &[0, 1]),
        vec![(0, 0), (1, 1), (2, 0), (3, 1)]
    );
}
