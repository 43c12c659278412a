use rlx_metal::cost::{AppleGpuFamily, MetalHwModel, SgemmSettings};
use rlx_metal::graph::{DType, Graph, Op, QuantKind, QuantScheme, Shape};
use rlx_metal::scratch::{
    conv_bwd_scratch_bytes, conv_bwd_weight_use_implicit_gemm, dequant_gguf_scratch_bytes,
    fab_is_native, fab_scratch_layout, gdn_ephemeral_state_bytes, metal_host_fallback_enabled,
    metal_host_slices_enabled, rms_norm_bwd_scratch_bytes, rnn_gru_scratch_bytes,
    synth_matmul_scratch_bytes,
};

fn shape(dims: &[usize]) -> Shape {
    Shape {
        dims: dims.iter().map(|d| Some(*d)).collect(),
        dtype: DType::F32,
    }
}

fn one(op: Op, inputs: &[&[usize]], out: &[usize]) -> Graph {
    let mut g = Graph::new();
    let mut ids = Vec::new();
    for (i, dims) in inputs.iter().enumerate() {
        ids.push(g.add_node(Op::Input(i as u32), vec![], shape(dims)));
    }
    let id = g.add_node(op, ids, shape(out));
    g.set_outputs(vec![id]);
    g
}

#[test]
fn normalization_gradients_keep_statistics_for_each_row() {
    let x: &[usize] = &[3, 5, 16];
    assert_eq!(
        rms_norm_bwd_scratch_bytes(&one(Op::RmsNormBackwardGamma, &[x], &[16])),
        15 * 4
    );
    assert_eq!(
        rms_norm_bwd_scratch_bytes(&one(Op::RmsNormBackwardBeta, &[x], &[16])),
        15 * 4
    );
    assert_eq!(
        rms_norm_bwd_scratch_bytes(&one(Op::LayerNormBackwardGamma, &[x], &[16])),
        15 * 2 * 4
    );
    assert_eq!(rms_norm_bwd_scratch_bytes(&one(Op::MatMul, &[x], &[16])), 0);
}

#[test]
fn only_several_layers_need_a_pair_of_buffers() {
    let gru = |num_layers, bidirectional| {
        one(
            Op::Gru { hidden_size: 8, num_layers, bidirectional },
            &[&[2, 7, 4]],
            &[2, 7, 8],
        )
    };
    assert_eq!(rnn_gru_scratch_bytes(&gru(1, true)), 0);
    assert_eq!(rnn_gru_scratch_bytes(&gru(2, false)), 2 * (2 * 7 * 8) * 4);
    assert_eq!(rnn_gru_scratch_bytes(&gru(3, true)), 2 * (2 * 7 * 2 * 8) * 4);
    let lstm = one(
        Op::Lstm { hidden_size: 1, num_layers: 2, bidirectional: false },
        &[&[1, 1, 1]],
        &[1, 1, 1],
    );
    assert_eq!(rnn_gru_scratch_bytes(&lstm), 8);
}

#[test]
fn synthesized_products_of_many_rows_need_their_weight() {
    let small = one(Op::SynthMatMul, &[&[8, 64]], &[8, 32]);
    assert_eq!(synth_matmul_scratch_bytes(&small), 0);
    let large = one(Op::SynthMatMul, &[&[16, 64]], &[16, 32]);
    let half = 4096 + 2048 + 1024;
    assert_eq!(synth_matmul_scratch_bytes(&large), 64 * 32 * 4);
    assert!(64 * 32 * 4 > half);
    let tall = one(Op::SynthMatMul, &[&[1024, 8]], &[1024, 8]);
    assert_eq!(synth_matmul_scratch_bytes(&tall), 256 + 16384 + 16384);
}

fn dequant(kind: QuantKind) -> Graph {
    one(
        Op::DequantMatMul {
            scheme: QuantScheme { kind, gpu_dequant_scheme_id: Some(1) },
        },
        &[&[4, 256], &[100]],
        &[4, 32],
    )
}

#[test]
fn unpacked_weights_take_scratch_unless_they_stay_packed() {
    assert_eq!(
        dequant_gguf_scratch_bytes(&dequant(QuantKind::OtherGguf(2)), false, false),
        256 * 32 * 4
    );
    assert_eq!(
        dequant_gguf_scratch_bytes(&dequant(QuantKind::NotGguf(2)), false, false),
        0
    );
    assert_eq!(dequant_gguf_scratch_bytes(&dequant(QuantKind::GgufQ1), false, false), 0);
    assert_eq!(
        dequant_gguf_scratch_bytes(&dequant(QuantKind::GgufQ1), true, false),
        256 * 32 * 4
    );
    assert_eq!(dequant_gguf_scratch_bytes(&dequant(QuantKind::GgufQ2), true, false), 0);
    assert_eq!(
        dequant_gguf_scratch_bytes(&dequant(QuantKind::GgufQ2), false, true),
        256 * 32 * 4
    );
    let grouped = one(Op::DequantGroupedMatMul, &[&[6, 16], &[9]], &[6, 8]);
    assert_eq!(
        dequant_gguf_scratch_bytes(&grouped, false, false),
        16 * 8 * 4 + 6 * 16 * 4 + 6 * 8 * 4
    );
}

#[test]
fn states_that_are_not_carried_take_scratch() {
    let net = |carry_state| {
        one(
            Op::GatedDeltaNet { carry_state, state_size: 16 },
            &[&[2, 9, 3, 16]],
            &[2, 9, 3, 16],
        )
    };
    assert_eq!(gdn_ephemeral_state_bytes(&net(false)), 2 * 3 * 16 * 16 * 4);
    assert_eq!(gdn_ephemeral_state_bytes(&net(true)), 0);
}

#[test]
fn weight_gradients_take_the_larger_of_two_layouts() {
    let conv = |x: &[usize], dy: &[usize]| {
        one(
            Op::Conv2dBackwardWeight { kh: Some(3), kw: Some(3), groups: 1 },
            &[x, dy],
            &[6, 3, 3, 3],
        )
    };
    assert_eq!(
        conv_bwd_scratch_bytes(&conv(&[1, 3, 8, 8], &[1, 6, 8, 8])),
        27 * 64 * 4
    );
    assert_eq!(
        conv_bwd_scratch_bytes(&conv(&[32, 3, 4, 4], &[32, 6, 2, 2])),
        32 * 6 * 3 * 9 * 4
    );
    assert_eq!(conv_bwd_scratch_bytes(&conv(&[3, 8, 8], &[1, 6, 8, 8])), 0);
    let bare = one(
        Op::Conv2dBackwardWeight { kh: None, kw: None, groups: 0 },
        &[&[1, 4, 2, 2], &[1, 4, 2, 2]],
        &[4, 4],
    );
    assert_eq!(conv_bwd_scratch_bytes(&bare), 16 * 4);
}

fn block(g: &mut Graph, b: usize, s: usize, has_bias: bool, head_dim: usize) -> usize {
    let x = g.add_node(Op::Input(0), vec![], shape(&[b, s, 8]));
    g.add_node(
        Op::FusedAttentionBlock { num_heads: 2, head_dim, has_bias, has_rope: true },
        vec![x],
        shape(&[b, s, 8]),
    )
}

#[test]
fn native_blocks_are_short_even_and_without_bias() {
    let mut g = Graph::new();
    let ids = [
        block(&mut g, 1, 64, false, 4),
        block(&mut g, 1, 65, false, 4),
        block(&mut g, 1, 64, true, 4),
        block(&mut g, 1, 64, false, 3),
    ];
    let native: Vec<bool> = ids.iter().map(|i| fab_is_native(&g.nodes[*i])).collect();
    assert_eq!(native, vec![true, false, false, false]);
    g.nodes[ids[0]].shape.dtype = DType::F16;
    assert!(!fab_is_native(&g.nodes[ids[0]]));
}

#[test]
fn areas_of_blocks_are_aligned_and_follow_one_another() {
    let mut g = Graph::new();
    let a = block(&mut g, 1, 3, false, 4);
    block(&mut g, 1, 65, false, 4);
    let b = block(&mut g, 2, 5, false, 4);
    let (total, rel) = fab_scratch_layout(&g);
    assert_eq!(rel, vec![(a, 0, 384), (b, 512, 1536)]);
    assert_eq!(total, 1536 + 2 * 5 * 8 * 4);
}

fn settings() -> SgemmSettings {
    SgemmSettings {
        pin: None,
        table: None,
        mps_forced: false,
        mps_disabled: true,
        mps_supported: true,
        no_sgemm64: false,
        splitk: false,
        precise: false,
        no_small_m_mps: false,
    }
}

#[test]
fn the_implicit_gradient_needs_its_switch_and_a_kernel() {
    let hw = MetalHwModel::detect(AppleGpuFamily::M3, true, None);
    let s = settings();
    assert!(conv_bwd_weight_use_implicit_gemm(Some("1"), &hw, &s, 64, 64, 64));
    assert!(conv_bwd_weight_use_implicit_gemm(Some("TRUE"), &hw, &s, 64, 64, 64));
    assert!(!conv_bwd_weight_use_implicit_gemm(Some("yes"), &hw, &s, 64, 64, 64));
    assert!(!conv_bwd_weight_use_implicit_gemm(None, &hw, &s, 64, 64, 64));
    assert!(!conv_bwd_weight_use_implicit_gemm(Some("1"), &hw, &s, 64, 63, 64));
    assert!(!conv_bwd_weight_use_implicit_gemm(Some("1"), &hw, &s, 64, 64, 7));
    assert!(!conv_bwd_weight_use_implicit_gemm(Some("1"), &hw, &s, 0, 64, 64));
    let mps = SgemmSettings { mps_disabled: false, mps_forced: true, ..s };
    assert!(!conv_bwd_weight_use_implicit_gemm(Some("1"), &hw, &mps, 64, 64, 64));
}

#[test]
fn host_paths_are_off_unless_asked_for() {
    for on in ["1", "true", "on"] {
        assert!(metal_host_slices_enabled(Some(on)));
        assert!(metal_host_fallback_enabled(Some(on), false));
    }
    assert!(!metal_host_slices_enabled(Some("TRUE")));
    assert!(!metal_host_slices_enabled(None));
    assert!(metal_host_fallback_enabled(None, true));
    assert!(!metal_host_fallback_enabled(None, false));
}
