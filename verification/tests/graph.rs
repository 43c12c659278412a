use rlx_metal::command::Activation;
use rlx_metal::graph::{
    gguf_dequant_dims_for_param, has_metal_dequant_kernel, max_matmul_flops_in,
    transpose_nk_to_kn_bytes, DType, Graph, Node, Op, QuantKind, QuantScheme, Shape,
};
use rlx_metal::graph_rewrite::{
    inline_unfused_fused_op, lower_cpu_nop_fused_for_metal, lower_fab_for_metal, needs_unfusing,
    placeholder_slot, split_erf_gelu_fmba_for_metal, Expansion,
};

fn shape(dims: &[usize]) -> Shape {
    Shape {
        dims: dims.iter().map(|d| Some(*d)).collect(),
        dtype: DType::F32,
    }
}

fn fmba_graph(activation: Option<Activation>) -> Graph {
    let mut g = Graph::new();
    let x = g.add_node(Op::Input(0), vec![], shape(&[2, 4]));
    let w = g.add_node(Op::Param(0), vec![], shape(&[4, 4]));
    let b = g.add_node(Op::Param(1), vec![], shape(&[4]));
    let fused = g.add_node(
        Op::FusedMatMulBiasAct { activation },
        vec![x, w, b],
        shape(&[2, 4]),
    );
    g.set_outputs(vec![fused]);
    g
}

#[test]
fn erf_gelu_fmba_is_split_into_matmul_bias_plus_standalone_gelu() {
    let out = split_erf_gelu_fmba_for_metal(fmba_graph(Some(Activation::Gelu)));
    assert!(out.nodes.iter().all(|n| !matches!(
        n.op,
        Op::FusedMatMulBiasAct {
            activation: Some(Activation::Gelu)
        }
    )));
    assert!(out
        .nodes
        .iter()
        .any(|n| matches!(n.op, Op::FusedMatMulBiasAct { activation: None })));
    assert!(out
        .nodes
        .iter()
        .any(|n| matches!(n.op, Op::Activation(Activation::Gelu))));
}

#[test]
fn tanh_gelu_fmba_stays_fused() {
    let out = split_erf_gelu_fmba_for_metal(fmba_graph(Some(Activation::GeluApprox)));
    assert!(out.nodes.iter().any(|n| matches!(
        n.op,
        Op::FusedMatMulBiasAct {
            activation: Some(Activation::GeluApprox)
        }
    )));
    assert!(!out
        .nodes
        .iter()
        .any(|n| matches!(n.op, Op::Activation(_))));
}

#[test]
fn a_split_graph_keeps_its_wiring() {
    let mut g = fmba_graph(Some(Activation::Gelu));
    let tail = g.add_node(Op::MatMul, vec![3, 1], shape(&[2, 4]));
    g.set_outputs(vec![tail, 3, 0]);
    let out = split_erf_gelu_fmba_for_metal(g);
    assert_eq!(out.nodes.len(), 6);
    assert_eq!(out.nodes[3].inputs, vec![0, 1, 2]);
    assert_eq!(out.nodes[4].op, Op::Activation(Activation::Gelu));
    assert_eq!(out.nodes[4].inputs, vec![3]);
    assert_eq!(out.nodes[5].inputs, vec![4, 1]);
    assert_eq!(out.outputs, vec![5, 4, 0]);
    assert_eq!(out.nodes[4].shape.dims, vec![Some(2), Some(4)]);
}

fn square_of_input() -> Expansion {
    Expansion {
        nodes: vec![
            Node { op: Op::Input(0), inputs: vec![], shape: shape(&[2]) },
            Node { op: Op::Other(7), inputs: vec![0, 0], shape: shape(&[2]) },
        ],
        slots: vec![Some(0), None],
        output: 1,
    }
}

#[test]
fn fused_operations_without_a_kernel_are_expanded() {
    let mut g = Graph::new();
    let x = g.add_node(Op::Input(0), vec![], shape(&[2]));
    let y = g.add_node(Op::FusedConvBiasAct, vec![x], shape(&[2]));
    let z = g.add_node(Op::MatMul, vec![y, x], shape(&[2]));
    g.set_outputs(vec![z, y]);
    assert!(needs_unfusing(&Op::FusedConvBiasAct));
    assert!(!needs_unfusing(&Op::MatMul));
    let out = lower_cpu_nop_fused_for_metal(g, &[None, Some(square_of_input()), None]);
    assert_eq!(out.nodes.len(), 3);
    assert_eq!(out.nodes[1].op, Op::Other(7));
    assert_eq!(out.nodes[1].inputs, vec![0, 0]);
    assert_eq!(out.nodes[2].inputs, vec![1, 0]);
    assert_eq!(out.outputs, vec![2, 1]);
}

#[test]
fn graphs_without_such_operations_stay_as_they_are() {
    let out = lower_cpu_nop_fused_for_metal(fmba_graph(None), &[None, None, None, None]);
    assert_eq!(out.nodes.len(), 4);
    assert_eq!(out.outputs, vec![3]);
    let out = lower_fab_for_metal(out, &[None, None, None, None]);
    assert_eq!(out.nodes.len(), 4);
}

fn block(seq: usize, has_bias: bool) -> Graph {
    let mut g = Graph::new();
    let x = g.add_node(Op::Input(0), vec![], shape(&[1, seq, 8]));
    let y = g.add_node(
        Op::FusedAttentionBlock {
            num_heads: 2,
            head_dim: 4,
            has_bias,
            has_rope: false,
        },
        vec![x],
        shape(&[1, seq, 8]),
    );
    g.set_outputs(vec![y]);
    g
}

#[test]
fn attention_blocks_are_expanded_only_where_the_kernel_does_not_serve_them() {
    let kept = lower_fab_for_metal(block(64, false), &[None, None]);
    assert!(matches!(kept.nodes[1].op, Op::FusedAttentionBlock { .. }));
    let long = lower_fab_for_metal(block(65, false), &[None, Some(square_of_input())]);
    assert_eq!(long.nodes[1].op, Op::Other(7));
    let biased = lower_fab_for_metal(block(4, true), &[None, Some(square_of_input())]);
    assert_eq!(biased.nodes[1].op, Op::Other(7));
}

#[test]
fn an_expansion_may_give_an_input_back() {
    let mut g = Graph::new();
    let x = g.add_node(Op::Input(0), vec![], shape(&[2]));
    let e = Expansion {
        nodes: vec![Node { op: Op::Input(0), inputs: vec![], shape: shape(&[2]) }],
        slots: vec![Some(0)],
        output: 0,
    };
    assert_eq!(inline_unfused_fused_op(&mut g, &e, &[x]), x);
    assert_eq!(g.nodes.len(), 1);
}

#[test]
fn placeholders_are_numbered_by_their_names() {
    assert_eq!(placeholder_slot("in0"), Some(0));
    assert_eq!(placeholder_slot("in17"), Some(17));
    assert_eq!(placeholder_slot("in"), None);
    assert_eq!(placeholder_slot("input"), None);
    assert_eq!(placeholder_slot("x3"), None);
}

#[test]
fn the_largest_product_counts() {
    let mut g = fmba_graph(None);
    assert_eq!(max_matmul_flops_in(&g), 2 * 4 * 4);
    let a = g.add_node(Op::Input(1), vec![], shape(&[3, 5]));
    let b = g.add_node(Op::Input(2), vec![], shape(&[5, 7]));
    g.add_node(Op::MatMul, vec![a, b], shape(&[3, 7]));
    assert_eq!(max_matmul_flops_in(&g), 3 * 5 * 7);
}

#[test]
fn convolutions_count_their_weights() {
    let mut g = Graph::new();
    let x = g.add_node(Op::Input(0), vec![], shape(&[1, 3, 8, 8]));
    let w = g.add_node(Op::Param(0), vec![], shape(&[6, 3, 3, 3]));
    g.add_node(Op::Conv, vec![x, w], shape(&[1, 6, 8, 8]));
    assert_eq!(max_matmul_flops_in(&g), (6 * 64) * (3 * 9));
}

#[test]
fn unknown_extents_count_nothing() {
    let mut g = Graph::new();
    let dynamic = Shape { dims: vec![None, Some(4)], dtype: DType::F32 };
    let x = g.add_node(Op::Input(0), vec![], dynamic);
    let w = g.add_node(Op::Param(0), vec![], shape(&[4, 4]));
    let dynamic = Shape { dims: vec![None, Some(4)], dtype: DType::F32 };
    g.add_node(Op::MatMul, vec![x, w], dynamic);
    assert_eq!(max_matmul_flops_in(&g), 0);
}

fn scheme() -> QuantScheme {
    QuantScheme {
        kind: QuantKind::OtherGguf(3),
        gpu_dequant_scheme_id: Some(3),
    }
}

#[test]
fn quantized_parameters_take_their_extents_from_the_first_user() {
    let mut g = Graph::new();
    let x = g.add_node(Op::Input(0), vec![], shape(&[5, 64]));
    let w = g.add_node(Op::Param(0), vec![], Shape { dims: vec![Some(1024)], dtype: DType::U8 });
    g.add_node(Op::DequantMatMul { scheme: scheme() }, vec![x, w], shape(&[5, 32]));
    assert_eq!(gguf_dequant_dims_for_param(&g, w), Some((64, 32, scheme())));
    assert_eq!(gguf_dequant_dims_for_param(&g, x), None);
}

#[test]
fn schemes_with_a_number_have_a_kernel() {
    assert!(has_metal_dequant_kernel(scheme()));
    assert!(!has_metal_dequant_kernel(QuantScheme {
        gpu_dequant_scheme_id: None,
        ..scheme()
    }));
    assert!(scheme().is_gguf());
    assert!(!QuantScheme { kind: QuantKind::NotGguf(0), gpu_dequant_scheme_id: None }.is_gguf());
}

#[test]
fn transposing_swaps_rows_and_columns() {
    let (n, k) = (2usize, 3usize);
    let dequant: Vec<f32> = vec![1.0, 2.0, 3.0, -4.0, 5.5, 6.25];
    let bits: Vec<u32> = dequant.iter().map(|v| v.to_bits()).collect();
    let out = transpose_nk_to_kn_bytes(&bits, n, k);
    let mut want = Vec::new();
    for p in 0..k {
        for j in 0..n {
            want.extend_from_slice(&dequant[j * k + p].to_le_bytes());
        }
    }
    assert_eq!(out, want);
    assert_eq!(transpose_nk_to_kn_bytes(&bits, 0, 3), Vec::<u8>::new());
}
