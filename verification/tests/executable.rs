use rlx_metal::command::Buf;
use rlx_metal::executable::{
    ensure_f16_weight_scratch, write_weight_bytes, write_weight_from_f32, ArenaSlot,
    MetalExecutable, MetalPrecision, ParamCopy, ParamWrite, PartWrite, PrefixCopy, RowCopy,
    WeightEncoding, WeightParamSlot,
};
use rlx_metal::float_bits::{half_to_single, single_of_integer};
use rlx_metal::graph::{DType, Graph, Op, QuantKind, QuantScheme, Shape};
use rlx_metal::mps_plan::{
    const_cap, needs_staging, preload_qmatmul_weights, slot_offset, tensor_nbytes, CustomInput,
    CustomOp, Frozen, HybridAction, HybridStep, MpsGraphPlan, MpsRoute, PlanOutput, PlanTensor, Range,
    Slot, StagedCopy, TensorType,
};
use rlx_metal::name_map::NameMap;
use rlx_metal::run::{
    typed_route, widen_input_bytes_to_f32, HandleSource, HostWrite, TypedRoute,
};

fn shape(dims: &[usize], dtype: DType) -> Shape {
    Shape {
        dims: dims.iter().map(|d| Some(*d)).collect(),
        dtype,
    }
}

fn names(pairs: &[(&str, usize)]) -> NameMap<usize> {
    let mut m = NameMap::new();
    for (name, id) in pairs {
        m.insert(name, *id);
    }
    m
}

fn slot(byte_offset: usize, elements: usize) -> Option<ArenaSlot> {
    Some(ArenaSlot {
        byte_offset,
        elements,
        dtype: DType::F32,
    })
}

fn weight(offset: usize, nelems: usize, dtype: DType) -> Option<WeightParamSlot> {
    Some(WeightParamSlot {
        offset,
        nbytes: nelems * 4,
        nelems,
        dtype,
    })
}

/// Nodes: 0 input `past` [4, 8], 1 param `big` [16, 16], 2 param `small` [8], 3 output [5, 8],
/// 4 output [3].
fn exe() -> MetalExecutable {
    let mut graph = Graph::new();
    graph.add_node(Op::Input(0), vec![], shape(&[4, 8], DType::F32));
    graph.add_node(Op::Param(0), vec![], shape(&[16, 16], DType::F32));
    graph.add_node(Op::Param(1), vec![], shape(&[8], DType::F32));
    graph.add_node(Op::Other(1), vec![0], shape(&[5, 8], DType::F32));
    graph.add_node(Op::Other(2), vec![3], shape(&[3], DType::F16));
    graph.set_outputs(vec![3, 4]);
    MetalExecutable {
        graph,
        arena: vec![slot(0, 32), None, slot(128, 8), slot(256, 40), slot(512, 6)],
        weight_slots: vec![None, weight(64, 256, DType::F32), None, None, None],
        has_weight_buffer: true,
        input_ids: names(&[("past", 0)]),
        param_ids: names(&[("big", 1), ("small", 2)]),
        input_slots: vec![(0, 32)],
        output_slots: vec![(256, 40), (512, 3)],
        precision: MetalPrecision::F32,
        active_extent: None,
        gpu_handles: NameMap::new(),
        gpu_handle_feeds: NameMap::new(),
        gpu_handle_resident: NameMap::new(),
        kv_row_feeds: NameMap::new(),
        baked_weight_concats: vec![1, 2],
    }
}

#[test]
fn parameters_go_where_they_live() {
    let mut e = exe();
    let big = WeightParamSlot { offset: 64, nbytes: 1024, nelems: 256, dtype: DType::F32 };
    assert_eq!(e.set_param("big", 1000), ParamWrite::Weights(big, 256));
    assert!(e.baked_weight_concats.is_empty());
    assert_eq!(e.set_param("big", 3), ParamWrite::Weights(big, 3));
    assert_eq!(e.set_param_bytes("big", 5000), ParamWrite::Weights(big, 1024));
    assert_eq!(e.set_param("small", 8), ParamWrite::Arena(2));
    assert_eq!(e.set_param("none", 8), ParamWrite::Nowhere);
    assert_eq!(e.set_param_range("big", 8, 4), None);
    assert_eq!(
        e.set_param_range("small", 8, 4),
        Some(PartWrite { node: 2, byte_offset: 8, len: 4 })
    );
    assert_eq!(e.set_param_range("none", 8, 4), None);
}

#[test]
fn storage_precision_follows_the_place() {
    let mut e = exe();
    assert!(!e.param_storage_is_f16("big"));
    e.weight_slots[1] = weight(64, 256, DType::F16);
    assert!(e.param_storage_is_f16("big"));
    assert!(!e.param_storage_is_f16("small"));
    assert!(!e.param_storage_is_f16("none"));
    assert_eq!(e.param_byte_offset(1), 64);
    assert_eq!(e.param_buffer(1), Buf::Weights);
    assert_eq!(e.param_byte_offset(2), 128);
    assert_eq!(e.param_buffer(2), Buf::Arena);
    assert_eq!(e.resolve_off(7, None), (Buf::Arena, 7));
    assert_eq!(e.resolve_off(7, Some(3)), (Buf::Weights, 3));
}

#[test]
fn parameters_are_copied_between_equal_layouts() {
    let r = exe().copy_params_from(&exe());
    assert!(r.ok && r.preload);
    assert_eq!(
        r.copies,
        vec![
            ParamCopy::Weights { src: 64, dst: 64, nbytes: 1024 },
            ParamCopy::Arena { src: 2, dst: 2 },
        ]
    );
    let mut other = exe();
    other.arena[2] = slot(128, 9);
    let r = exe().copy_params_from(&other);
    assert!(!r.ok && !r.preload);
    assert_eq!(r.copies.len(), 1);
    let mut other = exe();
    other.param_ids = names(&[("big", 1)]);
    let r = exe().copy_params_from(&other);
    assert!(!r.ok && !r.preload && r.copies.is_empty());
}

#[test]
fn weights_are_shared_only_between_identical_layouts() {
    let mut e = exe();
    e.has_weight_buffer = false;
    let r = e.share_weights_from(&exe());
    assert!(r.ok && r.shared && r.preload && e.has_weight_buffer);
    assert_eq!(r.copies, vec![ParamCopy::Arena { src: 2, dst: 2 }]);

    let mut other = exe();
    other.weight_slots[1] = weight(128, 256, DType::F32);
    let r = exe().share_weights_from(&other);
    assert!(!r.ok && !r.shared && r.copies.is_empty());

    let mut inline = exe();
    inline.weight_slots[1] = None;
    inline.arena[1] = slot(1024, 256);
    let mut inline_other = exe();
    inline_other.weight_slots[1] = None;
    inline_other.arena[1] = slot(1024, 256);
    let r = inline.share_weights_from(&inline_other);
    assert!(!r.ok && !r.shared);

    let mut other = exe();
    other.arena[2] = None;
    let r = exe().share_weights_from(&other);
    assert!(!r.ok && r.shared && !r.preload && r.copies.is_empty());
}

fn fed() -> MetalExecutable {
    let mut e = exe();
    e.register_kv_row_feed("past", 0);
    e.register_kv_row_feed("unknown", 0);
    e
}

#[test]
fn rows_are_folded_into_their_handles() {
    let mut e = fed();
    let copies = e.feed_kv_row(4, 2, 8);
    assert_eq!(
        copies,
        vec![RowCopy { dst: 0, dst_elem: 16, src: 3, src_elem: 32, len: 8 }]
    );
    assert!(e.has_gpu_handle("past"));
    assert!(!e.has_gpu_handle("unknown"));
    assert_eq!(e.read_gpu_handle("past"), HandleSource::Arena(0));
}

#[test]
fn batches_are_folded_element_by_element() {
    let mut e = fed();
    let copies = e.feed_kv_batch_major(1, 2, 2, 8);
    assert_eq!(
        copies,
        vec![
            RowCopy { dst: 0, dst_elem: 8, src: 3, src_elem: 0, len: 8 },
            RowCopy { dst: 0, dst_elem: 24, src: 3, src_elem: 8, len: 8 },
        ]
    );
    let mut e = fed();
    assert_eq!(e.feed_kv_batch_major(3, 1, 99, 8), fed().feed_kv_row(0, 3, 8));
    let mut e = fed();
    assert!(e.feed_kv_batch_major(3, 0, 99, 8).is_empty());
    assert!(!e.has_gpu_handle("past"));
    assert!(e.feed_kv_batch_major(3, 2, 9, 0).is_empty());
}

#[test]
fn strided_and_ragged_batches_differ_only_in_their_rows() {
    let mut e = fed();
    let strided = e.feed_kv_batch_major_src(2, 3, 1, 2, 4, 5);
    assert_eq!(
        strided,
        vec![
            RowCopy { dst: 0, dst_elem: 5, src: 3, src_elem: 10, len: 5 },
            RowCopy { dst: 0, dst_elem: 25, src: 3, src_elem: 25, len: 5 },
        ]
    );
    let mut e = fed();
    assert_eq!(e.feed_kv_batch_major_ragged(2, 3, &[1, 1], 4, 5), strided);
    let mut e = fed();
    let ragged = e.feed_kv_batch_major_ragged(2, 3, &[0, 3], 4, 5);
    assert_eq!(ragged[1].dst_elem, (4 + 3) * 5);
    assert!(fed().feed_kv_batch_major_ragged(2, 3, &[], 4, 5).is_empty());
}

#[test]
fn outputs_are_handed_over_up_to_the_active_rows() {
    let mut e = exe();
    e.set_gpu_handle_feed("past", 0);
    assert_eq!(
        e.propagate_gpu_handle_feeds_in_arena(),
        vec![PrefixCopy { dst: 0, src: 3, elems: 40 }]
    );
    let mut e = exe();
    e.set_gpu_handle_feed("past", 0);
    e.set_active_extent(Some((3, 4)));
    assert_eq!(
        e.propagate_gpu_handle_feeds_in_arena(),
        vec![PrefixCopy { dst: 0, src: 3, elems: 24 }]
    );
    let mut e = exe();
    e.set_gpu_handle_feed("past", 0);
    e.set_active_extent(Some((90, 4)));
    assert_eq!(e.propagate_gpu_handle_feeds_in_arena()[0].elems, 40);
    // Rows are counted by their floats, so there can be many of them.
    let mut e = exe();
    e.set_gpu_handle_feed("past", 0);
    e.set_active_extent(Some((usize::MAX / 8, 4)));
    assert_eq!(e.propagate_gpu_handle_feeds_in_arena()[0].elems, 40);
    let mut e = exe();
    e.set_gpu_handle_feed("past", 0);
    e.set_active_extent(Some((usize::MAX, 0)));
    assert_eq!(e.propagate_gpu_handle_feeds_in_arena()[0].elems, 40);
    let mut e = exe();
    e.set_gpu_handle_feed("past", 9);
    assert!(e.propagate_gpu_handle_feeds_in_arena().is_empty());
    assert!(!e.has_gpu_handle("past"));
}

#[test]
fn handles_are_mirrored_on_the_host() {
    let mut e = exe();
    e.set_gpu_handle_feed("past", 0);
    e.set_gpu_handle_feed("free", 1);
    assert_eq!(
        e.refresh_gpu_handles_from_outputs(),
        vec![HostWrite { from: 0, node: 3 }, HostWrite { from: 1, node: 4 }]
    );
    assert_eq!(e.gpu_handles.get("past"), Some(&40));
    assert_eq!(e.gpu_handles.get("free"), Some(&6));
    assert_eq!(e.read_gpu_handle("past"), HandleSource::Output(0));
    assert_eq!(e.read_gpu_handle("none"), HandleSource::Missing);
}

#[test]
fn handles_are_written_unless_they_live_on_the_device() {
    let mut e = exe();
    e.gpu_handles.insert("past", 32);
    let r = e.run_read_outputs(&[], None, false);
    assert_eq!(r.from_handles, vec![HostWrite { from: 0, node: 0 }]);
    assert_eq!(r.indices, vec![0, 1]);
    assert!(!r.propagate && !r.mirror);
    let r = e.run_read_outputs(&["other", "past"], Some(&[1]), false);
    assert!(r.from_handles.is_empty());
    assert_eq!(r.from_inputs, vec![HostWrite { from: 1, node: 0 }]);
    assert_eq!(r.indices, vec![1]);
    e.gpu_handle_resident.insert("past", true);
    assert!(e.run_read_outputs(&[], None, false).from_handles.is_empty());
    e.set_gpu_handle_feed("past", 0);
    let r = e.run_read_outputs(&[], Some(&[0]), false);
    assert!(r.propagate && !r.mirror);
    assert!(e.run_read_outputs(&[], Some(&[0]), true).mirror);
    assert!(e.run_read_outputs(&[], None, false).mirror);
}

#[test]
fn outputs_are_read_at_their_logical_length() {
    let mut e = exe();
    assert_eq!(e.read_graph_output_f32(0), (3, 40));
    assert_eq!(e.read_graph_output_f32(1), (4, 3));
    e.output_slots[1].1 = 0;
    assert_eq!(e.read_graph_output_f32(1), (4, 6));
    assert_eq!(e.read_graph_output_row(0, 4, 8), (3, 32, 40));
    assert_eq!(e.output_bytes_per_node(), vec![(256, 160), (512, 6)]);
    assert_eq!(e.output_dtypes(), vec![DType::F32, DType::F16]);
    assert_eq!(e.output_slots(), &vec![(256, 40), (512, 0)]);
    let p = e.run_pipelined(&[vec!["past"], vec!["other"]]);
    assert_eq!(p.sizes, vec![160, 4]);
    assert_eq!(p.reads, vec![(40, false), (0, true)]);
    assert_eq!(p.writes, vec![vec![HostWrite { from: 0, node: 0 }], vec![]]);
    assert_eq!(e.commit_no_wait(&["x", "past"]), vec![HostWrite { from: 1, node: 0 }]);
    assert_eq!(e.run(&["past"]).indices, vec![0, 1]);
    assert_eq!(e.run(&["past"]).reads, vec![(3, 40), (4, 6)]);
    e.output_slots[1].1 = 3;
    assert_eq!(e.run(&["past"]).reads, vec![(3, 40), (4, 3)]);
    assert_eq!(e.run_read_outputs(&[], Some(&[1]), false).reads, vec![(4, 3)]);
    let (inputs, outputs) = e.run_slots(&[100, 5]);
    assert_eq!(inputs, vec![(0, 32)]);
    assert_eq!(*outputs, vec![(256, 40), (512, 3)]);
    assert_eq!(e.run_slots(&[5]).0, vec![(0, 5)]);
}

#[test]
fn typed_inputs_take_their_routes() {
    for dt in [DType::I32, DType::I64, DType::U32, DType::Bool, DType::F16, DType::BF16] {
        assert_eq!(typed_route(dt), TypedRoute::Widened);
    }
    for dt in [DType::F64, DType::U8, DType::I8] {
        assert_eq!(typed_route(dt), TypedRoute::Raw);
    }
    assert_eq!(typed_route(DType::F32), TypedRoute::Floats);
    let e = exe();
    let w = e.run_typed(&["past", "past", "none"], &[DType::I64, DType::F32, DType::U8]);
    assert_eq!(w.widened, vec![HostWrite { from: 0, node: 0 }]);
    assert_eq!(w.direct, vec![HostWrite { from: 1, node: 0 }]);
}

#[test]
fn integers_are_read_from_their_bytes() {
    let mut data = Vec::new();
    for v in [1i64, -1, i64::MIN, i64::MAX] {
        data.extend_from_slice(&v.to_le_bytes());
    }
    data.push(9);
    let floats = |v: &[f32]| -> Vec<u32> { v.iter().map(|x| x.to_bits()).collect() };
    assert_eq!(
        widen_input_bytes_to_f32(&data, DType::I64),
        floats(&[1.0, -1.0, i64::MIN as f32, i64::MAX as f32])
    );
    let mut data = Vec::new();
    for v in [-5i32, 7, i32::MIN] {
        data.extend_from_slice(&v.to_le_bytes());
    }
    assert_eq!(
        widen_input_bytes_to_f32(&data, DType::I32),
        floats(&[-5.0, 7.0, i32::MIN as f32])
    );
    assert_eq!(
        widen_input_bytes_to_f32(&u32::MAX.to_le_bytes(), DType::U32),
        floats(&[u32::MAX as f32])
    );
    assert_eq!(
        widen_input_bytes_to_f32(&[0, 1, 255], DType::Bool),
        floats(&[0.0, 1.0, 255.0])
    );
    assert_eq!(
        widen_input_bytes_to_f32(&(-2.5f32).to_le_bytes(), DType::F32),
        floats(&[-2.5])
    );
    assert_eq!(
        widen_input_bytes_to_f32(&[0x00, 0x3c, 0x01], DType::F16),
        floats(&[1.0])
    );
    assert_eq!(
        widen_input_bytes_to_f32(&[0x80, 0x3f], DType::BF16),
        floats(&[1.0])
    );
    assert_eq!(
        widen_input_bytes_to_f32(&[0x81, 0xff, 0x80, 0x7f, 0xc1, 0x7f, 0x01, 0xff], DType::BF16),
        vec![0xffc1_0000, 0x7f80_0000, 0x7fc1_0000, 0xff01_0000]
    );
}

#[test]
fn every_half_float_is_widened() {
    for bits in 0..=u16::MAX {
        assert_eq!(
            half_to_single(bits),
            half::f16::from_bits(bits).to_f32().to_bits(),
            "{bits:#06x}"
        );
    }
    assert_eq!(half_to_single(0x0001), 0x3380_0000);
    assert_eq!(half_to_single(0x7d00), 0x7fe0_0000);
}

#[test]
fn integers_go_to_the_nearest_float() {
    let mut values: Vec<i64> = vec![0, 1, -1, i64::MAX, i64::MIN, i64::MIN + 1];
    for e in 0..63 {
        for d in [-3i64, -2, -1, 0, 1, 2, 3] {
            let v = (1i64 << e).wrapping_add(d);
            values.push(v);
            values.push(v.wrapping_neg());
        }
    }
    for e in 24..62 {
        // Halfway between two floats, and next to it.
        for q in [(1i64 << 23) + 1, (1 << 23) + 2, (1 << 24) - 1] {
            let half = 1i64 << (e - 24);
            let v = (q << (e - 23)) + half;
            values.extend_from_slice(&[v, v + 1, v - 1, -v]);
        }
    }
    for v in values {
        assert_eq!(single_of_integer(v), (v as f32).to_bits(), "{v}");
    }
    assert_eq!(single_of_integer(16_777_217), 0x4b80_0000);
    assert_eq!(single_of_integer(16_777_219), 0x4b80_0002);
}

#[test]
fn typed_runs_write_the_handles_of_the_host_last() {
    let mut e = exe();
    e.gpu_handles.insert("past", 32);
    let r = e.run_typed(&["past"], &[DType::F32]);
    assert_eq!(r.direct, vec![HostWrite { from: 0, node: 0 }]);
    assert_eq!(r.run.from_handles, vec![HostWrite { from: 0, node: 0 }]);
    assert!(r.run.from_inputs.is_empty());
    assert!(!r.run.propagate && !r.run.mirror);
    assert_eq!(r.run.indices, vec![0, 1]);
    assert_eq!(r.outputs, vec![(256, 160, DType::F32), (512, 6, DType::F16)]);
    e.set_gpu_handle_feed("past", 0);
    let r = e.run_typed(&[], &[]);
    assert!(r.run.propagate && r.run.mirror);
}

#[test]
fn tensors_outside_the_window_are_staged() {
    assert!(!needs_staging(5, 100, false));
    assert!(!needs_staging(0, 100, true));
    assert!(!needs_staging(16384, 100, true));
    assert!(needs_staging(16385, 100, true));
    assert!(!needs_staging(16385, 0, true));
    assert!(needs_staging(1 << 32, 4, true));
    assert!(needs_staging((1 << 32) - 16384, 16385, true));
    assert!(!needs_staging((1 << 32) - 16384, 16384, true));
    assert!(needs_staging(usize::MAX, usize::MAX, true));
    assert_eq!(tensor_nbytes(&[2, 3, 4], 0x1000_0010), 48);
    assert_eq!(tensor_nbytes(&[2, 3, 4], 0x1000_0020), 96);
    assert_eq!(tensor_nbytes(&[], 0), 4);
}

fn tensor(name: &str, dims: &[usize]) -> PlanTensor {
    PlanTensor {
        name: name.to_string(),
        shape: dims.to_vec(),
        dt: 0x1000_0020,
    }
}

fn plan() -> MpsGraphPlan {
    MpsGraphPlan {
        inputs: vec![tensor("past", &[4, 8])],
        params: vec![tensor("big", &[16, 16]), tensor("small", &[8])],
        outputs: vec![
            PlanOutput { id: 3, shape: vec![5, 8], dt: 0x1000_0020 },
            PlanOutput { id: 4, shape: vec![3], dt: 0x1000_0010 },
        ],
        has_executable: true,
        has_cached_binding: true,
    }
}

#[test]
fn small_arenas_are_bound_in_place() {
    let r = exe().dispatch_mps_plan(&plan(), 1 << 20, None, None);
    assert_eq!(
        r.feeds,
        vec![
            Slot::Arena { offset: 0 },
            Slot::Weight { offset: 64 },
            Slot::Arena { offset: 128 },
        ]
    );
    assert_eq!(
        r.outputs,
        vec![Slot::Arena { offset: 256 }, Slot::Arena { offset: 512 }]
    );
    assert_eq!(r.route, MpsRoute::Cached);
    let float = 0x1000_0020;
    assert_eq!(
        r.feed_types,
        vec![
            TensorType { shape: vec![4, 8], dt: float },
            TensorType { shape: vec![16, 16], dt: float },
            TensorType { shape: vec![8], dt: float },
        ]
    );
    assert_eq!(
        r.output_types,
        vec![
            TensorType { shape: vec![5, 8], dt: float },
            TensorType { shape: vec![3], dt: 0x1000_0010 },
        ]
    );
    assert_eq!(r.output_numbers, vec![0, 1]);
    assert!(r.staged.is_empty() && r.stage_in.is_empty() && r.write_back.is_empty());
}

#[test]
fn big_arenas_stage_what_is_off_a_page() {
    let r = exe().dispatch_mps_plan(&plan(), 1 << 32, None, None);
    assert_eq!(
        r.feeds,
        vec![
            Slot::Arena { offset: 0 },
            Slot::Weight { offset: 64 },
            Slot::Staged { idx: 0 },
        ]
    );
    assert_eq!(
        r.outputs,
        vec![Slot::Staged { idx: 1 }, Slot::Staged { idx: 2 }]
    );
    assert_eq!(r.staged, vec![32, 160, 6]);
    assert_eq!(r.stage_in, vec![StagedCopy { idx: 0, offset: 128, nbytes: 32 }]);
    assert_eq!(
        r.write_back,
        vec![
            StagedCopy { idx: 1, offset: 256, nbytes: 160 },
            StagedCopy { idx: 2, offset: 512, nbytes: 6 },
        ]
    );
    assert_eq!(r.route, MpsRoute::Bound);
    assert_eq!(slot_offset(&r.feeds[1]), 64);
    assert_eq!(slot_offset(&r.feeds[2]), 0);
    let jit = MpsGraphPlan { has_executable: false, ..plan() };
    assert_eq!(
        exe().dispatch_mps_plan(&jit, 1 << 32, None, None).route,
        MpsRoute::Jit
    );
}

#[test]
fn parts_of_a_graph_read_their_boundary() {
    let part = MpsGraphPlan {
        inputs: vec![tensor("__boundary_7", &[5, 8])],
        params: vec![],
        outputs: vec![
            PlanOutput { id: 20, shape: vec![3], dt: 0 },
            PlanOutput { id: 21, shape: vec![5, 8], dt: 0 },
        ],
        has_executable: true,
        has_cached_binding: false,
    };
    let boundary = names(&[("__boundary_7", 3)]);
    let r = exe().dispatch_mps_plan(&part, 0, Some(&boundary), Some(&[(21, 3), (20, 4)]));
    assert_eq!(r.feeds, vec![Slot::Arena { offset: 256 }]);
    assert_eq!(
        r.outputs,
        vec![Slot::Arena { offset: 256 }, Slot::Arena { offset: 512 }]
    );
    assert_eq!(r.route, MpsRoute::Bound);
    assert_eq!(r.output_numbers, vec![1, 0]);
    assert_eq!(
        r.output_types,
        vec![TensorType { shape: vec![5, 8], dt: 0 }, TensorType { shape: vec![3], dt: 0 }]
    );
}

#[test]
fn interleaved_plans_keep_their_order() {
    let part = MpsGraphPlan {
        inputs: vec![tensor("__boundary_7", &[5, 8])],
        params: vec![],
        outputs: vec![PlanOutput { id: 20, shape: vec![3], dt: 0 }],
        has_executable: true,
        has_cached_binding: false,
    };
    let steps = vec![
        HybridStep::Thunks { start: 0, end: 4 },
        HybridStep::SubGraph {
            plan: part,
            boundary_parent_ids: names(&[("__boundary_7", 3)]),
            output_parent_ids: vec![(20, 4)],
        },
        HybridStep::Thunks { start: 9, end: 12 },
    ];
    let r = exe().run_via_mps_hybrid(&steps, 1 << 32);
    assert_eq!(r.len(), 3);
    assert!(matches!(r[0], HybridAction::Encode { start: 0, end: 4 }));
    match &r[1] {
        HybridAction::Dispatch(d) => {
            assert_eq!(d.feeds, vec![Slot::Staged { idx: 0 }]);
            assert_eq!(d.outputs, vec![Slot::Staged { idx: 1 }]);
            assert_eq!(d.staged, vec![160, 12]);
        }
        HybridAction::Encode { .. } => panic!("a piece of the graph is dispatched"),
    }
    assert!(matches!(r[2], HybridAction::Encode { start: 9, end: 12 }));
    assert!(exe().run_via_mps_hybrid(&[], 0).is_empty());
}

#[test]
fn small_parameters_are_frozen() {
    let e = exe();
    assert_eq!(const_cap(None), 4 * 1024 * 1024);
    assert_eq!(const_cap(Some("64")), 64);
    assert_eq!(const_cap(Some("-1")), 4 * 1024 * 1024);
    assert!(e.freeze_params_to_mps_constants(false, 0).is_empty());
    assert_eq!(
        e.freeze_params_to_mps_constants(true, 100),
        vec![None, Some(Frozen::Bytes { buf: Buf::Arena, offset: 128, len: 32 })]
    );
    assert_eq!(
        e.freeze_params_to_mps_constants(true, 0)[0],
        Some(Frozen::Bytes { buf: Buf::Weights, offset: 64, len: 1024 })
    );
}

#[test]
fn quantized_parameters_are_frozen_unpacked() {
    let mut e = exe();
    let scheme = QuantScheme { kind: QuantKind::OtherGguf(1), gpu_dequant_scheme_id: Some(1) };
    e.graph.nodes[1].shape = shape(&[100], DType::U8);
    assert_eq!(e.freeze_params_to_mps_constants(true, 0)[0], None);
    e.graph.nodes[3].op = Op::DequantMatMul { scheme };
    e.graph.nodes[3].inputs = vec![0, 1];
    assert_eq!(
        e.freeze_params_to_mps_constants(true, 0)[0],
        Some(Frozen::Unpacked { buf: Buf::Weights, offset: 64, len: 100, k: 6, n: 8, scheme })
    );
    assert_eq!(e.freeze_params_to_mps_constants(true, 191)[0], None);
    assert!(e.freeze_params_to_mps_constants(true, 192)[0].is_some());
}

fn operand(off: usize, len: u32, dims: &[usize], dtype: DType) -> CustomInput {
    CustomInput {
        off,
        len,
        dims: dims.iter().map(|d| Some(*d)).collect(),
        dtype,
    }
}

#[test]
fn quantized_products_are_unpacked_ahead() {
    let op = |is_qmatmul| CustomOp {
        is_qmatmul,
        inputs: vec![
            operand(0, 1, &[1], DType::F32),
            operand(0, 1, &[1], DType::F32),
            operand(0, 1, &[1], DType::F32),
            operand(64, 12, &[0, 12], DType::I8),
            operand(96, 1, &[1], DType::F32),
            operand(100, 1, &[1], DType::U8),
        ],
    };
    let short = CustomOp { is_qmatmul: true, inputs: vec![] };
    let r = preload_qmatmul_weights(true, &[op(false), short, op(true)]);
    assert_eq!(r.len(), 1);
    assert_eq!(r[0].weight, Range { off: 64, nbytes: 12 });
    assert_eq!(r[0].scale, Range { off: 96, nbytes: 4 });
    assert_eq!(r[0].zero_point, Range { off: 100, nbytes: 1 });
    assert_eq!((r[0].k, r[0].n), (1, 12));
    assert_eq!(r[0].weight_dtype, DType::I8);
    assert_eq!(r[0].zero_point_dtype, DType::U8);
    assert!(preload_qmatmul_weights(false, &[op(true)]).is_empty());
}

#[test]
fn names_keep_their_last_value() {
    let mut m: NameMap<u8> = NameMap::new();
    m.insert("a", 1);
    m.insert("b", 2);
    m.insert("a", 3);
    assert_eq!(m.len(), 2);
    assert_eq!(m.get("a"), Some(&3));
    assert_eq!(m.get("b"), Some(&2));
    assert_eq!(m.get("c"), None);
    assert!(m.contains("b"));
    assert_eq!(m.name_at(0).iter().collect::<String>(), "a");
    assert_eq!(m.value_at(1), &2);
}

#[test]
fn clones_take_over_the_state() {
    let mut e = exe();
    e.gpu_handles.insert("empty", 0);
    e.gpu_handles.insert("past", 32);
    e.set_gpu_handle_feed("past", 0);
    e.register_kv_row_feed("past", 1);
    e.set_active_extent(Some((2, 4)));
    let mut fresh = exe();
    fresh.set_gpu_handle_feed("other", 1);
    let c = e.clone_for_cache(fresh);
    assert!(c.copied && c.preload);
    assert_eq!(c.copies.len(), 2);
    assert_eq!(c.bound, vec![1]);
    assert_eq!(c.exe.gpu_handle_feeds.get("past"), Some(&0));
    assert_eq!(c.exe.gpu_handle_feeds.get("other"), Some(&1));
    assert_eq!(c.exe.kv_row_feeds.get("past"), Some(&1));
    assert_eq!(c.exe.active_extent, Some((2, 4)));
    assert!(!c.exe.has_gpu_handle("past"));
}

#[test]
fn weights_are_written_in_their_precision() {
    let slot = |dtype| WeightParamSlot { offset: 0, nbytes: 100, nelems: 25, dtype };
    assert_eq!(
        write_weight_from_f32(slot(DType::F32), 30),
        (WeightEncoding::Single, 25)
    );
    assert_eq!(
        write_weight_from_f32(slot(DType::F16), 3),
        (WeightEncoding::Half, 3)
    );
    assert_eq!(
        write_weight_from_f32(slot(DType::BF16), 25),
        (WeightEncoding::Brain, 25)
    );
    assert_eq!(
        write_weight_from_f32(slot(DType::U8), 25).0,
        WeightEncoding::Single
    );
    assert_eq!(write_weight_bytes(slot(DType::U8), 300), 100);
    assert_eq!(ensure_f16_weight_scratch(None, 0), Some(1));
    assert_eq!(ensure_f16_weight_scratch(Some(7), 8), Some(8));
    assert_eq!(ensure_f16_weight_scratch(Some(8), 8), None);
}
