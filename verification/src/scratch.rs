//! Sizes of the scratch areas at the tail of the arena. An area is shared by the operations of its
//! kind, which run one after the other, so each is as large as the most that one of them needs.

use vstd::prelude::*;

use crate::cost::{
    ascii_lowercase, dims_fit, lowered, picked, MetalHwModel, SgemmSettings, SgemmVariant,
};
use crate::graph::{
    extents_fit, greatest, nonzero, DType, Graph, Node, Op, QuantKind, Shape,
};
use crate::text::{chars_of, same_chars};

verus! {

/// An extent that is known.
pub open spec fn known(s: Shape, k: int) -> bool {
    0 <= k < s.dims@.len() && s.dims@[k] is Some
}

/// The value of a known extent.
pub open spec fn extent(s: Shape, k: int) -> nat {
    s.dims@[k]->0 as nat
}

fn extent_of(s: &Shape, k: usize) -> (r: usize)
    requires
        known(*s, k as int),
    ensures
        r as nat == extent(*s, k as int),
{
    match s.dims[k] {
        Some(d) => d,
        None => 0,
    }
}

/// The number of elements of a shape whose extents are all known.
pub open spec fn total(s: Shape) -> nat {
    s.count()->0
}

fn total_of(s: &Shape) -> (r: usize)
    requires
        extents_fit(s.dims@),
        s.count() is Some,
    ensures
        r as nat == total(*s),
{
    match s.num_elements() {
        Some(n) => n,
        None => 0,
    }
}

fn at_least_one(n: usize) -> (r: usize)
    ensures
        r as nat == nonzero(n as nat),
        r >= 1,
{
    if n == 0 {
        1
    } else {
        n
    }
}

pub open spec fn larger(a: nat, b: nat) -> nat {
    if a >= b {
        a
    } else {
        b
    }
}

fn larger_of(a: usize, b: usize) -> (r: usize)
    ensures
        r as nat == larger(a as nat, b as nat),
{
    if a >= b {
        a
    } else {
        b
    }
}

/// A size rounded up to a multiple of 256.
pub open spec fn up_to_256(b: nat) -> nat {
    ((b + 255) / 256 * 256) as nat
}

fn round_to_256(b: usize) -> (r: usize)
    requires
        b + 255 <= usize::MAX,
    ensures
        r as nat == up_to_256(b as nat),
{
    (b + 255) / 256 * 256
}

/// The shape of the first input of a node.
fn first_input<'a>(graph: &'a Graph, i: usize) -> (r: &'a Shape)
    requires
        graph.well_formed(),
        i < graph.nodes@.len(),
        graph.nodes@[i as int].inputs@.len() > 0,
    ensures
        *r == graph.input_shape(i as int, 0),
{
    assert(graph.nodes@[i as int].inputs@[0] < i);
    let a: usize = graph.nodes[i].inputs[0];
    &graph.nodes[a].shape
}

/// Statistics of a normalization's gradient: one float for each row, or two where mean and
/// deviation are kept.
pub open spec fn norm_need(g: &Graph, i: int) -> nat {
    let x = g.input_shape(i, 0);
    let rows = total(x) / extent(x, x.dims@.len() - 1);
    match g.nodes@[i].op {
        Op::RmsNormBackwardGamma | Op::RmsNormBackwardBeta => rows * 4,
        Op::LayerNormBackwardGamma => rows * 2 * 4,
        _ => 0,
    }
}

pub open spec fn norm_ok(g: &Graph, i: int) -> bool {
    let x = g.input_shape(i, 0);
    match g.nodes@[i].op {
        Op::RmsNormBackwardGamma | Op::RmsNormBackwardBeta | Op::LayerNormBackwardGamma => {
            &&& g.nodes@[i].inputs@.len() > 0
            &&& known(x, x.dims@.len() - 1)
            &&& extent(x, x.dims@.len() - 1) > 0
            &&& x.count() is Some
            &&& total(x) / extent(x, x.dims@.len() - 1) * 8 <= usize::MAX
        },
        _ => true,
    }
}

fn norm_bytes(graph: &Graph, i: usize) -> (r: usize)
    requires
        graph.well_formed(),
        graph.sizes_fit(),
        i < graph.nodes@.len(),
        norm_ok(graph, i as int),
    ensures
        r as nat == norm_need(graph, i as int),
{
    let op: Op = graph.nodes[i].op;
    let two: bool = matches!(op, Op::LayerNormBackwardGamma);
    if !two && !matches!(op, Op::RmsNormBackwardGamma) && !matches!(op, Op::RmsNormBackwardBeta) {
        return 0;
    }
    let x: &Shape = first_input(graph, i);
    let h: usize = extent_of(x, x.dims.len() - 1);
    let rows: usize = total_of(x) / h;
    if two {
        rows * 2 * 4
    } else {
        rows * 4
    }
}

/// Every node is shaped as its operation asks, and its need fits.
pub open spec fn norm_ok_all(g: &Graph) -> bool {
    forall|i: int| 0 <= i < g.nodes@.len() ==> #[trigger] norm_ok(g, i)
}

/// The scratch of the normalizations' gradients.
pub fn rms_norm_bwd_scratch_bytes(graph: &Graph) -> (r: usize)
    requires
        graph.well_formed(),
        graph.sizes_fit(),
        norm_ok_all(graph),
    ensures
        r == greatest(|i: int| norm_need(graph, i), graph.nodes@.len()),
{
    let ghost need = |i: int| norm_need(graph, i);
    let mut max: usize = 0;
    let mut i: usize = 0;
    while i < graph.nodes.len()
        invariant
            i <= graph.nodes@.len(),
            graph.well_formed(),
            graph.sizes_fit(),
            norm_ok_all(graph),
            need == (|i: int| norm_need(graph, i)),
            max == greatest(need, i as nat),
        decreases graph.nodes@.len() - i,
    {
        assert(norm_ok(graph, i as int));
        let bytes: usize = norm_bytes(graph, i);
        assert(need(i as int) == bytes);
        max = larger_of(max, bytes);
        i = i + 1;
    }
    max
}

/// Width, layers and directions of a recurrent operation.
pub open spec fn recurrent_parts(op: Op) -> Option<(usize, usize, bool)> {
    match op {
        Op::Gru { hidden_size, num_layers, bidirectional } => Some(
            (hidden_size, num_layers, bidirectional),
        ),
        Op::Rnn { hidden_size, num_layers, bidirectional } => Some(
            (hidden_size, num_layers, bidirectional),
        ),
        Op::Lstm { hidden_size, num_layers, bidirectional } => Some(
            (hidden_size, num_layers, bidirectional),
        ),
        _ => None,
    }
}

fn parts_of_recurrent(op: Op) -> (r: Option<(usize, usize, bool)>)
    ensures
        r == recurrent_parts(op),
{
    match op {
        Op::Gru { hidden_size, num_layers, bidirectional } => Some(
            (hidden_size, num_layers, bidirectional),
        ),
        Op::Rnn { hidden_size, num_layers, bidirectional } => Some(
            (hidden_size, num_layers, bidirectional),
        ),
        Op::Lstm { hidden_size, num_layers, bidirectional } => Some(
            (hidden_size, num_layers, bidirectional),
        ),
        _ => None,
    }
}

pub open spec fn direction_count(bidirectional: bool) -> nat {
    if bidirectional {
        2
    } else {
        1
    }
}

/// Two layers' outputs, which the layers between read and write by turns. One layer alone writes
/// to the result.
pub open spec fn recurrent_need(g: &Graph, i: int) -> nat {
    let x = g.input_shape(i, 0);
    match recurrent_parts(g.nodes@[i].op) {
        Some((hidden, layers, bidirectional)) => if layers <= 1 {
            0
        } else {
            2 * (extent(x, 0) * extent(x, 1) * direction_count(bidirectional) * hidden as nat) * 4
        },
        None => 0,
    }
}

pub open spec fn recurrent_ok(g: &Graph, i: int) -> bool {
    let x = g.input_shape(i, 0);
    match recurrent_parts(g.nodes@[i].op) {
        Some((hidden, layers, bidirectional)) => layers <= 1 || {
            &&& g.nodes@[i].inputs@.len() > 0
            &&& known(x, 0)
            &&& known(x, 1)
            &&& extent(x, 0) * extent(x, 1) * 2 <= usize::MAX
            &&& recurrent_need(g, i) <= usize::MAX
        },
        None => true,
    }
}

fn recurrent_bytes(graph: &Graph, i: usize) -> (r: usize)
    requires
        graph.well_formed(),
        graph.sizes_fit(),
        i < graph.nodes@.len(),
        recurrent_ok(graph, i as int),
    ensures
        r as nat == recurrent_need(graph, i as int),
{
    match parts_of_recurrent(graph.nodes[i].op) {
        Some((hidden, num_layers, bidirectional)) => {
            if num_layers <= 1 {
                return 0;
            }
            let x: &Shape = first_input(graph, i);
            let batch: usize = extent_of(x, 0);
            let seq: usize = extent_of(x, 1);
            let dirs: usize = if bidirectional {
                2
            } else {
                1
            };
            let layer_elems: usize = batch * seq * dirs * hidden;
            2 * layer_elems * 4
        },
        None => 0,
    }
}

/// Every node is shaped as its operation asks, and its need fits.
pub open spec fn recurrent_ok_all(g: &Graph) -> bool {
    forall|i: int| 0 <= i < g.nodes@.len() ==> #[trigger] recurrent_ok(g, i)
}

/// The scratch of recurrent operations with several layers.
pub fn rnn_gru_scratch_bytes(graph: &Graph) -> (r: usize)
    requires
        graph.well_formed(),
        graph.sizes_fit(),
        recurrent_ok_all(graph),
    ensures
        r == greatest(|i: int| recurrent_need(graph, i), graph.nodes@.len()),
{
    let ghost need = |i: int| recurrent_need(graph, i);
    let mut max: usize = 0;
    let mut i: usize = 0;
    while i < graph.nodes.len()
        invariant
            i <= graph.nodes@.len(),
            graph.well_formed(),
            graph.sizes_fit(),
            recurrent_ok_all(graph),
            need == (|i: int| recurrent_need(graph, i)),
            max == greatest(need, i as nat),
        decreases graph.nodes@.len() - i,
    {
        assert(recurrent_ok(graph, i as int));
        let bytes: usize = recurrent_bytes(graph, i);
        assert(need(i as int) == bytes);
        max = larger_of(max, bytes);
        i = i + 1;
    }
    max
}

/// A reconstructed weight for products of more than eight rows: either whole in single precision,
/// or together with both other matrices in half precision, whichever is larger.
pub open spec fn synth_need(g: &Graph, i: int) -> nat {
    let node = g.nodes@[i];
    match node.op {
        Op::SynthMatMul => {
            let n = extent(node.shape, node.shape.dims@.len() - 1);
            let m = total(node.shape) / nonzero(n);
            if m <= 8 {
                0
            } else {
                let k = total(g.input_shape(i, 0)) / nonzero(m);
                larger(
                    k * n * 4,
                    up_to_256(k * n * 2) + up_to_256(m * k * 2) + up_to_256(m * n * 2),
                )
            }
        },
        _ => 0,
    }
}

pub open spec fn synth_ok(g: &Graph, i: int) -> bool {
    let node = g.nodes@[i];
    match node.op {
        Op::SynthMatMul => {
            let n = extent(node.shape, node.shape.dims@.len() - 1);
            let m = total(node.shape) / nonzero(n);
            let x = g.input_shape(i, 0);
            let k = total(x) / nonzero(m);
            &&& known(node.shape, node.shape.dims@.len() - 1)
            &&& node.shape.count() is Some
            &&& m <= 8 || {
                &&& node.inputs@.len() > 0
                &&& x.count() is Some
                &&& k * n * 4 <= usize::MAX
                &&& k * n * 2 + m * k * 2 + m * n * 2 + 3 * 255 <= usize::MAX
            }
        },
        _ => true,
    }
}

fn synth_bytes(graph: &Graph, i: usize) -> (r: usize)
    requires
        graph.well_formed(),
        graph.sizes_fit(),
        i < graph.nodes@.len(),
        synth_ok(graph, i as int),
    ensures
        r as nat == synth_need(graph, i as int),
{
    let node: &Node = &graph.nodes[i];
    if !matches!(node.op, Op::SynthMatMul) {
        return 0;
    }
    let n: usize = extent_of(&node.shape, node.shape.dims.len() - 1);
    let m: usize = total_of(&node.shape) / at_least_one(n);
    if m <= 8 {
        return 0;
    }
    let k: usize = total_of(first_input(graph, i)) / at_least_one(m);
    assert(0 <= k * n && 0 <= m * k && 0 <= m * n) by (nonlinear_arith);
    let f32_need: usize = k * n * 4;
    let f16_need: usize = round_to_256(k * n * 2) + round_to_256(m * k * 2) + round_to_256(m * n * 2);
    larger_of(f32_need, f16_need)
}

/// Every node is shaped as its operation asks, and its need fits.
pub open spec fn synth_ok_all(g: &Graph) -> bool {
    forall|i: int| 0 <= i < g.nodes@.len() ==> #[trigger] synth_ok(g, i)
}

/// The scratch of products with synthesized weights.
pub fn synth_matmul_scratch_bytes(graph: &Graph) -> (r: usize)
    requires
        graph.well_formed(),
        graph.sizes_fit(),
        synth_ok_all(graph),
    ensures
        r == greatest(|i: int| synth_need(graph, i), graph.nodes@.len()),
{
    let ghost need = |i: int| synth_need(graph, i);
    let mut max: usize = 0;
    let mut i: usize = 0;
    while i < graph.nodes.len()
        invariant
            i <= graph.nodes@.len(),
            graph.well_formed(),
            graph.sizes_fit(),
            synth_ok_all(graph),
            need == (|i: int| synth_need(graph, i)),
            max == greatest(need, i as nat),
        decreases graph.nodes@.len() - i,
    {
        assert(synth_ok(graph, i as int));
        let bytes: usize = synth_bytes(graph, i);
        assert(need(i as int) == bytes);
        max = larger_of(max, bytes);
        i = i + 1;
    }
    max
}

/// Whether a scheme is multiplied in its packed form, unless that is switched off.
pub open spec fn multiplied_packed(kind: QuantKind, q1_off: bool, q2_off: bool) -> bool {
    match kind {
        QuantKind::GgufQ1 => !q1_off,
        QuantKind::GgufQ2 => !q2_off,
        _ => false,
    }
}

/// An unpacked weight matrix. A product over groups takes its rows in and out as well.
pub open spec fn unpack_need(g: &Graph, i: int, q1_off: bool, q2_off: bool) -> nat {
    let node = g.nodes@[i];
    let x = g.input_shape(i, 0);
    match node.op {
        Op::DequantMatMul { scheme } => if !scheme.gguf() || multiplied_packed(
            scheme.kind,
            q1_off,
            q2_off,
        ) {
            0
        } else {
            let n = extent(node.shape, node.shape.dims@.len() - 1);
            let m = total(node.shape) / nonzero(n);
            total(x) / nonzero(m) * n * 4
        },
        Op::DequantGroupedMatMul => {
            let m = extent(x, x.dims@.len() - 2);
            let k = extent(x, x.dims@.len() - 1);
            let n = extent(node.shape, node.shape.dims@.len() - 1);
            k * n * 4 + m * k * 4 + m * n * 4
        },
        _ => 0,
    }
}

pub open spec fn unpack_ok(g: &Graph, i: int, q1_off: bool, q2_off: bool) -> bool {
    let node = g.nodes@[i];
    let x = g.input_shape(i, 0);
    match node.op {
        Op::DequantMatMul { scheme } => !scheme.gguf() || multiplied_packed(
            scheme.kind,
            q1_off,
            q2_off,
        ) || {
            &&& known(node.shape, node.shape.dims@.len() - 1)
            &&& node.shape.count() is Some
            &&& node.inputs@.len() > 0
            &&& x.count() is Some
            &&& unpack_need(g, i, q1_off, q2_off) <= usize::MAX
        },
        Op::DequantGroupedMatMul => {
            &&& known(node.shape, node.shape.dims@.len() - 1)
            &&& node.inputs@.len() > 0
            &&& x.dims@.len() >= 2
            &&& known(x, x.dims@.len() - 2)
            &&& known(x, x.dims@.len() - 1)
            &&& unpack_need(g, i, q1_off, q2_off) <= usize::MAX
        },
        _ => true,
    }
}

fn unpack_bytes(graph: &Graph, i: usize, q1_off: bool, q2_off: bool) -> (r: usize)
    requires
        graph.well_formed(),
        graph.sizes_fit(),
        i < graph.nodes@.len(),
        unpack_ok(graph, i as int, q1_off, q2_off),
    ensures
        r as nat == unpack_need(graph, i as int, q1_off, q2_off),
{
    let node: &Node = &graph.nodes[i];
    match node.op {
        Op::DequantMatMul { scheme } => {
            let packed: bool = match scheme.kind {
                QuantKind::GgufQ1 => !q1_off,
                QuantKind::GgufQ2 => !q2_off,
                _ => false,
            };
            if !scheme.is_gguf() || packed {
                return 0;
            }
            let n: usize = extent_of(&node.shape, node.shape.dims.len() - 1);
            let m: usize = total_of(&node.shape) / at_least_one(n);
            let k: usize = total_of(first_input(graph, i)) / at_least_one(m);
            assert(0 <= k * n) by (nonlinear_arith);
            k * n * 4
        },
        Op::DequantGroupedMatMul => {
            let x: &Shape = first_input(graph, i);
            let m: usize = extent_of(x, x.dims.len() - 2);
            let k: usize = extent_of(x, x.dims.len() - 1);
            let n: usize = extent_of(&node.shape, node.shape.dims.len() - 1);
            assert(0 <= k * n && 0 <= m * k && 0 <= m * n) by (nonlinear_arith);
            k * n * 4 + m * k * 4 + m * n * 4
        },
        _ => 0,
    }
}

/// Every node is shaped as its operation asks, and its need fits.
pub open spec fn unpack_ok_all(g: &Graph, q1_off: bool, q2_off: bool) -> bool {
    forall|i: int| 0 <= i < g.nodes@.len() ==> #[trigger] unpack_ok(g, i, q1_off, q2_off)
}

/// The scratch of products with quantized weights that are unpacked first. The two switches turn
/// off the kernels that read the smallest schemes packed.
pub fn dequant_gguf_scratch_bytes(graph: &Graph, q1_off: bool, q2_off: bool) -> (r: usize)
    requires
        graph.well_formed(),
        graph.sizes_fit(),
        unpack_ok_all(graph, q1_off, q2_off),
    ensures
        r == greatest(|i: int| unpack_need(graph, i, q1_off, q2_off), graph.nodes@.len()),
{
    let ghost need = |i: int| unpack_need(graph, i, q1_off, q2_off);
    let mut max: usize = 0;
    let mut i: usize = 0;
    while i < graph.nodes.len()
        invariant
            i <= graph.nodes@.len(),
            graph.well_formed(),
            graph.sizes_fit(),
            unpack_ok_all(graph, q1_off, q2_off),
            need == (|i: int| unpack_need(graph, i, q1_off, q2_off)),
            max == greatest(need, i as nat),
        decreases graph.nodes@.len() - i,
    {
        assert(unpack_ok(graph, i as int, q1_off, q2_off));
        let bytes: usize = unpack_bytes(graph, i, q1_off, q2_off);
        assert(need(i as int) == bytes);
        max = larger_of(max, bytes);
        i = i + 1;
    }
    max
}

/// State matrices that are not carried between runs, one for each head of each batch element.
pub open spec fn state_need(g: &Graph, i: int) -> nat {
    let q = g.input_shape(i, 0);
    match g.nodes@[i].op {
        Op::GatedDeltaNet { carry_state, state_size } => if carry_state {
            0
        } else {
            extent(q, 0) * extent(q, 2) * state_size as nat * state_size as nat * 4
        },
        _ => 0,
    }
}

pub open spec fn state_ok(g: &Graph, i: int) -> bool {
    let q = g.input_shape(i, 0);
    match g.nodes@[i].op {
        Op::GatedDeltaNet { carry_state, state_size } => carry_state || {
            &&& g.nodes@[i].inputs@.len() > 0
            &&& known(q, 0)
            &&& known(q, 2)
            &&& extent(q, 0) * extent(q, 2) <= usize::MAX
            &&& extent(q, 0) * extent(q, 2) * state_size as nat <= usize::MAX
            &&& state_need(g, i) <= usize::MAX
        },
        _ => true,
    }
}

fn state_bytes(graph: &Graph, i: usize) -> (r: usize)
    requires
        graph.well_formed(),
        graph.sizes_fit(),
        i < graph.nodes@.len(),
        state_ok(graph, i as int),
    ensures
        r as nat == state_need(graph, i as int),
{
    match graph.nodes[i].op {
        Op::GatedDeltaNet { carry_state, state_size } => {
            if carry_state {
                return 0;
            }
            let q: &Shape = first_input(graph, i);
            let elems: usize = extent_of(q, 0) * extent_of(q, 2) * state_size * state_size;
            elems * 4
        },
        _ => 0,
    }
}

/// Every node is shaped as its operation asks, and its need fits.
pub open spec fn state_ok_all(g: &Graph) -> bool {
    forall|i: int| 0 <= i < g.nodes@.len() ==> #[trigger] state_ok(g, i)
}

/// The scratch of recurrences whose state is not carried.
pub fn gdn_ephemeral_state_bytes(graph: &Graph) -> (r: usize)
    requires
        graph.well_formed(),
        graph.sizes_fit(),
        state_ok_all(graph),
    ensures
        r == greatest(|i: int| state_need(graph, i), graph.nodes@.len()),
{
    let ghost need = |i: int| state_need(graph, i);
    let mut max: usize = 0;
    let mut i: usize = 0;
    while i < graph.nodes.len()
        invariant
            i <= graph.nodes@.len(),
            graph.well_formed(),
            graph.sizes_fit(),
            state_ok_all(graph),
            need == (|i: int| state_need(graph, i)),
            max == greatest(need, i as nat),
        decreases graph.nodes@.len() - i,
    {
        assert(state_ok(graph, i as int));
        let bytes: usize = state_bytes(graph, i);
        assert(need(i as int) == bytes);
        max = larger_of(max, bytes);
        i = i + 1;
    }
    max
}

/// An extent of a convolution's kernel; one where there is none.
pub open spec fn kernel_extent(k: Option<usize>) -> nat {
    match k {
        Some(n) => n as nat,
        None => 1,
    }
}

fn extent_of_kernel(k: Option<usize>) -> (r: usize)
    ensures
        r as nat == kernel_extent(k),
{
    match k {
        Some(n) => n,
        None => 1,
    }
}

/// Weights of one output channel of the gradient.
pub open spec fn channel_weights(g: &Graph, i: int) -> nat {
    match g.nodes@[i].op {
        Op::Conv2dBackwardWeight { kh, kw, groups } => extent(g.input_shape(i, 0), 1) / nonzero(
            groups as nat,
        ) * kernel_extent(kh) * kernel_extent(kw),
        _ => 0,
    }
}

/// Unrolled patches of one image, or partial gradients of every image, whichever is larger.
/// Shapes of other ranks need nothing.
pub open spec fn patches_need(g: &Graph, i: int) -> nat {
    let x = g.input_shape(i, 0);
    let dy = g.input_shape(i, 1);
    match g.nodes@[i].op {
        Op::Conv2dBackwardWeight { kh, kw, groups } => if x.dims@.len() != 4 || dy.dims@.len()
            != 4 {
            0
        } else {
            larger(
                channel_weights(g, i) * (extent(dy, 2) * extent(dy, 3)),
                extent(x, 0) * extent(dy, 1) * (extent(x, 1) / nonzero(groups as nat))
                    * kernel_extent(kh) * kernel_extent(kw),
            ) * 4
        },
        _ => 0,
    }
}

pub open spec fn patches_ok(g: &Graph, i: int) -> bool {
    let x = g.input_shape(i, 0);
    let dy = g.input_shape(i, 1);
    match g.nodes@[i].op {
        Op::Conv2dBackwardWeight { kh, kw, groups } => {
            let per_group = extent(x, 1) / nonzero(groups as nat);
            let images = extent(x, 0) * extent(dy, 1);
            &&& g.nodes@[i].inputs@.len() > 1
            &&& (x.dims@.len() != 4 || dy.dims@.len() != 4 || {
                &&& known(x, 0)
                &&& known(x, 1)
                &&& known(dy, 1)
                &&& known(dy, 2)
                &&& known(dy, 3)
                &&& per_group * kernel_extent(kh) <= usize::MAX
                &&& channel_weights(g, i) <= usize::MAX
                &&& extent(dy, 2) * extent(dy, 3) <= usize::MAX
                &&& images <= usize::MAX
                &&& images * per_group <= usize::MAX
                &&& images * per_group * kernel_extent(kh) <= usize::MAX
                &&& patches_need(g, i) <= usize::MAX
            })
        },
        _ => true,
    }
}

fn patches_bytes(graph: &Graph, i: usize) -> (r: usize)
    requires
        graph.well_formed(),
        graph.sizes_fit(),
        i < graph.nodes@.len(),
        patches_ok(graph, i as int),
    ensures
        r as nat == patches_need(graph, i as int),
{
    match graph.nodes[i].op {
        Op::Conv2dBackwardWeight { kh, kw, groups } => {
            assert(graph.nodes@[i as int].inputs@[1] < i);
            let x: &Shape = first_input(graph, i);
            let dy_id: usize = graph.nodes[i].inputs[1];
            let dy: &Shape = &graph.nodes[dy_id].shape;
            if x.dims.len() != 4 || dy.dims.len() != 4 {
                return 0;
            }
            let kh: usize = extent_of_kernel(kh);
            let kw: usize = extent_of_kernel(kw);
            let c_in_per_g: usize = extent_of(x, 1) / at_least_one(groups);
            let n_dim: usize = c_in_per_g * kh * kw;
            let k_dim: usize = extent_of(dy, 2) * extent_of(dy, 3);
            let two_pass: usize = extent_of(x, 0) * extent_of(dy, 1) * c_in_per_g * kh * kw;
            let need: usize = larger_of(n_dim * k_dim, two_pass);
            need * 4
        },
        _ => 0,
    }
}

/// Every node is shaped as its operation asks, and its need fits.
pub open spec fn patches_ok_all(g: &Graph) -> bool {
    forall|i: int| 0 <= i < g.nodes@.len() ==> #[trigger] patches_ok(g, i)
}

/// The scratch of the weight gradients of convolutions.
pub fn conv_bwd_scratch_bytes(graph: &Graph) -> (r: usize)
    requires
        graph.well_formed(),
        graph.sizes_fit(),
        patches_ok_all(graph),
    ensures
        r == greatest(|i: int| patches_need(graph, i), graph.nodes@.len()),
{
    let ghost need = |i: int| patches_need(graph, i);
    let mut max: usize = 0;
    let mut i: usize = 0;
    while i < graph.nodes.len()
        invariant
            i <= graph.nodes@.len(),
            graph.well_formed(),
            graph.sizes_fit(),
            patches_ok_all(graph),
            need == (|i: int| patches_need(graph, i)),
            max == greatest(need, i as nat),
        decreases graph.nodes@.len() - i,
    {
        assert(patches_ok(graph, i as int));
        let bytes: usize = patches_bytes(graph, i);
        assert(need(i as int) == bytes);
        max = larger_of(max, bytes);
        i = i + 1;
    }
    max
}

/// The fused attention kernel serves blocks in single precision without a bias, of three extents,
/// with heads of even width, whose scores fit its threadgroup memory.
pub open spec fn native_block(node: Node) -> bool {
    match node.op {
        Op::FusedAttentionBlock { head_dim, has_bias, .. } => {
            &&& node.shape.dims@.len() == 3
            &&& !has_bias
            &&& node.shape.dtype == DType::F32
            &&& extent(node.shape, 1) <= 64
            &&& head_dim % 2 == 0
        },
        _ => false,
    }
}

/// The sequence length of a block that could be served is known.
pub open spec fn block_shaped(node: Node) -> bool {
    node.op is FusedAttentionBlock && node.shape.dims@.len() == 3
        && !node.op->FusedAttentionBlock_has_bias && node.shape.dtype == DType::F32 ==> known(
        node.shape,
        1,
    )
}

pub fn fab_is_native(node: &Node) -> (r: bool)
    requires
        block_shaped(*node),
    ensures
        r == native_block(*node),
{
    match node.op {
        Op::FusedAttentionBlock { head_dim, has_bias, .. } => {
            node.shape.dims.len() == 3 && !has_bias && node.shape.dtype == DType::F32 && extent_of(
                &node.shape,
                1,
            ) <= 64 && head_dim % 2 == 0
        },
        _ => false,
    }
}

/// A size rounded up to a multiple of 128.
pub open spec fn up_to_128(b: nat) -> nat {
    ((b + 127) / 128 * 128) as nat
}

fn round_to_128(b: usize) -> (r: usize)
    requires
        b + 127 <= usize::MAX,
    ensures
        r as nat == up_to_128(b as nat),
{
    (b + 127) / 128 * 128
}

/// Floats of a block's attention result: one row of all heads for each token.
pub open spec fn block_floats(node: Node) -> nat {
    match node.op {
        Op::FusedAttentionBlock { num_heads, head_dim, .. } => extent(node.shape, 0) * extent(
            node.shape,
            1,
        ) * (num_heads as nat * head_dim as nat),
        _ => 0,
    }
}

/// Where the areas of a native block start, given the end of what lies before: three rows for
/// each token, and behind them one.
pub open spec fn block_areas(node: Node, end: nat) -> (nat, nat) {
    let qkv = up_to_128(end);
    (qkv, up_to_128(qkv + block_floats(node) * 3 * 4))
}

/// The end of the areas of the first `n` nodes.
pub open spec fn areas_end(g: &Graph, n: nat) -> nat
    decreases n,
{
    if n == 0 {
        0
    } else {
        let before = areas_end(g, (n - 1) as nat);
        let node = g.nodes@[n - 1];
        if native_block(node) {
            block_areas(node, before).1 + block_floats(node) * 4
        } else {
            before
        }
    }
}

/// Where the areas of each native block among the first `n` nodes start.
pub open spec fn areas(g: &Graph, n: nat) -> Seq<(usize, usize, usize)>
    decreases n,
{
    if n == 0 {
        Seq::empty()
    } else {
        let rest = areas(g, (n - 1) as nat);
        let node = g.nodes@[n - 1];
        if native_block(node) {
            let (qkv, attn) = block_areas(node, areas_end(g, (n - 1) as nat));
            rest.push(((n - 1) as usize, qkv as usize, attn as usize))
        } else {
            rest
        }
    }
}

/// The extents of a native block are known, and its areas can be counted.
pub open spec fn block_ok(g: &Graph, i: int) -> bool {
    let node = g.nodes@[i];
    &&& block_shaped(node)
    &&& native_block(node) ==> {
        &&& known(node.shape, 0)
        &&& node.op->FusedAttentionBlock_num_heads * node.op->FusedAttentionBlock_head_dim
            <= usize::MAX
        &&& extent(node.shape, 0) * extent(node.shape, 1) * 3 <= usize::MAX
        &&& areas_end(g, (i + 1) as nat) + 127 <= usize::MAX
    }
}

pub open spec fn blocks_ok(g: &Graph) -> bool {
    forall|i: int| 0 <= i < g.nodes@.len() ==> #[trigger] block_ok(g, i)
}

/// Reads the two leading extents and the row width of a native block, and gives the bytes of its
/// attention result.
fn block_bytes(node: &Node) -> (r: usize)
    requires
        native_block(*node),
        known(node.shape, 0),
        known(node.shape, 1),
        node.op->FusedAttentionBlock_num_heads * node.op->FusedAttentionBlock_head_dim
            <= usize::MAX,
        extent(node.shape, 0) * extent(node.shape, 1) * 3 <= usize::MAX,
        block_floats(*node) * 4 <= usize::MAX,
    ensures
        r == block_floats(*node) * 4,
{
    match node.op {
        Op::FusedAttentionBlock { num_heads, head_dim, .. } => {
            let tokens: usize = extent_of(&node.shape, 0) * extent_of(&node.shape, 1);
            let inner: usize = num_heads * head_dim;
            tokens * inner * 4
        },
        _ => 0,
    }
}

/// The size of the scratch of native attention blocks, and where in it the areas of each block
/// start, by the block's position: three rows for each token, then one row for each.
pub fn fab_scratch_layout(graph: &Graph) -> (r: (usize, Vec<(usize, usize, usize)>))
    requires
        blocks_ok(graph),
    ensures
        r.0 == areas_end(graph, graph.nodes@.len()),
        r.1@ == areas(graph, graph.nodes@.len()),
{
    let mut rel: Vec<(usize, usize, usize)> = Vec::new();
    let mut cur: usize = 0;
    let mut i: usize = 0;
    while i < graph.nodes.len()
        invariant
            i <= graph.nodes@.len(),
            blocks_ok(graph),
            cur == areas_end(graph, i as nat),
            rel@ == areas(graph, i as nat),
        decreases graph.nodes@.len() - i,
    {
        let node: &Node = &graph.nodes[i];
        assert(block_ok(graph, i as int));
        if fab_is_native(node) {
            let ghost floats = block_floats(*node);
            assert(areas_end(graph, (i + 1) as nat) == block_areas(*node, cur as nat).1 + floats * 4);
            let attn_bytes: usize = block_bytes(node);
            let qkv_off: usize = round_to_128(cur);
            let attn_off: usize = round_to_128(qkv_off + attn_bytes * 3);
            cur = attn_off + attn_bytes;
            rel.push((i, qkv_off, attn_off));
        }
        i = i + 1;
    }
    (cur, rel)
}

/// The areas of native blocks start at multiples of 128, do not overlap, and lie inside the
/// scratch.
pub proof fn lemma_block_areas_disjoint(g: &Graph, n: nat, a: int, b: int)
    requires
        blocks_ok(g),
        n <= g.nodes@.len(),
        0 <= a < areas(g, n).len(),
        0 <= b < areas(g, n).len(),
    ensures
        ({
            let (i, qkv, attn) = areas(g, n)[a];
            let floats = block_floats(g.nodes@[i as int]);
            &&& i < n
            &&& native_block(g.nodes@[i as int])
            &&& qkv % 128 == 0
            &&& attn % 128 == 0
            &&& qkv + floats * 3 * 4 <= attn
            &&& attn + floats * 4 <= areas_end(g, n)
            &&& a < b ==> attn + floats * 4 <= areas(g, n)[b].1
        }),
    decreases n,
{
    let less = (n - 1) as nat;
    let node = g.nodes@[n - 1];
    assert(block_ok(g, n - 1));
    assert(areas_end(g, less) <= areas_end(g, n));
    assert(g.nodes.len() == g.nodes@.len());
    if native_block(node) {
        let last = areas(g, less).len();
        let (qkv, attn) = block_areas(node, areas_end(g, less));
        assert(areas_end(g, n) == attn + block_floats(node) * 4);
        assert(areas_end(g, less) <= qkv && qkv + block_floats(node) * 3 * 4 <= attn);
        assert(areas(g, n)[last as int] == ((n - 1) as usize, qkv as usize, attn as usize));
        assert(qkv as usize == qkv && attn as usize == attn);
        assert(qkv % 128 == 0 && attn % 128 == 0);
        if a < last {
            lemma_block_areas_disjoint(g, less, a, if b < last {
                b
            } else {
                a
            });
        }
    } else {
        lemma_block_areas_disjoint(g, less, a, b);
    }
}

/// The setting turns the implicit product on: it says `1` or `true`.
pub open spec fn implicit_setting(raw: Option<&str>) -> bool {
    match raw {
        Some(s) => s@ == "1"@ || lowered(s@) == "true"@,
        None => false,
    }
}

/// Variants of the matrix product that the implicit weight gradient has no kernel for.
pub open spec fn without_implicit_kernel(v: SgemmVariant) -> bool {
    v is Mps || v is Tiled || v is Naive
}

/// Whether the weight gradient of a convolution is computed without unrolled patches: where that
/// is switched on, the depth is a multiple of eight, the product is large enough, and the variant
/// that would be picked has such a kernel.
pub fn conv_bwd_weight_use_implicit_gemm(
    raw: Option<&str>,
    model: &MetalHwModel,
    settings: &SgemmSettings,
    m: usize,
    k: usize,
    n: usize,
) -> (r: bool)
    requires
        dims_fit(m, k, n),
    ensures
        r == (implicit_setting(raw) && k % 8 == 0 && n >= 8 && m >= 1 && !without_implicit_kernel(
            picked(*model, *settings, m as int, k as int, n as int),
        )),
{
    let on: bool = match raw {
        Some(s) => same_chars(&chars_of(s), &chars_of("1")) || same_chars(
            &ascii_lowercase(s),
            &chars_of("true"),
        ),
        None => false,
    };
    if !on || k % 8 != 0 || n < 8 || m < 1 {
        return false;
    }
    !matches!(
        model.pick_sgemm(settings, m, k, n),
        SgemmVariant::Mps | SgemmVariant::Tiled | SgemmVariant::Naive
    )
}

/// Slices are taken on the host where the setting says `1`, `true` or `on`.
pub open spec fn host_slices_setting(raw: Option<&str>) -> bool {
    match raw {
        Some(s) => s@ == "1"@ || s@ == "true"@ || s@ == "on"@,
        None => false,
    }
}

pub fn metal_host_slices_enabled(raw: Option<&str>) -> (r: bool)
    ensures
        r == host_slices_setting(raw),
{
    match raw {
        Some(s) => {
            let v: Vec<char> = chars_of(s);
            same_chars(&v, &chars_of("1")) || same_chars(&v, &chars_of("true")) || same_chars(
                &v,
                &chars_of("on"),
            )
        },
        None => false,
    }
}

/// Host fallbacks are on with host slices, or on their own.
pub fn metal_host_fallback_enabled(raw_slices: Option<&str>, fallback: bool) -> (r: bool)
    ensures
        r == (host_slices_setting(raw_slices) || fallback),
{
    metal_host_slices_enabled(raw_slices) || fallback
}

} // verus!
