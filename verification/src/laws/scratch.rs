//! Scratch space: what is set aside holds what the kernels of a node leave there.

use vstd::prelude::*;

use crate::encode::grouped::{packed_out, GroupedShape};
use crate::encode::recurrent::{directions, layer_elems, writes_at, Recurrent};
use crate::graph::{nonzero, Graph, Node, Op};
use crate::scratch::{
    channel_weights, extent, kernel_extent, multiplied_packed, native_block, norm_need,
    patches_need, recurrent_need, recurrent_parts, state_need, synth_need, total, unpack_need,
    up_to_128, up_to_256, without_implicit_kernel,
};
use crate::cost::SgemmVariant;
use crate::graph::QuantKind;

verus! {

/// Rounding to 256 or 128 bytes gives the next multiple.
pub proof fn lemma_rounded(b: nat)
    ensures
        up_to_256(b) % 256 == 0,
        b <= up_to_256(b) < b + 256,
        up_to_128(b) % 128 == 0,
        b <= up_to_128(b) < b + 128,
{
}

/// The gradient of a norm's scale or shift needs one float per row for a root-mean-square norm and
/// two for a layer norm; no other node needs any.
pub proof fn lemma_norm_need(g: &Graph, i: int)
    ensures
        ({
            let x = g.input_shape(i, 0);
            let width = extent(x, x.dims@.len() - 1);
            let one = g.nodes@[i].op is RmsNormBackwardGamma || g.nodes@[i].op is RmsNormBackwardBeta;
            let two = g.nodes@[i].op is LayerNormBackwardGamma;
            &&& width > 0 && total(x) % width == 0 && one ==> norm_need(g, i) * width == total(x) * 4
            &&& width > 0 && total(x) % width == 0 && two ==> norm_need(g, i) * width == total(x) * 8
            &&& !one && !two ==> norm_need(g, i) == 0
        }),
{
    let x = g.input_shape(i, 0);
    let width = extent(x, x.dims@.len() - 1);
    if width > 0 {
        let t = total(x);
        let q = t / width;
        vstd::arithmetic::div_mod::lemma_fundamental_div_mod(t as int, width as int);
        assert(t % width == 0 ==> q * width == t) by (nonlinear_arith)
            requires
                t as int == width as int * (t as int / width as int) + t as int % width as int,
                q == t / width,
        ;
        assert(q * 4 * width == (q * width) * 4) by (nonlinear_arith);
        assert(q * 2 * 4 * width == (q * width) * 8) by (nonlinear_arith);
    }
}

/// A stack of several layers is given both halves of scratch in full: wherever a layer writes in
/// scratch, its whole output lies within what was set aside. A single layer is given none.
pub proof fn lemma_recurrent_need(g: &Graph, i: int, p: Recurrent, layer: int)
    requires
        recurrent_parts(g.nodes@[i].op) == Some(
            (p.hidden as usize, p.num_layers as usize, p.bidirectional),
        ),
        p.batch == extent(g.input_shape(i, 0), 0),
        p.seq == extent(g.input_shape(i, 0), 1),
        p.scratch as int % 4 == 0,
        0 <= layer < p.num_layers,
    ensures
        p.num_layers <= 1 ==> recurrent_need(g, i) == 0,
        p.num_layers > 1 ==> recurrent_need(g, i) == 2 * layer_elems(p) * 4,
        layer + 1 < p.num_layers ==> p.scratch <= writes_at(p, layer) * 4 && (writes_at(p, layer)
            + layer_elems(p)) * 4 <= p.scratch + recurrent_need(g, i),
{
    let b = p.batch as int;
    let s = p.seq as int;
    let d = directions(p);
    let h = p.hidden as int;
    assert(b * s * (d * h) == b * s * d * h) by (nonlinear_arith);
    let e = layer_elems(p);
    assert(0 <= e) by (nonlinear_arith)
        requires
            e == b * s * d * h,
            0 <= b,
            0 <= s,
            0 <= d,
            0 <= h,
    ;
    assert(0 * e == 0 && 1 * e == e) by (nonlinear_arith);
    if p.num_layers > 1 {
        let need = 2 * (extent(g.input_shape(i, 0), 0) * extent(g.input_shape(i, 0), 1) * (
        if p.bidirectional {
            2nat
        } else {
            1nat
        }) * p.hidden as nat) * 4;
        assert(need == recurrent_need(g, i));
    }
}

/// Which nodes are recurrent stacks: those of the three cells, each with its own shape.
pub proof fn lemma_recurrent_parts(op: Op)
    ensures
        recurrent_parts(op) is Some <==> op is Gru || op is Rnn || op is Lstm,
        op matches Op::Gru { hidden_size, num_layers, bidirectional } ==> recurrent_parts(op) == Some(
            (hidden_size, num_layers, bidirectional),
        ),
        op matches Op::Rnn { hidden_size, num_layers, bidirectional } ==> recurrent_parts(op) == Some(
            (hidden_size, num_layers, bidirectional),
        ),
        op matches Op::Lstm { hidden_size, num_layers, bidirectional } ==> recurrent_parts(op)
            == Some((hidden_size, num_layers, bidirectional)),
{
}

/// A grouped product of packed matrices is given scratch for one unpacked matrix, the sorted inputs
/// and the sorted outputs, which end exactly where the scratch ends.
pub proof fn lemma_grouped_need(g: &Graph, i: int, s: GroupedShape, scratch: int, a: bool, b: bool)
    requires
        g.nodes@[i].op is DequantGroupedMatMul,
        ({
            let x = g.input_shape(i, 0);
            let node = g.nodes@[i];
            &&& s.m == extent(x, x.dims@.len() - 2)
            &&& s.k_dim == extent(x, x.dims@.len() - 1)
            &&& s.n == extent(node.shape, node.shape.dims@.len() - 1)
        }),
    ensures
        packed_out(s, scratch) + s.m * s.n * 4 == scratch + unpack_need(g, i, a, b),
{
    let x = g.input_shape(i, 0);
    let node = g.nodes@[i];
    let m = s.m as nat;
    let k = s.k_dim as nat;
    let n = s.n as nat;
    assert(unpack_need(g, i, a, b) == k * n * 4 + m * k * 4 + m * n * 4);
    assert((s.k_dim * s.n + s.m * s.k_dim) * 4 == k * n * 4 + m * k * 4) by (nonlinear_arith)
        requires
            m == s.m as nat,
            k == s.k_dim as nat,
            n == s.n as nat,
    ;
}

/// A product with a packed matrix is given scratch for the whole matrix as floats: as many rows as
/// the input has columns, where the input's rows are the result's. Schemes that are multiplied
/// packed are given none.
pub proof fn lemma_unpack_need(g: &Graph, i: int, q1_off: bool, q2_off: bool, k: nat)
    requires
        g.nodes@[i].op is DequantMatMul,
        ({
            let node = g.nodes@[i];
            let n = extent(node.shape, node.shape.dims@.len() - 1);
            let m = total(node.shape) / nonzero(n);
            m > 0 && total(g.input_shape(i, 0)) == m * k
        }),
    ensures
        ({
            let node = g.nodes@[i];
            let n = extent(node.shape, node.shape.dims@.len() - 1);
            let scheme = node.op->DequantMatMul_scheme;
            let packed = multiplied_packed(scheme.kind, q1_off, q2_off);
            &&& scheme.gguf() && !packed ==> unpack_need(g, i, q1_off, q2_off) == k * n * 4
            &&& !scheme.gguf() || packed ==> unpack_need(g, i, q1_off, q2_off) == 0
        }),
{
    let node = g.nodes@[i];
    let n = extent(node.shape, node.shape.dims@.len() - 1);
    let m = total(node.shape) / nonzero(n);
    assert(m * k / m == k) by {
        vstd::arithmetic::div_mod::lemma_div_multiples_vanish(k as int, m as int);
        assert(m * k == k * m) by (nonlinear_arith);
    }
}

/// Only the one- and two-bit schemes are multiplied packed, each unless it is switched off.
pub proof fn lemma_multiplied_packed(kind: QuantKind, q1_off: bool, q2_off: bool)
    ensures
        multiplied_packed(kind, q1_off, q2_off) <==> (kind is GgufQ1 && !q1_off) || (kind is GgufQ2
            && !q2_off),
{
}

/// A recurrence that does not carry its state is given a square state per head and batch item.
pub proof fn lemma_state_need(g: &Graph, i: int)
    ensures
        match g.nodes@[i].op {
            Op::GatedDeltaNet { carry_state, state_size } => {
                let heads = extent(g.input_shape(i, 0), 0) * extent(g.input_shape(i, 0), 2);
                &&& carry_state ==> state_need(g, i) == 0
                &&& !carry_state ==> state_need(g, i) == heads * (state_size as nat
                    * state_size as nat) * 4
            },
            _ => state_need(g, i) == 0,
        },
{
    if let Op::GatedDeltaNet { carry_state, state_size } = g.nodes@[i].op {
        let heads = extent(g.input_shape(i, 0), 0) * extent(g.input_shape(i, 0), 2);
        let s = state_size as nat;
        assert(heads * s * s == heads * (s * s)) by (nonlinear_arith);
    }
}

/// The gradient of a convolution's weights is given scratch for the patches of an image and for the
/// partial weights of every image, and no more than one of the two needs.
pub proof fn lemma_patches_need(g: &Graph, i: int)
    ensures
        match g.nodes@[i].op {
            Op::Conv2dBackwardWeight { kh, kw, groups } => {
                let x = g.input_shape(i, 0);
                let dy = g.input_shape(i, 1);
                let per_group = extent(x, 1) / nonzero(groups as nat);
                let patch = per_group * kernel_extent(kh) * kernel_extent(kw);
                let patches = patch * (extent(dy, 2) * extent(dy, 3)) * 4;
                let partial = extent(x, 0) * extent(dy, 1) * patch * 4;
                &&& channel_weights(g, i) == patch
                &&& x.dims@.len() == 4 && dy.dims@.len() == 4 ==> {
                    &&& patches <= patches_need(g, i)
                    &&& partial <= patches_need(g, i)
                    &&& patches_need(g, i) == patches || patches_need(g, i) == partial
                }
                &&& x.dims@.len() != 4 || dy.dims@.len() != 4 ==> patches_need(g, i) == 0
            },
            _ => patches_need(g, i) == 0,
        },
        forall|k: usize| kernel_extent(Some(k)) == k,
        kernel_extent(None) == 1,
{
    if let Op::Conv2dBackwardWeight { kh, kw, groups } = g.nodes@[i].op {
        let x = g.input_shape(i, 0);
        let dy = g.input_shape(i, 1);
        let a = extent(x, 0) * extent(dy, 1);
        let b = extent(x, 1) / nonzero(groups as nat);
        let c = kernel_extent(kh);
        let d = kernel_extent(kw);
        assert(a * b * c * d == a * (b * c * d)) by (nonlinear_arith);
    }
}

/// A synthesised product of many rows is given scratch for the whole matrix in single precision, and
/// also for matrix, input and result in half precision, each from a multiple of 256 bytes on; one of
/// few rows is given none.
pub proof fn lemma_synth_need(g: &Graph, i: int)
    ensures
        g.nodes@[i].op is SynthMatMul ==> {
            let node = g.nodes@[i];
            let n = extent(node.shape, node.shape.dims@.len() - 1);
            let m = total(node.shape) / nonzero(n);
            let k = total(g.input_shape(i, 0)) / nonzero(m);
            &&& m <= 8 ==> synth_need(g, i) == 0
            &&& m > 8 ==> {
                &&& k * n * 4 <= synth_need(g, i)
                &&& up_to_256(k * n * 2) + up_to_256(m * k * 2) + m * n * 2 <= synth_need(g, i)
                &&& synth_need(g, i) == k * n * 4 || synth_need(g, i) < k * n * 2 + m * k * 2 + m * n * 2
                    + 768
            }
        },
        !(g.nodes@[i].op is SynthMatMul) ==> synth_need(g, i) == 0,
{
}

/// An attention block runs natively exactly where it is a batch of short single-precision sequences
/// without bias and its heads split in two.
pub proof fn lemma_native_block(node: Node)
    ensures
        native_block(node) ==> node.op is FusedAttentionBlock && extent(node.shape, 1) <= 64
            && !node.op->FusedAttentionBlock_has_bias && node.op->FusedAttentionBlock_head_dim % 2 == 0
            && node.shape.dtype is F32 && node.shape.dims@.len() == 3,
        node.op is FusedAttentionBlock && extent(node.shape, 1) <= 64
            && !node.op->FusedAttentionBlock_has_bias && node.op->FusedAttentionBlock_head_dim % 2 == 0
            && node.shape.dtype is F32 && node.shape.dims@.len() == 3 ==> native_block(node),
{
}

/// The variants without an implicit product are those that are no simdgroup kernel of this library.
pub proof fn lemma_implicit_variants(v: SgemmVariant)
    ensures
        without_implicit_kernel(v) <==> v == SgemmVariant::Mps || v == SgemmVariant::Tiled || v
            == SgemmVariant::Naive,
{
}

} // verus!
