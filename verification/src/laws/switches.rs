//! Smaller rules: switches by their text, names by their kind, and which of two sources is taken.

use vstd::prelude::*;

use crate::cost::lowered;
use crate::executable::MetalExecutable;
use crate::fft_dispatch::{fast_setting, radix_setting};
use crate::graph::{Node, Op};
use crate::graph_rewrite::{foreign_block, slot_of_name, without_kernel};
use crate::icb::{kind_name, Thunk};
use crate::mps_plan::{fed_tensors, output_targets, MpsGraphPlan};
use crate::run::{written_from_host, views};
use crate::scratch::{host_slices_setting, implicit_setting, native_block};
use crate::text::{parsed_unsigned, has_prefix};

verus! {

/// The fast transform is on unless it is switched off, by a zero or by a word in any case.
pub proof fn lemma_fast_setting(s: &str, t: &str)
    ensures
        fast_setting(None),
        !fast_setting(Some("0")),
        !fast_setting(Some("off")),
        !fast_setting(Some("false")),
        s@ != "0"@ && t@ != "0"@ && lowered(s@) == lowered(t@) ==> fast_setting(Some(s))
            == fast_setting(Some(t)),
        fast_setting(Some("1")),
{
    reveal_strlit("0");
    reveal_strlit("1");
    reveal_strlit("off");
    reveal_strlit("false");
    assert(lowered("off"@) =~= "off"@);
    assert(lowered("false"@) =~= "false"@);
    assert(lowered("1"@)[0] == '1');
    assert(lowered("1"@).len() == 1);
}

/// The radix is one of four, and eight where nothing else is asked for.
pub proof fn lemma_radix_setting(s: &str)
    ensures
        radix_setting(None) == 8,
        radix_setting(Some("2")) == 2,
        radix_setting(Some("4")) == 4,
        radix_setting(Some("8")) == 8,
        radix_setting(Some("16")) == 16,
        s@ != "2"@ && s@ != "4"@ && s@ != "16"@ ==> radix_setting(Some(s)) == radix_setting(None),
{
    reveal_strlit("2");
    reveal_strlit("4");
    reveal_strlit("8");
    reveal_strlit("16");
    assert("2"@[0] != "4"@[0]);
    assert("8"@[0] != "2"@[0]);
    assert("8"@[0] != "4"@[0]);
    assert("8"@.len() != "16"@.len());
    assert("2"@.len() != "16"@.len());
    assert("4"@.len() != "16"@.len());
}

/// Implicit convolution and host slices are off unless they are switched on.
pub proof fn lemma_switched_on()
    ensures
        !implicit_setting(None),
        implicit_setting(Some("1")),
        implicit_setting(Some("true")),
        !implicit_setting(Some("0")),
        !host_slices_setting(None),
        host_slices_setting(Some("1")),
        host_slices_setting(Some("true")),
        host_slices_setting(Some("on")),
        !host_slices_setting(Some("0")),
{
    reveal_strlit("0");
    reveal_strlit("1");
    reveal_strlit("on");
    reveal_strlit("true");
    assert(lowered("true"@) =~= "true"@);
    assert(lowered("0"@).len() == 1);
    assert("0"@[0] != "1"@[0]);
    assert("0"@.len() != "on"@.len());
    assert("0"@.len() != "true"@.len());
}

/// An input by number is an "in" with a number behind it, and nothing else names one.
pub proof fn lemma_slot_of_name(name: Seq<char>, digits: Seq<char>)
    ensures
        slot_of_name("in"@ + digits) is Some <==> parsed_unsigned(digits, usize::MAX as nat) is Some,
        slot_of_name("in"@ + digits) matches Some(k) ==> parsed_unsigned(digits, usize::MAX as nat)
            == Some(k as nat),
        slot_of_name(name) is Some ==> name.len() > 2 && name[0] == 'i' && name[1] == 'n',
{
    reveal_strlit("in");
    let whole = "in"@ + digits;
    assert(whole.subrange(0, 2) =~= "in"@);
    assert(whole.subrange(2, whole.len() as int) =~= digits);
    if slot_of_name(name) is Some {
        assert(name.subrange(0, 2) == "in"@);
        assert(name.subrange(0, 2)[0] == name[0]);
        assert(name.subrange(0, 2)[1] == name[1]);
    }
}

/// Different kinds of steps have different names.
pub proof fn lemma_kind_names_differ(a: Thunk, b: Thunk)
    requires
        kind_name(a) == kind_name(b),
    ensures
        a is Nop <==> b is Nop,
        a is Cast <==> b is Cast,
        a is Sgemm <==> b is Sgemm,
        a is FusedMmBiasAct <==> b is FusedMmBiasAct,
        a is BiasAdd <==> b is BiasAdd,
        a is ActivationInPlace <==> b is ActivationInPlace,
        a is BinaryFull <==> b is BinaryFull,
        a is Copy <==> b is Copy,
        a is LayerNorm <==> b is LayerNorm,
        a is RmsNorm <==> b is RmsNorm,
        a is Softmax <==> b is Softmax,
        a is SoftmaxCrossEntropyDense <==> b is SoftmaxCrossEntropyDense,
        a is Reduce <==> b is Reduce,
        a is Gather <==> b is Gather,
        a is Narrow <==> b is Narrow,
        a is Transpose <==> b is Transpose,
        a is Concat <==> b is Concat,
        a is Attention <==> b is Attention,
        a is Rope <==> b is Rope,
        a is FusedResidualLN <==> b is FusedResidualLN,
        a is Other <==> b is Other,
{
    reveal_strlit("Nop");
    reveal_strlit("Cast");
    reveal_strlit("Sgemm");
    reveal_strlit("FusedMmBiasAct");
    reveal_strlit("BiasAdd");
    reveal_strlit("ActivationInPlace");
    reveal_strlit("BinaryFull");
    reveal_strlit("Copy");
    reveal_strlit("LayerNorm");
    reveal_strlit("RmsNorm");
    reveal_strlit("Softmax");
    reveal_strlit("SoftmaxCrossEntropy");
    reveal_strlit("Reduce");
    reveal_strlit("Gather");
    reveal_strlit("Narrow");
    reveal_strlit("Transpose");
    reveal_strlit("Concat");
    reveal_strlit("Attention");
    reveal_strlit("Rope");
    reveal_strlit("FusedResidualLN");
    reveal_strlit("Other");
    let s = kind_name(a);
    let t = kind_name(b);
    assert(s.len() == t.len());
    assert(s[0] == t[0]);
    assert(s[1] == t[1]);
    assert(s[2] == t[2]);
}

/// A handle is written from the host where no run has left it on the device and the caller does not
/// hand it in.
pub proof fn lemma_written_from_host(exe: MetalExecutable, names: Seq<Seq<char>>, handle: Seq<char>)
    ensures
        exe.gpu_handle_resident.has(handle) ==> !written_from_host(exe, names, handle),
        names.contains(handle) ==> !written_from_host(exe, names, handle),
        !exe.gpu_handle_resident.has(handle) && !names.contains(handle) ==> written_from_host(
            exe,
            names,
            handle,
        ),
{
}

/// The room kept for an output holds every float of it, and one at least.
pub proof fn lemma_kept_bytes(exe: MetalExecutable, k: int)
    ensures
        exe.kept_bytes(k) >= 4,
        exe.kept_bytes(k) >= 4 * exe.output_slots@[k].1,
        exe.output_slots@[k].1 > 0 ==> exe.kept_bytes(k) == 4 * exe.output_slots@[k].1,
        exe.output_slots@[k].1 == 0 ==> exe.kept_bytes(k) == 4,
        exe.kept_read(k).0 == exe.output_slots@[k].1,
{
}

/// The tensors that a graph is fed are its inputs and, behind them, its parameters.
pub proof fn lemma_fed_tensors(plan: MpsGraphPlan, i: int)
    ensures
        fed_tensors(plan).len() == plan.inputs@.len() + plan.params@.len(),
        0 <= i < plan.inputs@.len() ==> fed_tensors(plan)[i] == plan.inputs@[i],
        plan.inputs@.len() <= i < plan.inputs@.len() + plan.params@.len() ==> fed_tensors(plan)[i]
            == plan.params@[i - plan.inputs@.len()],
{
}

/// Without parents each output goes to its own node; with parents it goes to the node that the pair
/// names.
pub proof fn lemma_output_targets(plan: MpsGraphPlan, parents: Seq<(usize, usize)>, i: int)
    ensures
        output_targets(plan, None).len() == plan.outputs@.len(),
        0 <= i < plan.outputs@.len() ==> output_targets(plan, None)[i] == (
            plan.outputs@[i].id,
            Some(i),
        ),
        output_targets(plan, Some(parents)).len() == parents.len(),
        0 <= i < parents.len() ==> output_targets(plan, Some(parents))[i].0 == parents[i].1,
{
}

/// What the device has no kernel for is rewritten, and a block that it runs itself is not.
pub proof fn lemma_rewritten(n: Node)
    ensures
        without_kernel(n.op) ==> !foreign_block(n),
        n.op is FusedAttentionBlock ==> (foreign_block(n) <==> !native_block(n)),
        n.op is MatMul || n.op is FusedMatMulBiasAct || n.op is Conv || n.op is FusedAttentionBlock
            ==> !without_kernel(n.op),
        n.op is FusedConvBiasAct || n.op is PartitionedConv || n.op is FusedTransformerLayer
            ==> without_kernel(n.op),
{
}

/// The names of a list are their texts, in order.
pub proof fn lemma_views(names: Seq<&str>, i: int)
    ensures
        views(names).len() == names.len(),
        0 <= i < names.len() ==> views(names)[i] == names[i]@,
{
}

} // verus!
