//! Prerecorded commands: what each kernel of a segment is handed.

use vstd::prelude::*;

use crate::command::{one_row, plane, Activation, Group, HalfFlag, Kernel, Size};
use crate::encode::elementwise::BinaryOp;
use crate::icb::{
    compatible, computing, covered, encodable, icb_steps, passes, per_cell, per_element,
    segment_dtype, segment_steps, IcbStep, Thunk, CONSTANTS_BYTES_PER_CMD,
};

verus! {

/// A command hands its kernel a word at a slot: the slot is bound to a place where the word is
/// written.
pub open spec fn hands_word(s: Seq<IcbStep>, slot: u64, place: usize, w: u32) -> bool {
    s.contains(IcbStep::Constant(slot, place)) && s.contains(IcbStep::Write32(place, w))
}

/// The same for a long word.
pub open spec fn hands_long(s: Seq<IcbStep>, slot: u64, place: usize, w: u64) -> bool {
    s.contains(IcbStep::Constant(slot, place)) && s.contains(IcbStep::Write64(place, w))
}

/// A command hands its kernel the arena from a byte on.
pub open spec fn hands_place(s: Seq<IcbStep>, slot: u64, off: u64) -> bool {
    s.contains(IcbStep::Arena(slot, off))
}

/// A Silu in place is handed its data and how many there are, with a thread each.
pub proof fn lemma_recorded_silu(data: usize, len: u32, dt: HalfFlag, at: usize)
    ensures
        ({
            let s = icb_steps(
                Thunk::ActivationInPlace { data, len, act: Activation::Silu, dt },
                at,
            );
            &&& s.contains(IcbStep::Pipeline(Kernel::SiluInplace))
            &&& hands_place(s, 0, data as u64)
            &&& hands_word(s, 1, at, len)
            &&& s.last() == per_element(Kernel::SiluInplace, len)
        }),
{
    let s = icb_steps(Thunk::ActivationInPlace { data, len, act: Activation::Silu, dt }, at);
    assert(s[0] == IcbStep::Pipeline(Kernel::SiluInplace));
    assert(s[1] == IcbStep::Write32(at, len));
    assert(s[2] == IcbStep::Arena(0, data as u64));
    assert(s[3] == IcbStep::Constant(1, at));
}

/// A Gelu in place is handed the arena, the byte of its data and how many there are.
pub proof fn lemma_recorded_gelu(data: usize, len: u32, dt: HalfFlag, at: usize)
    ensures
        ({
            let s = icb_steps(
                Thunk::ActivationInPlace { data, len, act: Activation::Gelu, dt },
                at,
            );
            &&& s.contains(IcbStep::Pipeline(Kernel::GeluInplace))
            &&& hands_place(s, 0, 0)
            &&& hands_long(s, 1, at, data as u64)
            &&& hands_word(s, 2, (at + 8) as usize, len)
            &&& s.last() == per_element(Kernel::GeluInplace, len)
        }),
{
    let s = icb_steps(Thunk::ActivationInPlace { data, len, act: Activation::Gelu, dt }, at);
    assert(s[0] == IcbStep::Pipeline(Kernel::GeluInplace));
    assert(s[1] == IcbStep::Write64(at, data as u64));
    assert(s[2] == IcbStep::Write32((at + 8) as usize, len));
    assert(s[3] == IcbStep::Arena(0, 0));
    assert(s[4] == IcbStep::Constant(1, at));
    assert(s[5] == IcbStep::Constant(2, (at + 8) as usize));
}

/// A sum or product is handed its left operand, its right operand, its result and how many elements
/// there are, and runs the kernel of its operator.
pub proof fn lemma_recorded_binary(
    lhs: usize,
    rhs: usize,
    dst: usize,
    len: u32,
    op: BinaryOp,
    dt: HalfFlag,
    at: usize,
)
    requires
        op == BinaryOp::Add || op == BinaryOp::Mul,
    ensures
        ({
            let s = icb_steps(Thunk::BinaryFull { lhs, rhs, dst, len, op, dt }, at);
            let kernel = if op == BinaryOp::Add {
                Kernel::ElemAdd
            } else {
                Kernel::ElemMul
            };
            &&& s.contains(IcbStep::Pipeline(kernel))
            &&& hands_place(s, 0, 0)
            &&& hands_long(s, 1, at, lhs as u64)
            &&& hands_long(s, 2, (at + 8) as usize, rhs as u64)
            &&& hands_long(s, 3, (at + 16) as usize, dst as u64)
            &&& hands_word(s, 4, (at + 24) as usize, len)
            &&& s.last() == per_element(kernel, len)
        }),
{
    let s = icb_steps(Thunk::BinaryFull { lhs, rhs, dst, len, op, dt }, at);
    assert(s[0] == IcbStep::Write64(at, lhs as u64));
    assert(s[1] == IcbStep::Write64((at + 8) as usize, rhs as u64));
    assert(s[2] == IcbStep::Write64((at + 16) as usize, dst as u64));
    assert(s[3] == IcbStep::Write32((at + 24) as usize, len));
    assert(s[4] is Pipeline);
    assert(s[5] == IcbStep::Arena(0, 0));
    assert(s[6] == IcbStep::Constant(1, at));
    assert(s[7] == IcbStep::Constant(2, (at + 8) as usize));
    assert(s[8] == IcbStep::Constant(3, (at + 16) as usize));
    assert(s[9] == IcbStep::Constant(4, (at + 24) as usize));
}

/// A copy is handed where it reads, where it writes and how many elements there are.
pub proof fn lemma_recorded_copy(src: usize, dst: usize, len: u32, dt: HalfFlag, at: usize)
    ensures
        ({
            let s = icb_steps(Thunk::Copy { src, dst, len, dt }, at);
            &&& s.contains(IcbStep::Pipeline(Kernel::CopyF32))
            &&& hands_place(s, 0, 0)
            &&& hands_long(s, 1, at, src as u64)
            &&& hands_long(s, 2, (at + 8) as usize, dst as u64)
            &&& hands_word(s, 3, (at + 16) as usize, len)
            &&& s.last() == per_element(Kernel::CopyF32, len)
        }),
{
    let s = icb_steps(Thunk::Copy { src, dst, len, dt }, at);
    assert(s[0] == IcbStep::Write64(at, src as u64));
    assert(s[1] == IcbStep::Write64((at + 8) as usize, dst as u64));
    assert(s[2] == IcbStep::Write32((at + 16) as usize, len));
    assert(s[3] == IcbStep::Pipeline(Kernel::CopyF32));
    assert(s[4] == IcbStep::Arena(0, 0));
    assert(s[5] == IcbStep::Constant(1, at));
    assert(s[6] == IcbStep::Constant(2, (at + 8) as usize));
    assert(s[7] == IcbStep::Constant(3, (at + 16) as usize));
}

/// A slice is handed its source and its result where they lie, with no offset on top, the rows, the
/// source's axis, the start and the length, and has a thread per element.
pub proof fn lemma_recorded_narrow(
    src: usize,
    dst: usize,
    outer: u32,
    src_axis: u32,
    start: u32,
    len: u32,
    dt: HalfFlag,
    at: usize,
)
    ensures
        ({
            let s = icb_steps(Thunk::Narrow { src, dst, outer, src_axis, start, len, dt }, at);
            &&& s.contains(IcbStep::Pipeline(Kernel::NarrowLastax))
            &&& hands_place(s, 0, src as u64)
            &&& hands_place(s, 1, dst as u64)
            &&& hands_word(s, 2, at, outer)
            &&& hands_word(s, 3, (at + 4) as usize, src_axis)
            &&& hands_word(s, 4, (at + 8) as usize, start)
            &&& hands_word(s, 5, (at + 12) as usize, len)
            &&& hands_long(s, 6, (at + 16) as usize, 0)
            &&& hands_long(s, 7, (at + 24) as usize, 0)
            &&& s.last() == per_cell(len, outer)
        }),
{
    let s = icb_steps(Thunk::Narrow { src, dst, outer, src_axis, start, len, dt }, at);
    assert(s[0] == IcbStep::Write32(at, outer));
    assert(s[1] == IcbStep::Write32((at + 4) as usize, src_axis));
    assert(s[2] == IcbStep::Write32((at + 8) as usize, start));
    assert(s[3] == IcbStep::Write32((at + 12) as usize, len));
    assert(s[4] == IcbStep::Pipeline(Kernel::NarrowLastax));
    assert(s[5] == IcbStep::Arena(0, src as u64));
    assert(s[6] == IcbStep::Arena(1, dst as u64));
    assert(s[7] == IcbStep::Constant(2, at));
    assert(s[8] == IcbStep::Constant(3, (at + 4) as usize));
    assert(s[9] == IcbStep::Constant(4, (at + 8) as usize));
    assert(s[10] == IcbStep::Constant(5, (at + 12) as usize));
    assert(s[11] == IcbStep::Write64((at + 16) as usize, 0));
    assert(s[12] == IcbStep::Write64((at + 24) as usize, 0));
    assert(s[13] == IcbStep::Constant(6, (at + 16) as usize));
    assert(s[14] == IcbStep::Constant(7, (at + 24) as usize));
}

/// Launches per element have a thread each; launches per cell one per column and row.
pub proof fn lemma_recorded_launches(kernel: Kernel, len: u32, width: u32, height: u32)
    ensures
        per_element(kernel, len) matches IcbStep::Threads(size, group) && size == one_row(len as u64)
            && group == Group::ExecWidth(kernel, len as u64),
        per_cell(width, height) matches IcbStep::Threads(size, group) && size == plane(
            width as u64,
            height as u64,
        ),
{
}

/// Only single-precision steps go into a segment: bias additions in place, Gelu and Silu, sums and
/// products, copies, both layer norms, slices and rotary embeddings. Nothing else does, and no step
/// that computes nothing counts.
pub proof fn lemma_recordable(t: Thunk)
    ensures
        compatible(t) ==> segment_dtype(t) == Some(HalfFlag::F32),
        t matches Thunk::BiasAdd { src, dst, dt, .. } ==> (compatible(t) <==> src == dst && dt
            == HalfFlag::F32),
        t matches Thunk::ActivationInPlace { act, dt, .. } ==> (compatible(t) <==> (act
            == Activation::Gelu || act == Activation::Silu) && dt == HalfFlag::F32),
        t matches Thunk::BinaryFull { op, dt, .. } ==> (compatible(t) <==> (op == BinaryOp::Add || op
            == BinaryOp::Mul) && dt == HalfFlag::F32),
        t matches Thunk::Copy { dt, .. } ==> (compatible(t) <==> dt == HalfFlag::F32),
        t matches Thunk::LayerNorm { dt, .. } ==> (compatible(t) <==> dt == HalfFlag::F32),
        t matches Thunk::FusedResidualLN { dt, .. } ==> (compatible(t) <==> dt == HalfFlag::F32),
        t matches Thunk::Narrow { dt, .. } ==> (compatible(t) <==> dt == HalfFlag::F32),
        t matches Thunk::Rope { dt, .. } ==> (compatible(t) <==> dt == HalfFlag::F32),
        t is Sgemm || t is Softmax || t is Attention || t is Gather || t is Reduce || t is Transpose
            || t is Concat || t is Other || t is Nop || t is Cast || t is RmsNorm ==> !compatible(t),
        passes(t) <==> compatible(t) || t is Nop,
{
}

/// The steps that compute are all but the empty ones, in order.
pub proof fn lemma_computing(thunks: Seq<Thunk>, t: Thunk)
    ensures
        computing(Seq::empty()).len() == 0,
        t is Nop ==> computing(thunks.push(t)) == computing(thunks),
        !(t is Nop) ==> computing(thunks.push(t)) == computing(thunks).push(t),
{
    assert(thunks.push(t).drop_last() =~= thunks);
}

/// A segment records its steps in order, each with the next slice of the constants, and a barrier
/// behind each.
pub proof fn lemma_segment_in_order(run: Seq<Thunk>, t: Thunk)
    requires
        run.len() * CONSTANTS_BYTES_PER_CMD <= usize::MAX,
    ensures
        segment_steps(Seq::empty()).len() == 0,
        ({
            let s = segment_steps(run.push(t));
            let before = segment_steps(run);
            let own = icb_steps(t, (run.len() * CONSTANTS_BYTES_PER_CMD) as usize);
            &&& s.last() == IcbStep::Barrier
            &&& s.len() == before.len() + own.len() + 1
            &&& s.subrange(0, before.len() as int) =~= before
            &&& s.subrange(before.len() as int, s.len() - 1) =~= own
        }),
{
    assert(run.push(t).drop_last() =~= run);
}

} // verus!
