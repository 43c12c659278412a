//! Elementwise operators: the kernel that runs means the operator that was asked for, works on the
//! operands of the call in their precision, and reaches every element.

use vstd::prelude::*;

use crate::command::{bit, one_row, word_count, Activation, Buf, Cmd, HalfFlag, Kernel};
use crate::encode::elementwise::{
    act_opcode, activation_out_steps, activation_steps, binary_steps, cast_bufs_steps, cast_steps,
    compare_code, compare_steps, copy_steps, fused_binary_activation_steps,
    fused_swiglu_steps, fused_ternary_activation_steps, in_fours, is_basic, is_gated,
    shared_opcode, where_steps, BinaryOp, CompareOp,
};
use crate::launch::{group_launches, launch, launches, launches_once, Launch};

verus! {

/// The operator that a kernel means. The shared kernels take its number.
pub open spec fn operator(kernel: Kernel, number: Option<u32>) -> Option<BinaryOp> {
    match kernel {
        Kernel::ElemAdd | Kernel::ElemAdd4 | Kernel::ElemAddH => Some(BinaryOp::Add),
        Kernel::ElemMul | Kernel::ElemMul4 | Kernel::ElemMulH => Some(BinaryOp::Mul),
        Kernel::ElemSub | Kernel::ElemSub4 | Kernel::ElemSubH => Some(BinaryOp::Sub),
        Kernel::ElemDiv | Kernel::ElemDiv4 | Kernel::ElemDivH => Some(BinaryOp::Div),
        Kernel::ElemMax | Kernel::ElemMaxH => Some(BinaryOp::Max),
        Kernel::ElemMin | Kernel::ElemMinH => Some(BinaryOp::Min),
        Kernel::ElemPow | Kernel::ElemPowH => Some(BinaryOp::Pow),
        Kernel::ElemBinop | Kernel::ElemBinopH => match number {
            Some(7) => Some(BinaryOp::Mod),
            Some(8) => Some(BinaryOp::BitAnd),
            Some(9) => Some(BinaryOp::BitOr),
            Some(10) => Some(BinaryOp::BitXor),
            Some(11) => Some(BinaryOp::Shl),
            Some(12) => Some(BinaryOp::Shr),
            Some(13) => Some(BinaryOp::Atan2),
            _ => None,
        },
        _ => None,
    }
}

/// The precision of the elements of a binary kernel.
pub open spec fn binary_precision(kernel: Kernel) -> HalfFlag {
    match kernel {
        Kernel::ElemAddH
        | Kernel::ElemMulH
        | Kernel::ElemSubH
        | Kernel::ElemDivH
        | Kernel::ElemMaxH
        | Kernel::ElemMinH
        | Kernel::ElemPowH
        | Kernel::ElemBinopH => HalfFlag::F16,
        _ => HalfFlag::F32,
    }
}

/// Elements that one thread of a kernel takes.
pub open spec fn per_thread(kernel: Kernel) -> int {
    match kernel {
        Kernel::ElemAdd4
        | Kernel::ElemMul4
        | Kernel::ElemSub4
        | Kernel::ElemDiv4
        | Kernel::GeluInplace4
        | Kernel::GeluApproxInplace4
        | Kernel::SiluInplace4
        | Kernel::GeluApproxOut4
        | Kernel::SiluOut4
        | Kernel::Copy4
        | Kernel::FusedBinaryActivation4
        | Kernel::FusedTernaryActivation4 => 4,
        _ => 1,
    }
}

/// Kernels that take the arena and a byte offset per operand; all others take a place per operand.
pub open spec fn by_offsets(kernel: Kernel) -> bool {
    match kernel {
        Kernel::ElemAdd
        | Kernel::ElemAdd4
        | Kernel::ElemMul
        | Kernel::ElemMul4
        | Kernel::ElemSub
        | Kernel::ElemSub4
        | Kernel::ElemDiv
        | Kernel::ElemDiv4
        | Kernel::GeluInplace
        | Kernel::GeluInplace4
        | Kernel::GeluApproxInplace
        | Kernel::GeluApproxInplace4
        | Kernel::SiluInplace
        | Kernel::SiluInplace4
        | Kernel::GeluApproxOut4
        | Kernel::SiluOut4
        | Kernel::Copy4
        | Kernel::CopyF32 => true,
        _ => false,
    }
}

/// The byte of the arena at which the operand in a position starts.
pub open spec fn operand(l: Launch, i: u64) -> Option<u64> {
    if l.kernel() is Some && by_offsets(l.kernel()->0) {
        if l.place(0) == Some((Buf::Arena, 0u64)) {
            l.long((i + 1) as u64)
        } else {
            None
        }
    } else {
        match l.place(i) {
            Some((Buf::Arena, off)) => Some(off),
            _ => None,
        }
    }
}

/// The word behind the operands, of which there are `n`.
pub open spec fn number_behind(l: Launch, n: u64, i: u64) -> Option<u32> {
    if l.kernel() is Some && by_offsets(l.kernel()->0) {
        l.word((n + 1 + i) as u64)
    } else {
        l.word((n + i) as u64)
    }
}

/// A launch with a thread per element, or per four, that is told how many there are.
pub open spec fn reaches(l: Launch, n: u64, len: int) -> bool {
    &&& l.kernel() is Some
    &&& number_behind(l, n, 0) is Some
    &&& number_behind(l, n, 0)->0 * per_thread(l.kernel()->0) == len
    &&& l.threads() == Some(one_row(number_behind(l, n, 0)->0 as u64))
}

/// A binary operator runs a kernel that means that operator, in the precision of the call, on the
/// left operand, the right operand and the result of the call, over all elements.
pub proof fn lemma_binary_means_operator(
    lhs: usize,
    rhs: usize,
    dst: usize,
    len: u32,
    op: BinaryOp,
    dt: HalfFlag,
)
    ensures
        ({
            let s = binary_steps(lhs, rhs, dst, len, op, dt);
            let l = launch(s);
            &&& launches_once(s)
            &&& l.kernel() is Some
            &&& operator(l.kernel()->0, number_behind(l, 3, 1)) == Some(op)
            &&& binary_precision(l.kernel()->0) == dt
            &&& operand(l, 0) == Some(lhs as u64)
            &&& operand(l, 1) == Some(rhs as u64)
            &&& operand(l, 2) == Some(dst as u64)
            &&& reaches(l, 3, len as int)
        }),
{
    broadcast use group_launches;

    let s = binary_steps(lhs, rhs, dst, len, op, dt);
    if dt == HalfFlag::F32 && is_basic(op) {
        assert(launches_once(s));
    } else if shared_opcode(op) is Some {
        assert(launches_once(s));
    } else {
        assert(launches_once(s));
    }
}

/// Different operators are different streams, and so are different operands and precisions.
pub proof fn lemma_binary_streams_differ(
    lhs: usize,
    rhs: usize,
    dst: usize,
    len: u32,
    op: BinaryOp,
    dt: HalfFlag,
    lhs2: usize,
    rhs2: usize,
    dst2: usize,
    len2: u32,
    op2: BinaryOp,
    dt2: HalfFlag,
)
    requires
        binary_steps(lhs, rhs, dst, len, op, dt) == binary_steps(lhs2, rhs2, dst2, len2, op2, dt2),
    ensures
        op == op2,
        dt == dt2,
        len == len2,
        lhs == lhs2 && rhs == rhs2 && dst == dst2,
{
    lemma_binary_means_operator(lhs, rhs, dst, len, op, dt);
    lemma_binary_means_operator(lhs2, rhs2, dst2, len2, op2, dt2);
}

/// The activation that a kernel applies.
pub open spec fn function(kernel: Kernel) -> Option<Activation> {
    match kernel {
        Kernel::GeluInplace | Kernel::GeluInplace4 | Kernel::GeluInplaceH => Some(Activation::Gelu),
        Kernel::GeluApproxInplace
        | Kernel::GeluApproxInplace4
        | Kernel::GeluApproxInplaceH
        | Kernel::GeluApproxOut4 => Some(Activation::GeluApprox),
        Kernel::SiluInplace | Kernel::SiluInplace4 | Kernel::SiluInplaceH | Kernel::SiluOut4 => Some(
            Activation::Silu,
        ),
        Kernel::ReluInplace | Kernel::ReluInplaceH => Some(Activation::Relu),
        Kernel::SigmoidInplace | Kernel::SigmoidInplaceH => Some(Activation::Sigmoid),
        Kernel::TanhInplace | Kernel::TanhInplaceH => Some(Activation::Tanh),
        Kernel::ExpInplace | Kernel::ExpInplaceH => Some(Activation::Exp),
        Kernel::LogInplace | Kernel::LogInplaceH => Some(Activation::Log),
        Kernel::SqrtInplace | Kernel::SqrtInplaceH => Some(Activation::Sqrt),
        Kernel::RsqrtInplace | Kernel::RsqrtInplaceH => Some(Activation::Rsqrt),
        Kernel::NegInplace | Kernel::NegInplaceH => Some(Activation::Neg),
        Kernel::AbsInplace | Kernel::AbsInplaceH => Some(Activation::Abs),
        Kernel::SinInplace | Kernel::SinInplaceH => Some(Activation::Sin),
        Kernel::CosInplace | Kernel::CosInplaceH => Some(Activation::Cos),
        Kernel::TanInplace | Kernel::TanInplaceH => Some(Activation::Tan),
        Kernel::AtanInplace | Kernel::AtanInplaceH => Some(Activation::Atan),
        Kernel::RecInplace | Kernel::RecInplaceH => Some(Activation::Recip),
        Kernel::RoundInplace | Kernel::RoundInplaceH => Some(Activation::Round),
        Kernel::ScalarActivation(act, _) => Some(act),
        _ => None,
    }
}

/// The precision of the elements of an activation kernel.
pub open spec fn activation_precision(kernel: Kernel) -> HalfFlag {
    match kernel {
        Kernel::GeluInplaceH
        | Kernel::GeluApproxInplaceH
        | Kernel::SiluInplaceH
        | Kernel::ReluInplaceH
        | Kernel::SigmoidInplaceH
        | Kernel::TanhInplaceH
        | Kernel::ExpInplaceH
        | Kernel::LogInplaceH
        | Kernel::SqrtInplaceH
        | Kernel::RsqrtInplaceH
        | Kernel::NegInplaceH
        | Kernel::AbsInplaceH
        | Kernel::SinInplaceH
        | Kernel::CosInplaceH
        | Kernel::TanInplaceH
        | Kernel::AtanInplaceH
        | Kernel::RecInplaceH
        | Kernel::RoundInplaceH => HalfFlag::F16,
        Kernel::ScalarActivation(_, dt) => dt,
        _ => HalfFlag::F32,
    }
}

/// An activation in place runs a kernel that applies that activation, in the precision of the call,
/// on the data of the call, over all elements.
pub proof fn lemma_activation_means_function(off: usize, len: u32, act: Activation, dt: HalfFlag)
    ensures
        ({
            let s = activation_steps(off, len, act, dt);
            let l = launch(s);
            &&& launches_once(s)
            &&& l.kernel() is Some
            &&& function(l.kernel()->0) == Some(act)
            &&& activation_precision(l.kernel()->0) == dt
            &&& operand(l, 0) == Some(off as u64)
            &&& reaches(l, 1, len as int)
        }),
{
    broadcast use group_launches;

    let s = activation_steps(off, len, act, dt);
    if dt == HalfFlag::F32 && is_gated(act) {
        assert(launches_once(s));
    } else {
        assert(launches_once(s));
    }
}

/// Different activations, data, lengths or precisions are different streams.
pub proof fn lemma_activation_streams_differ(
    off: usize,
    len: u32,
    act: Activation,
    dt: HalfFlag,
    off2: usize,
    len2: u32,
    act2: Activation,
    dt2: HalfFlag,
)
    requires
        activation_steps(off, len, act, dt) == activation_steps(off2, len2, act2, dt2),
    ensures
        off == off2 && len == len2 && act == act2 && dt == dt2,
{
    lemma_activation_means_function(off, len, act, dt);
    lemma_activation_means_function(off2, len2, act2, dt2);
}

/// A copy is handed where it reads and writes, and moves all words.
pub proof fn lemma_copy(src: usize, dst: usize, len: u32, dt: HalfFlag)
    ensures
        ({
            let s = copy_steps(src, dst, len, dt);
            let l = launch(s);
            &&& launches_once(s)
            &&& l.kernel() == Some(Kernel::Copy4) || l.kernel() == Some(Kernel::CopyF32)
            &&& operand(l, 0) == Some(src as u64)
            &&& operand(l, 1) == Some(dst as u64)
            &&& reaches(
                l,
                2,
                if dt == HalfFlag::F32 {
                    len as int
                } else {
                    word_count(dt, len) as int
                },
            )
        }),
        word_count(HalfFlag::F32, len) == len,
        len <= word_count(HalfFlag::F16, len) * 2 <= len + 1,
{
    broadcast use group_launches;

    assert(launches_once(copy_steps(src, dst, len, dt)));
}

/// An activation with a result of its own applies the activation of the call: in one kernel that
/// reads the input and leaves the result, or as a copy followed by the activation on the copy.
pub proof fn lemma_activation_out(src: usize, dst: usize, len: u32, act: Activation, dt: HalfFlag)
    ensures
        ({
            let s = activation_out_steps(src, dst, len, act, dt);
            let l = launch(s);
            let one_kernel = dt == HalfFlag::F32 && (act == Activation::GeluApprox || (act
                == Activation::Silu && in_fours(len)));
            &&& one_kernel ==> {
                &&& launches_once(s)
                &&& l.kernel() is Some
                &&& function(l.kernel()->0) == Some(act)
                &&& operand(l, 0) == Some(src as u64)
                &&& operand(l, 1) == Some(dst as u64)
                &&& len % 4 == 0 ==> reaches(l, 2, len as int)
            }
            &&& !one_kernel ==> s == copy_steps(src, dst, len, dt) + activation_steps(
                dst,
                len,
                act,
                dt,
            )
        }),
{
    broadcast use group_launches;

}

/// What a cast kernel reads, and what it leaves.
pub open spec fn cast_from(kernel: Kernel) -> HalfFlag {
    if kernel == Kernel::CastF16ToF32 {
        HalfFlag::F16
    } else {
        HalfFlag::F32
    }
}

pub open spec fn cast_to(kernel: Kernel) -> HalfFlag {
    if kernel == Kernel::CastF32ToF16 {
        HalfFlag::F16
    } else {
        HalfFlag::F32
    }
}

/// A cast reads the source in its precision and leaves the target in its precision; between equal
/// precisions it is a copy of words.
pub proof fn lemma_cast(
    src_buf: Buf,
    src: usize,
    dst_buf: Buf,
    dst: usize,
    len: u32,
    src_dt: HalfFlag,
    dst_dt: HalfFlag,
)
    ensures
        ({
            let s = cast_bufs_steps(src_buf, src, dst_buf, dst, len, src_dt, dst_dt);
            let l = launch(s);
            let count = if src_dt == dst_dt {
                word_count(src_dt, len)
            } else {
                len
            };
            &&& launches_once(s)
            &&& l.kernel() is Some
            &&& src_dt == dst_dt <==> l.kernel() == Some(Kernel::CopyF32)
            &&& src_dt != dst_dt ==> cast_from(l.kernel()->0) == src_dt && cast_to(l.kernel()->0)
                == dst_dt
            &&& l.place(0) == Some((src_buf, src as u64))
            &&& l.place(1) == Some((dst_buf, dst as u64))
            &&& l.word(2) == Some(count)
            &&& l.threads() == Some(one_row(count as u64))
        }),
        cast_steps(src, dst, len, src_dt, dst_dt) == cast_bufs_steps(
            Buf::Arena,
            src,
            Buf::Arena,
            dst,
            len,
            src_dt,
            dst_dt,
        ),
{
    broadcast use group_launches;

    let s = cast_bufs_steps(src_buf, src, dst_buf, dst, len, src_dt, dst_dt);
    assert(launches_once(s));
    assert(cast_steps(src, dst, len, src_dt, dst_dt) =~= cast_bufs_steps(
        Buf::Arena,
        src,
        Buf::Arena,
        dst,
        len,
        src_dt,
        dst_dt,
    ));
}

/// The comparison that a number means.
pub open spec fn comparison(number: u32) -> Option<CompareOp> {
    match number {
        0 => Some(CompareOp::Eq),
        1 => Some(CompareOp::Ne),
        2 => Some(CompareOp::Lt),
        3 => Some(CompareOp::Le),
        4 => Some(CompareOp::Gt),
        5 => Some(CompareOp::Ge),
        _ => None,
    }
}

/// A comparison is handed the number that means it, its operands in order, and for each operand
/// whether it is a scalar.
pub proof fn lemma_compare(
    lhs: usize,
    rhs: usize,
    dst: usize,
    len: u32,
    op: CompareOp,
    lhs_scalar: bool,
    rhs_scalar: bool,
)
    ensures
        ({
            let s = compare_steps(lhs, rhs, dst, len, op, lhs_scalar, rhs_scalar);
            let l = launch(s);
            &&& launches_once(s)
            &&& l.kernel() == Some(
                if lhs_scalar || rhs_scalar {
                    Kernel::ElemCompareBcast
                } else {
                    Kernel::ElemCompare
                },
            )
            &&& operand(l, 0) == Some(lhs as u64)
            &&& operand(l, 1) == Some(rhs as u64)
            &&& operand(l, 2) == Some(dst as u64)
            &&& reaches(l, 3, len as int)
            &&& l.word(4) is Some
            &&& comparison(l.word(4)->0) == Some(op)
            &&& lhs_scalar || rhs_scalar ==> {
                &&& l.word(5) is Some
                &&& l.word(5)->0 % 2 == 1 <==> lhs_scalar
                &&& l.word(5)->0 / 2 == 1 <==> rhs_scalar
                &&& l.word(5)->0 < 4
            }
        }),
{
    broadcast use group_launches;

    let s = compare_steps(lhs, rhs, dst, len, op, lhs_scalar, rhs_scalar);
    if lhs_scalar || rhs_scalar {
        assert(launches_once(s));
    } else {
        assert(launches_once(s));
    }
}

/// A selection is handed the condition, the value where it holds, the value where it does not and
/// the result, in this order, and for each of the three whether it is a scalar.
pub proof fn lemma_where(
    cond: usize,
    on_true: usize,
    on_false: usize,
    dst: usize,
    len: u32,
    cond_scalar: bool,
    true_scalar: bool,
    false_scalar: bool,
)
    ensures
        ({
            let s = where_steps(
                cond,
                on_true,
                on_false,
                dst,
                len,
                cond_scalar,
                true_scalar,
                false_scalar,
            );
            let l = launch(s);
            &&& launches_once(s)
            &&& l.kernel() == Some(
                if cond_scalar || true_scalar || false_scalar {
                    Kernel::ElemWhereBcast
                } else {
                    Kernel::ElemWhere
                },
            )
            &&& operand(l, 0) == Some(cond as u64)
            &&& operand(l, 1) == Some(on_true as u64)
            &&& operand(l, 2) == Some(on_false as u64)
            &&& operand(l, 3) == Some(dst as u64)
            &&& reaches(l, 4, len as int)
            &&& cond_scalar || true_scalar || false_scalar ==> {
                &&& l.word(5) is Some
                &&& l.word(5)->0 % 2 == 1 <==> cond_scalar
                &&& l.word(5)->0 / 2 % 2 == 1 <==> true_scalar
                &&& l.word(5)->0 / 4 == 1 <==> false_scalar
                &&& l.word(5)->0 < 8
            }
        }),
{
    broadcast use group_launches;

    let s = where_steps(
        cond,
        on_true,
        on_false,
        dst,
        len,
        cond_scalar,
        true_scalar,
        false_scalar,
    );
    if cond_scalar || true_scalar || false_scalar {
        assert(launches_once(s));
    } else {
        assert(launches_once(s));
    }
}

/// The activation that a number means in the fused kernels, which know one kind of Gelu.
pub open spec fn fused_function(number: u32) -> Option<Activation> {
    match number {
        0 => Some(Activation::Gelu),
        1 => Some(Activation::Silu),
        2 => Some(Activation::Relu),
        3 => Some(Activation::Sigmoid),
        4 => Some(Activation::Tanh),
        _ => None,
    }
}

/// A fused activation is handed the number that means it; the approximation of Gelu counts as Gelu,
/// and an activation that the fused kernels lack has a number that means none.
pub proof fn lemma_fused_function(act: Activation)
    ensures
        act != Activation::GeluApprox && fused_function(act_opcode(act)) is Some ==> fused_function(
            act_opcode(act),
        ) == Some(act),
        act == Activation::GeluApprox ==> fused_function(act_opcode(act)) == Some(Activation::Gelu),
        fused_function(act_opcode(act)) is Some <==> act == Activation::Gelu || act
            == Activation::GeluApprox || act == Activation::Silu || act == Activation::Relu || act
            == Activation::Sigmoid || act == Activation::Tanh,
{
}

/// A binary operator fused with an activation works on the operands of the call in order, over all
/// elements, and is handed the operator's and the activation's number.
pub proof fn lemma_fused_binary(
    lhs: usize,
    rhs: usize,
    dst: usize,
    len: u32,
    bin_op: u32,
    act: Activation,
)
    ensures
        ({
            let s = fused_binary_activation_steps(lhs, rhs, dst, len, bin_op, act);
            let l = launch(s);
            &&& launches_once(s)
            &&& l.kernel() == Some(Kernel::FusedBinaryActivation4) || l.kernel() == Some(
                Kernel::FusedBinaryActivationF32,
            )
            &&& operand(l, 0) == Some(lhs as u64)
            &&& operand(l, 1) == Some(rhs as u64)
            &&& operand(l, 2) == Some(dst as u64)
            &&& reaches(l, 3, len as int)
            &&& l.word(4) == Some(bin_op)
            &&& l.word(5) == Some(act_opcode(act))
        }),
{
    broadcast use group_launches;

    let s = fused_binary_activation_steps(lhs, rhs, dst, len, bin_op, act);
    if in_fours(len) {
        assert(launches_once(s));
    } else {
        assert(launches_once(s));
    }
}

/// Two binary operators fused with an activation, the first on the left operand and the first right
/// one, the second on its result and the second right one.
pub proof fn lemma_fused_ternary(
    lhs: usize,
    rhs0: usize,
    rhs1: usize,
    dst: usize,
    len: u32,
    bin_op0: u32,
    bin_op1: u32,
    act: Activation,
)
    ensures
        ({
            let s = fused_ternary_activation_steps(
                lhs,
                rhs0,
                rhs1,
                dst,
                len,
                bin_op0,
                bin_op1,
                act,
            );
            let l = launch(s);
            &&& launches_once(s)
            &&& l.kernel() == Some(Kernel::FusedTernaryActivation4) || l.kernel() == Some(
                Kernel::FusedTernaryActivationF32,
            )
            &&& operand(l, 0) == Some(lhs as u64)
            &&& operand(l, 1) == Some(rhs0 as u64)
            &&& operand(l, 2) == Some(rhs1 as u64)
            &&& operand(l, 3) == Some(dst as u64)
            &&& reaches(l, 4, len as int)
            &&& l.word(5) == Some(bin_op0)
            &&& l.word(6) == Some(bin_op1)
            &&& l.word(7) == Some(act_opcode(act))
        }),
{
    broadcast use group_launches;

    let s = fused_ternary_activation_steps(lhs, rhs0, rhs1, dst, len, bin_op0, bin_op1, act);
    if in_fours(len) {
        assert(launches_once(s));
    } else {
        assert(launches_once(s));
    }
}

/// What a gated product reads, and what it leaves.
pub open spec fn swiglu_from(kernel: Kernel) -> HalfFlag {
    if kernel == Kernel::FusedSwigluH || kernel == Kernel::FusedSwigluCastF16ToF32 {
        HalfFlag::F16
    } else {
        HalfFlag::F32
    }
}

pub open spec fn swiglu_to(kernel: Kernel) -> HalfFlag {
    if kernel == Kernel::FusedSwigluH || kernel == Kernel::FusedSwigluCastF32ToF16 {
        HalfFlag::F16
    } else {
        HalfFlag::F32
    }
}

/// A gated product reads and leaves the precisions of the call, and is told which half gates the other.
pub proof fn lemma_swiglu(
    src: usize,
    dst: usize,
    n_half: u32,
    total: u32,
    src_dt: HalfFlag,
    dst_dt: HalfFlag,
    gate_first: bool,
)
    ensures
        ({
            let s = fused_swiglu_steps(src, dst, n_half, total, src_dt, dst_dt, gate_first);
            let l = launch(s);
            &&& launches_once(s)
            &&& l.kernel() is Some
            &&& swiglu_from(l.kernel()->0) == src_dt
            &&& swiglu_to(l.kernel()->0) == dst_dt
            &&& operand(l, 0) == Some(src as u64)
            &&& operand(l, 1) == Some(dst as u64)
            &&& l.word(2) == Some(n_half)
            &&& l.word(3) == Some(total)
            &&& l.word(4) is Some
            &&& l.word(4)->0 == 1 <==> gate_first
            &&& l.word(4)->0 <= 1
            &&& l.threads() == Some(one_row(total as u64))
        }),
{
    broadcast use group_launches;

    assert(launches_once(
        fused_swiglu_steps(src, dst, n_half, total, src_dt, dst_dt, gate_first),
    ));
}

} // verus!
