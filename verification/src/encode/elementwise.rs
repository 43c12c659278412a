//! Elementwise kernels.

use vstd::prelude::*;

use crate::command::{
    array_steps, bit, emit, emit_array, f32_index, f32_index_of, flag, least, max_u64, min_u64,
    most, one_row, plane, plane_of, row, word_count, words_of, Activation, Buf, Cmd, Group,
    HalfFlag, Kernel, Size,
};

verus! {

/// Binary operators on tensors.
#[derive(Clone, Copy, Debug, PartialEq, Eq, Structural)]
pub enum BinaryOp {
    Add,
    Mul,
    Sub,
    Div,
    Max,
    Min,
    Pow,
    Mod,
    BitAnd,
    BitOr,
    BitXor,
    Shl,
    Shr,
    Atan2,
}

/// Comparisons of tensors.
#[derive(Clone, Copy, Debug, PartialEq, Eq, Structural)]
pub enum CompareOp {
    Eq,
    Ne,
    Lt,
    Le,
    Gt,
    Ge,
}

/// Whether a length splits into groups of four.
pub open spec fn in_fours(len: u32) -> bool {
    len % 4 == 0 && len >= 4
}

fn splits_in_fours(len: u32) -> (r: bool)
    ensures
        r == in_fours(len),
{
    len % 4 == 0 && len >= 4
}

/// The number of an activation in the fused kernels.
pub open spec fn act_opcode(act: Activation) -> u32 {
    match act {
        Activation::Gelu | Activation::GeluApprox => 0,
        Activation::Silu => 1,
        Activation::Relu => 2,
        Activation::Sigmoid => 3,
        Activation::Tanh => 4,
        _ => 255,
    }
}

fn act_number(act: Activation) -> (r: u32)
    ensures
        r == act_opcode(act),
{
    match act {
        Activation::Gelu | Activation::GeluApprox => 0,
        Activation::Silu => 1,
        Activation::Relu => 2,
        Activation::Sigmoid => 3,
        Activation::Tanh => 4,
        _ => 255,
    }
}

/// The pipeline that applies an activation in place, one value per thread.
pub open spec fn inplace_kernel(dt: HalfFlag, act: Activation) -> Kernel {
    match (dt, act) {
        (HalfFlag::F16, Activation::Gelu) => Kernel::GeluInplaceH,
        (HalfFlag::F16, Activation::GeluApprox) => Kernel::GeluApproxInplaceH,
        (HalfFlag::F16, Activation::Silu) => Kernel::SiluInplaceH,
        (HalfFlag::F16, Activation::Relu) => Kernel::ReluInplaceH,
        (HalfFlag::F16, Activation::Sigmoid) => Kernel::SigmoidInplaceH,
        (HalfFlag::F16, Activation::Tanh) => Kernel::TanhInplaceH,
        (HalfFlag::F16, Activation::Exp) => Kernel::ExpInplaceH,
        (HalfFlag::F16, Activation::Log) => Kernel::LogInplaceH,
        (HalfFlag::F16, Activation::Sqrt) => Kernel::SqrtInplaceH,
        (HalfFlag::F16, Activation::Rsqrt) => Kernel::RsqrtInplaceH,
        (HalfFlag::F16, Activation::Neg) => Kernel::NegInplaceH,
        (HalfFlag::F16, Activation::Abs) => Kernel::AbsInplaceH,
        (HalfFlag::F16, Activation::Sin) => Kernel::SinInplaceH,
        (HalfFlag::F16, Activation::Cos) => Kernel::CosInplaceH,
        (HalfFlag::F16, Activation::Tan) => Kernel::TanInplaceH,
        (HalfFlag::F16, Activation::Atan) => Kernel::AtanInplaceH,
        (HalfFlag::F16, Activation::Recip) => Kernel::RecInplaceH,
        (HalfFlag::F16, Activation::Round) => Kernel::RoundInplaceH,
        (HalfFlag::F32, Activation::Gelu) => Kernel::GeluInplace,
        (HalfFlag::F32, Activation::GeluApprox) => Kernel::GeluApproxInplace,
        (HalfFlag::F32, Activation::Silu) => Kernel::SiluInplace,
        (HalfFlag::F32, Activation::Relu) => Kernel::ReluInplace,
        (HalfFlag::F32, Activation::Sigmoid) => Kernel::SigmoidInplace,
        (HalfFlag::F32, Activation::Tanh) => Kernel::TanhInplace,
        (HalfFlag::F32, Activation::Exp) => Kernel::ExpInplace,
        (HalfFlag::F32, Activation::Log) => Kernel::LogInplace,
        (HalfFlag::F32, Activation::Sqrt) => Kernel::SqrtInplace,
        (HalfFlag::F32, Activation::Rsqrt) => Kernel::RsqrtInplace,
        (HalfFlag::F32, Activation::Neg) => Kernel::NegInplace,
        (HalfFlag::F32, Activation::Abs) => Kernel::AbsInplace,
        (HalfFlag::F32, Activation::Sin) => Kernel::SinInplace,
        (HalfFlag::F32, Activation::Cos) => Kernel::CosInplace,
        (HalfFlag::F32, Activation::Tan) => Kernel::TanInplace,
        (HalfFlag::F32, Activation::Atan) => Kernel::AtanInplace,
        (HalfFlag::F32, Activation::Recip) => Kernel::RecInplace,
        (HalfFlag::F32, Activation::Round) => Kernel::RoundInplace,
        (_, other) => Kernel::ScalarActivation(other, dt),
    }
}

fn inplace_pipeline(dt: HalfFlag, act: Activation) -> (r: Kernel)
    ensures
        r == inplace_kernel(dt, act),
{
    match (dt, act) {
        (HalfFlag::F16, Activation::Gelu) => Kernel::GeluInplaceH,
        (HalfFlag::F16, Activation::GeluApprox) => Kernel::GeluApproxInplaceH,
        (HalfFlag::F16, Activation::Silu) => Kernel::SiluInplaceH,
        (HalfFlag::F16, Activation::Relu) => Kernel::ReluInplaceH,
        (HalfFlag::F16, Activation::Sigmoid) => Kernel::SigmoidInplaceH,
        (HalfFlag::F16, Activation::Tanh) => Kernel::TanhInplaceH,
        (HalfFlag::F16, Activation::Exp) => Kernel::ExpInplaceH,
        (HalfFlag::F16, Activation::Log) => Kernel::LogInplaceH,
        (HalfFlag::F16, Activation::Sqrt) => Kernel::SqrtInplaceH,
        (HalfFlag::F16, Activation::Rsqrt) => Kernel::RsqrtInplaceH,
        (HalfFlag::F16, Activation::Neg) => Kernel::NegInplaceH,
        (HalfFlag::F16, Activation::Abs) => Kernel::AbsInplaceH,
        (HalfFlag::F16, Activation::Sin) => Kernel::SinInplaceH,
        (HalfFlag::F16, Activation::Cos) => Kernel::CosInplaceH,
        (HalfFlag::F16, Activation::Tan) => Kernel::TanInplaceH,
        (HalfFlag::F16, Activation::Atan) => Kernel::AtanInplaceH,
        (HalfFlag::F16, Activation::Recip) => Kernel::RecInplaceH,
        (HalfFlag::F16, Activation::Round) => Kernel::RoundInplaceH,
        (HalfFlag::F32, Activation::Gelu) => Kernel::GeluInplace,
        (HalfFlag::F32, Activation::GeluApprox) => Kernel::GeluApproxInplace,
        (HalfFlag::F32, Activation::Silu) => Kernel::SiluInplace,
        (HalfFlag::F32, Activation::Relu) => Kernel::ReluInplace,
        (HalfFlag::F32, Activation::Sigmoid) => Kernel::SigmoidInplace,
        (HalfFlag::F32, Activation::Tanh) => Kernel::TanhInplace,
        (HalfFlag::F32, Activation::Exp) => Kernel::ExpInplace,
        (HalfFlag::F32, Activation::Log) => Kernel::LogInplace,
        (HalfFlag::F32, Activation::Sqrt) => Kernel::SqrtInplace,
        (HalfFlag::F32, Activation::Rsqrt) => Kernel::RsqrtInplace,
        (HalfFlag::F32, Activation::Neg) => Kernel::NegInplace,
        (HalfFlag::F32, Activation::Abs) => Kernel::AbsInplace,
        (HalfFlag::F32, Activation::Sin) => Kernel::SinInplace,
        (HalfFlag::F32, Activation::Cos) => Kernel::CosInplace,
        (HalfFlag::F32, Activation::Tan) => Kernel::TanInplace,
        (HalfFlag::F32, Activation::Atan) => Kernel::AtanInplace,
        (HalfFlag::F32, Activation::Recip) => Kernel::RecInplace,
        (HalfFlag::F32, Activation::Round) => Kernel::RoundInplace,
        (_, other) => Kernel::ScalarActivation(other, dt),
    }
}

/// The pipeline of a binary operator, on groups of four where `fours`.
pub open spec fn binary_kernel(dt: HalfFlag, op: BinaryOp, fours: bool) -> Kernel {
    match (dt, op, fours) {
        (HalfFlag::F16, BinaryOp::Add, _) => Kernel::ElemAddH,
        (HalfFlag::F16, BinaryOp::Mul, _) => Kernel::ElemMulH,
        (HalfFlag::F16, BinaryOp::Sub, _) => Kernel::ElemSubH,
        (HalfFlag::F16, BinaryOp::Div, _) => Kernel::ElemDivH,
        (HalfFlag::F16, BinaryOp::Max, _) => Kernel::ElemMaxH,
        (HalfFlag::F16, BinaryOp::Min, _) => Kernel::ElemMinH,
        (HalfFlag::F16, BinaryOp::Pow, _) => Kernel::ElemPowH,
        (HalfFlag::F16, _, _) => Kernel::ElemBinopH,
        (HalfFlag::F32, BinaryOp::Add, true) => Kernel::ElemAdd4,
        (HalfFlag::F32, BinaryOp::Mul, true) => Kernel::ElemMul4,
        (HalfFlag::F32, BinaryOp::Sub, true) => Kernel::ElemSub4,
        (HalfFlag::F32, BinaryOp::Div, true) => Kernel::ElemDiv4,
        (HalfFlag::F32, BinaryOp::Add, _) => Kernel::ElemAdd,
        (HalfFlag::F32, BinaryOp::Mul, _) => Kernel::ElemMul,
        (HalfFlag::F32, BinaryOp::Sub, _) => Kernel::ElemSub,
        (HalfFlag::F32, BinaryOp::Div, _) => Kernel::ElemDiv,
        (HalfFlag::F32, BinaryOp::Max, _) => Kernel::ElemMax,
        (HalfFlag::F32, BinaryOp::Min, _) => Kernel::ElemMin,
        (HalfFlag::F32, BinaryOp::Pow, _) => Kernel::ElemPow,
        (HalfFlag::F32, _, _) => Kernel::ElemBinop,
    }
}

fn binary_pipeline(dt: HalfFlag, op: BinaryOp, fours: bool) -> (r: Kernel)
    ensures
        r == binary_kernel(dt, op, fours),
{
    match (dt, op, fours) {
        (HalfFlag::F16, BinaryOp::Add, _) => Kernel::ElemAddH,
        (HalfFlag::F16, BinaryOp::Mul, _) => Kernel::ElemMulH,
        (HalfFlag::F16, BinaryOp::Sub, _) => Kernel::ElemSubH,
        (HalfFlag::F16, BinaryOp::Div, _) => Kernel::ElemDivH,
        (HalfFlag::F16, BinaryOp::Max, _) => Kernel::ElemMaxH,
        (HalfFlag::F16, BinaryOp::Min, _) => Kernel::ElemMinH,
        (HalfFlag::F16, BinaryOp::Pow, _) => Kernel::ElemPowH,
        (HalfFlag::F16, _, _) => Kernel::ElemBinopH,
        (HalfFlag::F32, BinaryOp::Add, true) => Kernel::ElemAdd4,
        (HalfFlag::F32, BinaryOp::Mul, true) => Kernel::ElemMul4,
        (HalfFlag::F32, BinaryOp::Sub, true) => Kernel::ElemSub4,
        (HalfFlag::F32, BinaryOp::Div, true) => Kernel::ElemDiv4,
        (HalfFlag::F32, BinaryOp::Add, _) => Kernel::ElemAdd,
        (HalfFlag::F32, BinaryOp::Mul, _) => Kernel::ElemMul,
        (HalfFlag::F32, BinaryOp::Sub, _) => Kernel::ElemSub,
        (HalfFlag::F32, BinaryOp::Div, _) => Kernel::ElemDiv,
        (HalfFlag::F32, BinaryOp::Max, _) => Kernel::ElemMax,
        (HalfFlag::F32, BinaryOp::Min, _) => Kernel::ElemMin,
        (HalfFlag::F32, BinaryOp::Pow, _) => Kernel::ElemPow,
        (HalfFlag::F32, _, _) => Kernel::ElemBinop,
    }
}

/// The number of an operator that shares one kernel with others.
pub open spec fn shared_opcode(op: BinaryOp) -> Option<u32> {
    match op {
        BinaryOp::Mod => Some(7),
        BinaryOp::BitAnd => Some(8),
        BinaryOp::BitOr => Some(9),
        BinaryOp::BitXor => Some(10),
        BinaryOp::Shl => Some(11),
        BinaryOp::Shr => Some(12),
        BinaryOp::Atan2 => Some(13),
        _ => None,
    }
}

fn shared_number(op: BinaryOp) -> (r: Option<u32>)
    ensures
        r == shared_opcode(op),
{
    match op {
        BinaryOp::Mod => Some(7),
        BinaryOp::BitAnd => Some(8),
        BinaryOp::BitOr => Some(9),
        BinaryOp::BitXor => Some(10),
        BinaryOp::Shl => Some(11),
        BinaryOp::Shr => Some(12),
        BinaryOp::Atan2 => Some(13),
        _ => None,
    }
}

/// The number of a comparison.
pub open spec fn compare_code(op: CompareOp) -> u32 {
    match op {
        CompareOp::Eq => 0,
        CompareOp::Ne => 1,
        CompareOp::Lt => 2,
        CompareOp::Le => 3,
        CompareOp::Gt => 4,
        CompareOp::Ge => 5,
    }
}

fn compare_number(op: CompareOp) -> (r: u32)
    ensures
        r == compare_code(op),
{
    match op {
        CompareOp::Eq => 0,
        CompareOp::Ne => 1,
        CompareOp::Lt => 2,
        CompareOp::Le => 3,
        CompareOp::Gt => 4,
        CompareOp::Ge => 5,
    }
}

/// Operators with kernels on groups of four, whose kernels take byte offsets.
pub open spec fn is_basic(op: BinaryOp) -> bool {
    op == BinaryOp::Add || op == BinaryOp::Mul || op == BinaryOp::Sub || op == BinaryOp::Div
}

fn basic(op: BinaryOp) -> (r: bool)
    ensures
        r == is_basic(op),
{
    matches!(op, BinaryOp::Add | BinaryOp::Mul | BinaryOp::Sub | BinaryOp::Div)
}

/// The steps of `encode_cast_bufs`.
pub open spec fn cast_bufs_steps(
    src_buf: Buf,
    src: usize,
    dst_buf: Buf,
    dst: usize,
    len: u32,
    src_dt: HalfFlag,
    dst_dt: HalfFlag,
) -> Seq<Cmd> {
    if src_dt == HalfFlag::F32 && dst_dt == HalfFlag::F16 {
        seq![
            Cmd::Pipeline(Kernel::CastF32ToF16),
            Cmd::Buffer(0, src_buf, src as u64),
            Cmd::Buffer(1, dst_buf, dst as u64),
            Cmd::U32(2, len),
            Cmd::Threads(
                one_row(len as u64),
                Group::ExecWidth(Kernel::CastF32ToF16, len as u64),
            ),
        ]
    } else if src_dt == HalfFlag::F16 && dst_dt == HalfFlag::F32 {
        seq![
            Cmd::Pipeline(Kernel::CastF16ToF32),
            Cmd::Buffer(0, src_buf, src as u64),
            Cmd::Buffer(1, dst_buf, dst as u64),
            Cmd::U32(2, len),
            Cmd::Threads(
                one_row(len as u64),
                Group::ExecWidth(Kernel::CastF16ToF32, len as u64),
            ),
        ]
    } else {
        seq![
            Cmd::Pipeline(Kernel::CopyF32),
            Cmd::Buffer(0, src_buf, src as u64),
            Cmd::Buffer(1, dst_buf, dst as u64),
            Cmd::U32(2, word_count(src_dt, len)),
            Cmd::Threads(
                one_row(word_count(src_dt, len) as u64),
                Group::ExecWidth(Kernel::CopyF32, word_count(src_dt, len) as u64),
            ),
        ]
    }
}

/// Converts between precisions; a conversion to the same precision copies words.
pub fn encode_cast_bufs(
    enc: &mut Vec<Cmd>,
    src_buf: Buf,
    src: usize,
    dst_buf: Buf,
    dst: usize,
    len: u32,
    src_dt: HalfFlag,
    dst_dt: HalfFlag,
)
    ensures
        final(enc)@ == old(enc)@ + cast_bufs_steps(src_buf, src, dst_buf, dst, len, src_dt, dst_dt),
{
    if src_dt == HalfFlag::F32 && dst_dt == HalfFlag::F16 {
        emit(
            enc,
            vec![
                Cmd::Pipeline(Kernel::CastF32ToF16),
                Cmd::Buffer(0, src_buf, src as u64),
                Cmd::Buffer(1, dst_buf, dst as u64),
                Cmd::U32(2, len),
                Cmd::Threads(row(len as u64), Group::ExecWidth(Kernel::CastF32ToF16, len as u64)),
            ],
        );
    } else if src_dt == HalfFlag::F16 && dst_dt == HalfFlag::F32 {
        emit(
            enc,
            vec![
                Cmd::Pipeline(Kernel::CastF16ToF32),
                Cmd::Buffer(0, src_buf, src as u64),
                Cmd::Buffer(1, dst_buf, dst as u64),
                Cmd::U32(2, len),
                Cmd::Threads(row(len as u64), Group::ExecWidth(Kernel::CastF16ToF32, len as u64)),
            ],
        );
    } else {
        emit(
            enc,
            vec![
                Cmd::Pipeline(Kernel::CopyF32),
                Cmd::Buffer(0, src_buf, src as u64),
                Cmd::Buffer(1, dst_buf, dst as u64),
                Cmd::U32(2, words_of(src_dt, len)),
                Cmd::Threads(
                    row(words_of(src_dt, len) as u64),
                    Group::ExecWidth(Kernel::CopyF32, words_of(src_dt, len) as u64),
                ),
            ],
        );
    }
}

/// The same within the arena.
pub fn encode_cast(
    enc: &mut Vec<Cmd>,
    src: usize,
    dst: usize,
    len: u32,
    src_dt: HalfFlag,
    dst_dt: HalfFlag,
)
    ensures
        final(enc)@ == old(enc)@ + cast_steps(src, dst, len, src_dt, dst_dt),
{
    encode_cast_bufs(enc, Buf::Arena, src, Buf::Arena, dst, len, src_dt, dst_dt);
}

/// A conversion within the arena.
pub open spec fn cast_steps(
    src: usize,
    dst: usize,
    len: u32,
    src_dt: HalfFlag,
    dst_dt: HalfFlag,
) -> Seq<Cmd> {
    let kernel = if src_dt == dst_dt {
        Kernel::CopyF32
    } else if dst_dt == HalfFlag::F16 {
        Kernel::CastF32ToF16
    } else {
        Kernel::CastF16ToF32
    };
    let count = if src_dt == dst_dt {
        word_count(src_dt, len)
    } else {
        len
    };
    seq![
        Cmd::Pipeline(kernel),
        Cmd::Buffer(0, Buf::Arena, src as u64),
        Cmd::Buffer(1, Buf::Arena, dst as u64),
        Cmd::U32(2, count),
        Cmd::Threads(one_row(count as u64), Group::ExecWidth(kernel, count as u64)),
    ]
}

/// The steps of `encode_arena_cast`.
pub open spec fn arena_cast_steps(
    pipeline: Kernel,
    src_off: usize,
    dst_off: usize,
    len: u32,
) -> Seq<Cmd> {
    seq![
        Cmd::Pipeline(pipeline),
        Cmd::Buffer(0, Buf::Arena, src_off as u64),
        Cmd::Buffer(1, Buf::Arena, dst_off as u64),
        Cmd::U32(2, len),
        Cmd::Threads(
            one_row(len as u64),
            Group::Fixed(one_row(max_u64(min_u64(256, len as u64), 1))),
        ),
    ]
}

/// Runs a given conversion kernel over the arena.
pub fn encode_arena_cast(
    enc: &mut Vec<Cmd>,
    pipeline: Kernel,
    src_off: usize,
    dst_off: usize,
    len: u32,
)
    ensures
        final(enc)@ == old(enc)@ + arena_cast_steps(pipeline, src_off, dst_off, len),
{
    emit(
        enc,
        vec![
            Cmd::Pipeline(pipeline),
            Cmd::Buffer(0, Buf::Arena, src_off as u64),
            Cmd::Buffer(1, Buf::Arena, dst_off as u64),
            Cmd::U32(2, len),
            Cmd::Threads(row(len as u64), Group::Fixed(row(most(least(256, len as u64), 1)))),
        ],
    );
}

pub open spec fn bias_add_steps(
    data_buf: Buf,
    data_off: usize,
    bias_buf: Buf,
    bias_off: usize,
    m: u32,
    n: u32,
    dt: HalfFlag,
) -> Seq<Cmd> {
    seq![
        Cmd::Pipeline(if dt == HalfFlag::F32 { Kernel::BiasAdd } else { Kernel::BiasAddH }),
        Cmd::Buffer(0, data_buf, data_off as u64),
        Cmd::Buffer(1, bias_buf, bias_off as u64),
        Cmd::U32(2, m),
        Cmd::U32(3, n),
        Cmd::Threads(
            plane(n as u64, m as u64),
            Group::Fixed(plane(min_u64(16, n as u64), min_u64(16, m as u64))),
        ),
    ]
}

/// Adds a bias to every row.
pub fn encode_bias_add(
    enc: &mut Vec<Cmd>,
    data_buf: Buf,
    data_off: usize,
    bias_buf: Buf,
    bias_off: usize,
    m: u32,
    n: u32,
    dt: HalfFlag,
)
    ensures
        final(enc)@ == old(enc)@ + bias_add_steps(data_buf, data_off, bias_buf, bias_off, m, n, dt),
{
    emit(
        enc,
        vec![
            Cmd::Pipeline(if dt == HalfFlag::F32 { Kernel::BiasAdd } else { Kernel::BiasAddH }),
            Cmd::Buffer(0, data_buf, data_off as u64),
            Cmd::Buffer(1, bias_buf, bias_off as u64),
            Cmd::U32(2, m),
            Cmd::U32(3, n),
            Cmd::Threads(
                plane_of(n as u64, m as u64),
                Group::Fixed(plane_of(least(16, n as u64), least(16, m as u64))),
            ),
        ],
    );
}

/// The steps of `encode_fused_binary_activation`.
pub open spec fn fused_binary_activation_steps(
    lhs: usize,
    rhs: usize,
    dst: usize,
    len: u32,
    bin_op: u32,
    act: Activation,
) -> Seq<Cmd> {
    if in_fours(len) {
        seq![
            Cmd::Pipeline(Kernel::FusedBinaryActivation4),
            Cmd::Buffer(0, Buf::Arena, lhs as u64),
            Cmd::Buffer(1, Buf::Arena, rhs as u64),
            Cmd::Buffer(2, Buf::Arena, dst as u64),
            Cmd::U32(3, len / 4),
            Cmd::U32(4, bin_op),
            Cmd::U32(5, act_opcode(act)),
            Cmd::Threads(
                one_row((len / 4) as u64),
                Group::ExecWidth(Kernel::FusedBinaryActivation4, (len / 4) as u64),
            ),
        ]
    } else {
        seq![
            Cmd::Pipeline(Kernel::FusedBinaryActivationF32),
            Cmd::Buffer(0, Buf::Arena, lhs as u64),
            Cmd::Buffer(1, Buf::Arena, rhs as u64),
            Cmd::Buffer(2, Buf::Arena, dst as u64),
            Cmd::U32(3, len),
            Cmd::U32(4, bin_op),
            Cmd::U32(5, act_opcode(act)),
            Cmd::Threads(
                one_row((len) as u64),
                Group::ExecWidth(Kernel::FusedBinaryActivationF32, (len) as u64),
            ),
        ]
    }
}

/// A binary operator, given by its number, and an activation in one pass.
pub fn encode_fused_binary_activation(
    enc: &mut Vec<Cmd>,
    lhs: usize,
    rhs: usize,
    dst: usize,
    len: u32,
    bin_op: u32,
    act: Activation,
)
    ensures
        final(enc)@ == old(enc)@ + fused_binary_activation_steps(lhs, rhs, dst, len, bin_op, act),
{
    if splits_in_fours(len) {
        emit(
            enc,
            vec![
                Cmd::Pipeline(Kernel::FusedBinaryActivation4),
                Cmd::Buffer(0, Buf::Arena, lhs as u64),
                Cmd::Buffer(1, Buf::Arena, rhs as u64),
                Cmd::Buffer(2, Buf::Arena, dst as u64),
                Cmd::U32(3, len / 4),
                Cmd::U32(4, bin_op),
                Cmd::U32(5, act_number(act)),
                Cmd::Threads(
                    row((len / 4) as u64),
                    Group::ExecWidth(Kernel::FusedBinaryActivation4, (len / 4) as u64),
                ),
            ],
        );
    } else {
        emit(
            enc,
            vec![
                Cmd::Pipeline(Kernel::FusedBinaryActivationF32),
                Cmd::Buffer(0, Buf::Arena, lhs as u64),
                Cmd::Buffer(1, Buf::Arena, rhs as u64),
                Cmd::Buffer(2, Buf::Arena, dst as u64),
                Cmd::U32(3, len),
                Cmd::U32(4, bin_op),
                Cmd::U32(5, act_number(act)),
                Cmd::Threads(
                    row((len) as u64),
                    Group::ExecWidth(Kernel::FusedBinaryActivationF32, (len) as u64),
                ),
            ],
        );
    }
}

/// The steps of `encode_fused_ternary_activation`.
pub open spec fn fused_ternary_activation_steps(
    lhs: usize,
    rhs0: usize,
    rhs1: usize,
    dst: usize,
    len: u32,
    bin_op0: u32,
    bin_op1: u32,
    act: Activation,
) -> Seq<Cmd> {
    if in_fours(len) {
        seq![
            Cmd::Pipeline(Kernel::FusedTernaryActivation4),
            Cmd::Buffer(0, Buf::Arena, lhs as u64),
            Cmd::Buffer(1, Buf::Arena, rhs0 as u64),
            Cmd::Buffer(2, Buf::Arena, rhs1 as u64),
            Cmd::Buffer(3, Buf::Arena, dst as u64),
            Cmd::U32(4, len / 4),
            Cmd::U32(5, bin_op0),
            Cmd::U32(6, bin_op1),
            Cmd::U32(7, act_opcode(act)),
            Cmd::Threads(
                one_row((len / 4) as u64),
                Group::ExecWidth(Kernel::FusedTernaryActivation4, (len / 4) as u64),
            ),
        ]
    } else {
        seq![
            Cmd::Pipeline(Kernel::FusedTernaryActivationF32),
            Cmd::Buffer(0, Buf::Arena, lhs as u64),
            Cmd::Buffer(1, Buf::Arena, rhs0 as u64),
            Cmd::Buffer(2, Buf::Arena, rhs1 as u64),
            Cmd::Buffer(3, Buf::Arena, dst as u64),
            Cmd::U32(4, len),
            Cmd::U32(5, bin_op0),
            Cmd::U32(6, bin_op1),
            Cmd::U32(7, act_opcode(act)),
            Cmd::Threads(
                one_row((len) as u64),
                Group::ExecWidth(Kernel::FusedTernaryActivationF32, (len) as u64),
            ),
        ]
    }
}

/// Two binary operators and an activation in one pass.
pub fn encode_fused_ternary_activation(
    enc: &mut Vec<Cmd>,
    lhs: usize,
    rhs0: usize,
    rhs1: usize,
    dst: usize,
    len: u32,
    bin_op0: u32,
    bin_op1: u32,
    act: Activation,
)
    ensures
        final(enc)@ == old(enc)@ + fused_ternary_activation_steps(
            lhs,
            rhs0,
            rhs1,
            dst,
            len,
            bin_op0,
            bin_op1,
            act,
        ),
{
    if splits_in_fours(len) {
        emit(
            enc,
            vec![
                Cmd::Pipeline(Kernel::FusedTernaryActivation4),
                Cmd::Buffer(0, Buf::Arena, lhs as u64),
                Cmd::Buffer(1, Buf::Arena, rhs0 as u64),
                Cmd::Buffer(2, Buf::Arena, rhs1 as u64),
                Cmd::Buffer(3, Buf::Arena, dst as u64),
                Cmd::U32(4, len / 4),
                Cmd::U32(5, bin_op0),
                Cmd::U32(6, bin_op1),
                Cmd::U32(7, act_number(act)),
                Cmd::Threads(
                    row((len / 4) as u64),
                    Group::ExecWidth(Kernel::FusedTernaryActivation4, (len / 4) as u64),
                ),
            ],
        );
    } else {
        emit(
            enc,
            vec![
                Cmd::Pipeline(Kernel::FusedTernaryActivationF32),
                Cmd::Buffer(0, Buf::Arena, lhs as u64),
                Cmd::Buffer(1, Buf::Arena, rhs0 as u64),
                Cmd::Buffer(2, Buf::Arena, rhs1 as u64),
                Cmd::Buffer(3, Buf::Arena, dst as u64),
                Cmd::U32(4, len),
                Cmd::U32(5, bin_op0),
                Cmd::U32(6, bin_op1),
                Cmd::U32(7, act_number(act)),
                Cmd::Threads(
                    row((len) as u64),
                    Group::ExecWidth(Kernel::FusedTernaryActivationF32, (len) as u64),
                ),
            ],
        );
    }
}

/// The steps of `encode_gelu_approx_out`.
pub open spec fn gelu_approx_out_steps(src: usize, dst: usize, len: u32) -> Seq<Cmd> {
    seq![
        Cmd::Pipeline(Kernel::GeluApproxOut4),
        Cmd::Buffer(0, Buf::Arena, 0),
        Cmd::U64(1, src as u64),
        Cmd::U64(2, dst as u64),
        Cmd::U32(3, len / 4),
        Cmd::Threads(
            one_row((len / 4) as u64),
            Group::ExecWidth(Kernel::GeluApproxOut4, (len / 4) as u64),
        ),
    ]
}

/// Approximate GELU from one tensor into another, on groups of four.
pub fn encode_gelu_approx_out(enc: &mut Vec<Cmd>, src: usize, dst: usize, len: u32)
    requires
        in_fours(len),
    ensures
        final(enc)@ == old(enc)@ + gelu_approx_out_steps(src, dst, len),
{
    emit(
        enc,
        vec![
            Cmd::Pipeline(Kernel::GeluApproxOut4),
            Cmd::Buffer(0, Buf::Arena, 0),
            Cmd::U64(1, src as u64),
            Cmd::U64(2, dst as u64),
            Cmd::U32(3, len / 4),
            Cmd::Threads(
                row((len / 4) as u64),
                Group::ExecWidth(Kernel::GeluApproxOut4, (len / 4) as u64),
            ),
        ],
    );
}

/// Copies `len` floats: groups of four where they divide, otherwise word by word.
pub open spec fn copy_steps(src: usize, dst: usize, len: u32, dt: HalfFlag) -> Seq<Cmd> {
    let fours = dt == HalfFlag::F32 && in_fours(len);
    let kernel = if fours {
        Kernel::Copy4
    } else {
        Kernel::CopyF32
    };
    let count = if fours {
        len / 4
    } else {
        word_count(dt, len)
    };
    seq![
        Cmd::Pipeline(kernel),
        Cmd::Buffer(0, Buf::Arena, 0),
        Cmd::U64(1, src as u64),
        Cmd::U64(2, dst as u64),
        Cmd::U32(3, count),
        Cmd::Threads(one_row(count as u64), Group::ExecWidth(kernel, count as u64)),
    ]
}

pub fn encode_copy(enc: &mut Vec<Cmd>, src: usize, dst: usize, len: u32, dt: HalfFlag)
    ensures
        final(enc)@ == old(enc)@ + copy_steps(src, dst, len, dt),
{
    let fours: bool = dt == HalfFlag::F32 && splits_in_fours(len);
    let kernel: Kernel = if fours {
        Kernel::Copy4
    } else {
        Kernel::CopyF32
    };
    let count: u32 = if fours {
        len / 4
    } else {
        words_of(dt, len)
    };
    emit(
        enc,
        vec![
            Cmd::Pipeline(kernel),
            Cmd::Buffer(0, Buf::Arena, 0),
            Cmd::U64(1, src as u64),
            Cmd::U64(2, dst as u64),
            Cmd::U32(3, count),
            Cmd::Threads(row(count as u64), Group::ExecWidth(kernel, count as u64)),
        ],
    );
}

/// The three activations with kernels that take a byte offset.
pub open spec fn is_gated(act: Activation) -> bool {
    act == Activation::Gelu || act == Activation::GeluApprox || act == Activation::Silu
}

/// The kernel of such an activation on groups of four.
pub open spec fn fours_kernel(act: Activation) -> Kernel {
    match act {
        Activation::Gelu => Kernel::GeluInplace4,
        Activation::GeluApprox => Kernel::GeluApproxInplace4,
        _ => Kernel::SiluInplace4,
    }
}

/// An activation in place.
pub open spec fn activation_steps(
    data_off: usize,
    len: u32,
    act: Activation,
    dt: HalfFlag,
) -> Seq<Cmd> {
    let by_offset = dt == HalfFlag::F32 && is_gated(act);
    let fours = by_offset && in_fours(len);
    let kernel = if fours {
        fours_kernel(act)
    } else {
        inplace_kernel(dt, act)
    };
    let count = if fours {
        len / 4
    } else {
        len
    };
    let launch = Cmd::Threads(one_row(count as u64), Group::ExecWidth(kernel, count as u64));
    if by_offset {
        seq![
            Cmd::Pipeline(kernel),
            Cmd::Buffer(0, Buf::Arena, 0),
            Cmd::U64(1, data_off as u64),
            Cmd::U32(2, count),
            launch,
        ]
    } else {
        seq![
            Cmd::Pipeline(kernel),
            Cmd::Buffer(0, Buf::Arena, data_off as u64),
            Cmd::U32(1, count),
            launch,
        ]
    }
}

/// Applies an activation in place.
pub fn encode_activation(
    enc: &mut Vec<Cmd>,
    data_off: usize,
    len: u32,
    act: Activation,
    dt: HalfFlag,
)
    ensures
        final(enc)@ == old(enc)@ + activation_steps(data_off, len, act, dt),
{
    let by_offset: bool = dt == HalfFlag::F32 && matches!(
        act,
        Activation::Gelu | Activation::GeluApprox | Activation::Silu
    );
    let fours: bool = by_offset && splits_in_fours(len);
    let kernel: Kernel = if fours {
        match act {
            Activation::Gelu => Kernel::GeluInplace4,
            Activation::GeluApprox => Kernel::GeluApproxInplace4,
            _ => Kernel::SiluInplace4,
        }
    } else {
        inplace_pipeline(dt, act)
    };
    let count: u32 = if fours {
        len / 4
    } else {
        len
    };
    let launch: Cmd = Cmd::Threads(row(count as u64), Group::ExecWidth(kernel, count as u64));
    if by_offset {
        emit(
            enc,
            vec![
                Cmd::Pipeline(kernel),
                Cmd::Buffer(0, Buf::Arena, 0),
                Cmd::U64(1, data_off as u64),
                Cmd::U32(2, count),
                launch,
            ],
        );
    } else {
        emit(
            enc,
            vec![
                Cmd::Pipeline(kernel),
                Cmd::Buffer(0, Buf::Arena, data_off as u64),
                Cmd::U32(1, count),
                launch,
            ],
        );
    }
}

/// An activation from one tensor into another: in one pass where a kernel for that exists,
/// otherwise a copy and an activation in place.
pub open spec fn activation_out_steps(
    src: usize,
    dst: usize,
    len: u32,
    act: Activation,
    dt: HalfFlag,
) -> Seq<Cmd> {
    let silu = dt == HalfFlag::F32 && act == Activation::Silu && in_fours(len);
    let gelu = dt == HalfFlag::F32 && act == Activation::GeluApprox;
    if silu || gelu {
        let kernel = if silu {
            Kernel::SiluOut4
        } else {
            Kernel::GeluApproxOut4
        };
        seq![
            Cmd::Pipeline(kernel),
            Cmd::Buffer(0, Buf::Arena, 0),
            Cmd::U64(1, src as u64),
            Cmd::U64(2, dst as u64),
            Cmd::U32(3, len / 4),
            Cmd::Threads(one_row((len / 4) as u64), Group::ExecWidth(kernel, (len / 4) as u64)),
        ]
    } else {
        copy_steps(src, dst, len, dt) + activation_steps(dst, len, act, dt)
    }
}

/// Applies an activation from one tensor into another. The approximate GELU in single precision
/// takes whole groups of four only.
pub fn encode_activation_out(
    enc: &mut Vec<Cmd>,
    src: usize,
    dst: usize,
    len: u32,
    act: Activation,
    dt: HalfFlag,
)
    requires
        dt == HalfFlag::F32 && act == Activation::GeluApprox ==> in_fours(len),
    ensures
        final(enc)@ == old(enc)@ + activation_out_steps(src, dst, len, act, dt),
{
    if dt == HalfFlag::F32 && splits_in_fours(len) && act == Activation::Silu {
        emit(
            enc,
            vec![
                Cmd::Pipeline(Kernel::SiluOut4),
                Cmd::Buffer(0, Buf::Arena, 0),
                Cmd::U64(1, src as u64),
                Cmd::U64(2, dst as u64),
                Cmd::U32(3, len / 4),
                Cmd::Threads(
                    row((len / 4) as u64),
                    Group::ExecWidth(Kernel::SiluOut4, (len / 4) as u64),
                ),
            ],
        );
    } else if act == Activation::GeluApprox && dt == HalfFlag::F32 {
        encode_gelu_approx_out(enc, src, dst, len);
    } else {
        encode_copy(enc, src, dst, len, dt);
        encode_activation(enc, dst, len, act, dt);
    }
}

/// The steps of `encode_binary_broadcast_1ax`.
pub open spec fn binary_broadcast_1ax_steps(
    lhs: usize,
    rhs: usize,
    dst: usize,
    rows: u32,
    cols: u32,
    mid: u32,
    op: u32,
    rhs_is_broadcast: bool,
) -> Seq<Cmd> {
    if in_fours(cols) {
        seq![
            Cmd::Pipeline(Kernel::BinaryBroadcast1ax4),
            Cmd::Buffer(0, Buf::Arena, (if rhs_is_broadcast { lhs } else { rhs }) as u64),
            Cmd::Buffer(1, Buf::Arena, (if rhs_is_broadcast { rhs } else { lhs }) as u64),
            Cmd::Buffer(2, Buf::Arena, dst as u64),
            Cmd::U32(3, rows),
            Cmd::U32(4, cols / 4),
            Cmd::U32(5, mid),
            Cmd::U32(6, op),
            Cmd::Threads(
                plane((cols / 4) as u64, rows as u64),
                Group::Fixed(plane(min_u64(64, (cols / 4) as u64), min_u64(4, rows as u64))),
            ),
        ]
    } else {
        seq![
            Cmd::Pipeline(Kernel::BinaryBroadcast1axF32),
            Cmd::Buffer(0, Buf::Arena, (if rhs_is_broadcast { lhs } else { rhs }) as u64),
            Cmd::Buffer(1, Buf::Arena, (if rhs_is_broadcast { rhs } else { lhs }) as u64),
            Cmd::Buffer(2, Buf::Arena, dst as u64),
            Cmd::U32(3, rows),
            Cmd::U32(4, cols),
            Cmd::U32(5, mid),
            Cmd::U32(6, op),
            Cmd::Threads(
                plane((cols) as u64, rows as u64),
                Group::Fixed(plane(min_u64(32, (cols) as u64), min_u64(8, rows as u64))),
            ),
        ]
    }
}

/// A binary operator whose one side repeats along a single middle axis. That side is bound
/// second.
pub fn encode_binary_broadcast_1ax(
    enc: &mut Vec<Cmd>,
    lhs: usize,
    rhs: usize,
    dst: usize,
    rows: u32,
    cols: u32,
    mid: u32,
    op: u32,
    rhs_is_broadcast: bool,
)
    ensures
        final(enc)@ == old(enc)@ + binary_broadcast_1ax_steps(
            lhs,
            rhs,
            dst,
            rows,
            cols,
            mid,
            op,
            rhs_is_broadcast,
        ),
{
    if splits_in_fours(cols) {
        emit(
            enc,
            vec![
                Cmd::Pipeline(Kernel::BinaryBroadcast1ax4),
                Cmd::Buffer(0, Buf::Arena, (if rhs_is_broadcast { lhs } else { rhs }) as u64),
                Cmd::Buffer(1, Buf::Arena, (if rhs_is_broadcast { rhs } else { lhs }) as u64),
                Cmd::Buffer(2, Buf::Arena, dst as u64),
                Cmd::U32(3, rows),
                Cmd::U32(4, cols / 4),
                Cmd::U32(5, mid),
                Cmd::U32(6, op),
                Cmd::Threads(
                    plane_of((cols / 4) as u64, rows as u64),
                    Group::Fixed(plane_of(least(64, (cols / 4) as u64), least(4, rows as u64))),
                ),
            ],
        );
    } else {
        emit(
            enc,
            vec![
                Cmd::Pipeline(Kernel::BinaryBroadcast1axF32),
                Cmd::Buffer(0, Buf::Arena, (if rhs_is_broadcast { lhs } else { rhs }) as u64),
                Cmd::Buffer(1, Buf::Arena, (if rhs_is_broadcast { rhs } else { lhs }) as u64),
                Cmd::Buffer(2, Buf::Arena, dst as u64),
                Cmd::U32(3, rows),
                Cmd::U32(4, cols),
                Cmd::U32(5, mid),
                Cmd::U32(6, op),
                Cmd::Threads(
                    plane_of((cols) as u64, rows as u64),
                    Group::Fixed(plane_of(least(32, (cols) as u64), least(8, rows as u64))),
                ),
            ],
        );
    }
}

/// The steps of `encode_binary_broadcast_rhs_scalar`.
pub open spec fn binary_broadcast_rhs_scalar_steps(
    lhs: usize,
    rhs: usize,
    dst: usize,
    len: u32,
    op: u32,
    rhs_is_scalar: bool,
) -> Seq<Cmd> {
    if in_fours(len) {
        seq![
            Cmd::Pipeline(Kernel::BinaryBroadcastRhsScalar4),
            Cmd::Buffer(0, Buf::Arena, 0),
            Cmd::U64(1, (if rhs_is_scalar { lhs } else { rhs }) as u64),
            Cmd::U64(2, (if rhs_is_scalar { rhs } else { lhs }) as u64),
            Cmd::U64(3, dst as u64),
            Cmd::U32(4, len / 4),
            Cmd::U32(5, op),
            Cmd::Threads(
                one_row((len / 4) as u64),
                Group::ExecWidth(Kernel::BinaryBroadcastRhsScalar4, (len / 4) as u64),
            ),
        ]
    } else {
        seq![
            Cmd::Pipeline(Kernel::BinaryBroadcastRhsScalarF32),
            Cmd::Buffer(0, Buf::Arena, 0),
            Cmd::U64(1, (if rhs_is_scalar { lhs } else { rhs }) as u64),
            Cmd::U64(2, (if rhs_is_scalar { rhs } else { lhs }) as u64),
            Cmd::U64(3, dst as u64),
            Cmd::U32(4, len),
            Cmd::U32(5, op),
            Cmd::Threads(
                one_row((len) as u64),
                Group::ExecWidth(Kernel::BinaryBroadcastRhsScalarF32, (len) as u64),
            ),
        ]
    }
}

/// A binary operator whose one side is a single value. That side is bound second.
pub fn encode_binary_broadcast_rhs_scalar(
    enc: &mut Vec<Cmd>,
    lhs: usize,
    rhs: usize,
    dst: usize,
    len: u32,
    op: u32,
    rhs_is_scalar: bool,
)
    ensures
        final(enc)@ == old(enc)@ + binary_broadcast_rhs_scalar_steps(
            lhs,
            rhs,
            dst,
            len,
            op,
            rhs_is_scalar,
        ),
{
    if splits_in_fours(len) {
        emit(
            enc,
            vec![
                Cmd::Pipeline(Kernel::BinaryBroadcastRhsScalar4),
                Cmd::Buffer(0, Buf::Arena, 0),
                Cmd::U64(1, (if rhs_is_scalar { lhs } else { rhs }) as u64),
                Cmd::U64(2, (if rhs_is_scalar { rhs } else { lhs }) as u64),
                Cmd::U64(3, dst as u64),
                Cmd::U32(4, len / 4),
                Cmd::U32(5, op),
                Cmd::Threads(
                    row((len / 4) as u64),
                    Group::ExecWidth(Kernel::BinaryBroadcastRhsScalar4, (len / 4) as u64),
                ),
            ],
        );
    } else {
        emit(
            enc,
            vec![
                Cmd::Pipeline(Kernel::BinaryBroadcastRhsScalarF32),
                Cmd::Buffer(0, Buf::Arena, 0),
                Cmd::U64(1, (if rhs_is_scalar { lhs } else { rhs }) as u64),
                Cmd::U64(2, (if rhs_is_scalar { rhs } else { lhs }) as u64),
                Cmd::U64(3, dst as u64),
                Cmd::U32(4, len),
                Cmd::U32(5, op),
                Cmd::Threads(
                    row((len) as u64),
                    Group::ExecWidth(Kernel::BinaryBroadcastRhsScalarF32, (len) as u64),
                ),
            ],
        );
    }
}

/// The steps of `encode_binary_broadcast_rhs_row`.
pub open spec fn binary_broadcast_rhs_row_steps(
    lhs: usize,
    rhs: usize,
    dst: usize,
    rows: u32,
    cols: u32,
    op: u32,
    rhs_is_broadcast: bool,
) -> Seq<Cmd> {
    if in_fours(cols) {
        seq![
            Cmd::Pipeline(Kernel::BinaryBroadcastRhsRow4),
            Cmd::Buffer(0, Buf::Arena, (if rhs_is_broadcast { lhs } else { rhs }) as u64),
            Cmd::Buffer(1, Buf::Arena, (if rhs_is_broadcast { rhs } else { lhs }) as u64),
            Cmd::Buffer(2, Buf::Arena, dst as u64),
            Cmd::U32(3, rows),
            Cmd::U32(4, cols / 4),
            Cmd::U32(5, op),
            Cmd::Threads(
                plane((cols / 4) as u64, rows as u64),
                Group::Fixed(plane(min_u64(64, (cols / 4) as u64), min_u64(4, rows as u64))),
            ),
        ]
    } else {
        seq![
            Cmd::Pipeline(Kernel::BinaryBroadcastRhsRowF32),
            Cmd::Buffer(0, Buf::Arena, (if rhs_is_broadcast { lhs } else { rhs }) as u64),
            Cmd::Buffer(1, Buf::Arena, (if rhs_is_broadcast { rhs } else { lhs }) as u64),
            Cmd::Buffer(2, Buf::Arena, dst as u64),
            Cmd::U32(3, rows),
            Cmd::U32(4, cols),
            Cmd::U32(5, op),
            Cmd::Threads(
                plane((cols) as u64, rows as u64),
                Group::Fixed(plane(min_u64(32, (cols) as u64), min_u64(8, rows as u64))),
            ),
        ]
    }
}

/// A binary operator whose one side has one value per row. That side is bound second.
pub fn encode_binary_broadcast_rhs_row(
    enc: &mut Vec<Cmd>,
    lhs: usize,
    rhs: usize,
    dst: usize,
    rows: u32,
    cols: u32,
    op: u32,
    rhs_is_broadcast: bool,
)
    ensures
        final(enc)@ == old(enc)@ + binary_broadcast_rhs_row_steps(
            lhs,
            rhs,
            dst,
            rows,
            cols,
            op,
            rhs_is_broadcast,
        ),
{
    if splits_in_fours(cols) {
        emit(
            enc,
            vec![
                Cmd::Pipeline(Kernel::BinaryBroadcastRhsRow4),
                Cmd::Buffer(0, Buf::Arena, (if rhs_is_broadcast { lhs } else { rhs }) as u64),
                Cmd::Buffer(1, Buf::Arena, (if rhs_is_broadcast { rhs } else { lhs }) as u64),
                Cmd::Buffer(2, Buf::Arena, dst as u64),
                Cmd::U32(3, rows),
                Cmd::U32(4, cols / 4),
                Cmd::U32(5, op),
                Cmd::Threads(
                    plane_of((cols / 4) as u64, rows as u64),
                    Group::Fixed(plane_of(least(64, (cols / 4) as u64), least(4, rows as u64))),
                ),
            ],
        );
    } else {
        emit(
            enc,
            vec![
                Cmd::Pipeline(Kernel::BinaryBroadcastRhsRowF32),
                Cmd::Buffer(0, Buf::Arena, (if rhs_is_broadcast { lhs } else { rhs }) as u64),
                Cmd::Buffer(1, Buf::Arena, (if rhs_is_broadcast { rhs } else { lhs }) as u64),
                Cmd::Buffer(2, Buf::Arena, dst as u64),
                Cmd::U32(3, rows),
                Cmd::U32(4, cols),
                Cmd::U32(5, op),
                Cmd::Threads(
                    plane_of((cols) as u64, rows as u64),
                    Group::Fixed(plane_of(least(32, (cols) as u64), least(8, rows as u64))),
                ),
            ],
        );
    }
}

/// The steps of `encode_binary_broadcast_rhs_col`.
pub open spec fn binary_broadcast_rhs_col_steps(
    lhs: usize,
    rhs: usize,
    dst: usize,
    rows: u32,
    cols: u32,
    op: u32,
    rhs_is_broadcast: bool,
) -> Seq<Cmd> {
    if in_fours(cols) {
        seq![
            Cmd::Pipeline(Kernel::BinaryBroadcastRhsCol4),
            Cmd::Buffer(0, Buf::Arena, (if rhs_is_broadcast { lhs } else { rhs }) as u64),
            Cmd::Buffer(1, Buf::Arena, (if rhs_is_broadcast { rhs } else { lhs }) as u64),
            Cmd::Buffer(2, Buf::Arena, dst as u64),
            Cmd::U32(3, rows),
            Cmd::U32(4, cols / 4),
            Cmd::U32(5, op),
            Cmd::Threads(
                plane((cols / 4) as u64, rows as u64),
                Group::Fixed(plane(min_u64(64, (cols / 4) as u64), min_u64(4, rows as u64))),
            ),
        ]
    } else {
        seq![
            Cmd::Pipeline(Kernel::BinaryBroadcastRhsColF32),
            Cmd::Buffer(0, Buf::Arena, (if rhs_is_broadcast { lhs } else { rhs }) as u64),
            Cmd::Buffer(1, Buf::Arena, (if rhs_is_broadcast { rhs } else { lhs }) as u64),
            Cmd::Buffer(2, Buf::Arena, dst as u64),
            Cmd::U32(3, rows),
            Cmd::U32(4, cols),
            Cmd::U32(5, op),
            Cmd::Threads(
                plane((cols) as u64, rows as u64),
                Group::Fixed(plane(min_u64(32, (cols) as u64), min_u64(8, rows as u64))),
            ),
        ]
    }
}

/// A binary operator whose one side has one value per column. That side is bound second.
pub fn encode_binary_broadcast_rhs_col(
    enc: &mut Vec<Cmd>,
    lhs: usize,
    rhs: usize,
    dst: usize,
    rows: u32,
    cols: u32,
    op: u32,
    rhs_is_broadcast: bool,
)
    ensures
        final(enc)@ == old(enc)@ + binary_broadcast_rhs_col_steps(
            lhs,
            rhs,
            dst,
            rows,
            cols,
            op,
            rhs_is_broadcast,
        ),
{
    if splits_in_fours(cols) {
        emit(
            enc,
            vec![
                Cmd::Pipeline(Kernel::BinaryBroadcastRhsCol4),
                Cmd::Buffer(0, Buf::Arena, (if rhs_is_broadcast { lhs } else { rhs }) as u64),
                Cmd::Buffer(1, Buf::Arena, (if rhs_is_broadcast { rhs } else { lhs }) as u64),
                Cmd::Buffer(2, Buf::Arena, dst as u64),
                Cmd::U32(3, rows),
                Cmd::U32(4, cols / 4),
                Cmd::U32(5, op),
                Cmd::Threads(
                    plane_of((cols / 4) as u64, rows as u64),
                    Group::Fixed(plane_of(least(64, (cols / 4) as u64), least(4, rows as u64))),
                ),
            ],
        );
    } else {
        emit(
            enc,
            vec![
                Cmd::Pipeline(Kernel::BinaryBroadcastRhsColF32),
                Cmd::Buffer(0, Buf::Arena, (if rhs_is_broadcast { lhs } else { rhs }) as u64),
                Cmd::Buffer(1, Buf::Arena, (if rhs_is_broadcast { rhs } else { lhs }) as u64),
                Cmd::Buffer(2, Buf::Arena, dst as u64),
                Cmd::U32(3, rows),
                Cmd::U32(4, cols),
                Cmd::U32(5, op),
                Cmd::Threads(
                    plane_of((cols) as u64, rows as u64),
                    Group::Fixed(plane_of(least(32, (cols) as u64), least(8, rows as u64))),
                ),
            ],
        );
    }
}

/// The steps of `encode_binary_broadcast_rank2`.
pub open spec fn binary_broadcast_rank2_steps(
    lhs: usize,
    rhs: usize,
    dst: usize,
    len: u32,
    dim0: u32,
    dim1: u32,
    lhs_stride0: u32,
    lhs_stride1: u32,
    rhs_stride0: u32,
    rhs_stride1: u32,
    op: u32,
) -> Seq<Cmd> {
    if in_fours(len) && dim1 % 4 == 0 && lhs_stride1 == 1
        && rhs_stride1 == 1 {
        seq![
            Cmd::Pipeline(Kernel::BinaryBroadcastRank24),
            Cmd::Buffer(0, Buf::Arena, lhs as u64),
            Cmd::Buffer(1, Buf::Arena, rhs as u64),
            Cmd::Buffer(2, Buf::Arena, dst as u64),
            Cmd::U32(3, len / 4),
            Cmd::U32(4, dim0),
            Cmd::U32(5, dim1),
            Cmd::U32(6, lhs_stride0),
            Cmd::U32(7, lhs_stride1),
            Cmd::U32(8, rhs_stride0),
            Cmd::U32(9, rhs_stride1),
            Cmd::U32(10, op),
            Cmd::Threads(
                one_row((len / 4) as u64),
                Group::ExecWidth(Kernel::BinaryBroadcastRank24, (len / 4) as u64),
            ),
        ]
    } else {
        seq![
            Cmd::Pipeline(Kernel::BinaryBroadcastRank2F32),
            Cmd::Buffer(0, Buf::Arena, lhs as u64),
            Cmd::Buffer(1, Buf::Arena, rhs as u64),
            Cmd::Buffer(2, Buf::Arena, dst as u64),
            Cmd::U32(3, len),
            Cmd::U32(4, dim0),
            Cmd::U32(5, dim1),
            Cmd::U32(6, lhs_stride0),
            Cmd::U32(7, lhs_stride1),
            Cmd::U32(8, rhs_stride0),
            Cmd::U32(9, rhs_stride1),
            Cmd::U32(10, op),
            Cmd::Threads(
                one_row((len) as u64),
                Group::ExecWidth(Kernel::BinaryBroadcastRank2F32, (len) as u64),
            ),
        ]
    }
}

/// A binary operator on two axes with strides of their own for each side.
pub fn encode_binary_broadcast_rank2(
    enc: &mut Vec<Cmd>,
    lhs: usize,
    rhs: usize,
    dst: usize,
    len: u32,
    dim0: u32,
    dim1: u32,
    lhs_stride0: u32,
    lhs_stride1: u32,
    rhs_stride0: u32,
    rhs_stride1: u32,
    op: u32,
)
    ensures
        final(enc)@ == old(enc)@ + binary_broadcast_rank2_steps(
            lhs,
            rhs,
            dst,
            len,
            dim0,
            dim1,
            lhs_stride0,
            lhs_stride1,
            rhs_stride0,
            rhs_stride1,
            op,
        ),
{
    if splits_in_fours(len) && dim1 % 4 == 0 && lhs_stride1 == 1 && rhs_stride1 == 1 {
        emit(
            enc,
            vec![
                Cmd::Pipeline(Kernel::BinaryBroadcastRank24),
                Cmd::Buffer(0, Buf::Arena, lhs as u64),
                Cmd::Buffer(1, Buf::Arena, rhs as u64),
                Cmd::Buffer(2, Buf::Arena, dst as u64),
                Cmd::U32(3, len / 4),
                Cmd::U32(4, dim0),
                Cmd::U32(5, dim1),
                Cmd::U32(6, lhs_stride0),
                Cmd::U32(7, lhs_stride1),
                Cmd::U32(8, rhs_stride0),
                Cmd::U32(9, rhs_stride1),
                Cmd::U32(10, op),
                Cmd::Threads(
                    row((len / 4) as u64),
                    Group::ExecWidth(Kernel::BinaryBroadcastRank24, (len / 4) as u64),
                ),
            ],
        );
    } else {
        emit(
            enc,
            vec![
                Cmd::Pipeline(Kernel::BinaryBroadcastRank2F32),
                Cmd::Buffer(0, Buf::Arena, lhs as u64),
                Cmd::Buffer(1, Buf::Arena, rhs as u64),
                Cmd::Buffer(2, Buf::Arena, dst as u64),
                Cmd::U32(3, len),
                Cmd::U32(4, dim0),
                Cmd::U32(5, dim1),
                Cmd::U32(6, lhs_stride0),
                Cmd::U32(7, lhs_stride1),
                Cmd::U32(8, rhs_stride0),
                Cmd::U32(9, rhs_stride1),
                Cmd::U32(10, op),
                Cmd::Threads(
                    row((len) as u64),
                    Group::ExecWidth(Kernel::BinaryBroadcastRank2F32, (len) as u64),
                ),
            ],
        );
    }
}

/// A binary operator on tensors of one shape.
pub open spec fn binary_steps(
    lhs: usize,
    rhs: usize,
    dst: usize,
    len: u32,
    op: BinaryOp,
    dt: HalfFlag,
) -> Seq<Cmd> {
    let by_offset = dt == HalfFlag::F32 && is_basic(op);
    let fours = by_offset && in_fours(len);
    let kernel = binary_kernel(dt, op, fours);
    let count = if fours {
        len / 4
    } else {
        len
    };
    let launch = Cmd::Threads(one_row(count as u64), Group::ExecWidth(kernel, count as u64));
    if by_offset {
        seq![
            Cmd::Pipeline(kernel),
            Cmd::Buffer(0, Buf::Arena, 0),
            Cmd::U64(1, lhs as u64),
            Cmd::U64(2, rhs as u64),
            Cmd::U64(3, dst as u64),
            Cmd::U32(4, count),
            launch,
        ]
    } else {
        seq![
            Cmd::Pipeline(kernel),
            Cmd::Buffer(0, Buf::Arena, lhs as u64),
            Cmd::Buffer(1, Buf::Arena, rhs as u64),
            Cmd::Buffer(2, Buf::Arena, dst as u64),
            Cmd::U32(3, count),
        ] + (match shared_opcode(op) {
            Some(number) => seq![Cmd::U32(4, number), launch],
            None => seq![launch],
        })
    }
}

/// Encodes a binary operator. Only the operators with a kernel for it run on groups of four, so
/// every element is covered.
pub fn encode_binary(
    enc: &mut Vec<Cmd>,
    lhs: usize,
    rhs: usize,
    dst: usize,
    len: u32,
    op: BinaryOp,
    dt: HalfFlag,
)
    ensures
        final(enc)@ == old(enc)@ + binary_steps(lhs, rhs, dst, len, op, dt),
{
    let by_offset: bool = dt == HalfFlag::F32 && basic(op);
    let fours: bool = by_offset && splits_in_fours(len);
    let kernel: Kernel = binary_pipeline(dt, op, fours);
    let count: u32 = if fours {
        len / 4
    } else {
        len
    };
    let launch: Cmd = Cmd::Threads(row(count as u64), Group::ExecWidth(kernel, count as u64));
    if by_offset {
        emit(
            enc,
            vec![
                Cmd::Pipeline(kernel),
                Cmd::Buffer(0, Buf::Arena, 0),
                Cmd::U64(1, lhs as u64),
                Cmd::U64(2, rhs as u64),
                Cmd::U64(3, dst as u64),
                Cmd::U32(4, count),
                launch,
            ],
        );
    } else {
        emit(
            enc,
            vec![
                Cmd::Pipeline(kernel),
                Cmd::Buffer(0, Buf::Arena, lhs as u64),
                Cmd::Buffer(1, Buf::Arena, rhs as u64),
                Cmd::Buffer(2, Buf::Arena, dst as u64),
                Cmd::U32(3, count),
            ],
        );
        if let Some(number) = shared_number(op) {
            emit(enc, vec![Cmd::U32(4, number)]);
        }
        emit(enc, vec![launch]);
    }
}

/// The values that one thread of a kernel computes.
pub open spec fn values_per_thread(kernel: Kernel) -> int {
    if kernel == Kernel::ElemAdd4 || kernel == Kernel::ElemMul4 || kernel == Kernel::ElemSub4
        || kernel == Kernel::ElemDiv4 || kernel == Kernel::GeluInplace4 || kernel
        == Kernel::GeluApproxInplace4 || kernel == Kernel::SiluInplace4 || kernel == Kernel::Copy4 {
        4
    } else {
        1
    }
}

/// The threads that a launch starts, each as many values as its kernel computes, cover exactly
/// the elements.
pub open spec fn covers(steps: Seq<Cmd>, len: u32) -> bool {
    &&& steps.len() > 0
    &&& steps[0] matches Cmd::Pipeline(kernel)
    &&& steps.last() matches Cmd::Threads(size, _)
    &&& size.width * values_per_thread(kernel) == len
    &&& size.height == 1
    &&& size.depth == 1
}

/// A binary operator computes every element, in groups of four or one by one.
pub proof fn lemma_binary_covers_every_element(
    lhs: usize,
    rhs: usize,
    dst: usize,
    len: u32,
    op: BinaryOp,
    dt: HalfFlag,
)
    ensures
        covers(binary_steps(lhs, rhs, dst, len, op, dt), len),
{
}

/// An activation in place computes every element.
pub proof fn lemma_activation_covers_every_element(
    data_off: usize,
    len: u32,
    act: Activation,
    dt: HalfFlag,
)
    ensures
        covers(activation_steps(data_off, len, act, dt), len),
{
}

/// The steps of `encode_compare`.
pub open spec fn compare_steps(
    lhs: usize,
    rhs: usize,
    dst: usize,
    len: u32,
    op: CompareOp,
    lhs_scalar: bool,
    rhs_scalar: bool,
) -> Seq<Cmd> {
    seq![
        Cmd::Pipeline(
            if lhs_scalar || rhs_scalar {
                Kernel::ElemCompareBcast
            } else {
                Kernel::ElemCompare
            },
        ),
        Cmd::Buffer(0, Buf::Arena, lhs as u64),
        Cmd::Buffer(1, Buf::Arena, rhs as u64),
        Cmd::Buffer(2, Buf::Arena, dst as u64),
        Cmd::U32(3, len),
        Cmd::U32(4, compare_code(op)),
    ] + (if lhs_scalar || rhs_scalar {
        seq![
            Cmd::U32(5, (bit(lhs_scalar) + bit(rhs_scalar) * 2) as u32),
        ]
    } else {
        Seq::<Cmd>::empty()
    }) + seq![
        Cmd::Threads(
            one_row(len as u64),
            Group::ExecWidth(
                if lhs_scalar || rhs_scalar {
                    Kernel::ElemCompareBcast
                } else {
                    Kernel::ElemCompare
                },
                len as u64,
            ),
        ),
    ]
}

/// Compares two tensors, of which either may be a single value.
pub fn encode_compare(
    enc: &mut Vec<Cmd>,
    lhs: usize,
    rhs: usize,
    dst: usize,
    len: u32,
    op: CompareOp,
    lhs_scalar: bool,
    rhs_scalar: bool,
)
    ensures
        final(enc)@ == old(enc)@ + compare_steps(lhs, rhs, dst, len, op, lhs_scalar, rhs_scalar),
{
    emit(
        enc,
        vec![
            Cmd::Pipeline(
                if lhs_scalar || rhs_scalar {
                    Kernel::ElemCompareBcast
                } else {
                    Kernel::ElemCompare
                },
            ),
            Cmd::Buffer(0, Buf::Arena, lhs as u64),
            Cmd::Buffer(1, Buf::Arena, rhs as u64),
            Cmd::Buffer(2, Buf::Arena, dst as u64),
            Cmd::U32(3, len),
            Cmd::U32(4, compare_number(op)),
        ],
    );
    if lhs_scalar || rhs_scalar {
        emit(
            enc,
            vec![
                Cmd::U32(5, (flag(lhs_scalar) + flag(rhs_scalar) * 2) as u32),
            ],
        );
    }
    emit(
        enc,
        vec![
            Cmd::Threads(
                row(len as u64),
                Group::ExecWidth(
                    if lhs_scalar || rhs_scalar {
                        Kernel::ElemCompareBcast
                    } else {
                        Kernel::ElemCompare
                    },
                    len as u64,
                ),
            ),
        ],
    );
}

/// The steps of `encode_where`.
pub open spec fn where_steps(
    cond: usize,
    on_true: usize,
    on_false: usize,
    dst: usize,
    len: u32,
    cond_scalar: bool,
    true_scalar: bool,
    false_scalar: bool,
) -> Seq<Cmd> {
    seq![
        Cmd::Pipeline(
            if cond_scalar || true_scalar || false_scalar {
                Kernel::ElemWhereBcast
            } else {
                Kernel::ElemWhere
            },
        ),
        Cmd::Buffer(0, Buf::Arena, cond as u64),
        Cmd::Buffer(1, Buf::Arena, on_true as u64),
        Cmd::Buffer(2, Buf::Arena, on_false as u64),
        Cmd::Buffer(3, Buf::Arena, dst as u64),
        Cmd::U32(4, len),
    ] + (if cond_scalar || true_scalar || false_scalar {
        seq![
            Cmd::U32(
                5,
                (bit(cond_scalar) + bit(true_scalar) * 2 + bit(false_scalar) * 4) as u32,
            ),
        ]
    } else {
        Seq::<Cmd>::empty()
    }) + seq![
        Cmd::Threads(
            one_row(len as u64),
            Group::ExecWidth(
                if cond_scalar || true_scalar || false_scalar {
                    Kernel::ElemWhereBcast
                } else {
                    Kernel::ElemWhere
                },
                len as u64,
            ),
        ),
    ]
}

/// Selects between two tensors by a third; each may be a single value.
pub fn encode_where(
    enc: &mut Vec<Cmd>,
    cond: usize,
    on_true: usize,
    on_false: usize,
    dst: usize,
    len: u32,
    cond_scalar: bool,
    true_scalar: bool,
    false_scalar: bool,
)
    ensures
        final(enc)@ == old(enc)@ + where_steps(
            cond,
            on_true,
            on_false,
            dst,
            len,
            cond_scalar,
            true_scalar,
            false_scalar,
        ),
{
    emit(
        enc,
        vec![
            Cmd::Pipeline(
                if cond_scalar || true_scalar || false_scalar {
                    Kernel::ElemWhereBcast
                } else {
                    Kernel::ElemWhere
                },
            ),
            Cmd::Buffer(0, Buf::Arena, cond as u64),
            Cmd::Buffer(1, Buf::Arena, on_true as u64),
            Cmd::Buffer(2, Buf::Arena, on_false as u64),
            Cmd::Buffer(3, Buf::Arena, dst as u64),
            Cmd::U32(4, len),
        ],
    );
    if cond_scalar || true_scalar || false_scalar {
        emit(
            enc,
            vec![
                Cmd::U32(
                    5,
                    (flag(cond_scalar) + flag(true_scalar) * 2 + flag(false_scalar) * 4) as u32,
                ),
            ],
        );
    }
    emit(
        enc,
        vec![
            Cmd::Threads(
                row(len as u64),
                Group::ExecWidth(
                    if cond_scalar || true_scalar || false_scalar {
                        Kernel::ElemWhereBcast
                    } else {
                        Kernel::ElemWhere
                    },
                    len as u64,
                ),
            ),
        ],
    );
}

/// The steps of `encode_fma`.
pub open spec fn fma_steps(a: usize, b: usize, c: usize, dst: usize, len: u32) -> Seq<Cmd> {
    seq![
        Cmd::Pipeline(Kernel::ElemFma),
        Cmd::Buffer(0, Buf::Arena, a as u64),
        Cmd::Buffer(1, Buf::Arena, b as u64),
        Cmd::Buffer(2, Buf::Arena, c as u64),
        Cmd::Buffer(3, Buf::Arena, dst as u64),
        Cmd::U32(4, len),
        Cmd::Threads(one_row(len as u64), Group::ExecWidth(Kernel::ElemFma, len as u64)),
    ]
}

/// `a * b + c`.
pub fn encode_fma(enc: &mut Vec<Cmd>, a: usize, b: usize, c: usize, dst: usize, len: u32)
    ensures
        final(enc)@ == old(enc)@ + fma_steps(a, b, c, dst, len),
{
    emit(
        enc,
        vec![
            Cmd::Pipeline(Kernel::ElemFma),
            Cmd::Buffer(0, Buf::Arena, a as u64),
            Cmd::Buffer(1, Buf::Arena, b as u64),
            Cmd::Buffer(2, Buf::Arena, c as u64),
            Cmd::Buffer(3, Buf::Arena, dst as u64),
            Cmd::U32(4, len),
            Cmd::Threads(row(len as u64), Group::ExecWidth(Kernel::ElemFma, len as u64)),
        ],
    );
}

/// The steps of `encode_relu_backward`.
pub open spec fn relu_backward_steps(x: usize, dy: usize, dx: usize, len: u32) -> Seq<Cmd> {
    seq![
        Cmd::Pipeline(Kernel::ReluBackward),
        Cmd::Buffer(0, Buf::Arena, x as u64),
        Cmd::Buffer(1, Buf::Arena, dy as u64),
        Cmd::Buffer(2, Buf::Arena, dx as u64),
        Cmd::U32(3, len),
        Cmd::Threads(one_row(len as u64), Group::ExecWidth(Kernel::ReluBackward, len as u64)),
    ]
}

/// The gradient of ReLU.
pub fn encode_relu_backward(enc: &mut Vec<Cmd>, x: usize, dy: usize, dx: usize, len: u32)
    ensures
        final(enc)@ == old(enc)@ + relu_backward_steps(x, dy, dx, len),
{
    emit(
        enc,
        vec![
            Cmd::Pipeline(Kernel::ReluBackward),
            Cmd::Buffer(0, Buf::Arena, x as u64),
            Cmd::Buffer(1, Buf::Arena, dy as u64),
            Cmd::Buffer(2, Buf::Arena, dx as u64),
            Cmd::U32(3, len),
            Cmd::Threads(row(len as u64), Group::ExecWidth(Kernel::ReluBackward, len as u64)),
        ],
    );
}

/// The steps of `encode_activation_backward`.
pub open spec fn activation_backward_steps(
    x: usize,
    dy: usize,
    dx: usize,
    len: u32,
    op: u32,
) -> Seq<Cmd> {
    seq![
        Cmd::Pipeline(Kernel::ActivationBackward),
        Cmd::Buffer(0, Buf::Arena, x as u64),
        Cmd::Buffer(1, Buf::Arena, dy as u64),
        Cmd::Buffer(2, Buf::Arena, dx as u64),
        Cmd::U32(3, len),
        Cmd::U32(4, op),
        Cmd::Threads(
            one_row(len as u64),
            Group::ExecWidth(Kernel::ActivationBackward, len as u64),
        ),
    ]
}

/// The gradient of an activation, given by its number.
pub fn encode_activation_backward(
    enc: &mut Vec<Cmd>,
    x: usize,
    dy: usize,
    dx: usize,
    len: u32,
    op: u32,
)
    ensures
        final(enc)@ == old(enc)@ + activation_backward_steps(x, dy, dx, len, op),
{
    emit(
        enc,
        vec![
            Cmd::Pipeline(Kernel::ActivationBackward),
            Cmd::Buffer(0, Buf::Arena, x as u64),
            Cmd::Buffer(1, Buf::Arena, dy as u64),
            Cmd::Buffer(2, Buf::Arena, dx as u64),
            Cmd::U32(3, len),
            Cmd::U32(4, op),
            Cmd::Threads(row(len as u64), Group::ExecWidth(Kernel::ActivationBackward, len as u64)),
        ],
    );
}

/// The steps of `encode_complex_norm_sq`.
pub open spec fn complex_norm_sq_steps(src: usize, dst: usize, len: u32) -> Seq<Cmd> {
    seq![
        Cmd::Pipeline(Kernel::ComplexNormSq),
        Cmd::Buffer(0, Buf::Arena, src as u64),
        Cmd::Buffer(1, Buf::Arena, dst as u64),
        Cmd::U32(2, len),
        Cmd::Threads(one_row(len as u64), Group::ExecWidth(Kernel::ComplexNormSq, len as u64)),
    ]
}

/// Squared norms of complex numbers.
pub fn encode_complex_norm_sq(enc: &mut Vec<Cmd>, src: usize, dst: usize, len: u32)
    ensures
        final(enc)@ == old(enc)@ + complex_norm_sq_steps(src, dst, len),
{
    emit(
        enc,
        vec![
            Cmd::Pipeline(Kernel::ComplexNormSq),
            Cmd::Buffer(0, Buf::Arena, src as u64),
            Cmd::Buffer(1, Buf::Arena, dst as u64),
            Cmd::U32(2, len),
            Cmd::Threads(row(len as u64), Group::ExecWidth(Kernel::ComplexNormSq, len as u64)),
        ],
    );
}

/// The steps of `encode_complex_norm_sq_backward`.
pub open spec fn complex_norm_sq_backward_steps(
    z: usize,
    g: usize,
    dz: usize,
    len: u32,
) -> Seq<Cmd> {
    seq![
        Cmd::Pipeline(Kernel::ComplexNormSqBackward),
        Cmd::Buffer(0, Buf::Arena, z as u64),
        Cmd::Buffer(1, Buf::Arena, g as u64),
        Cmd::Buffer(2, Buf::Arena, dz as u64),
        Cmd::U32(3, len),
        Cmd::Threads(
            one_row(len as u64),
            Group::ExecWidth(Kernel::ComplexNormSqBackward, len as u64),
        ),
    ]
}

/// The gradient of the squared norm.
pub fn encode_complex_norm_sq_backward(enc: &mut Vec<Cmd>, z: usize, g: usize, dz: usize, len: u32)
    ensures
        final(enc)@ == old(enc)@ + complex_norm_sq_backward_steps(z, g, dz, len),
{
    emit(
        enc,
        vec![
            Cmd::Pipeline(Kernel::ComplexNormSqBackward),
            Cmd::Buffer(0, Buf::Arena, z as u64),
            Cmd::Buffer(1, Buf::Arena, g as u64),
            Cmd::Buffer(2, Buf::Arena, dz as u64),
            Cmd::U32(3, len),
            Cmd::Threads(
                row(len as u64),
                Group::ExecWidth(Kernel::ComplexNormSqBackward, len as u64),
            ),
        ],
    );
}

/// The steps of `encode_conjugate_c64`.
pub open spec fn conjugate_c64_steps(src: usize, dst: usize, len: u32) -> Seq<Cmd> {
    seq![
        Cmd::Pipeline(Kernel::ConjugateC64),
        Cmd::Buffer(0, Buf::Arena, src as u64),
        Cmd::Buffer(1, Buf::Arena, dst as u64),
        Cmd::U32(2, len),
        Cmd::Threads(one_row(len as u64), Group::ExecWidth(Kernel::ConjugateC64, len as u64)),
    ]
}

/// Complex conjugates.
pub fn encode_conjugate_c64(enc: &mut Vec<Cmd>, src: usize, dst: usize, len: u32)
    ensures
        final(enc)@ == old(enc)@ + conjugate_c64_steps(src, dst, len),
{
    emit(
        enc,
        vec![
            Cmd::Pipeline(Kernel::ConjugateC64),
            Cmd::Buffer(0, Buf::Arena, src as u64),
            Cmd::Buffer(1, Buf::Arena, dst as u64),
            Cmd::U32(2, len),
            Cmd::Threads(row(len as u64), Group::ExecWidth(Kernel::ConjugateC64, len as u64)),
        ],
    );
}

/// The steps of `encode_fake_quantize_fixed`.
pub open spec fn fake_quantize_fixed_steps(
    src: usize,
    scale: usize,
    dst: usize,
    n: u32,
    chan_dim: u32,
    inner: u32,
    q_max: u32,
) -> Seq<Cmd> {
    if n == 0 {
        Seq::<Cmd>::empty()
    } else {
        seq![
            Cmd::Pipeline(Kernel::FakeQuantizeFixed),
            Cmd::Buffer(0, Buf::Arena, src as u64),
            Cmd::Buffer(1, Buf::Arena, scale as u64),
            Cmd::Buffer(2, Buf::Arena, dst as u64),
            Cmd::U32x4(3, n, chan_dim, inner, q_max),
            Cmd::Threads(
                one_row(n as u64),
                Group::ExecWidth(Kernel::FakeQuantizeFixed, n as u64),
            ),
        ]
    }
}

/// Rounds to a quantization grid with given scales; nothing for no elements.
pub fn encode_fake_quantize_fixed(
    enc: &mut Vec<Cmd>,
    src: usize,
    scale: usize,
    dst: usize,
    n: u32,
    chan_dim: u32,
    inner: u32,
    q_max: u32,
)
    ensures
        final(enc)@ == old(enc)@ + fake_quantize_fixed_steps(
            src,
            scale,
            dst,
            n,
            chan_dim,
            inner,
            q_max,
        ),
{
    if n == 0 {
    } else {
        emit(
            enc,
            vec![
                Cmd::Pipeline(Kernel::FakeQuantizeFixed),
                Cmd::Buffer(0, Buf::Arena, src as u64),
                Cmd::Buffer(1, Buf::Arena, scale as u64),
                Cmd::Buffer(2, Buf::Arena, dst as u64),
                Cmd::U32x4(3, n, chan_dim, inner, q_max),
                Cmd::Threads(row(n as u64), Group::ExecWidth(Kernel::FakeQuantizeFixed, n as u64)),
            ],
        );
    }
}

/// The steps of `encode_fake_quantize_perbatch`.
pub open spec fn fake_quantize_perbatch_steps(
    src: usize,
    dst: usize,
    n: u32,
    chan_dim: u32,
    inner: u32,
    q_max: u32,
) -> Seq<Cmd> {
    if n == 0 || chan_dim == 0 {
        Seq::<Cmd>::empty()
    } else {
        seq![
            Cmd::Pipeline(Kernel::FakeQuantizePerbatch),
            Cmd::Buffer(0, Buf::Arena, src as u64),
            Cmd::Buffer(1, Buf::Arena, dst as u64),
            Cmd::U32x4(2, n, chan_dim, inner, q_max),
            Cmd::Threads(
                one_row(chan_dim as u64),
                Group::ExecWidth(Kernel::FakeQuantizePerbatch, chan_dim as u64),
            ),
        ]
    }
}

/// Rounds to a quantization grid with scales from the data; nothing for no elements.
pub fn encode_fake_quantize_perbatch(
    enc: &mut Vec<Cmd>,
    src: usize,
    dst: usize,
    n: u32,
    chan_dim: u32,
    inner: u32,
    q_max: u32,
)
    ensures
        final(enc)@ == old(enc)@ + fake_quantize_perbatch_steps(
            src,
            dst,
            n,
            chan_dim,
            inner,
            q_max,
        ),
{
    if n == 0 || chan_dim == 0 {
    } else {
        emit(
            enc,
            vec![
                Cmd::Pipeline(Kernel::FakeQuantizePerbatch),
                Cmd::Buffer(0, Buf::Arena, src as u64),
                Cmd::Buffer(1, Buf::Arena, dst as u64),
                Cmd::U32x4(2, n, chan_dim, inner, q_max),
                Cmd::Threads(
                    row(chan_dim as u64),
                    Group::ExecWidth(Kernel::FakeQuantizePerbatch, chan_dim as u64),
                ),
            ],
        );
    }
}

pub open spec fn swiglu_kernel(src_dt: HalfFlag, dst_dt: HalfFlag) -> Kernel {
    match (src_dt, dst_dt) {
        (HalfFlag::F32, HalfFlag::F32) => Kernel::FusedSwiglu,
        (HalfFlag::F16, HalfFlag::F16) => Kernel::FusedSwigluH,
        (HalfFlag::F32, HalfFlag::F16) => Kernel::FusedSwigluCastF32ToF16,
        (HalfFlag::F16, HalfFlag::F32) => Kernel::FusedSwigluCastF16ToF32,
    }
}

/// The steps of `encode_fused_swiglu`.
pub open spec fn fused_swiglu_steps(
    src: usize,
    dst: usize,
    n_half: u32,
    total: u32,
    src_dt: HalfFlag,
    dst_dt: HalfFlag,
    gate_first: bool,
) -> Seq<Cmd> {
    seq![
        Cmd::Pipeline(swiglu_kernel(src_dt, dst_dt)),
        Cmd::Buffer(0, Buf::Arena, src as u64),
        Cmd::Buffer(1, Buf::Arena, dst as u64),
        Cmd::U32(2, n_half),
        Cmd::U32(3, total),
        Cmd::U32(4, bit(gate_first)),
        Cmd::Threads(
            one_row(total as u64),
            Group::ExecWidth(swiglu_kernel(src_dt, dst_dt), total as u64),
        ),
    ]
}

/// SwiGLU of the two halves of each row, converting precision where the two differ.
pub fn encode_fused_swiglu(
    enc: &mut Vec<Cmd>,
    src: usize,
    dst: usize,
    n_half: u32,
    total: u32,
    src_dt: HalfFlag,
    dst_dt: HalfFlag,
    gate_first: bool,
)
    ensures
        final(enc)@ == old(enc)@ + fused_swiglu_steps(
            src,
            dst,
            n_half,
            total,
            src_dt,
            dst_dt,
            gate_first,
        ),
{
    let kernel: Kernel = match (src_dt, dst_dt) {
        (HalfFlag::F32, HalfFlag::F32) => Kernel::FusedSwiglu,
        (HalfFlag::F16, HalfFlag::F16) => Kernel::FusedSwigluH,
        (HalfFlag::F32, HalfFlag::F16) => Kernel::FusedSwigluCastF32ToF16,
        (HalfFlag::F16, HalfFlag::F32) => Kernel::FusedSwigluCastF16ToF32,
    };
    emit(
        enc,
        vec![
            Cmd::Pipeline(kernel),
            Cmd::Buffer(0, Buf::Arena, src as u64),
            Cmd::Buffer(1, Buf::Arena, dst as u64),
            Cmd::U32(2, n_half),
            Cmd::U32(3, total),
            Cmd::U32(4, flag(gate_first)),
            Cmd::Threads(row(total as u64), Group::ExecWidth(kernel, total as u64)),
        ],
    );
}

/// The steps of `encode_elementwise_region`.
pub open spec fn elementwise_region_steps(
    len: u32,
    num_inputs: u32,
    num_steps: u32,
    dst: usize,
    input_offs: Seq<u32>,
    chain: Seq<u32>,
    scalar_input_mask: u32,
    input_modulus: Seq<u32>,
    prologue: u32,
    out_n: u32,
    out_c: u32,
    out_h: u32,
    out_w: u32,
    prologue_input: u32,
) -> Seq<Cmd> {
    seq![
        Cmd::Pipeline(Kernel::ElementwiseRegion),
        Cmd::Buffer(0, Buf::Arena, 0),
        Cmd::U32(1, len),
        Cmd::U32(2, num_inputs),
        Cmd::U32(3, num_steps),
        Cmd::U32(4, f32_index(dst)),
    ] + array_steps(5, input_offs) + array_steps(6, chain) + seq![
        Cmd::U32(7, scalar_input_mask),
    ] + array_steps(8, input_modulus) + seq![
        Cmd::U32(9, prologue),
        Cmd::U32(10, out_n),
        Cmd::U32(11, out_c),
        Cmd::U32(12, out_h),
        Cmd::U32(13, out_w),
        Cmd::U32(14, prologue_input),
    ] + (if prologue != 0 && out_h > 0 && out_w > 0 {
        seq![
            Cmd::Threads(
                Size {
                    width: out_w as u64,
                    height: out_h as u64,
                    depth: (out_n * out_c) as u64,
                },
                Group::Fixed(plane(min_u64(8, out_w as u64), min_u64(8, out_h as u64))),
            ),
        ]
    } else {
        seq![
            Cmd::Threads(
                one_row(len as u64),
                Group::ExecWidth(Kernel::ElementwiseRegion, len as u64),
            ),
        ]
    })
}

/// A chain of elementwise steps on up to sixteen inputs. With a prologue that reads the output
/// spatially the threads follow its shape.
pub fn encode_elementwise_region(
    enc: &mut Vec<Cmd>,
    len: u32,
    num_inputs: u32,
    num_steps: u32,
    dst: usize,
    input_offs: &[u32],
    chain: &[u32],
    scalar_input_mask: u32,
    input_modulus: &[u32],
    prologue: u32,
    out_n: u32,
    out_c: u32,
    out_h: u32,
    out_w: u32,
    prologue_input: u32,
)
    ensures
        final(enc)@ == old(enc)@ + elementwise_region_steps(
            len,
            num_inputs,
            num_steps,
            dst,
            input_offs@,
            chain@,
            scalar_input_mask,
            input_modulus@,
            prologue,
            out_n,
            out_c,
            out_h,
            out_w,
            prologue_input,
        ),
{
    assert(out_n * out_c <= 0xffff_ffff * 0xffff_ffff) by (nonlinear_arith);
    emit(
        enc,
        vec![
            Cmd::Pipeline(Kernel::ElementwiseRegion),
            Cmd::Buffer(0, Buf::Arena, 0),
            Cmd::U32(1, len),
            Cmd::U32(2, num_inputs),
            Cmd::U32(3, num_steps),
            Cmd::U32(4, f32_index_of(dst)),
        ],
    );
    emit_array(enc, 5, input_offs);
    emit_array(enc, 6, chain);
    emit(
        enc,
        vec![
            Cmd::U32(7, scalar_input_mask),
        ],
    );
    emit_array(enc, 8, input_modulus);
    emit(
        enc,
        vec![
            Cmd::U32(9, prologue),
            Cmd::U32(10, out_n),
            Cmd::U32(11, out_c),
            Cmd::U32(12, out_h),
            Cmd::U32(13, out_w),
            Cmd::U32(14, prologue_input),
        ],
    );
    if prologue != 0 && out_h > 0 && out_w > 0 {
        emit(
            enc,
            vec![
                Cmd::Threads(
                    Size {
                        width: out_w as u64,
                        height: out_h as u64,
                        depth: (out_n as u64) * (out_c as u64),
                    },
                    Group::Fixed(plane_of(least(8, out_w as u64), least(8, out_h as u64))),
                ),
            ],
        );
    } else {
        emit(
            enc,
            vec![
                Cmd::Threads(
                    row(len as u64),
                    Group::ExecWidth(Kernel::ElementwiseRegion, len as u64),
                ),
            ],
        );
    }
}

/// The steps of `encode_batch_elementwise_region`.
pub open spec fn batch_elementwise_region_steps(
    slice_len: u32,
    num_batch: u32,
    num_steps: u32,
    base_dst: usize,
    slice_elems: u32,
    batch_input_offs: Seq<u32>,
    chain: Seq<u32>,
    scalar_input_mask: u32,
    input_modulus: Seq<u32>,
) -> Seq<Cmd> {
    seq![
        Cmd::Pipeline(Kernel::BatchElementwiseRegion),
        Cmd::Buffer(0, Buf::Arena, 0),
        Cmd::U32(1, slice_len),
        Cmd::U32(2, num_batch),
        Cmd::U32(3, num_steps),
        Cmd::U32(4, f32_index(base_dst)),
        Cmd::U32(5, slice_elems),
    ] + array_steps(6, batch_input_offs) + array_steps(7, chain) + seq![
        Cmd::U32(8, scalar_input_mask),
    ] + array_steps(9, input_modulus) + seq![
        Cmd::Threads(
            Size { width: slice_len as u64, height: 1, depth: num_batch as u64 },
            Group::ExecWidth(Kernel::BatchElementwiseRegion, slice_len as u64),
        ),
    ]
}

/// The same chain on every slice of a batch.
pub fn encode_batch_elementwise_region(
    enc: &mut Vec<Cmd>,
    slice_len: u32,
    num_batch: u32,
    num_steps: u32,
    base_dst: usize,
    slice_elems: u32,
    batch_input_offs: &[u32],
    chain: &[u32],
    scalar_input_mask: u32,
    input_modulus: &[u32],
)
    ensures
        final(enc)@ == old(enc)@ + batch_elementwise_region_steps(
            slice_len,
            num_batch,
            num_steps,
            base_dst,
            slice_elems,
            batch_input_offs@,
            chain@,
            scalar_input_mask,
            input_modulus@,
        ),
{
    emit(
        enc,
        vec![
            Cmd::Pipeline(Kernel::BatchElementwiseRegion),
            Cmd::Buffer(0, Buf::Arena, 0),
            Cmd::U32(1, slice_len),
            Cmd::U32(2, num_batch),
            Cmd::U32(3, num_steps),
            Cmd::U32(4, f32_index_of(base_dst)),
            Cmd::U32(5, slice_elems),
        ],
    );
    emit_array(enc, 6, batch_input_offs);
    emit_array(enc, 7, chain);
    emit(
        enc,
        vec![
            Cmd::U32(8, scalar_input_mask),
        ],
    );
    emit_array(enc, 9, input_modulus);
    emit(
        enc,
        vec![
            Cmd::Threads(
                Size { width: slice_len as u64, height: 1, depth: num_batch as u64 },
                Group::ExecWidth(Kernel::BatchElementwiseRegion, slice_len as u64),
            ),
        ],
    );
}

/// The steps of `encode_spline_activation`.
pub open spec fn spline_activation_steps(
    x: usize,
    coeff: usize,
    dst: usize,
    total: u32,
    channels: u32,
    num_basis: u32,
    grid_min: u32,
    grid_max: u32,
) -> Seq<Cmd> {
    seq![
        Cmd::Pipeline(Kernel::SplineActivation),
        Cmd::Buffer(0, Buf::Arena, 0),
        Cmd::U64(1, x as u64),
        Cmd::U64(2, coeff as u64),
        Cmd::U64(3, dst as u64),
        Cmd::U32(4, total),
        Cmd::U32(5, channels),
        Cmd::U32(6, num_basis),
        Cmd::U32(7, grid_min),
        Cmd::U32(8, grid_max),
        Cmd::Threads(one_row(total as u64), Group::Fixed(one_row(min_u64(256, total as u64)))),
    ]
}

/// A spline activation with coefficients per channel.
pub fn encode_spline_activation(
    enc: &mut Vec<Cmd>,
    x: usize,
    coeff: usize,
    dst: usize,
    total: u32,
    channels: u32,
    num_basis: u32,
    grid_min: u32,
    grid_max: u32,
)
    ensures
        final(enc)@ == old(enc)@ + spline_activation_steps(
            x,
            coeff,
            dst,
            total,
            channels,
            num_basis,
            grid_min,
            grid_max,
        ),
{
    emit(
        enc,
        vec![
            Cmd::Pipeline(Kernel::SplineActivation),
            Cmd::Buffer(0, Buf::Arena, 0),
            Cmd::U64(1, x as u64),
            Cmd::U64(2, coeff as u64),
            Cmd::U64(3, dst as u64),
            Cmd::U32(4, total),
            Cmd::U32(5, channels),
            Cmd::U32(6, num_basis),
            Cmd::U32(7, grid_min),
            Cmd::U32(8, grid_max),
            Cmd::Threads(row(total as u64), Group::Fixed(row(least(256, total as u64)))),
        ],
    );
}

} // verus!
