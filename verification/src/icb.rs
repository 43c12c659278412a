//! Pre-encoded command segments: runs of simple compute steps, encoded once into an indirect
//! command buffer and submitted as one.
//!
//! An indirect command has no inline constants. Each command owns a slice of one shared
//! constants buffer instead, and binds places of that slice.

use vstd::prelude::*;

use crate::command::{
    bit, flag, least, min_u64, one_row, plane, plane_of, reduction_span, reduction_width, row,
    Activation, Buf, Cmd, Group, HalfFlag, Kernel, Size,
};
use crate::encode::elementwise::{
    activation_steps, bias_add_steps, binary_steps, copy_steps, in_fours, BinaryOp,
};
use crate::encode::norm::{fused_residual_ln_steps, layer_norm_steps, rope_steps};

verus! {

/// One scheduled step of a compiled graph. Only the kinds that can enter a segment carry their
/// operands here. Offsets are bytes into the arena, `eps` is the bit pattern of a float.
#[derive(Clone, Copy, Debug, PartialEq, Eq, Structural)]
pub enum Thunk {
    Nop,
    Cast,
    Sgemm,
    FusedMmBiasAct,
    BiasAdd { src: usize, bias: usize, dst: usize, m: u32, n: u32, dt: HalfFlag },
    ActivationInPlace { data: usize, len: u32, act: Activation, dt: HalfFlag },
    BinaryFull { lhs: usize, rhs: usize, dst: usize, len: u32, op: BinaryOp, dt: HalfFlag },
    Copy { src: usize, dst: usize, len: u32, dt: HalfFlag },
    LayerNorm {
        src: usize,
        g: usize,
        b: usize,
        dst: usize,
        rows: u32,
        h: u32,
        eps: u32,
        dt: HalfFlag,
    },
    RmsNorm,
    Softmax,
    SoftmaxCrossEntropyDense,
    Reduce,
    Gather,
    Narrow {
        src: usize,
        dst: usize,
        outer: u32,
        src_axis: u32,
        start: u32,
        len: u32,
        dt: HalfFlag,
    },
    Transpose,
    Concat,
    Attention,
    Rope {
        src: usize,
        cos: usize,
        sin: usize,
        dst: usize,
        batch: u32,
        seq: u32,
        hidden: u32,
        head_dim: u32,
        n_rot: u32,
        src_row_stride: u32,
        cos_per_token: bool,
        interleaved: bool,
        dt: HalfFlag,
    },
    FusedResidualLN {
        x: usize,
        res: usize,
        g: usize,
        b: usize,
        out: usize,
        rows: u32,
        h: u32,
        eps: u32,
        dt: HalfFlag,
    },
    Other,
}

/// The name of a step's kind, for diagnostics.
pub open spec fn kind_name(t: Thunk) -> Seq<char> {
    match t {
        Thunk::Nop => "Nop"@,
        Thunk::Cast => "Cast"@,
        Thunk::Sgemm => "Sgemm"@,
        Thunk::FusedMmBiasAct => "FusedMmBiasAct"@,
        Thunk::BiasAdd { .. } => "BiasAdd"@,
        Thunk::ActivationInPlace { .. } => "ActivationInPlace"@,
        Thunk::BinaryFull { .. } => "BinaryFull"@,
        Thunk::Copy { .. } => "Copy"@,
        Thunk::LayerNorm { .. } => "LayerNorm"@,
        Thunk::RmsNorm => "RmsNorm"@,
        Thunk::Softmax => "Softmax"@,
        Thunk::SoftmaxCrossEntropyDense => "SoftmaxCrossEntropy"@,
        Thunk::Reduce => "Reduce"@,
        Thunk::Gather => "Gather"@,
        Thunk::Narrow { .. } => "Narrow"@,
        Thunk::Transpose => "Transpose"@,
        Thunk::Concat => "Concat"@,
        Thunk::Attention => "Attention"@,
        Thunk::Rope { .. } => "Rope"@,
        Thunk::FusedResidualLN { .. } => "FusedResidualLN"@,
        Thunk::Other => "Other"@,
    }
}

pub fn thunk_kind(t: &Thunk) -> (r: &'static str)
    ensures
        r@ == kind_name(*t),
{
    match t {
        Thunk::Nop => "Nop",
        Thunk::Cast => "Cast",
        Thunk::Sgemm => "Sgemm",
        Thunk::FusedMmBiasAct => "FusedMmBiasAct",
        Thunk::BiasAdd { .. } => "BiasAdd",
        Thunk::ActivationInPlace { .. } => "ActivationInPlace",
        Thunk::BinaryFull { .. } => "BinaryFull",
        Thunk::Copy { .. } => "Copy",
        Thunk::LayerNorm { .. } => "LayerNorm",
        Thunk::RmsNorm => "RmsNorm",
        Thunk::Softmax => "Softmax",
        Thunk::SoftmaxCrossEntropyDense => "SoftmaxCrossEntropy",
        Thunk::Reduce => "Reduce",
        Thunk::Gather => "Gather",
        Thunk::Narrow { .. } => "Narrow",
        Thunk::Transpose => "Transpose",
        Thunk::Concat => "Concat",
        Thunk::Attention => "Attention",
        Thunk::Rope { .. } => "Rope",
        Thunk::FusedResidualLN { .. } => "FusedResidualLN",
        Thunk::Other => "Other",
    }
}

/// The precision of a step of a kind that can enter a segment.
pub open spec fn segment_dtype(t: Thunk) -> Option<HalfFlag> {
    match t {
        Thunk::BiasAdd { dt, .. } => Some(dt),
        Thunk::ActivationInPlace { dt, .. } => Some(dt),
        Thunk::BinaryFull { dt, .. } => Some(dt),
        Thunk::Copy { dt, .. } => Some(dt),
        Thunk::LayerNorm { dt, .. } => Some(dt),
        Thunk::FusedResidualLN { dt, .. } => Some(dt),
        Thunk::Narrow { dt, .. } => Some(dt),
        Thunk::Rope { dt, .. } => Some(dt),
        _ => None,
    }
}

/// The kernels of a segment cover a step: a bias that is added in place, a Gelu or a Silu, a sum or
/// a product, and every step of the other kinds.
pub open spec fn covered(t: Thunk) -> bool {
    match t {
        Thunk::BiasAdd { src, dst, .. } => src == dst,
        Thunk::ActivationInPlace { act, .. } => act == Activation::Gelu || act == Activation::Silu,
        Thunk::BinaryFull { op, .. } => op == BinaryOp::Add || op == BinaryOp::Mul,
        _ => segment_dtype(t) is Some,
    }
}

/// Covered steps enter a segment, in single precision only. Everything else runs inline.
pub open spec fn compatible(t: Thunk) -> bool {
    covered(t) && segment_dtype(t) == Some(HalfFlag::F32)
}

pub fn is_icb_compatible(t: &Thunk) -> (r: bool)
    ensures
        r == compatible(*t),
{
    match t {
        Thunk::BiasAdd { src, dst, dt, .. } => *src == *dst && *dt == HalfFlag::F32,
        Thunk::ActivationInPlace { act, dt, .. } => matches!(
            *act,
            Activation::Gelu | Activation::Silu
        ) && *dt == HalfFlag::F32,
        Thunk::BinaryFull { op, dt, .. } => matches!(*op, BinaryOp::Add | BinaryOp::Mul) && *dt
            == HalfFlag::F32,
        Thunk::Copy { dt, .. } => *dt == HalfFlag::F32,
        Thunk::LayerNorm { dt, .. } => *dt == HalfFlag::F32,
        Thunk::FusedResidualLN { dt, .. } => *dt == HalfFlag::F32,
        Thunk::Narrow { dt, .. } => *dt == HalfFlag::F32,
        Thunk::Rope { dt, .. } => *dt == HalfFlag::F32,
        _ => false,
    }
}

/// The slice of the constants buffer that each command owns.
pub const CONSTANTS_BYTES_PER_CMD: usize = 64;

/// The fewest commands for which a segment is worth its submission.
pub const MIN_ICB_RUN: usize = 2;

/// The buffer slots that a command can bind.
pub const MAX_KERNEL_BUFFER_BINDS: u64 = 16;

/// One part of an indirect command. Places are bytes into the constants buffer.
#[derive(Clone, Copy, Debug, PartialEq, Eq, Structural)]
pub enum IcbStep {
    /// Writes a constant.
    Write32(usize, u32),
    Write64(usize, u64),
    Pipeline(Kernel),
    /// Binds a slot to the arena, from a byte offset on.
    Arena(u64, u64),
    /// Binds a slot to a place of the constants buffer.
    Constant(u64, usize),
    Threads(Size, Group),
    Groups(Size, Size),
    /// Ends the command; the next one waits for it.
    Barrier,
}

/// Steps whose dimensions can be computed: heads have a width, and the tokens fit.
pub open spec fn encodable(t: Thunk) -> bool {
    match t {
        Thunk::Rope { batch, seq, head_dim, .. } => head_dim > 0 && batch * seq <= u32::MAX,
        _ => true,
    }
}

/// A launch of one thread per element.
pub open spec fn per_element(kernel: Kernel, len: u32) -> IcbStep {
    IcbStep::Threads(one_row(len as u64), Group::ExecWidth(kernel, len as u64))
}

/// A launch of one thread per cell of a matrix, in tiles of at most 16 by 16.
pub open spec fn per_cell(width: u32, height: u32) -> IcbStep {
    IcbStep::Threads(
        plane(width as u64, height as u64),
        Group::Fixed(plane(min_u64(16, width as u64), min_u64(16, height as u64))),
    )
}

/// What a step becomes in a command whose constants start at `at`. A bias that is not added in
/// place, an activation other than Gelu and Silu, and an operation other than a sum or a product
/// bind no pipeline.
pub open spec fn icb_steps(t: Thunk, at: usize) -> Seq<IcbStep> {
    match t {
        Thunk::BiasAdd { src, bias, dst, m, n, .. } => if src != dst {
            seq![]
        } else {
            seq![
                IcbStep::Write32(at, m),
                IcbStep::Write32((at + 4) as usize, n),
                IcbStep::Pipeline(Kernel::BiasAdd),
                IcbStep::Arena(0, dst as u64),
                IcbStep::Arena(1, bias as u64),
                IcbStep::Constant(2, at),
                IcbStep::Constant(3, (at + 4) as usize),
                per_cell(n, m),
            ]
        },
        Thunk::ActivationInPlace { data, len, act, .. } => match act {
            Activation::Gelu => seq![
                IcbStep::Pipeline(Kernel::GeluInplace),
                IcbStep::Write64(at, data as u64),
                IcbStep::Write32((at + 8) as usize, len),
                IcbStep::Arena(0, 0),
                IcbStep::Constant(1, at),
                IcbStep::Constant(2, (at + 8) as usize),
                per_element(Kernel::GeluInplace, len),
            ],
            Activation::Silu => seq![
                IcbStep::Pipeline(Kernel::SiluInplace),
                IcbStep::Write32(at, len),
                IcbStep::Arena(0, data as u64),
                IcbStep::Constant(1, at),
                per_element(Kernel::SiluInplace, len),
            ],
            _ => seq![],
        },
        Thunk::BinaryFull { lhs, rhs, dst, len, op, .. } => {
            let constants = seq![
                IcbStep::Write64(at, lhs as u64),
                IcbStep::Write64((at + 8) as usize, rhs as u64),
                IcbStep::Write64((at + 16) as usize, dst as u64),
                IcbStep::Write32((at + 24) as usize, len),
            ];
            match op {
                BinaryOp::Add => constants + binary_launch(Kernel::ElemAdd, at, len),
                BinaryOp::Mul => constants + binary_launch(Kernel::ElemMul, at, len),
                _ => constants,
            }
        },
        Thunk::Copy { src, dst, len, .. } => seq![
            IcbStep::Write64(at, src as u64),
            IcbStep::Write64((at + 8) as usize, dst as u64),
            IcbStep::Write32((at + 16) as usize, len),
            IcbStep::Pipeline(Kernel::CopyF32),
            IcbStep::Arena(0, 0),
            IcbStep::Constant(1, at),
            IcbStep::Constant(2, (at + 8) as usize),
            IcbStep::Constant(3, (at + 16) as usize),
            per_element(Kernel::CopyF32, len),
        ],
        Thunk::LayerNorm { src, g, b, dst, rows, h, eps, .. } => seq![
            IcbStep::Write32(at, h),
            IcbStep::Write32((at + 4) as usize, eps),
            IcbStep::Pipeline(Kernel::LayerNorm),
            IcbStep::Arena(0, src as u64),
            IcbStep::Arena(1, g as u64),
            IcbStep::Arena(2, b as u64),
            IcbStep::Arena(3, dst as u64),
            IcbStep::Constant(4, at),
            IcbStep::Constant(5, (at + 4) as usize),
            IcbStep::Groups(one_row(rows as u64), one_row(reduction_span(h))),
        ],
        Thunk::FusedResidualLN { x, res, g, b, out, rows, h, eps, .. } => seq![
            IcbStep::Write32(at, h),
            IcbStep::Write32((at + 4) as usize, eps),
            IcbStep::Pipeline(Kernel::FusedResidualLn),
            IcbStep::Arena(0, x as u64),
            IcbStep::Arena(1, res as u64),
            IcbStep::Arena(2, g as u64),
            IcbStep::Arena(3, b as u64),
            IcbStep::Arena(4, out as u64),
            IcbStep::Constant(5, at),
            IcbStep::Constant(6, (at + 4) as usize),
            IcbStep::Groups(one_row(rows as u64), one_row(reduction_span(h))),
        ],
        Thunk::Narrow { src, dst, outer, src_axis, start, len, .. } => seq![
            IcbStep::Write32(at, outer),
            IcbStep::Write32((at + 4) as usize, src_axis),
            IcbStep::Write32((at + 8) as usize, start),
            IcbStep::Write32((at + 12) as usize, len),
            IcbStep::Pipeline(Kernel::NarrowLastax),
            IcbStep::Arena(0, src as u64),
            IcbStep::Arena(1, dst as u64),
            IcbStep::Constant(2, at),
            IcbStep::Constant(3, (at + 4) as usize),
            IcbStep::Constant(4, (at + 8) as usize),
            IcbStep::Constant(5, (at + 12) as usize),
            IcbStep::Write64((at + 16) as usize, 0),
            IcbStep::Write64((at + 24) as usize, 0),
            IcbStep::Constant(6, (at + 16) as usize),
            IcbStep::Constant(7, (at + 24) as usize),
            per_cell(len, outer),
        ],
        Thunk::Rope {
            src,
            cos,
            sin,
            dst,
            batch,
            seq,
            hidden,
            head_dim,
            n_rot,
            src_row_stride,
            cos_per_token,
            interleaved,
            ..
        } => {
            let heads = (hidden / head_dim) as u64;
            rope_constants(
                at,
                batch,
                seq,
                hidden,
                head_dim,
                src_row_stride,
                n_rot,
                cos_per_token,
                interleaved,
            ) + rope_binds(at, src, cos, sin, dst) + seq![
                IcbStep::Threads(
                    Size {
                        width: head_dim as u64,
                        height: heads,
                        depth: (batch * seq) as u64,
                    },
                    Group::Fixed(plane(min_u64(head_dim as u64, 16), min_u64(heads, 8))),
                ),
            ]
        },
        _ => seq![],
    }
}

pub open spec fn binary_launch(kernel: Kernel, at: usize, len: u32) -> Seq<IcbStep> {
    seq![
        IcbStep::Pipeline(kernel),
        IcbStep::Arena(0, 0),
        IcbStep::Constant(1, at),
        IcbStep::Constant(2, (at + 8) as usize),
        IcbStep::Constant(3, (at + 16) as usize),
        IcbStep::Constant(4, (at + 24) as usize),
        per_element(kernel, len),
    ]
}

/// The nine constants of the rotary embedding. Its two sequence strides are the same.
pub open spec fn rope_constants(
    at: usize,
    batch: u32,
    seq: u32,
    hidden: u32,
    head_dim: u32,
    src_row_stride: u32,
    n_rot: u32,
    cos_per_token: bool,
    interleaved: bool,
) -> Seq<IcbStep> {
    seq![
        IcbStep::Write32(at, batch),
        IcbStep::Write32((at + 4) as usize, seq),
        IcbStep::Write32((at + 8) as usize, hidden),
        IcbStep::Write32((at + 12) as usize, head_dim),
        IcbStep::Write32((at + 16) as usize, src_row_stride),
        IcbStep::Write32((at + 20) as usize, seq),
        IcbStep::Write32((at + 24) as usize, n_rot),
        IcbStep::Write32((at + 28) as usize, bit(cos_per_token)),
        IcbStep::Write32((at + 32) as usize, bit(interleaved)),
    ]
}

pub open spec fn rope_binds(at: usize, src: usize, cos: usize, sin: usize, dst: usize) -> Seq<
    IcbStep,
> {
    seq![
        IcbStep::Pipeline(Kernel::Rope),
        IcbStep::Arena(0, src as u64),
        IcbStep::Arena(1, cos as u64),
        IcbStep::Arena(2, sin as u64),
        IcbStep::Arena(3, dst as u64),
        IcbStep::Constant(4, at),
        IcbStep::Constant(5, (at + 4) as usize),
        IcbStep::Constant(6, (at + 8) as usize),
        IcbStep::Constant(7, (at + 12) as usize),
        IcbStep::Constant(8, (at + 16) as usize),
        IcbStep::Constant(9, (at + 20) as usize),
        IcbStep::Constant(10, (at + 24) as usize),
        IcbStep::Constant(11, (at + 28) as usize),
        IcbStep::Constant(12, (at + 32) as usize),
    ]
}

fn element_threads(kernel: Kernel, len: u32) -> (r: IcbStep)
    ensures
        r == per_element(kernel, len),
{
    IcbStep::Threads(row(len as u64), Group::ExecWidth(kernel, len as u64))
}

fn cell_threads(width: u32, height: u32) -> (r: IcbStep)
    ensures
        r == per_cell(width, height),
{
    IcbStep::Threads(
        plane_of(width as u64, height as u64),
        Group::Fixed(plane_of(least(16, width as u64), least(16, height as u64))),
    )
}

/// Appends parts to a command.
fn put(cmd: &mut Vec<IcbStep>, parts: Vec<IcbStep>)
    ensures
        final(cmd)@ == old(cmd)@ + parts@,
{
    let mut parts: Vec<IcbStep> = parts;
    cmd.append(&mut parts);
}

fn encode_binary(cmd: &mut Vec<IcbStep>, kernel: Kernel, cb_off: usize, len: u32)
    requires
        cb_off + CONSTANTS_BYTES_PER_CMD <= usize::MAX,
    ensures
        final(cmd)@ == old(cmd)@ + binary_launch(kernel, cb_off, len),
{
    let parts: Vec<IcbStep> = vec![
        IcbStep::Pipeline(kernel),
        IcbStep::Arena(0, 0),
        IcbStep::Constant(1, cb_off),
        IcbStep::Constant(2, cb_off + 8),
        IcbStep::Constant(3, cb_off + 16),
        IcbStep::Constant(4, cb_off + 24),
        element_threads(kernel, len),
    ];
    assert(parts@ =~= binary_launch(kernel, cb_off, len));
    put(cmd, parts);
}

/// Appends the parts of one command, whose constants start at `cb_off`, to a segment.
pub fn encode_thunk_into_icb(cmd: &mut Vec<IcbStep>, thunk: &Thunk, cb_off: usize)
    requires
        encodable(*thunk),
        cb_off + CONSTANTS_BYTES_PER_CMD <= usize::MAX,
    ensures
        final(cmd)@ == old(cmd)@ + icb_steps(*thunk, cb_off),
{
    match *thunk {
        Thunk::BiasAdd { src, bias, dst, m, n, .. } => {
            if src != dst {
                assert(cmd@ + icb_steps(*thunk, cb_off) =~= cmd@);
                return ;
            }
            let parts: Vec<IcbStep> = vec![
                IcbStep::Write32(cb_off, m),
                IcbStep::Write32(cb_off + 4, n),
                IcbStep::Pipeline(Kernel::BiasAdd),
                IcbStep::Arena(0, dst as u64),
                IcbStep::Arena(1, bias as u64),
                IcbStep::Constant(2, cb_off),
                IcbStep::Constant(3, cb_off + 4),
                cell_threads(n, m),
            ];
            assert(parts@ =~= icb_steps(*thunk, cb_off));
            put(cmd, parts);
        },
        Thunk::ActivationInPlace { data, len, act, .. } => match act {
            Activation::Gelu => {
                let parts: Vec<IcbStep> = vec![
                    IcbStep::Pipeline(Kernel::GeluInplace),
                    IcbStep::Write64(cb_off, data as u64),
                    IcbStep::Write32(cb_off + 8, len),
                    IcbStep::Arena(0, 0),
                    IcbStep::Constant(1, cb_off),
                    IcbStep::Constant(2, cb_off + 8),
                    element_threads(Kernel::GeluInplace, len),
                ];
                assert(parts@ =~= icb_steps(*thunk, cb_off));
                put(cmd, parts);
            },
            Activation::Silu => {
                let parts: Vec<IcbStep> = vec![
                    IcbStep::Pipeline(Kernel::SiluInplace),
                    IcbStep::Write32(cb_off, len),
                    IcbStep::Arena(0, data as u64),
                    IcbStep::Constant(1, cb_off),
                    element_threads(Kernel::SiluInplace, len),
                ];
                assert(parts@ =~= icb_steps(*thunk, cb_off));
                put(cmd, parts);
            },
            _ => {
                assert(cmd@ + icb_steps(*thunk, cb_off) =~= cmd@);
            },
        },
        Thunk::BinaryFull { lhs, rhs, dst, len, op, .. } => {
            let ghost before = cmd@;
            let parts: Vec<IcbStep> = vec![
                IcbStep::Write64(cb_off, lhs as u64),
                IcbStep::Write64(cb_off + 8, rhs as u64),
                IcbStep::Write64(cb_off + 16, dst as u64),
                IcbStep::Write32(cb_off + 24, len),
            ];
            put(cmd, parts);
            match op {
                BinaryOp::Add => encode_binary(cmd, Kernel::ElemAdd, cb_off, len),
                BinaryOp::Mul => encode_binary(cmd, Kernel::ElemMul, cb_off, len),
                _ => {},
            }
            assert(cmd@ =~= before + icb_steps(*thunk, cb_off));
        },
        Thunk::Copy { src, dst, len, .. } => {
            let parts: Vec<IcbStep> = vec![
                IcbStep::Write64(cb_off, src as u64),
                IcbStep::Write64(cb_off + 8, dst as u64),
                IcbStep::Write32(cb_off + 16, len),
                IcbStep::Pipeline(Kernel::CopyF32),
                IcbStep::Arena(0, 0),
                IcbStep::Constant(1, cb_off),
                IcbStep::Constant(2, cb_off + 8),
                IcbStep::Constant(3, cb_off + 16),
                element_threads(Kernel::CopyF32, len),
            ];
            assert(parts@ =~= icb_steps(*thunk, cb_off));
            put(cmd, parts);
        },
        Thunk::LayerNorm { src, g, b, dst, rows, h, eps, .. } => {
            let parts: Vec<IcbStep> = vec![
                IcbStep::Write32(cb_off, h),
                IcbStep::Write32(cb_off + 4, eps),
                IcbStep::Pipeline(Kernel::LayerNorm),
                IcbStep::Arena(0, src as u64),
                IcbStep::Arena(1, g as u64),
                IcbStep::Arena(2, b as u64),
                IcbStep::Arena(3, dst as u64),
                IcbStep::Constant(4, cb_off),
                IcbStep::Constant(5, cb_off + 4),
                IcbStep::Groups(row(rows as u64), row(reduction_width(h))),
            ];
            assert(parts@ =~= icb_steps(*thunk, cb_off));
            put(cmd, parts);
        },
        Thunk::FusedResidualLN { x, res, g, b, out, rows, h, eps, .. } => {
            let parts: Vec<IcbStep> = vec![
                IcbStep::Write32(cb_off, h),
                IcbStep::Write32(cb_off + 4, eps),
                IcbStep::Pipeline(Kernel::FusedResidualLn),
                IcbStep::Arena(0, x as u64),
                IcbStep::Arena(1, res as u64),
                IcbStep::Arena(2, g as u64),
                IcbStep::Arena(3, b as u64),
                IcbStep::Arena(4, out as u64),
                IcbStep::Constant(5, cb_off),
                IcbStep::Constant(6, cb_off + 4),
                IcbStep::Groups(row(rows as u64), row(reduction_width(h))),
            ];
            assert(parts@ =~= icb_steps(*thunk, cb_off));
            put(cmd, parts);
        },
        Thunk::Narrow { src, dst, outer, src_axis, start, len, .. } => {
            let parts: Vec<IcbStep> = vec![
                IcbStep::Write32(cb_off, outer),
                IcbStep::Write32(cb_off + 4, src_axis),
                IcbStep::Write32(cb_off + 8, start),
                IcbStep::Write32(cb_off + 12, len),
                IcbStep::Pipeline(Kernel::NarrowLastax),
                IcbStep::Arena(0, src as u64),
                IcbStep::Arena(1, dst as u64),
                IcbStep::Constant(2, cb_off),
                IcbStep::Constant(3, cb_off + 4),
                IcbStep::Constant(4, cb_off + 8),
                IcbStep::Constant(5, cb_off + 12),
                IcbStep::Write64(cb_off + 16, 0),
                IcbStep::Write64(cb_off + 24, 0),
                IcbStep::Constant(6, cb_off + 16),
                IcbStep::Constant(7, cb_off + 24),
                cell_threads(len, outer),
            ];
            assert(parts@ =~= icb_steps(*thunk, cb_off));
            put(cmd, parts);
        },
        Thunk::Rope {
            src,
            cos,
            sin,
            dst,
            batch,
            seq,
            hidden,
            head_dim,
            n_rot,
            src_row_stride,
            cos_per_token,
            interleaved,
            ..
        } => {
            let ghost before = cmd@;
            put(
                cmd,
                vec![
                    IcbStep::Write32(cb_off, batch),
                    IcbStep::Write32(cb_off + 4, seq),
                    IcbStep::Write32(cb_off + 8, hidden),
                    IcbStep::Write32(cb_off + 12, head_dim),
                    IcbStep::Write32(cb_off + 16, src_row_stride),
                    IcbStep::Write32(cb_off + 20, seq),
                    IcbStep::Write32(cb_off + 24, n_rot),
                    IcbStep::Write32(cb_off + 28, flag(cos_per_token)),
                    IcbStep::Write32(cb_off + 32, flag(interleaved)),
                ],
            );
            put(
                cmd,
                vec![
                    IcbStep::Pipeline(Kernel::Rope),
                    IcbStep::Arena(0, src as u64),
                    IcbStep::Arena(1, cos as u64),
                    IcbStep::Arena(2, sin as u64),
                    IcbStep::Arena(3, dst as u64),
                    IcbStep::Constant(4, cb_off),
                    IcbStep::Constant(5, cb_off + 4),
                    IcbStep::Constant(6, cb_off + 8),
                    IcbStep::Constant(7, cb_off + 12),
                    IcbStep::Constant(8, cb_off + 16),
                    IcbStep::Constant(9, cb_off + 20),
                    IcbStep::Constant(10, cb_off + 24),
                    IcbStep::Constant(11, cb_off + 28),
                    IcbStep::Constant(12, cb_off + 32),
                ],
            );
            let nh: u64 = (hidden / head_dim) as u64;
            let tokens: u32 = batch * seq;
            cmd.push(
                IcbStep::Threads(
                    Size { width: head_dim as u64, height: nh, depth: tokens as u64 },
                    Group::Fixed(plane_of(least(head_dim as u64, 16), least(nh, 8))),
                ),
            );
            assert(cmd@ =~= before + icb_steps(*thunk, cb_off));
        },
        _ => {
            assert(cmd@ + icb_steps(*thunk, cb_off) =~= cmd@);
        },
    }
}

/// Pre-encoded commands. Each ends with a barrier.
#[derive(Debug)]
pub struct IcbSegment {
    pub steps: Vec<IcbStep>,
    pub command_count: u64,
    /// The size of the constants buffer, in bytes.
    pub constants_bytes: u64,
}

/// A segment and the half-open range of the schedule that it replaces, empty steps included.
#[derive(Debug)]
pub struct IcbRange {
    pub start: usize,
    pub end: usize,
    pub segment: IcbSegment,
}

/// The steps that compute something, in order.
pub open spec fn computing(thunks: Seq<Thunk>) -> Seq<Thunk>
    decreases thunks.len(),
{
    if thunks.len() == 0 {
        seq![]
    } else if thunks.last() is Nop {
        computing(thunks.drop_last())
    } else {
        computing(thunks.drop_last()).push(thunks.last())
    }
}

/// The commands of a segment: one for each step, each with a constants slice of its own.
pub open spec fn segment_steps(run: Seq<Thunk>) -> Seq<IcbStep>
    decreases run.len(),
{
    if run.len() == 0 {
        seq![]
    } else {
        (segment_steps(run.drop_last()) + icb_steps(
            run.last(),
            ((run.len() - 1) * CONSTANTS_BYTES_PER_CMD) as usize,
        )).push(IcbStep::Barrier)
    }
}

impl IcbSegment {
    /// The segment holds the commands of these steps.
    pub open spec fn encodes(&self, run: Seq<Thunk>) -> bool {
        &&& self.steps@ == segment_steps(run)
        &&& self.command_count == run.len()
        &&& self.constants_bytes == run.len() * CONSTANTS_BYTES_PER_CMD
    }
}

/// Encodes steps into a segment, unless there are none.
fn build_segment(icb_thunks: &[Thunk]) -> (r: Option<IcbSegment>)
    requires
        forall|i: int| 0 <= i < icb_thunks@.len() ==> encodable(#[trigger] icb_thunks@[i]),
        icb_thunks@.len() * CONSTANTS_BYTES_PER_CMD <= usize::MAX,
    ensures
        r is None <==> icb_thunks@.len() == 0,
        r matches Some(s) ==> s.encodes(icb_thunks@),
{
    if icb_thunks.len() == 0 {
        return None;
    }
    let mut steps: Vec<IcbStep> = Vec::new();
    let mut idx: usize = 0;
    while idx < icb_thunks.len()
        invariant
            idx <= icb_thunks@.len(),
            forall|i: int| 0 <= i < icb_thunks@.len() ==> encodable(#[trigger] icb_thunks@[i]),
            icb_thunks@.len() * CONSTANTS_BYTES_PER_CMD <= usize::MAX,
            steps@ == segment_steps(icb_thunks@.take(idx as int)),
        decreases icb_thunks@.len() - idx,
    {
        let cb_off: usize = idx * CONSTANTS_BYTES_PER_CMD;
        encode_thunk_into_icb(&mut steps, &icb_thunks[idx], cb_off);
        steps.push(IcbStep::Barrier);
        proof {
            let next = icb_thunks@.take(idx + 1);
            assert(next.drop_last() =~= icb_thunks@.take(idx as int));
            assert(next.last() == icb_thunks@[idx as int]);
        }
        idx = idx + 1;
    }
    assert(icb_thunks@.take(idx as int) =~= icb_thunks@);
    let n: usize = icb_thunks.len();
    Some(
        IcbSegment {
            steps,
            command_count: n as u64,
            constants_bytes: (n * CONSTANTS_BYTES_PER_CMD) as u64,
        },
    )
}

/// Steps that a run goes over.
pub open spec fn passes(t: Thunk) -> bool {
    compatible(t) || t is Nop
}

/// A run that cannot be extended: every step in it passes, and neither neighbour does.
pub open spec fn maximal_run(thunks: Seq<Thunk>, start: int, end: int) -> bool {
    &&& 0 <= start < end <= thunks.len()
    &&& forall|i: int| start <= i < end ==> passes(#[trigger] thunks[i])
    &&& start > 0 ==> !passes(thunks[start - 1])
    &&& end < thunks.len() ==> !passes(thunks[end])
}

/// A maximal run with commands enough for a segment.
pub open spec fn segment_run(thunks: Seq<Thunk>, start: int, end: int) -> bool {
    maximal_run(thunks, start, end) && computing(thunks.subrange(start, end)).len() >= MIN_ICB_RUN
}

pub open spec fn all_encodable(thunks: Seq<Thunk>) -> bool {
    forall|i: int|
        0 <= i < thunks.len() ==> (compatible(#[trigger] thunks[i]) ==> encodable(thunks[i]))
}

proof fn lemma_computing_from(thunks: Seq<Thunk>)
    ensures
        computing(thunks).len() <= thunks.len(),
        forall|j: int|
            0 <= j < computing(thunks).len() ==> thunks.contains(#[trigger] computing(thunks)[j])
                && !(computing(thunks)[j] is Nop),
    decreases thunks.len(),
{
    if thunks.len() > 0 {
        lemma_computing_from(thunks.drop_last());
        let kept = computing(thunks);
        assert forall|j: int| 0 <= j < kept.len() implies thunks.contains(#[trigger] kept[j]) && !(
        kept[j] is Nop) by {
            let rest = computing(thunks.drop_last());
            if j < rest.len() {
                assert(kept[j] == rest[j]);
                let k = choose|k: int|
                    0 <= k < thunks.drop_last().len() && thunks.drop_last()[k] == rest[j];
                assert(thunks[k] == rest[j]);
            } else {
                assert(thunks[thunks.len() - 1] == kept[j]);
            }
        }
    }
}

/// The steps of a range that compute something.
fn collect_computing(thunks: &[Thunk], start: usize, end: usize) -> (r: Vec<Thunk>)
    requires
        start <= end <= thunks@.len(),
    ensures
        r@ == computing(thunks@.subrange(start as int, end as int)),
{
    let mut run: Vec<Thunk> = Vec::new();
    let mut i: usize = start;
    assert(thunks@.subrange(start as int, i as int) =~= seq![]);
    while i < end
        invariant
            start <= i <= end <= thunks@.len(),
            run@ == computing(thunks@.subrange(start as int, i as int)),
        decreases end - i,
    {
        proof {
            let next = thunks@.subrange(start as int, i + 1);
            assert(next.drop_last() =~= thunks@.subrange(start as int, i as int));
            assert(next.last() == thunks@[i as int]);
        }
        if !matches!(thunks[i], Thunk::Nop) {
            run.push(thunks[i]);
        }
        i = i + 1;
    }
    run
}

fn passes_through(t: &Thunk) -> (r: bool)
    ensures
        r == passes(*t),
{
    is_icb_compatible(t) || matches!(*t, Thunk::Nop)
}

/// The ranges found so far, over the part of the schedule before `upto`.
pub open spec fn segments_before(thunks: Seq<Thunk>, out: Seq<IcbRange>, upto: int) -> bool {
    &&& forall|a: int|
        #![trigger out[a]]
        0 <= a < out.len() ==> segment_run(thunks, out[a].start as int, out[a].end as int)
            && out[a].end <= upto && out[a].segment.encodes(
            computing(thunks.subrange(out[a].start as int, out[a].end as int)),
        )
    &&& forall|a: int, b: int|
        #![trigger out[a], out[b]]
        0 <= a < b < out.len() ==> out[a].end < out[b].start
    &&& forall|s: int, e: int|
        #[trigger] segment_run(thunks, s, e) && s < upto ==> exists|a: int|
            0 <= a < out.len() && (#[trigger] out[a]).start == s && out[a].end == e
}

proof fn lemma_runs_disjoint(thunks: Seq<Thunk>, s1: int, e1: int, s2: int, e2: int)
    requires
        maximal_run(thunks, s1, e1),
        maximal_run(thunks, s2, e2),
        s1 <= s2,
    ensures
        (s1 == s2 && e1 == e2) || e1 < s2,
{
    if s2 <= e1 {
        if s1 < s2 {
            assert(passes(thunks[s2 - 1]));
        }
        if e1 < e2 {
            if s2 < e1 {
                assert(passes(thunks[e1]));
            } else {
                assert(passes(thunks[s2]));
            }
        } else if e2 < e1 {
            assert(passes(thunks[e2]));
        }
    }
}

/// Splits a schedule into its maximal runs of steps that an indirect command can hold, and
/// encodes each run that has commands enough. The segments come in the order of the schedule and
/// do not meet.
pub fn compile_segments(thunks: &[Thunk]) -> (out: Vec<IcbRange>)
    requires
        all_encodable(thunks@),
        thunks@.len() * CONSTANTS_BYTES_PER_CMD <= usize::MAX,
    ensures
        segments_before(thunks@, out@, thunks@.len() as int),
{
    let mut out: Vec<IcbRange> = Vec::new();
    let mut i: usize = 0;
    while i < thunks.len()
        invariant
            i <= thunks@.len(),
            all_encodable(thunks@),
            thunks@.len() * CONSTANTS_BYTES_PER_CMD <= usize::MAX,
            segments_before(thunks@, out@, i as int),
            0 < i < thunks@.len() ==> !passes(thunks@[i as int]),
        decreases thunks@.len() - i,
    {
        let first: usize = i;
        while i < thunks.len() && !passes_through(&thunks[i])
            invariant
                first <= i <= thunks@.len(),
                forall|k: int| first <= k < i ==> !passes(#[trigger] thunks@[k]),
            decreases thunks@.len() - i,
        {
            i = i + 1;
        }
        let start: usize = i;
        while i < thunks.len() && passes_through(&thunks[i])
            invariant
                start <= i <= thunks@.len(),
                forall|k: int| start <= k < i ==> passes(#[trigger] thunks@[k]),
            decreases thunks@.len() - i,
        {
            i = i + 1;
        }
        let run: Vec<Thunk> = collect_computing(thunks, start, i);
        let ghost before = out@;
        proof {
            assert(start < i ==> maximal_run(thunks@, start as int, i as int));
            assert forall|s: int, e: int| #[trigger]
                segment_run(thunks@, s, e) && first <= s < i implies s == start && e == i by {
                if s < start {
                    assert(passes(thunks@[s]));
                } else {
                    lemma_runs_disjoint(thunks@, start as int, i as int, s, e);
                }
            }
        }
        if run.len() >= MIN_ICB_RUN {
            proof {
                let part = thunks@.subrange(start as int, i as int);
                lemma_computing_from(part);
                assert forall|j: int| 0 <= j < run@.len() implies encodable(#[trigger] run@[j]) by {
                    let k = choose|k: int| 0 <= k < part.len() && part[k] == run@[j];
                    assert(thunks@[start + k] == run@[j]);
                    assert(passes(thunks@[start + k]));
                }
                assert(start < i);
                assert(run@.len() * CONSTANTS_BYTES_PER_CMD <= usize::MAX);
            }
            if let Some(segment) = build_segment(&run) {
                out.push(IcbRange { start, end: i, segment });
            }
            proof {
                assert(out@.len() == before.len() + 1);
                assert forall|s: int, e: int| #[trigger]
                    segment_run(thunks@, s, e) && s < i implies exists|a: int|
                    0 <= a < out@.len() && (#[trigger] out@[a]).start == s && out@[a].end == e by {
                    if s < first {
                        let a = choose|a: int|
                            0 <= a < before.len() && (#[trigger] before[a]).start == s
                                && before[a].end == e;
                        assert(out@[a] == before[a]);
                    } else {
                        assert(out@[before.len() as int].start == s);
                    }
                }
                assert forall|a: int, b: int|
                    #![trigger out@[a], out@[b]]
                    0 <= a < b < out@.len() implies out@[a].end < out@[b].start by {
                    assert(out@[a] == before[a]);
                    assert(before[a].end <= first);
                    if b == before.len() {
                        if before[a].end == start {
                            assert(maximal_run(thunks@, before[a].start as int, start as int));
                            assert(!passes(thunks@[start as int]));
                        }
                    } else {
                        assert(out@[b] == before[b]);
                    }
                }
            }
        } else {
            proof {
                assert forall|s: int, e: int| #[trigger]
                    segment_run(thunks@, s, e) && s < i implies exists|a: int|
                    0 <= a < out@.len() && (#[trigger] out@[a]).start == s && out@[a].end == e by {
                    if s >= first {
                        assert(run@.len() == computing(thunks@.subrange(s, e)).len());
                    }
                }
            }
        }
    }
    out
}

/// Encodes a whole schedule, where there is something to compute and all of it can be held.
pub fn try_compile(thunks: &[Thunk]) -> (r: Option<IcbSegment>)
    requires
        all_encodable(thunks@),
        thunks@.len() * CONSTANTS_BYTES_PER_CMD <= usize::MAX,
    ensures
        r is Some <==> computing(thunks@).len() > 0 && forall|i: int|
            0 <= i < thunks@.len() ==> passes(#[trigger] thunks@[i]),
        r matches Some(s) ==> s.encodes(computing(thunks@)),
{
    let compute_thunks: Vec<Thunk> = collect_computing(thunks, 0, thunks.len());
    proof {
        assert(thunks@.subrange(0, thunks@.len() as int) =~= thunks@);
        lemma_computing_from(thunks@);
    }
    if compute_thunks.len() == 0 {
        return None;
    }
    let mut i: usize = 0;
    while i < thunks.len()
        invariant
            i <= thunks@.len(),
            forall|k: int| 0 <= k < i ==> passes(#[trigger] thunks@[k]),
        decreases thunks@.len() - i,
    {
        if !passes_through(&thunks[i]) {
            return None;
        }
        i = i + 1;
    }
    proof {
        assert forall|j: int| 0 <= j < compute_thunks@.len() implies encodable(
            #[trigger] compute_thunks@[j],
        ) by {
            let k = choose|k: int| 0 <= k < thunks@.len() && thunks@[k] == compute_thunks@[j];
            assert(passes(thunks@[k]));
        }
        assert(compute_thunks@.len() * CONSTANTS_BYTES_PER_CMD <= usize::MAX);
    }
    build_segment(&compute_thunks)
}

/// The place and the width of a constant that a part writes.
pub open spec fn written(step: IcbStep) -> Option<(int, int)> {
    match step {
        IcbStep::Write32(at, _) => Some((at as int, 4)),
        IcbStep::Write64(at, _) => Some((at as int, 8)),
        _ => None,
    }
}

/// The buffer slot that a part binds.
pub open spec fn bound_slot(step: IcbStep) -> Option<u64> {
    match step {
        IcbStep::Arena(slot, _) => Some(slot),
        IcbStep::Constant(slot, _) => Some(slot),
        _ => None,
    }
}

/// The constants of a command lie in the slice that it owns, at places aligned to their widths.
#[verifier::spinoff_prover]
pub proof fn lemma_constants_stay_in_their_slice(t: Thunk, at: usize, i: int)
    requires
        at % CONSTANTS_BYTES_PER_CMD == 0,
        at + CONSTANTS_BYTES_PER_CMD <= usize::MAX,
        0 <= i < icb_steps(t, at).len(),
    ensures
        written(icb_steps(t, at)[i]) matches Some(w) ==> at <= w.0 && w.0 + w.1 <= at
            + CONSTANTS_BYTES_PER_CMD && w.0 % w.1 == 0,
{
    lemma_constants_within(t, at, i);
    lemma_aligned_within(icb_steps(t, at)[i], at);
}

/// A place at a multiple of a constant's width from an aligned start.
proof fn lemma_aligned_within(step: IcbStep, at: usize)
    requires
        at % CONSTANTS_BYTES_PER_CMD == 0,
        written(step) matches Some(w) ==> (w.1 == 4 && (w.0 - at) % 4 == 0) || (w.1 == 8 && (w.0
            - at) % 8 == 0),
    ensures
        written(step) matches Some(w) ==> w.0 % w.1 == 0,
{
    if let Some(w) = written(step) {
        let rel = w.0 - at;
        if w.1 == 4 {
            assert((at + rel) % 4 == 0);
        } else {
            assert((at + rel) % 8 == 0);
        }
    }
}

/// Each constant lies within the slice, at a multiple of its width from the start.
#[verifier::spinoff_prover]
proof fn lemma_constants_within(t: Thunk, at: usize, i: int)
    requires
        at + CONSTANTS_BYTES_PER_CMD <= usize::MAX,
        0 <= i < icb_steps(t, at).len(),
    ensures
        written(icb_steps(t, at)[i]) matches Some(w) ==> {
            let rel = w.0 - at;
            &&& 0 <= rel
            &&& rel + w.1 <= CONSTANTS_BYTES_PER_CMD
            &&& (w.1 == 4 && rel % 4 == 0) || (w.1 == 8 && rel % 8 == 0)
        },
{
}

/// The constants of a command do not overlap.
pub proof fn lemma_constants_do_not_overlap(t: Thunk, at: usize, i: int, j: int)
    requires
        at + CONSTANTS_BYTES_PER_CMD <= usize::MAX,
        0 <= i < j < icb_steps(t, at).len(),
        written(icb_steps(t, at)[i]) is Some,
        written(icb_steps(t, at)[j]) is Some,
    ensures
        ({
            let (place, width) = written(icb_steps(t, at)[i])->0;
            place + width <= (written(icb_steps(t, at)[j])->0).0
        }),
{
}

/// Some part of the command writes a constant at this place.
pub open spec fn writes_at(steps: Seq<IcbStep>, place: int) -> bool {
    exists|j: int|
        0 <= j < steps.len() && #[trigger] written(steps[j]) is Some && (written(steps[j])->0).0
            == place
}

/// Every constant that a command binds is one that it wrote.
pub proof fn lemma_bound_constants_are_written(t: Thunk, at: usize, i: int)
    requires
        at + CONSTANTS_BYTES_PER_CMD <= usize::MAX,
        0 <= i < icb_steps(t, at).len(),
        icb_steps(t, at)[i] is Constant,
    ensures
        writes_at(icb_steps(t, at), icb_steps(t, at)[i]->Constant_1 as int),
{
    let s = icb_steps(t, at);
    match t {
        Thunk::BiasAdd { .. } => {
            assert(written(s[0]) is Some && written(s[1]) is Some);
        },
        Thunk::ActivationInPlace { .. } => {
            assert(written(s[1]) is Some && (s.len() > 5 ==> written(s[2]) is Some));
        },
        Thunk::BinaryFull { .. } => {
            assert(written(s[0]) is Some && written(s[1]) is Some && written(s[2]) is Some
                && written(s[3]) is Some);
        },
        Thunk::Copy { .. } => {
            assert(written(s[0]) is Some && written(s[1]) is Some && written(s[2]) is Some);
        },
        Thunk::LayerNorm { .. } => {
            assert(written(s[0]) is Some && written(s[1]) is Some);
        },
        Thunk::FusedResidualLN { .. } => {
            assert(written(s[0]) is Some && written(s[1]) is Some);
        },
        Thunk::Narrow { .. } => {
            assert(written(s[0]) is Some && written(s[1]) is Some && written(s[2]) is Some
                && written(s[3]) is Some && written(s[11]) is Some && written(s[12]) is Some);
        },
        Thunk::Rope { .. } => {
            assert(written(s[0]) is Some && written(s[1]) is Some && written(s[2]) is Some
                && written(s[3]) is Some && written(s[4]) is Some && written(s[5]) is Some
                && written(s[6]) is Some && written(s[7]) is Some && written(s[8]) is Some);
        },
        _ => {},
    }
}

/// Some part of the command binds this slot.
pub open spec fn binds_slot(steps: Seq<IcbStep>, slot: u64) -> bool {
    exists|j: int| 0 <= j < steps.len() && #[trigger] bound_slot(steps[j]) == Some(slot)
}

/// A command binds every slot below the ones that it binds: a slot left unbound would read
/// undefined data. Their number stays within what a segment declares.
pub proof fn lemma_slots_bound_without_gap(t: Thunk, at: usize, i: int, slot: u64)
    requires
        0 <= i < icb_steps(t, at).len(),
        bound_slot(icb_steps(t, at)[i]) is Some,
        slot <= bound_slot(icb_steps(t, at)[i])->0,
    ensures
        slot < MAX_KERNEL_BUFFER_BINDS,
        binds_slot(icb_steps(t, at), slot),
{
    let s = icb_steps(t, at);
    let j: int = match t {
        Thunk::BiasAdd { .. } => slot + 3,
        Thunk::ActivationInPlace { act, .. } => if act == Activation::Gelu {
            slot + 3
        } else {
            slot + 2
        },
        Thunk::BinaryFull { .. } => slot + 5,
        Thunk::Copy { .. } => slot + 4,
        Thunk::LayerNorm { .. } => slot + 3,
        Thunk::FusedResidualLN { .. } => slot + 3,
        Thunk::Narrow { .. } => if slot < 6 {
            slot + 5
        } else {
            slot + 7
        },
        _ => slot + 10,
    };
    assert(bound_slot(s[j]) == Some(slot));
}

pub open spec fn launches(step: IcbStep) -> bool {
    step is Threads || step is Groups
}

/// A covered step launches exactly once, as the last part of its command, and another step never.
pub proof fn lemma_one_launch_per_covered_step(t: Thunk, at: usize, i: int)
    requires
        0 <= i < icb_steps(t, at).len(),
    ensures
        launches(icb_steps(t, at)[i]) <==> covered(t) && i == icb_steps(t, at).len() - 1,
{
}

/// How many launches some commands hold.
pub open spec fn launch_count(steps: Seq<IcbStep>) -> nat
    decreases steps.len(),
{
    if steps.len() == 0 {
        0
    } else {
        launch_count(steps.drop_last()) + if launches(steps.last()) {
            1nat
        } else {
            0
        }
    }
}

proof fn lemma_launches_add_up(a: Seq<IcbStep>, b: Seq<IcbStep>)
    ensures
        launch_count(a + b) == launch_count(a) + launch_count(b),
    decreases b.len(),
{
    if b.len() == 0 {
        assert(a + b =~= a);
    } else {
        assert((a + b).drop_last() =~= a + b.drop_last());
        lemma_launches_add_up(a, b.drop_last());
    }
}

proof fn lemma_no_launches(s: Seq<IcbStep>)
    requires
        forall|i: int| 0 <= i < s.len() ==> !launches(#[trigger] s[i]),
    ensures
        launch_count(s) == 0,
    decreases s.len(),
{
    if s.len() > 0 {
        assert forall|i: int| 0 <= i < s.drop_last().len() implies !launches(
            #[trigger] s.drop_last()[i],
        ) by {
            assert(!launches(s[i]));
        }
        lemma_no_launches(s.drop_last());
    }
}

/// A covered step has a command.
proof fn lemma_covered_has_parts(t: Thunk, at: usize)
    requires
        covered(t),
    ensures
        icb_steps(t, at).len() > 0,
{
}

proof fn lemma_step_launches_once(t: Thunk, at: usize)
    requires
        covered(t),
    ensures
        launch_count(icb_steps(t, at)) == 1,
{
    let s = icb_steps(t, at);
    lemma_covered_has_parts(t, at);
    assert forall|i: int| 0 <= i < s.len() implies launches(#[trigger] s[i]) == (i == s.len() - 1) by {
        lemma_one_launch_per_covered_step(t, at, i);
    }
    let front = s.drop_last();
    assert forall|i: int| 0 <= i < front.len() implies !launches(#[trigger] front[i]) by {
        assert(front[i] == s[i]);
    }
    lemma_no_launches(front);
}

/// A segment of steps that may enter one drops no work: it holds as many launches as steps.
pub proof fn lemma_segment_launches_every_step(run: Seq<Thunk>)
    requires
        forall|i: int| 0 <= i < run.len() ==> compatible(#[trigger] run[i]),
    ensures
        launch_count(segment_steps(run)) == run.len(),
    decreases run.len(),
{
    if run.len() > 0 {
        let front = run.drop_last();
        let at = ((run.len() - 1) * CONSTANTS_BYTES_PER_CMD) as usize;
        assert forall|i: int| 0 <= i < front.len() implies compatible(#[trigger] front[i]) by {
            assert(front[i] == run[i]);
        }
        lemma_segment_launches_every_step(front);
        assert(compatible(run[run.len() - 1]));
        lemma_step_launches_once(run.last(), at);
        lemma_launches_add_up(segment_steps(front), icb_steps(run.last(), at));
        let commands = segment_steps(front) + icb_steps(run.last(), at);
        assert(commands.push(IcbStep::Barrier).drop_last() =~= commands);
    }
}

/// What a segment replaces in a schedule, it runs: every step of the range that computes something
/// is launched once.
pub proof fn lemma_segments_drop_no_work(thunks: Seq<Thunk>, start: int, end: int)
    requires
        maximal_run(thunks, start, end),
    ensures
        ({
            let run = computing(thunks.subrange(start, end));
            launch_count(segment_steps(run)) == run.len()
        }),
{
    let part = thunks.subrange(start, end);
    let run = computing(part);
    lemma_computing_from(part);
    assert forall|j: int| 0 <= j < run.len() implies compatible(#[trigger] run[j]) by {
        let k = choose|k: int| 0 <= k < part.len() && part[k] == run[j];
        assert(passes(thunks[start + k]));
    }
    lemma_segment_launches_every_step(run);
}

/// The kernels that are compiled for indirect commands, with the names of their functions.
pub open spec fn icb_kernel_table() -> Seq<(Kernel, &'static str)> {
    seq![
        (Kernel::BiasAdd, "bias_add"),
        (Kernel::GeluInplace, "gelu_inplace"),
        (Kernel::SiluInplace, "silu_inplace"),
        (Kernel::ElemAdd, "elem_add"),
        (Kernel::ElemMul, "elem_mul"),
        (Kernel::CopyF32, "copy_f32"),
        (Kernel::LayerNorm, "layer_norm"),
        (Kernel::FusedResidualLn, "fused_residual_ln"),
        (Kernel::NarrowLastax, "narrow_lastax"),
        (Kernel::Rope, "rope"),
    ]
}

/// The kernels that have to be compiled anew for indirect commands: a pipeline that was not
/// compiled for them faults when a command selects it.
pub fn icb_kernels() -> (r: Vec<(Kernel, &'static str)>)
    ensures
        r@ == icb_kernel_table(),
{
    vec![
        (Kernel::BiasAdd, "bias_add"),
        (Kernel::GeluInplace, "gelu_inplace"),
        (Kernel::SiluInplace, "silu_inplace"),
        (Kernel::ElemAdd, "elem_add"),
        (Kernel::ElemMul, "elem_mul"),
        (Kernel::CopyF32, "copy_f32"),
        (Kernel::LayerNorm, "layer_norm"),
        (Kernel::FusedResidualLn, "fused_residual_ln"),
        (Kernel::NarrowLastax, "narrow_lastax"),
        (Kernel::Rope, "rope"),
    ]
}

/// The kernel is compiled for indirect commands.
pub open spec fn compiled_for_segments(kernel: Kernel) -> bool {
    exists|j: int|
        0 <= j < icb_kernel_table().len() && (#[trigger] icb_kernel_table()[j]).0 == kernel
}

/// Every kernel that a command selects is compiled for indirect commands.
pub proof fn lemma_commands_select_compiled_kernels(t: Thunk, at: usize, i: int)
    requires
        0 <= i < icb_steps(t, at).len(),
        icb_steps(t, at)[i] is Pipeline,
    ensures
        compiled_for_segments(icb_steps(t, at)[i]->Pipeline_0),
{
    let table = icb_kernel_table();
    let j: int = match t {
        Thunk::BiasAdd { .. } => 0,
        Thunk::ActivationInPlace { act, .. } => if act == Activation::Gelu {
            1
        } else {
            2
        },
        Thunk::BinaryFull { op, .. } => if op == BinaryOp::Add {
            3
        } else {
            4
        },
        Thunk::Copy { .. } => 5,
        Thunk::LayerNorm { .. } => 6,
        Thunk::FusedResidualLN { .. } => 7,
        Thunk::Narrow { .. } => 8,
        _ => 9,
    };
    assert(table[j].0 == icb_steps(t, at)[i]->Pipeline_0);
}

/// What a covered step is encoded as outside a segment. A rotation there is told how many tokens
/// apart two rows of a batch are; in a segment they always adjoin.
pub open spec fn direct_steps(t: Thunk) -> Seq<Cmd> {
    match t {
        Thunk::BiasAdd { bias, dst, m, n, dt, .. } => bias_add_steps(
            Buf::Arena,
            dst,
            Buf::Arena,
            bias,
            m,
            n,
            dt,
        ),
        Thunk::ActivationInPlace { data, len, act, dt } => activation_steps(data, len, act, dt),
        Thunk::BinaryFull { lhs, rhs, dst, len, op, dt } => binary_steps(
            lhs,
            rhs,
            dst,
            len,
            op,
            dt,
        ),
        Thunk::Copy { src, dst, len, dt } => copy_steps(src, dst, len, dt),
        Thunk::LayerNorm { src, g, b, dst, rows, h, eps, dt } => layer_norm_steps(
            src,
            g,
            b,
            dst,
            rows,
            h,
            eps,
            dt,
        ),
        Thunk::FusedResidualLN { x, res, g, b, out, rows, h, eps, dt } => fused_residual_ln_steps(
            x,
            res,
            g,
            b,
            out,
            rows,
            h,
            eps,
            dt,
        ),
        Thunk::Rope {
            src,
            cos,
            sin,
            dst,
            batch,
            seq,
            hidden,
            head_dim,
            n_rot,
            src_row_stride,
            cos_per_token,
            interleaved,
            dt,
        } => rope_steps(
            src,
            cos,
            sin,
            dst,
            batch,
            seq,
            hidden,
            head_dim,
            n_rot,
            dt,
            src_row_stride,
            seq,
            cos_per_token,
            interleaved,
        ),
        _ => seq![],
    }
}

/// A part of an indirect command does what a direct step does: it selects the same kernel, binds
/// the same place to a slot, sets a slot to the same constant, or launches the same threads.
pub open spec fn does_the_same(direct: Cmd, part: IcbStep, command: Seq<IcbStep>) -> bool {
    match direct {
        Cmd::Pipeline(kernel) => part == IcbStep::Pipeline(kernel),
        Cmd::Buffer(slot, Buf::Arena, off) => part == IcbStep::Arena(slot, off),
        Cmd::U32(slot, value) => part matches IcbStep::Constant(s, place) && s == slot
            && command.contains(IcbStep::Write32(place, value)),
        Cmd::U64(slot, value) => part matches IcbStep::Constant(s, place) && s == slot
            && command.contains(IcbStep::Write64(place, value)),
        Cmd::Threads(grid, group) => part == IcbStep::Threads(grid, group),
        Cmd::Groups(groups, group) => part == IcbStep::Groups(groups, group),
        _ => false,
    }
}

/// Covered steps whose direct encoder runs the same kernel. Where a length splits into groups of
/// four, or where a row is cut, it runs another one; a Silu is bound by another convention.
pub open spec fn same_kernel(t: Thunk) -> bool {
    covered(t) && segment_dtype(t) == Some(HalfFlag::F32) && match t {
        Thunk::ActivationInPlace { len, act, .. } => act == Activation::Gelu && !in_fours(len),
        Thunk::BinaryFull { len, .. } => !in_fours(len),
        Thunk::Copy { len, .. } => !in_fours(len),
        Thunk::Narrow { .. } => false,
        _ => true,
    }
}

/// The part of a command that does what a direct step does.
spec fn counterpart(t: Thunk, i: int) -> int {
    match t {
        Thunk::BiasAdd { .. } => i + 2,
        Thunk::ActivationInPlace { .. } => if i == 0 {
            0
        } else {
            i + 2
        },
        Thunk::BinaryFull { .. } => i + 4,
        Thunk::Copy { .. } => i + 3,
        Thunk::LayerNorm { .. } => i + 2,
        Thunk::FusedResidualLN { .. } => i + 2,
        _ => i + 9,
    }
}

/// Where a segment runs the kernel that the direct encoder runs, it runs it on the same
/// arguments at the same slots and with the same threads.
pub proof fn lemma_segment_mirrors_direct_encoder(t: Thunk, at: usize, i: int)
    requires
        at + CONSTANTS_BYTES_PER_CMD <= usize::MAX,
        encodable(t),
        same_kernel(t),
        0 <= i < direct_steps(t).len(),
    ensures
        exists|j: int|
            0 <= j < icb_steps(t, at).len() && does_the_same(
                direct_steps(t)[i],
                #[trigger] icb_steps(t, at)[j],
                icb_steps(t, at),
            ),
{
    let s = icb_steps(t, at);
    let j = counterpart(t, i);
    assert(forall|k: int| 0 <= k < s.len() ==> s.contains(#[trigger] s[k]));
    match t {
        Thunk::BiasAdd { .. } => {
            assert(s.contains(s[0]) && s.contains(s[1]));
        },
        Thunk::ActivationInPlace { .. } => {
            assert(s.contains(s[1]) && s.contains(s[2]));
        },
        Thunk::BinaryFull { .. } => {
            assert(s.contains(s[0]) && s.contains(s[1]) && s.contains(s[2]) && s.contains(s[3]));
        },
        Thunk::Copy { .. } => {
            assert(s.contains(s[0]) && s.contains(s[1]) && s.contains(s[2]));
        },
        Thunk::LayerNorm { .. } => {
            assert(s.contains(s[0]) && s.contains(s[1]));
        },
        Thunk::FusedResidualLN { .. } => {
            assert(s.contains(s[0]) && s.contains(s[1]));
        },
        _ => {
            assert(s.contains(s[0]) && s.contains(s[1]) && s.contains(s[2]) && s.contains(s[3])
                && s.contains(s[4]) && s.contains(s[5]) && s.contains(s[6]) && s.contains(s[7])
                && s.contains(s[8]));
        },
    }
    assert(does_the_same(direct_steps(t)[i], s[j], s));
}

} // verus!
