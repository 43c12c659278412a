//! The command stream that an encoder is driven with.

use vstd::prelude::*;

verus! {

/// Whether a tensor holds single- or half-precision floats.
#[derive(Clone, Copy, Debug, PartialEq, Eq, Hash, Structural)]
pub enum HalfFlag {
    F32,
    F16,
}

/// The activations that the kernels know.
#[derive(Clone, Copy, Debug, PartialEq, Eq, Hash, Structural)]
pub enum Activation {
    Gelu,
    GeluApprox,
    Silu,
    Relu,
    Sigmoid,
    Tanh,
    Exp,
    Log,
    Sqrt,
    Rsqrt,
    Neg,
    Abs,
    Sin,
    Cos,
    Tan,
    Atan,
    Recip,
    Round,
    Floor,
    Ceil,
    Sign,
    Softplus,
    Elu,
    Erf,
    HardSwish,
    HardSigmoid,
    Mish,
    Softsign,
    LogSigmoid,
}

/// The compiled compute pipelines, by function name. The plain scalar activations are generated
/// in pairs and named by the activation and the precision.
#[derive(Clone, Copy, Debug, PartialEq, Eq, Hash, Structural)]
pub enum Kernel {
    AbsInplace,
    AbsInplaceH,
    ActivationBackward,
    AdaLayerNorm,
    AdaLayerNormBackward,
    AdaLayerNormBackwardH,
    AdaLayerNormH,
    AtanInplace,
    AtanInplaceH,
    BatchElementwiseRegion,
    BiasAdd,
    BiasAddH,
    BinaryBroadcast1ax4,
    BinaryBroadcast1axF32,
    BinaryBroadcastRank24,
    BinaryBroadcastRank2F32,
    BinaryBroadcastRhsCol4,
    BinaryBroadcastRhsColF32,
    BinaryBroadcastRhsRow4,
    BinaryBroadcastRhsRowF32,
    BinaryBroadcastRhsScalar4,
    BinaryBroadcastRhsScalarF32,
    CastF16ToF32,
    CastF32ToF16,
    ComplexNormSq,
    ComplexNormSqBackward,
    ConcatLastaxMulti,
    ConcatLastaxMulti4,
    ConcatMidaxisSeg,
    ConcatMidaxisSegF16ToF32,
    ConcatMidaxisSegF32ToF16,
    ConcatMidaxisSegH,
    ConcatSegmentLastax,
    ConcatSegmentLastax4,
    ConcatSegmentLastaxH,
    ConjugateC64,
    Conv2d,
    Conv2dBackwardInput,
    Conv2dBackwardWeight,
    Conv2dBackwardWeightPartial,
    Conv2dBackwardWeightReduce,
    Conv2dBwdWeightGemm,
    Conv2dBwdWeightGemm4x4,
    Conv2dW1,
    Conv3d,
    Conv3dBackwardInput,
    Conv3dBackwardWeight,
    ConvTranspose2d,
    ConvTranspose3d,
    Copy4,
    CopyF32,
    CosInplace,
    CosInplaceH,
    CumScan,
    CumsumBwd,
    CumsumFwd,
    DepthwiseConv1dBsc,
    DequantGguf,
    DwSum,
    ElemAdd,
    ElemAdd4,
    ElemAddH,
    ElemBinop,
    ElemBinopH,
    ElemCompare,
    ElemCompareBcast,
    ElemDiv,
    ElemDiv4,
    ElemDivH,
    ElemFma,
    ElemMax,
    ElemMaxH,
    ElemMin,
    ElemMinH,
    ElemMul,
    ElemMul4,
    ElemMulH,
    ElemPow,
    ElemPowH,
    ElemSub,
    ElemSub4,
    ElemSubH,
    ElemWhere,
    ElemWhereBcast,
    ElementwiseRegion,
    ExpInplace,
    ExpInplaceH,
    FakeQuantizeFixed,
    FakeQuantizePerbatch,
    FftBitReverseF32,
    FftButterflyStage,
    FftInnerF32,
    FftOuterR2F32,
    FftOuterR4F32,
    FftRadix16FullF32,
    FftRadix2FullBigF32,
    FftRadix2FullF32,
    FftRadix4FullF32,
    FftRadix8FullF32,
    FusedBinaryActivation4,
    FusedBinaryActivationF32,
    FusedResidualLn,
    FusedResidualLnH,
    FusedResidualRmsNorm,
    FusedResidualRmsNormH,
    FusedSwiglu,
    FusedSwigluCastF16ToF32,
    FusedSwigluCastF32ToF16,
    FusedSwigluH,
    FusedTernaryActivation4,
    FusedTernaryActivationF32,
    GatedDeltaNet,
    GatedDeltaNetSg,
    GatedResidual,
    GatedResidualBackward,
    GatedResidualBackwardH,
    GatedResidualH,
    GatherAxis,
    GatherAxis0,
    GatherAxis0H,
    GatherBwdAcc,
    GatherBwdZero,
    GeluApproxInplace,
    GeluApproxInplace4,
    GeluApproxInplaceH,
    GeluApproxOut4,
    GeluInplace,
    GeluInplace4,
    GeluInplaceH,
    GemvF16wSplitk,
    GroupNorm,
    GroupNormBwdBeta,
    GroupNormBwdGamma,
    GroupNormBwdInput,
    GroupedMatmul,
    Gru,
    HcSinkhornGate,
    HgemmSimd4x4,
    HgemmSimd4x4Bias,
    Im2colGroup,
    Im2colGroupW1,
    Iq1MMvF32,
    Iq1SMvF32,
    Iq2SMvF32,
    Iq2XsMvF32,
    Iq2XxsMvF32,
    Iq3SMvF32,
    Iq3XxsMvF32,
    Iq4NlMvF32,
    KvQuantI8,
    KvQuantI8F16,
    LayerNorm,
    LayerNorm2d,
    LayerNormBwd,
    LayerNormBwdGamma,
    LayerNormBwdGammaReduceF32,
    LayerNormBwdGammaReduceSimd,
    LayerNormBwdStatsF32,
    LayerNormH,
    LogInplace,
    LogInplaceH,
    Lstm,
    Mamba2,
    Maxpool2dBackward,
    Maxpool3dBackward,
    NarrowLastax,
    NarrowLastax4,
    NarrowLastaxH,
    NegInplace,
    NegInplaceH,
    Pool2d,
    Q10DualMvF32Sg,
    Q10MmF32,
    Q10MvF32,
    Q10MvF32Sg,
    Q10MvResidualF32,
    Q10MvResidualF32Sg,
    Q10SwigluMvF32,
    Q10SwigluMvF32Sg,
    Q20DualMvF32Sg,
    Q20MmF32,
    Q20MvF32,
    Q20MvF32Sg,
    Q20MvResidualF32,
    Q20MvResidualF32Sg,
    Q20SwigluMvF32,
    Q20SwigluMvF32Sg,
    Q3kMvF32,
    Q3kMvF32Sg,
    Q40MvF32,
    Q40MvF32Sg,
    Q41MvF32,
    Q41MvF32Sg,
    Q4kGeluMvF32,
    Q4kMmF32,
    Q4kMvF32,
    Q4kMvF32Sg,
    Q4kSwigluMvF32,
    Q50GeluMvF32,
    Q50SwigluMvF32,
    Q6kMmF32,
    Q6kMvF32,
    Q6kMvF32Sg,
    Q80MvF32,
    Q80MvF32Sg,
    RecInplace,
    RecInplaceH,
    ReduceAxes,
    ReduceAxesH,
    ReduceAxesSumSimd,
    ReluBackward,
    ReluInplace,
    ReluInplaceH,
    ResizeNearest2x,
    RmsNorm,
    RmsNormBwd,
    RmsNormBwdInvRF32,
    RmsNormBwdParam,
    RmsNormBwdParamReduceF32,
    RmsNormH,
    RmsNormMulSilu,
    Rnn,
    Rope,
    RopeBwd,
    RopeH,
    RoundInplace,
    RoundInplaceH,
    RsqrtInplace,
    RsqrtInplaceH,
    ScatterAddAccumulate,
    ScatterAddZero,
    Sdpa,
    SdpaDecodeM1,
    SdpaDecodeM1Combine,
    SdpaDecodeM1F16kv,
    SdpaDecodeM1Partial,
    SdpaDecodeM1PartialF16kv,
    SdpaDecodeM1PartialHd,
    SdpaDecodeM1PartialHdF16kv,
    SdpaDecodeM1PartialW8a8,
    SdpaFa2,
    SdpaFaF32,
    SdpaH,
    SdpaLong,
    SdpaLongOccpad,
    SdpaMma,
    SdpaPrefillFa,
    SdpaPrefillFaMma,
    SdpaSimd,
    SdpaSimdH16,
    SdpaSplitk,
    SelectiveScan,
    Sgemm,
    SgemmF16a,
    SgemmF16w,
    SgemmF16wSmallM,
    SgemmSimd,
    SgemmSimd64,
    SgemmSimd64Splitk,
    SgemmSimd4x4,
    SgemmSimd4x4Bias,
    SgemmSimdBias,
    SgemmSimdPadded,
    SgemmSimdPaddedBias,
    SgemmSimdPaddedF16w,
    SgemmSimdPaddedResidual,
    SgemmTiled,
    SigmoidInplace,
    SigmoidInplaceH,
    SiluInplace,
    SiluInplace4,
    SiluInplaceH,
    SiluOut4,
    SinInplace,
    SinInplaceH,
    SoftmaxCrossEntropyBackward,
    SoftmaxCrossEntropyDense,
    SoftmaxCrossEntropyWithLogits,
    SoftmaxLastax,
    SoftmaxLastaxH,
    SplineActivation,
    SplitLastax,
    SplitLastax4,
    SqrtInplace,
    SqrtInplaceH,
    SynthBwdCodebook,
    SynthBwdDx,
    SynthMatmulCodebook,
    SynthMatmulCodebookH,
    SynthMatmulCodebookMm,
    SynthMatmulCodebookMmH,
    SynthMatmulCodebookTiled,
    SynthMatmulCodebookTiledH,
    SynthReconstruct,
    SynthReconstructH,
    TanInplace,
    TanInplaceH,
    TanhInplace,
    TanhInplaceH,
    TopkLastax,
    Transpose2dF32,
    Transpose2dTiledF32,
    TransposeLast2BatchedF32,
    TransposeLast2BatchedTiledF32,
    TransposeNd,
    TransposeNdH,
    TransposeSwap12BatchedTrailF32,
    TransposeSwap12BatchedTrailTiledF32,
    ZeroF32,
    ScalarActivation(Activation, HalfFlag),
}

/// A buffer that a command binds.
#[derive(Clone, Copy, Debug, PartialEq, Eq, Structural)]
pub enum Buf {
    /// The unified-memory arena that holds every activation.
    Arena,
    /// The buffer that holds large parameters.
    Weights,
    /// Partial results of split attention.
    Scratch,
    /// The quantized KV cache.
    IntScratch,
    /// Lookup tables of the IQ quantization schemes.
    IqGrid,
    /// Any other buffer, by a number that the caller gives it.
    Tensor(u32),
}

#[derive(Clone, Copy, Debug, PartialEq, Eq, Structural)]
pub struct Size {
    pub width: u64,
    pub height: u64,
    pub depth: u64,
}

/// The shape of a threadgroup. The execution width of a pipeline is known only once the
/// pipeline is compiled, so a shape that depends on it says how.
#[derive(Clone, Copy, Debug, PartialEq, Eq, Structural)]
pub enum Group {
    Fixed(Size),
    /// One row as wide as the pipeline executes, but not wider than the cap.
    ExecWidth(Kernel, u64),
    /// As wide as the pipeline executes, up to the first cap, and as high as 256 threads
    /// allow, up to the second.
    ExecTile(Kernel, u64, u64),
}

pub open spec fn min_u64(a: u64, b: u64) -> u64 {
    if a <= b {
        a
    } else {
        b
    }
}

pub open spec fn max_u64(a: u64, b: u64) -> u64 {
    if a >= b {
        a
    } else {
        b
    }
}

pub fn least(a: u64, b: u64) -> (r: u64)
    ensures
        r == min_u64(a, b),
{
    if a <= b {
        a
    } else {
        b
    }
}

pub fn most(a: u64, b: u64) -> (r: u64)
    ensures
        r == max_u64(a, b),
{
    if a >= b {
        a
    } else {
        b
    }
}

pub open spec fn one_row(width: u64) -> Size {
    Size { width, height: 1, depth: 1 }
}

pub fn row(width: u64) -> (r: Size)
    ensures
        r == one_row(width),
{
    Size { width, height: 1, depth: 1 }
}

impl Group {
    /// The threadgroup once the execution width is known.
    pub open spec fn resolved(self, exec_width: u64) -> Size {
        match self {
            Group::Fixed(size) => size,
            Group::ExecWidth(_, cap) => one_row(min_u64(exec_width, cap)),
            Group::ExecTile(_, cap_w, cap_h) => {
                let w = min_u64(exec_width, cap_w);
                Size {
                    width: w,
                    height: min_u64(256u64 / max_u64(w, 1), cap_h),
                    depth: 1,
                }
            },
        }
    }

    pub fn resolve(self, exec_width: u64) -> (r: Size)
        ensures
            r == self.resolved(exec_width),
    {
        match self {
            Group::Fixed(size) => size,
            Group::ExecWidth(_, cap) => row(least(exec_width, cap)),
            Group::ExecTile(_, cap_w, cap_h) => {
                let w: u64 = least(exec_width, cap_w);
                Size { width: w, height: least(256 / most(w, 1), cap_h), depth: 1 }
            },
        }
    }
}

/// One step of an encoder. State that a step sets stays until another sets it anew.
#[derive(Clone, Copy, Debug, PartialEq, Eq, Structural)]
pub enum Cmd {
    /// Selects the pipeline.
    Pipeline(Kernel),
    /// Binds a buffer to a slot, from a byte offset on.
    Buffer(u64, Buf, u64),
    /// Sets a slot to inline constants. Floats travel as their bit patterns.
    U32(u64, u32),
    U64(u64, u64),
    U32x2(u64, u32, u32),
    U32x4(u64, u32, u32, u32, u32),
    U64x6(u64, u64, u64, u64, u64, u64, u64),
    /// Sets a slot to as many words as the second number says; the words follow.
    Array(u64, u64),
    Word(u32),
    /// Launches as many threads as the size says.
    Threads(Size, Group),
    /// Launches as many threadgroups as the first size says, each as large as the second.
    Groups(Size, Size),
    /// Opens and closes a compute encoder of its own.
    Begin(Order),
    End,
    /// A matrix product `a * b^T` of the vendor's library, outside any compute encoder.
    VendorMatmulBt(MatmulBt),
}

/// Whether the dispatches of an encoder may overlap.
#[derive(Clone, Copy, Debug, PartialEq, Eq, Structural)]
pub enum Order {
    Serial,
    Concurrent,
}

/// Byte offsets and dimensions of a product with the second factor transposed.
#[derive(Clone, Copy, Debug, PartialEq, Eq, Structural)]
pub struct MatmulBt {
    pub a: usize,
    pub b: usize,
    pub c: usize,
    pub m: usize,
    pub k: usize,
    pub n: usize,
}

/// Appends steps to a stream.
pub fn emit(enc: &mut Vec<Cmd>, steps: Vec<Cmd>)
    ensures
        final(enc)@ == old(enc)@ + steps@,
{
    let mut steps: Vec<Cmd> = steps;
    enc.append(&mut steps);
}

/// The words of an inline array, as steps.
pub open spec fn word_steps(words: Seq<u32>) -> Seq<Cmd> {
    Seq::new(words.len(), |i: int| Cmd::Word(words[i]))
}

/// Sets a slot to an array of words.
pub open spec fn array_steps(slot: u64, words: Seq<u32>) -> Seq<Cmd> {
    seq![Cmd::Array(slot, words.len() as u64)] + word_steps(words)
}

pub fn emit_array(enc: &mut Vec<Cmd>, slot: u64, words: &[u32])
    ensures
        final(enc)@ == old(enc)@ + array_steps(slot, words@),
{
    let ghost start = enc@;
    enc.push(Cmd::Array(slot, words.len() as u64));
    let mut i: usize = 0;
    while i < words.len()
        invariant
            i <= words@.len(),
            enc@ == start + (seq![Cmd::Array(slot, words@.len() as u64)] + word_steps(
                words@.take(i as int),
            )),
        decreases words@.len() - i,
    {
        enc.push(Cmd::Word(words[i]));
        i = i + 1;
        assert(enc@ =~= start + (seq![Cmd::Array(slot, words@.len() as u64)] + word_steps(
            words@.take(i as int),
        )));
    }
    assert(words@.take(i as int) =~= words@);
}

/// The quotient rounded up.
pub open spec fn div_up(a: u64, b: u64) -> u64 {
    ((a + b - 1) / b as int) as u64
}

pub fn ceil_div(a: u64, b: u64) -> (r: u64)
    requires
        b > 0,
    ensures
        r == div_up(a, b),
        r as int == (a + b - 1) / b as int,
{
    let q: u64 = a / b;
    let m: u64 = a % b;
    if m == 0 {
        assert((a + b - 1) / b as int == a / b) by (nonlinear_arith)
            requires
                b > 0,
                a as int % b as int == 0,
        ;
        q
    } else {
        assert((a + b - 1) / b as int == a / b + 1 && a / b + 1 <= a) by (nonlinear_arith)
            requires
                b > 0,
                a as int % b as int != 0,
        ;
        q + 1
    }
}

/// The low 32 bits.
pub open spec fn low_word(x: u64) -> u32 {
    (x % 0x1_0000_0000) as u32
}

pub fn low32(x: u64) -> (r: u32)
    ensures
        r == low_word(x),
{
    (x % 0x1_0000_0000) as u32
}

/// One where the flag is set.
pub open spec fn bit(b: bool) -> u32 {
    if b {
        1
    } else {
        0
    }
}

pub fn flag(b: bool) -> (r: u32)
    ensures
        r == bit(b),
{
    if b {
        1
    } else {
        0
    }
}

/// A two-dimensional count.
pub open spec fn plane(width: u64, height: u64) -> Size {
    Size { width, height, depth: 1 }
}

pub fn plane_of(width: u64, height: u64) -> (r: Size)
    ensures
        r == plane(width, height),
{
    Size { width, height, depth: 1 }
}

/// The product, or the largest number where it does not fit.
pub open spec fn sat_mul(a: u32, b: u32) -> u32 {
    if a * b > u32::MAX {
        u32::MAX
    } else {
        (a * b) as u32
    }
}

pub fn saturating_product(a: u32, b: u32) -> (r: u32)
    ensures
        r == sat_mul(a, b),
{
    assert(a * b <= 0xffff_ffff * 0xffff_ffff) by (nonlinear_arith);
    let p: u64 = (a as u64) * (b as u64);
    if p > 0xffff_ffff {
        u32::MAX
    } else {
        p as u32
    }
}

/// Four-byte words that `len` floats fill.
pub open spec fn word_count(dt: HalfFlag, len: u32) -> u32 {
    if dt == HalfFlag::F32 {
        len
    } else {
        ((len + 1) / 2) as u32
    }
}

pub fn words_of(dt: HalfFlag, len: u32) -> (r: u32)
    ensures
        r == word_count(dt, len),
{
    if dt == HalfFlag::F32 {
        len
    } else {
        len / 2 + len % 2
    }
}

/// The threads of a tree reduction over a row: the largest power of two that exceeds neither
/// the row nor 256.
pub open spec fn reduction_span(len: u32) -> u64 {
    if len >= 256 {
        256
    } else if len >= 128 {
        128
    } else if len >= 64 {
        64
    } else if len >= 32 {
        32
    } else if len >= 16 {
        16
    } else if len >= 8 {
        8
    } else if len >= 4 {
        4
    } else if len >= 2 {
        2
    } else {
        1
    }
}

pub fn reduction_width(len: u32) -> (r: u64)
    ensures
        r == reduction_span(len),
{
    let mut w: u64 = 1;
    while w * 2 <= len as u64 && w * 2 <= 256
        invariant
            w == 1 || w == 2 || w == 4 || w == 8 || w == 16 || w == 32 || w == 64 || w == 128 || w
                == 256,
            w == 1 || w <= len,
        decreases 256 - w,
    {
        w = w * 2;
    }
    w
}

/// The index of the float at a byte offset, in 32 bits.
pub open spec fn f32_index(byte_off: usize) -> u32 {
    low_word((byte_off / 4) as u64)
}

pub fn f32_index_of(byte_off: usize) -> (r: u32)
    ensures
        r == f32_index(byte_off),
{
    low32((byte_off / 4) as u64)
}

} // verus!
