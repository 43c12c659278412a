//! Dense products: whichever kernel runs, it is handed the factors, the result, the bias and the
//! dimensions of the call, and its launch covers the result.

use vstd::prelude::*;

use crate::blas::{
    act_kernel, biased_steps, f16w_steps, hgemm_bias_steps, hgemm_bufs_steps, hgemm_steps,
    product_bindings, product_steps, residual_steps, sgemm_buffers_steps, sgemm_f16a_bufs_steps,
    sgemm_f16w_bufs_steps, sgemm_f16w_steps, variant_steps, bias_and_act_steps, FusedAct,
};
use crate::command::{
    div_up, low_word, one_row, plane, Activation, Buf, Cmd, HalfFlag, Kernel, Size,
};
use crate::cost::{picked, MetalHwModel, SgemmSettings, SgemmVariant};
use crate::encode::elementwise::{activation_steps, bias_add_steps};
use crate::launch::{
    behind, group_launches, launch, launches, launches_once, lemma_launches_append, Launch,
};

verus! {

/// Where a product has its factors and its result, and its dimensions.
pub struct Product {
    pub a: (Buf, usize),
    pub b: (Buf, usize),
    pub c: (Buf, usize),
    pub m: usize,
    pub k: usize,
    pub n: usize,
}

pub open spec fn at(p: (Buf, usize)) -> Option<(Buf, u64)> {
    Some((p.0, p.1 as u64))
}

pub open spec fn dim(d: usize) -> Option<u32> {
    Some(low_word(d as u64))
}

/// A kernel that multiplies finds `A`, `B` and `C`, and next their dimensions `m`, `k` and `n`. The
/// kernel for a single row takes no `m`.
pub open spec fn multiplies(l: Launch, p: Product) -> bool {
    &&& l.place(0) == at(p.a)
    &&& l.place(1) == at(p.b)
    &&& l.place(2) == at(p.c)
    &&& if l.kernel() == Some(Kernel::GemvF16wSplitk) {
        &&& p.m == 1
        &&& l.word(3) == dim(p.k)
        &&& l.word(4) == dim(p.n)
    } else {
        &&& l.word(3) == dim(p.m)
        &&& l.word(4) == dim(p.k)
        &&& l.word(5) == dim(p.n)
    }
}

/// A kernel that multiplies and adds a bias finds `A`, `B`, the bias and `C`, their dimensions, and
/// the number of the activation on top.
pub open spec fn multiplies_with_bias(l: Launch, p: Product, bias: usize, act: FusedAct) -> bool {
    &&& l.place(0) == at(p.a)
    &&& l.place(1) == at(p.b)
    &&& l.place(2) == Some((Buf::Arena, bias as u64))
    &&& l.place(3) == at(p.c)
    &&& l.word(4) == dim(p.m)
    &&& l.word(5) == dim(p.k)
    &&& l.word(6) == dim(p.n)
    &&& l.word(7) == Some(
        match act {
            FusedAct::Identity => 0u32,
            FusedAct::Gelu => 1u32,
            FusedAct::Silu => 2u32,
        },
    )
}

/// Rows and columns of the result that one threadgroup computes, for kernels launched by groups.
pub open spec fn tile(kernel: Kernel) -> Option<u64> {
    match kernel {
        Kernel::SgemmSimd4x4
        | Kernel::SgemmSimd4x4Bias
        | Kernel::HgemmSimd4x4
        | Kernel::HgemmSimd4x4Bias => Some(32),
        Kernel::SgemmSimd
        | Kernel::SgemmSimdBias
        | Kernel::SgemmSimdPadded
        | Kernel::SgemmSimdPaddedBias
        | Kernel::SgemmSimdPaddedResidual
        | Kernel::SgemmSimdPaddedF16w => Some(8),
        _ => None,
    }
}

/// The threads of a group of each kernel.
pub open spec fn tile_threads(kernel: Kernel) -> Size {
    match kernel {
        Kernel::SgemmSimd4x4
        | Kernel::SgemmSimd4x4Bias
        | Kernel::HgemmSimd4x4
        | Kernel::HgemmSimd4x4Bias => one_row(512),
        Kernel::SgemmSimd64 | Kernel::SgemmSimd64Splitk => plane(32, 8),
        Kernel::GemvF16wSplitk => plane(32, 32),
        _ => one_row(32),
    }
}

/// The launch covers the `m` rows and `n` columns of the result: groups of whole tiles, or a thread
/// per element. The kernels of 64 by 64 tiles take whole tiles only.
pub open spec fn covers_result(l: Launch, m: usize, n: usize) -> bool {
    match l.kernel() {
        Some(kernel) => match tile(kernel) {
            Some(t) => match l.groups() {
                Some((count, size)) => {
                    &&& size == tile_threads(kernel)
                    &&& n <= count.width * t < n + t
                    &&& m <= count.height * t < m + t
                    &&& count.depth == 1
                },
                None => false,
            },
            None => match kernel {
                Kernel::SgemmSimd64 | Kernel::SgemmSimd64Splitk => match l.groups() {
                    Some((count, size)) => {
                        &&& size == tile_threads(kernel)
                        &&& n % 64 == 0 ==> count.width * 64 == n
                        &&& m % 64 == 0 ==> count.height * 64 == m
                    },
                    None => false,
                },
                Kernel::GemvF16wSplitk => match l.groups() {
                    Some((count, size)) => {
                        &&& m == 1
                        &&& size == tile_threads(kernel)
                        &&& n <= count.width * 64 < n + 64
                        &&& count.height == 1
                        &&& count.depth == 1
                    },
                    None => false,
                },
                Kernel::SgemmF16wSmallM => m <= 4 && l.threads() == Some(one_row(n as u64)),
                Kernel::SgemmTiled => match l.threads() {
                    Some(size) => {
                        &&& n <= size.width < n + 16 && size.width % 16 == 0
                        &&& m <= size.height < m + 16 && size.height % 16 == 0
                        &&& size.depth == 1
                    },
                    None => false,
                },
                _ => l.threads() == Some(plane(n as u64, m as u64)),
            },
        },
        None => false,
    }
}

proof fn lemma_tiles(n: usize, t: u64)
    requires
        n + 31 <= u64::MAX,
        t == 8 || t == 16 || t == 32 || t == 64,
    ensures
        n + 63 <= u64::MAX || t != 64 ==> n <= div_up(n as u64, t) * t < n + t,
{
}

/// Kernels that read what they multiply in single precision, in half precision, and those that mix.
pub open spec fn is_single(kernel: Kernel) -> bool {
    match kernel {
        Kernel::SgemmSimd4x4
        | Kernel::SgemmSimd4x4Bias
        | Kernel::SgemmSimd
        | Kernel::SgemmSimdBias
        | Kernel::SgemmSimdPadded
        | Kernel::SgemmSimdPaddedBias
        | Kernel::SgemmSimdPaddedResidual
        | Kernel::SgemmSimd64
        | Kernel::SgemmSimd64Splitk
        | Kernel::SgemmTiled
        | Kernel::Sgemm => true,
        _ => false,
    }
}

pub open spec fn is_half_weights(kernel: Kernel) -> bool {
    match kernel {
        Kernel::GemvF16wSplitk
        | Kernel::SgemmF16wSmallM
        | Kernel::SgemmSimdPaddedF16w
        | Kernel::SgemmF16w => true,
        _ => false,
    }
}

/// Whichever variant is picked, the last kernel of a product multiplies the call's factors into the
/// call's result and covers it. Only a split product launches another kernel before, which zeroes
/// the whole result.
pub proof fn lemma_product(v: SgemmVariant, p: Product)
    requires
        p.m * p.n <= usize::MAX,
        p.m + 63 <= usize::MAX,
        p.n + 63 <= usize::MAX,
    ensures
        ({
            let ls = launches(
                product_steps(v, p.a.0, p.a.1, p.b.0, p.b.1, p.c.0, p.c.1, p.m, p.k, p.n),
            );
            let last = ls[ls.len() - 1];
            &&& ls.len() == if v == SgemmVariant::Simd64SplitK {
                2int
            } else {
                1int
            }
            &&& multiplies(last, p)
            &&& covers_result(last, p.m, p.n)
            &&& is_single(last.kernel()->0)
            &&& v == SgemmVariant::Simd64SplitK ==> {
                &&& ls[0].kernel() == Some(Kernel::ZeroF32)
                &&& ls[0].place(0) == at(p.c)
                &&& ls[0].word(1) == Some(low_word((p.m * p.n) as u64))
                &&& ls[0].threads() == Some(one_row((p.m * p.n) as u64))
                &&& last.kernel() == Some(Kernel::SgemmSimd64Splitk)
                &&& last.word(6) is Some
                &&& last.word(6)->0 >= 1
                &&& (last.groups()->0).0.depth == last.word(6)->0
            }
        }),
{
    broadcast use group_launches;

    lemma_tiles(p.m, 8);
    lemma_tiles(p.n, 8);
    lemma_tiles(p.m, 16);
    lemma_tiles(p.n, 16);
    lemma_tiles(p.m, 32);
    lemma_tiles(p.n, 32);
    let s = product_steps(v, p.a.0, p.a.1, p.b.0, p.b.1, p.c.0, p.c.1, p.m, p.k, p.n);
    match v {
        SgemmVariant::Simd64SplitK => {
            assert(launches(s).len() == 2);
        },
        SgemmVariant::Mps | SgemmVariant::Simd4x4 => {
            assert(launches(s).len() == 1);
        },
        SgemmVariant::Simd64 => {
            assert(launches(s).len() == 1);
        },
        SgemmVariant::Simd => {
            assert(launches(s).len() == 1);
        },
        SgemmVariant::SimdPadded => {
            assert(launches(s).len() == 1);
        },
        SgemmVariant::Tiled => {
            assert(launches(s).len() == 1);
        },
        SgemmVariant::Naive => {
            assert(launches(s).len() == 1);
        },
    }
}

/// The variant decides which kernel runs, and no two of the launched variants share one.
pub proof fn lemma_variant_kernels(v: SgemmVariant, m: usize, n: usize)
    ensures
        launches_once(variant_steps(v, m, n)),
        launch(variant_steps(v, m, n)).kernel() == Some(
            match v {
                SgemmVariant::Mps | SgemmVariant::Simd4x4 => Kernel::SgemmSimd4x4,
                SgemmVariant::Simd64 | SgemmVariant::Simd64SplitK => Kernel::SgemmSimd64,
                SgemmVariant::Simd => Kernel::SgemmSimd,
                SgemmVariant::SimdPadded => Kernel::SgemmSimdPadded,
                SgemmVariant::Tiled => Kernel::SgemmTiled,
                SgemmVariant::Naive => Kernel::Sgemm,
            },
        ),
{
    broadcast use group_launches;

}

/// A product of whole buffers is the product from their starts, except that it is never split.
pub proof fn lemma_buffer_product(
    hw: MetalHwModel,
    s: SgemmSettings,
    a: Buf,
    b: Buf,
    c: Buf,
    m: usize,
    k: usize,
    n: usize,
)
    requires
        m * n <= usize::MAX,
        m + 63 <= usize::MAX,
        n + 63 <= usize::MAX,
    ensures
        ({
            let v = picked(hw, s, m as int, k as int, n as int);
            let w = if v == SgemmVariant::Simd64SplitK {
                SgemmVariant::Simd64
            } else {
                v
            };
            &&& sgemm_buffers_steps(hw, s, a, b, c, m, k, n) == product_steps(
                w,
                a,
                0,
                b,
                0,
                c,
                0,
                m,
                k,
                n,
            )
        }),
{
}

/// The kernel that adds a matrix to the product finds that matrix behind what every product finds.
pub proof fn lemma_residual_product(p: Product, r: Buf, r_off: usize)
    requires
        p.m + 63 <= usize::MAX,
        p.n + 63 <= usize::MAX,
    ensures
        ({
            let s = residual_steps(
                p.a.0,
                p.a.1,
                p.b.0,
                p.b.1,
                p.c.0,
                p.c.1,
                r,
                r_off,
                p.m,
                p.k,
                p.n,
            );
            &&& launches_once(s)
            &&& launch(s).kernel() == Some(Kernel::SgemmSimdPaddedResidual)
            &&& multiplies(launch(s), p)
            &&& covers_result(launch(s), p.m, p.n)
            &&& launch(s).place(6) == at((r, r_off))
        }),
{
    broadcast use group_launches;

    lemma_tiles(p.m, 8);
    lemma_tiles(p.n, 8);
}

/// A product with half-precision weights multiplies the call's factors into the call's result and
/// covers it, and reads `B` in half precision. Within the arena it is the same product.
pub proof fn lemma_half_weights_product(
    hw: MetalHwModel,
    s: SgemmSettings,
    split_gemv: bool,
    p: Product,
)
    requires
        p.m + 63 <= usize::MAX,
        p.n + 63 <= usize::MAX,
    ensures
        ({
            let t = sgemm_f16w_bufs_steps(
                hw,
                s,
                split_gemv,
                p.a.0,
                p.a.1,
                p.b.0,
                p.b.1,
                p.c.0,
                p.c.1,
                p.m,
                p.k,
                p.n,
            );
            &&& launches_once(t)
            &&& multiplies(launch(t), p)
            &&& covers_result(launch(t), p.m, p.n)
            &&& is_half_weights(launch(t).kernel()->0)
            &&& launch(t).kernel() == Some(Kernel::GemvF16wSplitk) ==> split_gemv && p.n % 2 == 0
        }),
        sgemm_f16w_steps(hw, s, split_gemv, p.a.1, p.b.1, p.c.1, p.m, p.k, p.n)
            == sgemm_f16w_bufs_steps(
            hw,
            s,
            split_gemv,
            Buf::Arena,
            p.a.1,
            Buf::Arena,
            p.b.1,
            Buf::Arena,
            p.c.1,
            p.m,
            p.k,
            p.n,
        ),
{
    broadcast use group_launches;

    lemma_tiles(p.m, 8);
    lemma_tiles(p.n, 8);
    lemma_tiles(p.n, 64);
    let t = sgemm_f16w_bufs_steps(
        hw,
        s,
        split_gemv,
        p.a.0,
        p.a.1,
        p.b.0,
        p.b.1,
        p.c.0,
        p.c.1,
        p.m,
        p.k,
        p.n,
    );
    let v = picked(hw, s, p.m as int, p.k as int, p.n as int);
    if p.m == 1 && p.n >= 64 && p.n % 2 == 0 && split_gemv {
        assert(launches_once(t));
    } else if p.m <= 4 && p.n >= 64 {
        assert(launches_once(t));
    } else if crate::blas::padded_f16w(v, p.k, p.n) {
        assert(launches_once(t));
    } else {
        assert(launches_once(t));
    }
}

/// A product with a half-precision first factor, and products in half precision.
pub proof fn lemma_half_products(p: Product)
    requires
        p.m + 63 <= usize::MAX,
        p.n + 63 <= usize::MAX,
    ensures
        ({
            let t = sgemm_f16a_bufs_steps(
                p.a.0,
                p.a.1,
                p.b.0,
                p.b.1,
                p.c.0,
                p.c.1,
                p.m,
                p.k,
                p.n,
            );
            &&& launches_once(t)
            &&& multiplies(launch(t), p)
            &&& covers_result(launch(t), p.m, p.n)
            &&& launch(t).kernel() == Some(Kernel::SgemmF16a)
        }),
        ({
            let t = hgemm_bufs_steps(
                p.a.0,
                p.a.1,
                p.b.0,
                p.b.1,
                p.c.0,
                p.c.1,
                p.m,
                p.k,
                p.n,
            );
            &&& launches_once(t)
            &&& multiplies(launch(t), p)
            &&& covers_result(launch(t), p.m, p.n)
            &&& launch(t).kernel() == Some(Kernel::HgemmSimd4x4)
        }),
        hgemm_steps(p.a.1, p.b.1, p.c.1, p.m, p.k, p.n) == hgemm_bufs_steps(
            Buf::Arena,
            p.a.1,
            Buf::Arena,
            p.b.1,
            Buf::Arena,
            p.c.1,
            p.m,
            p.k,
            p.n,
        ),
{
    broadcast use group_launches;

    lemma_tiles(p.m, 32);
    lemma_tiles(p.n, 32);
}

/// A half-precision product with a bias is handed the bias where the single-precision one is.
pub proof fn lemma_half_product_with_bias(p: Product, bias: usize, act: FusedAct)
    requires
        p.a.0 == Buf::Arena && p.b.0 == Buf::Arena && p.c.0 == Buf::Arena,
        p.m + 63 <= usize::MAX,
        p.n + 63 <= usize::MAX,
    ensures
        ({
            let t = hgemm_bias_steps(p.a.1, p.b.1, bias, p.c.1, p.m, p.k, p.n, act);
            &&& launches_once(t)
            &&& launch(t).kernel() == Some(Kernel::HgemmSimd4x4Bias)
            &&& multiplies_with_bias(launch(t), p, bias, act)
            &&& covers_result(launch(t), p.m, p.n)
        }),
{
    broadcast use group_launches;

    lemma_tiles(p.m, 32);
    lemma_tiles(p.n, 32);
}

/// Variants that have a kernel which adds the bias itself.
pub open spec fn adds_bias_itself(v: SgemmVariant) -> bool {
    v == SgemmVariant::Simd4x4 || v == SgemmVariant::Simd || v == SgemmVariant::SimdPadded
}

/// The bias behind a product is the bias addition that runs on its own, on the result and the bias
/// of the call; an activation behind it runs on the result, with the kernel of that activation.
pub proof fn lemma_bias_as_on_its_own(bias: usize, c: usize, m: usize, n: usize, act: FusedAct)
    ensures
        ({
            let alone = bias_add_steps(
                Buf::Arena,
                c,
                Buf::Arena,
                bias,
                low_word(m as u64),
                low_word(n as u64),
                HalfFlag::F32,
            );
            let s = bias_and_act_steps(bias, c, m, n, act);
            &&& m < 0x1_0000_0000 && n < 0x1_0000_0000 ==> alone.is_prefix_of(s)
            &&& launches(s).len() == if act == FusedAct::Identity {
                1int
            } else {
                2int
            }
            &&& launches(s)[0].kernel() == Some(Kernel::BiasAdd)
            &&& launches(s)[0].place(0) == Some((Buf::Arena, c as u64))
            &&& launches(s)[0].place(1) == Some((Buf::Arena, bias as u64))
            &&& launches(s)[0].word(2) == dim(m)
            &&& launches(s)[0].word(3) == dim(n)
            &&& launches(s)[0].threads() == Some(plane(n as u64, m as u64))
            &&& act == FusedAct::Gelu ==> {
                &&& launches(s)[1].kernel() == Some(Kernel::GeluInplace)
                &&& launches(s)[1].place(0) == Some((Buf::Arena, 0u64))
                &&& launches(s)[1].long(1) == Some(c as u64)
                &&& launches(s)[1].word(2) == Some(low_word((m * n) as u64))
                &&& launches(s)[1].threads() == Some(one_row(low_word((m * n) as u64) as u64))
            }
            &&& act == FusedAct::Silu ==> {
                &&& launches(s)[1].kernel() == Some(Kernel::SiluInplace)
                &&& launches(s)[1].place(0) == Some((Buf::Arena, c as u64))
                &&& launches(s)[1].word(1) == Some(low_word((m * n) as u64))
                &&& launches(s)[1].threads() == Some(one_row(low_word((m * n) as u64) as u64))
            }
        }),
{
    broadcast use group_launches;

    let s = bias_and_act_steps(bias, c, m, n, act);
    let alone = bias_add_steps(
        Buf::Arena,
        c,
        Buf::Arena,
        bias,
        low_word(m as u64),
        low_word(n as u64),
        HalfFlag::F32,
    );
    if act == FusedAct::Identity {
        assert(launches(s).len() == 1);
    } else if act == FusedAct::Gelu {
        assert(launches(s).len() == 2);
    } else {
        assert(launches(s).len() == 2);
    }
    if m < 0x1_0000_0000 && n < 0x1_0000_0000 {
        assert(s.subrange(0, alone.len() as int) =~= alone);
    }
}

/// A product with a bias reads the bias of the call whichever variant is picked: the kernels that
/// add it themselves find it before the result, and for all others the product is followed by the
/// bias addition on the result and the bias.
pub proof fn lemma_product_with_bias(v: SgemmVariant, p: Product, bias: usize, act: FusedAct)
    requires
        p.a.0 == Buf::Arena && p.b.0 == Buf::Arena && p.c.0 == Buf::Arena,
        p.m + 63 <= usize::MAX,
        p.n + 63 <= usize::MAX,
    ensures
        ({
            let s = biased_steps(v, p.a.1, p.b.1, bias, p.c.1, p.m, p.k, p.n, act);
            &&& adds_bias_itself(v) ==> {
                &&& launches_once(s)
                &&& multiplies_with_bias(launch(s), p, bias, act)
                &&& covers_result(launch(s), p.m, p.n)
                &&& is_single(launch(s).kernel()->0)
                &&& tile(launch(s).kernel()->0) == tile(
                    launch(variant_steps(v, p.m, p.n)).kernel()->0,
                )
            }
            &&& !adds_bias_itself(v) ==> s == product_steps(
                v,
                Buf::Arena,
                p.a.1,
                Buf::Arena,
                p.b.1,
                Buf::Arena,
                p.c.1,
                p.m,
                p.k,
                p.n,
            ) + bias_and_act_steps(bias, p.c.1, p.m, p.n, act)
        }),
{
    broadcast use group_launches;

    lemma_tiles(p.m, 8);
    lemma_tiles(p.n, 8);
    lemma_tiles(p.m, 32);
    lemma_tiles(p.n, 32);
    let s = biased_steps(v, p.a.1, p.b.1, bias, p.c.1, p.m, p.k, p.n, act);
    lemma_variant_kernels(v, p.m, p.n);
    if v == SgemmVariant::Simd4x4 {
        assert(launches_once(s));
    } else if v == SgemmVariant::Simd {
        assert(launches_once(s));
    } else if v == SgemmVariant::SimdPadded {
        assert(launches_once(s));
    }
}

/// Half-precision weights run padded from 256 inner steps and 256 columns on, unless the variant is
/// one of the large tiles or the plain kernel.
pub proof fn lemma_padded_weights(v: SgemmVariant, k: usize, n: usize)
    ensures
        k < 256 || n < 256 ==> !crate::blas::padded_f16w(v, k, n),
        v == SgemmVariant::Naive || v == SgemmVariant::Simd64 || v == SgemmVariant::Simd64SplitK
            ==> !crate::blas::padded_f16w(v, k, n),
        k >= 256 && n >= 256 && v != SgemmVariant::Naive && v != SgemmVariant::Simd64 && v
            != SgemmVariant::Simd64SplitK ==> crate::blas::padded_f16w(v, k, n),
{
}

} // verus!
