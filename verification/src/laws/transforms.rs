//! Fourier transforms: every pass is handed the direction of the call, works on the call's data, and
//! the scale is applied once.

use vstd::prelude::*;

use crate::command::{div_up, low_word, one_row, plane, Buf, Cmd, Kernel};
use crate::fft_dispatch::{
    fft_butterfly_stage_steps, fft_steps, log2n, on_chip, on_chip_kernel, radix4_passes,
    radix2_steps, radix4_steps, tile_count, tile_size, tile_steps, FftCall, FftGpuPlan, ONE_BITS,
    WG,
};
use crate::launch::{
    behind, group_launches, launch, launches, launches_once, lemma_behind_keeps,
    lemma_behind_kernel, lemma_launches_append, Launch,
};

verus! {

/// The slot at which a kernel takes the direction; reordering has none.
pub open spec fn direction_slot(kernel: Kernel) -> Option<u64> {
    match kernel {
        Kernel::FftBitReverseF32 => None,
        Kernel::FftOuterR4F32 | Kernel::FftOuterR2F32 => Some(4),
        _ => Some(5),
    }
}

/// The slot at which a kernel takes the factor on its result.
pub open spec fn scale_slot(kernel: Kernel) -> Option<u64> {
    match kernel {
        Kernel::FftBitReverseF32 => None,
        Kernel::FftOuterR4F32 | Kernel::FftOuterR2F32 => Some(5),
        _ => Some(6),
    }
}

/// The slot at which a kernel takes the number of transforms.
pub open spec fn outer_slot(kernel: Kernel) -> u64 {
    match kernel {
        Kernel::FftBitReverseF32 => 5,
        Kernel::FftOuterR4F32 | Kernel::FftOuterR2F32 => 6,
        _ => 7,
    }
}

/// The kernel works in place on the result, not from the input.
pub open spec fn in_place(kernel: Kernel) -> bool {
    kernel == Kernel::FftInnerF32 || kernel == Kernel::FftOuterR4F32 || kernel
        == Kernel::FftOuterR2F32
}

/// What a pass is told of the call: the direction, the data, the length and the count.
pub open spec fn pass_of_call(l: Launch, c: FftCall) -> bool {
    match l.kernel() {
        Some(kernel) => {
            &&& match direction_slot(kernel) {
                Some(slot) => match l.word(slot) {
                    Some(w) => (w == 1 <==> c.inverse) && (w == 0 <==> !c.inverse),
                    None => false,
                },
                None => true,
            }
            &&& l.word(outer_slot(kernel)) == Some(c.outer)
            &&& if in_place(kernel) {
                &&& l.word(1) == Some(c.dst_off)
                &&& l.word(2) == Some(c.n)
            } else {
                &&& l.word(1) == Some(c.src_off)
                &&& l.word(2) == Some(c.dst_off)
                &&& l.word(3) == Some(c.n)
                &&& l.word(4) == Some(log2n(c))
            }
        },
        None => false,
    }
}

/// The factor that a pass applies to its result.
pub open spec fn factor(l: Launch) -> Option<u32> {
    match scale_slot(l.kernel()->0) {
        Some(slot) => l.word(slot),
        None => Some(ONE_BITS),
    }
}

proof fn lemma_one_pass(c: FftCall, p: FftGpuPlan, i: int)
    ensures
        launches_once(radix4_steps(c, p, i)),
        ({
            let l = launch(radix4_steps(c, p, i));
            &&& l.kernel() == Some(Kernel::FftOuterR4F32)
            &&& pass_of_call(l, c)
            &&& l.word(3) == Some(low_word(p.outer_rad4_q@[i] as u64))
            &&& factor(l) == Some(
                if p.outer_r2_hs is None && i + 1 == p.outer_rad4_q@.len() {
                    c.norm_scale
                } else {
                    ONE_BITS
                },
            )
            &&& match l.groups() {
                Some((count, size)) => {
                    &&& size == one_row(WG)
                    &&& c.n / 4 <= count.width * WG
                    &&& count.width * WG < c.n / 4 + WG || c.n < 4
                    &&& count.height == c.outer
                },
                None => false,
            }
        }),
{
    broadcast use group_launches;

    assert(launches_once(radix4_steps(c, p, i)));
}

proof fn lemma_pass_behind(a: Seq<Cmd>, l: Launch, c: FftCall)
    requires
        pass_of_call(l, c),
        l.word(3) is Some,
        factor(l) is Some,
    ensures
        pass_of_call(behind(a, l), c),
        behind(a, l).kernel() == l.kernel(),
        behind(a, l).word(3) == l.word(3),
        factor(behind(a, l)) == factor(l),
{
    broadcast use {lemma_behind_keeps, lemma_behind_kernel};

}

/// The radix-4 passes run in the order of the plan, each told of the call and of its own stride.
proof fn lemma_passes(c: FftCall, p: FftGpuPlan, n: int)
    requires
        0 <= n,
    ensures
        launches(radix4_passes(c, p, n)).len() == n,
        forall|i: int|
            0 <= i < n ==> {
                let l = #[trigger] launches(radix4_passes(c, p, n))[i];
                &&& l.kernel() == Some(Kernel::FftOuterR4F32)
                &&& pass_of_call(l, c)
                &&& l.word(3) == Some(low_word(p.outer_rad4_q@[i] as u64))
                &&& factor(l) == Some(
                    if p.outer_r2_hs is None && i + 1 == p.outer_rad4_q@.len() {
                        c.norm_scale
                    } else {
                        ONE_BITS
                    },
                )
            },
    decreases n,
{
    if n > 0 {
        broadcast use {lemma_behind_keeps, lemma_behind_kernel};

        lemma_passes(c, p, n - 1);
        lemma_one_pass(c, p, n - 1);
        let a = radix4_passes(c, p, n - 1);
        let b = radix4_steps(c, p, n - 1);
        lemma_launches_append(a, b);
        assert(launches(b)[0] == launch(b));
        assert(launches(a + b)[n - 1] == behind(a, launch(b)));
        assert forall|i: int| 0 <= i < n implies {
            let l = #[trigger] launches(radix4_passes(c, p, n))[i];
            &&& l.kernel() == Some(Kernel::FftOuterR4F32)
            &&& pass_of_call(l, c)
            &&& l.word(3) == Some(low_word(p.outer_rad4_q@[i] as u64))
            &&& factor(l) == Some(
                if p.outer_r2_hs is None && i + 1 == p.outer_rad4_q@.len() {
                    c.norm_scale
                } else {
                    ONE_BITS
                },
            )
        } by {
            if i < n - 1 {
                assert(launches(a + b)[i] == launches(a)[i]);
            }
        }
    }
}

/// In every transform, each kernel is told the direction of the call, one exactly where it is
/// inverse, and the call's data, length and count.
pub proof fn lemma_direction(c: FftCall, p: FftGpuPlan)
    ensures
        forall|i: int|
            0 <= i < launches(fft_steps(c, p)).len() ==> pass_of_call(
                #[trigger] launches(fft_steps(c, p))[i],
                c,
            ),
        c.outer != 0 ==> launches(fft_steps(c, p)).len() > 0,
        c.outer != 0 ==> direction_slot(
            launches(fft_steps(c, p))[launches(fft_steps(c, p)).len() - 1].kernel()->0,
        ) is Some,
        c.outer == 0 ==> launches(fft_steps(c, p)).len() == 0,
{
    broadcast use group_launches;

    let s = fft_steps(c, p);
    if c.outer == 0 {
        assert(launches(s).len() == 0);
    } else if on_chip(c) {
        assert(launches_once(s));
    } else if p.single_inner {
        assert(launches_once(s));
    } else {
        lemma_multi(c, p);
    }
}

/// A transform in several passes reorders, runs the tiles, the radix-4 passes in the order of the
/// plan and the radix-2 pass where the plan has one. The scale of the call is the factor of the last
/// outer pass, and all earlier passes leave their results as they are.
pub proof fn lemma_multi(c: FftCall, p: FftGpuPlan)
    requires
        c.outer != 0,
        !on_chip(c),
        !p.single_inner,
    ensures
        ({
            let ls = launches(fft_steps(c, p));
            let n = p.outer_rad4_q@.len() as int;
            &&& ls.len() == 2 + n + if p.outer_r2_hs is Some {
                1int
            } else {
                0int
            }
            &&& forall|i: int| 0 <= i < ls.len() ==> pass_of_call(#[trigger] ls[i], c)
            &&& forall|i: int| 0 <= i < ls.len() - 1 ==> factor(#[trigger] ls[i]) == Some(ONE_BITS)
            &&& ls.len() > 2 ==> factor(ls[ls.len() - 1]) == Some(c.norm_scale)
            &&& ls[0].kernel() == Some(Kernel::FftBitReverseF32)
            &&& ls[1].kernel() == Some(Kernel::FftInnerF32)
            &&& ls[1].word(3) == Some(tile_size(c))
            &&& ls[1].word(4) == Some(low_word(p.inner_stages as u64))
            &&& ls[1].groups() is Some
            &&& (ls[1].groups()->0).0 == one_row((tile_count(c) * c.outer) as u64)
            &&& forall|i: int| #![trigger ls[2 + i]] #![trigger p.outer_rad4_q@[i]]
                0 <= i < n ==> ls[2 + i].kernel() == Some(Kernel::FftOuterR4F32) && ls[2 + i].word(3)
                    == Some(low_word(p.outer_rad4_q@[i] as u64))
            &&& p.outer_r2_hs matches Some(hs) ==> ls[2 + n].kernel() == Some(Kernel::FftOuterR2F32)
                && ls[2 + n].word(3) == Some(low_word(hs as u64))
        }),
{
    let n = p.outer_rad4_q@.len() as int;
    let head = seq![Cmd::Buffer(0, Buf::Arena, 0)] + tile_steps(c, p);
    let passes = radix4_passes(c, p, n);
    let tail = radix2_steps(c, p);
    lemma_head(c, p);
    lemma_tail(c, p);
    lemma_passes(c, p, n);
    assert(fft_steps(c, p) =~= head + passes + tail);
    lemma_launches_append(head, passes);
    lemma_launches_append(head + passes, tail);
    let ls = launches(fft_steps(c, p));
    assert(ls[0] == launches(head)[0]) by {
        assert(launches(head + passes)[0] == launches(head)[0]);
    }
    assert(ls[1] == launches(head)[1]) by {
        assert(launches(head + passes)[1] == launches(head)[1]);
    }
    assert forall|i: int| #![trigger ls[2 + i]] 0 <= i < n implies ls[2 + i] == behind(
        head,
        launches(passes)[i],
    ) by {
        assert(launches(head + passes)[2 + i] == behind(head, launches(passes)[i]));
    }
    assert forall|i: int| #![trigger ls[2 + i]] 0 <= i < n implies ls[2 + i].kernel() == Some(
        Kernel::FftOuterR4F32,
    ) && ls[2 + i].word(3) == Some(low_word(p.outer_rad4_q@[i] as u64)) && pass_of_call(
        ls[2 + i],
        c,
    ) && factor(ls[2 + i]) == factor(launches(passes)[i]) by {
        let l = launches(passes)[i];
        assert(pass_of_call(l, c));
        lemma_pass_behind(head, l, c);
    }
    if p.outer_r2_hs is Some {
        assert(launches(tail)[0] == launch(tail));
        assert(ls[2 + n] == behind(head + passes, launch(tail)));
        lemma_pass_behind(head + passes, launch(tail), c);
    }
    assert forall|i: int| 0 <= i < ls.len() implies pass_of_call(#[trigger] ls[i], c) by {
        if 2 <= i < 2 + n {
            let j = i - 2;
            assert(pass_of_call(ls[2 + j], c));
        }
    }
    assert forall|i: int| 0 <= i < ls.len() - 1 implies factor(#[trigger] ls[i]) == Some(
        ONE_BITS,
    ) by {
        if 2 <= i {
            let j = i - 2;
            assert(factor(ls[2 + j]) == factor(launches(passes)[j]));
        }
    }
    if ls.len() > 2 && p.outer_r2_hs is None {
        let j = n - 1;
        assert(factor(ls[2 + j]) == factor(launches(passes)[j]));
    }
}

proof fn lemma_tail(c: FftCall, p: FftGpuPlan)
    ensures
        p.outer_r2_hs is None ==> launches(radix2_steps(c, p)).len() == 0,
        p.outer_r2_hs matches Some(hs) ==> {
            let l = launch(radix2_steps(c, p));
            &&& launches_once(radix2_steps(c, p))
            &&& l.kernel() == Some(Kernel::FftOuterR2F32)
            &&& pass_of_call(l, c)
            &&& l.word(3) == Some(low_word(hs as u64))
            &&& factor(l) == Some(c.norm_scale)
        },
{
    broadcast use group_launches;

    if p.outer_r2_hs is Some {
        assert(launches_once(radix2_steps(c, p)));
    }
}

proof fn lemma_head(c: FftCall, p: FftGpuPlan)
    ensures
        ({
            let ls = launches(seq![Cmd::Buffer(0, Buf::Arena, 0)] + tile_steps(c, p));
            &&& ls.len() == 2
            &&& pass_of_call(ls[0], c)
            &&& pass_of_call(ls[1], c)
            &&& factor(ls[0]) == Some(ONE_BITS)
            &&& factor(ls[1]) == Some(ONE_BITS)
            &&& ls[0].kernel() == Some(Kernel::FftBitReverseF32)
            &&& ls[1].kernel() == Some(Kernel::FftInnerF32)
            &&& ls[1].word(3) == Some(tile_size(c))
            &&& ls[1].word(4) == Some(low_word(p.inner_stages as u64))
            &&& ls[1].groups() is Some
            &&& (ls[1].groups()->0).0 == one_row((tile_count(c) * c.outer) as u64)
        }),
{
    broadcast use group_launches;

    assert(launches(seq![Cmd::Buffer(0, Buf::Arena, 0)] + tile_steps(c, p)).len() == 2);
}

/// A transform that stays in one kernel hands it the factor of the call, a group per transform, and
/// on chip whether the input is real. A radix is taken only where its size divides the stages and
/// it is allowed, and only radices 4 and 8 read a real input.
pub proof fn lemma_whole_transform(c: FftCall, p: FftGpuPlan)
    requires
        c.outer != 0,
        on_chip(c) || p.single_inner,
    ensures
        ({
            let l = launch(fft_steps(c, p));
            let kernel = l.kernel()->0;
            &&& launches_once(fft_steps(c, p))
            &&& l.place(0) == Some((Buf::Arena, 0u64))
            &&& factor(l) == Some(c.norm_scale)
            &&& l.groups() is Some
            &&& (l.groups()->0).0 == one_row(c.outer as u64)
            &&& !on_chip(c) ==> kernel == Kernel::FftRadix2FullF32
            &&& on_chip(c) ==> {
                &&& l.word(8) is Some
                &&& l.word(8)->0 == 1 <==> c.real_input
                &&& l.word(8)->0 <= 1
                &&& (l.groups()->0).1 == one_row(WG)
                &&& kernel == Kernel::FftRadix16FullF32 ==> c.fast->0 >= 16 && log2n(c) % 4 == 0
                    && !c.real_input
                &&& kernel == Kernel::FftRadix8FullF32 ==> c.fast->0 >= 8 && log2n(c) % 3 == 0
                &&& kernel == Kernel::FftRadix4FullF32 ==> c.fast->0 >= 4 || c.real_input
                &&& kernel == Kernel::FftRadix2FullBigF32 ==> !c.real_input && c.fast->0 < 4
                &&& kernel == Kernel::FftRadix16FullF32 || kernel == Kernel::FftRadix8FullF32
                    || kernel == Kernel::FftRadix4FullF32 || kernel == Kernel::FftRadix2FullBigF32
                &&& c.fast->0 >= 8 && log2n(c) % 3 == 0 ==> kernel == Kernel::FftRadix8FullF32
                    || kernel == Kernel::FftRadix16FullF32
                &&& c.fast->0 >= 16 && log2n(c) % 4 == 0 && !c.real_input ==> kernel
                    == Kernel::FftRadix16FullF32
            }
        }),
{
    broadcast use group_launches;

    let s = fft_steps(c, p);
    if on_chip(c) {
        assert(launches_once(s));
        assert(launch(s).kernel() == Some(on_chip_kernel(c)));
    } else {
        assert(launches_once(s));
    }
}

/// A butterfly stage is handed its operands in the order state, result, gate, reordering, real and
/// imaginary twiddles, and has a thread per butterfly and batch item.
pub proof fn lemma_butterfly_stage(
    state: usize,
    out: usize,
    gate: usize,
    rev: usize,
    tw_re: usize,
    tw_im: usize,
    batch: u32,
    n_fft: u32,
    stage: u32,
)
    ensures
        ({
            let s = fft_butterfly_stage_steps(
                state,
                out,
                gate,
                rev,
                tw_re,
                tw_im,
                batch,
                n_fft,
                stage,
            );
            let l = launch(s);
            &&& batch == 0 || n_fft < 2 ==> launches(s).len() == 0
            &&& batch > 0 && n_fft >= 2 ==> {
                &&& launches_once(s)
                &&& l.kernel() == Some(Kernel::FftButterflyStage)
                &&& l.place(0) == Some((Buf::Arena, state as u64))
                &&& l.place(1) == Some((Buf::Arena, out as u64))
                &&& l.place(2) == Some((Buf::Arena, gate as u64))
                &&& l.place(3) == Some((Buf::Arena, rev as u64))
                &&& l.place(4) == Some((Buf::Arena, tw_re as u64))
                &&& l.place(5) == Some((Buf::Arena, tw_im as u64))
                &&& l.arg(6) == Some(Cmd::U32x4(6, batch, n_fft, stage, n_fft / 2))
                &&& l.threads() == Some(plane((n_fft / 2) as u64, batch as u64))
            }
        }),
{
    broadcast use group_launches;

    let s = fft_butterfly_stage_steps(state, out, gate, rev, tw_re, tw_im, batch, n_fft, stage);
    if batch > 0 && n_fft >= 2 {
        assert(launches_once(s));
    }
}

/// Forward and inverse transforms of the same data are different streams.
pub proof fn lemma_directions_differ(c: FftCall, d: FftCall, p: FftGpuPlan)
    requires
        c.outer != 0,
        c.inverse != d.inverse,
    ensures
        fft_steps(c, p) != fft_steps(d, p),
{
    lemma_direction(c, p);
    lemma_direction(d, p);
    if fft_steps(c, p) == fft_steps(d, p) {
        let ls = launches(fft_steps(c, p));
        let l = ls[ls.len() - 1];
        assert(pass_of_call(l, c));
        assert(pass_of_call(l, d));
    }
}

/// A transform stays in threadgroup memory where the fast path is on and it is longer than a tile and
/// no longer than fits.
pub proof fn lemma_on_chip(c: FftCall)
    ensures
        c.fast is None ==> !on_chip(c),
        c.n <= 1024 || c.n > 4096 ==> !on_chip(c),
        c.fast is Some && 1024 < c.n <= 4096 ==> on_chip(c),
{
}

} // verus!
