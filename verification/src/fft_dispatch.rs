//! Fast Fourier transforms over several kernels, in single precision and for powers of two.

use vstd::prelude::*;
use vstd::std_specs::bits::u32_trailing_zeros;

use crate::command::{
    bit, ceil_div, div_up, emit, flag, least, low32, low_word, min_u64, one_row, plane, plane_of,
    row, Buf, Cmd, Group, Kernel,
};
use crate::cost::{ascii_lowercase, lowered};
use crate::text::{chars_of, same_chars};

verus! {

/// Threads of a workgroup.
pub const WG: u64 = 256;

/// The tile that the inner kernel transforms in threadgroup memory.
pub const FFT_TILE_SIZE: u32 = 1024;

/// The largest transform that the single-kernel path holds in threadgroup memory.
pub const BIG_FFT_MAX_N: u32 = 4096;

/// The bit pattern of the float one.
pub const ONE_BITS: u32 = 0x3f80_0000;

pub fn grid_1d(n: u32) -> (r: u64)
    ensures
        r == div_up(n as u64, WG),
{
    ceil_div(n as u64, WG)
}

/// Whether the single-kernel path is on: unless its setting says `0`, `off` or `false`.
pub open spec fn fast_setting(raw: Option<&str>) -> bool {
    match raw {
        Some(s) => !(s@ == "0"@ || lowered(s@) == "off"@ || lowered(s@) == "false"@),
        None => true,
    }
}

pub fn fast_fft_enabled(raw: Option<&str>) -> (r: bool)
    ensures
        r == fast_setting(raw),
{
    match raw {
        Some(s) => {
            let exact: Vec<char> = chars_of(s);
            let lower: Vec<char> = ascii_lowercase(s);
            !(same_chars(&exact, &chars_of("0")) || same_chars(&lower, &chars_of("off"))
                || same_chars(&lower, &chars_of("false")))
        },
        None => true,
    }
}

/// The largest radix of the single-kernel path: 2, 4 or 16 where set so, otherwise 8.
pub open spec fn radix_setting(raw: Option<&str>) -> u32 {
    match raw {
        Some(s) => if s@ == "2"@ {
            2
        } else if s@ == "4"@ {
            4
        } else if s@ == "16"@ {
            16
        } else {
            8
        },
        None => 8,
    }
}

pub fn fft_max_radix(raw: Option<&str>) -> (r: u32)
    ensures
        r == radix_setting(raw),
{
    match raw {
        Some(s) => {
            let text: Vec<char> = chars_of(s);
            if same_chars(&text, &chars_of("2")) {
                2
            } else if same_chars(&text, &chars_of("4")) {
                4
            } else if same_chars(&text, &chars_of("16")) {
                16
            } else {
                8
            }
        },
        None => 8,
    }
}

/// How a transform splits into passes: the stages of the inner kernel, and behind it radix-4
/// passes, each with its quarter, and at most one radix-2 pass, with its half.
#[derive(Debug)]
pub struct FftGpuPlan {
    /// The inner kernel alone suffices.
    pub single_inner: bool,
    pub inner_stages: usize,
    pub outer_rad4_q: Vec<usize>,
    pub outer_r2_hs: Option<usize>,
}

/// One transform. `fast` holds the largest radix where the single-kernel path may be used; the
/// scale is the bit pattern of a float.
#[derive(Clone, Copy, Debug, PartialEq, Eq, Structural)]
pub struct FftCall {
    pub src_off: u32,
    pub dst_off: u32,
    pub outer: u32,
    pub n: u32,
    pub inverse: bool,
    pub norm_scale: u32,
    pub real_input: bool,
    pub fast: Option<u32>,
}

pub open spec fn log2n(c: FftCall) -> u32 {
    u32_trailing_zeros(c.n) as u32
}

/// Whether the whole transform stays in threadgroup memory.
pub open spec fn on_chip(c: FftCall) -> bool {
    c.fast is Some && c.n > FFT_TILE_SIZE && c.n <= BIG_FFT_MAX_N
}

/// The kernel of the single-kernel path: the highest radix that divides the stages and is
/// allowed. Only radices 4 and 8 read a real input.
pub open spec fn on_chip_kernel(c: FftCall) -> Kernel {
    let m = log2n(c);
    let radix = c.fast->0;
    if c.real_input {
        if radix >= 8 && m % 3 == 0 {
            Kernel::FftRadix8FullF32
        } else {
            Kernel::FftRadix4FullF32
        }
    } else if radix >= 16 && m % 4 == 0 {
        Kernel::FftRadix16FullF32
    } else if radix >= 8 && m % 3 == 0 {
        Kernel::FftRadix8FullF32
    } else if radix >= 4 {
        Kernel::FftRadix4FullF32
    } else {
        Kernel::FftRadix2FullBigF32
    }
}

/// The constants of a kernel that carries out a whole transform.
pub open spec fn whole_constants(c: FftCall) -> Seq<Cmd> {
    seq![
        Cmd::U32(1, c.src_off),
        Cmd::U32(2, c.dst_off),
        Cmd::U32(3, c.n),
        Cmd::U32(4, log2n(c)),
        Cmd::U32(5, bit(c.inverse)),
        Cmd::U32(6, c.norm_scale),
        Cmd::U32(7, c.outer),
    ]
}

pub open spec fn tile_size(c: FftCall) -> u32 {
    if c.n < FFT_TILE_SIZE {
        c.n
    } else {
        FFT_TILE_SIZE
    }
}

pub open spec fn tile_count(c: FftCall) -> u32 {
    if c.n / tile_size(c) == 0 {
        1
    } else {
        c.n / tile_size(c)
    }
}

/// One radix-4 pass. The scale is applied in the last pass.
pub open spec fn radix4_steps(c: FftCall, p: FftGpuPlan, i: int) -> Seq<Cmd> {
    seq![
        Cmd::Pipeline(Kernel::FftOuterR4F32),
        Cmd::U32(1, c.dst_off),
        Cmd::U32(2, c.n),
        Cmd::U32(3, low_word(p.outer_rad4_q@[i] as u64)),
        Cmd::U32(4, bit(c.inverse)),
        Cmd::U32(
            5,
            if p.outer_r2_hs is None && i + 1 == p.outer_rad4_q@.len() {
                c.norm_scale
            } else {
                ONE_BITS
            },
        ),
        Cmd::U32(6, c.outer),
        Cmd::Groups(
            plane(
                div_up(
                    if c.n / 4 == 0 {
                        1
                    } else {
                        (c.n / 4) as u64
                    },
                    WG,
                ),
                c.outer as u64,
            ),
            one_row(WG),
        ),
    ]
}

pub open spec fn radix4_passes(c: FftCall, p: FftGpuPlan, n: int) -> Seq<Cmd>
    decreases n,
{
    if n <= 0 {
        Seq::<Cmd>::empty()
    } else {
        radix4_passes(c, p, n - 1) + radix4_steps(c, p, n - 1)
    }
}

/// Reordering, and the stages within the tiles.
pub open spec fn tile_steps(c: FftCall, p: FftGpuPlan) -> Seq<Cmd> {
    seq![
        Cmd::Pipeline(Kernel::FftBitReverseF32),
        Cmd::U32(1, c.src_off),
        Cmd::U32(2, c.dst_off),
        Cmd::U32(3, c.n),
        Cmd::U32(4, log2n(c)),
        Cmd::U32(5, c.outer),
        Cmd::Groups(plane(div_up(c.n as u64, WG), c.outer as u64), one_row(WG)),
        Cmd::Pipeline(Kernel::FftInnerF32),
        Cmd::U32(1, c.dst_off),
        Cmd::U32(2, c.n),
        Cmd::U32(3, tile_size(c)),
        Cmd::U32(4, low_word(p.inner_stages as u64)),
        Cmd::U32(5, bit(c.inverse)),
        Cmd::U32(6, ONE_BITS),
        Cmd::U32(7, c.outer),
        Cmd::Groups(
            one_row((tile_count(c) * c.outer) as u64),
            one_row(min_u64((c.n / 2) as u64, (tile_size(c) / 2) as u64)),
        ),
    ]
}

/// The radix-2 pass, where the plan has one.
pub open spec fn radix2_steps(c: FftCall, p: FftGpuPlan) -> Seq<Cmd> {
    match p.outer_r2_hs {
        Some(hs) => seq![
            Cmd::Pipeline(Kernel::FftOuterR2F32),
            Cmd::U32(1, c.dst_off),
            Cmd::U32(2, c.n),
            Cmd::U32(3, low_word(hs as u64)),
            Cmd::U32(4, bit(c.inverse)),
            Cmd::U32(5, c.norm_scale),
            Cmd::U32(6, c.outer),
            Cmd::Groups(plane(div_up((c.n / 2) as u64, WG), c.outer as u64), one_row(WG)),
        ],
        None => Seq::<Cmd>::empty(),
    }
}

/// Reordering, the tiles, the radix-4 passes and the radix-2 pass.
pub open spec fn multi_steps(c: FftCall, p: FftGpuPlan) -> Seq<Cmd> {
    tile_steps(c, p) + radix4_passes(c, p, p.outer_rad4_q@.len() as int) + radix2_steps(c, p)
}

/// Every step of a transform; none where there is nothing to transform.
pub open spec fn fft_steps(c: FftCall, p: FftGpuPlan) -> Seq<Cmd> {
    if c.outer == 0 {
        Seq::<Cmd>::empty()
    } else if on_chip(c) {
        seq![Cmd::Buffer(0, Buf::Arena, 0), Cmd::Pipeline(on_chip_kernel(c))] + whole_constants(c)
            + seq![
            Cmd::U32(8, bit(c.real_input)),
            Cmd::Groups(one_row(c.outer as u64), one_row(WG)),
        ]
    } else if p.single_inner {
        seq![Cmd::Buffer(0, Buf::Arena, 0), Cmd::Pipeline(Kernel::FftRadix2FullF32)]
            + whole_constants(c) + seq![
            Cmd::Groups(one_row(c.outer as u64), one_row(min_u64(256, c.n as u64))),
        ]
    } else {
        seq![Cmd::Buffer(0, Buf::Arena, 0)] + multi_steps(c, p)
    }
}

fn emit_whole_constants(enc: &mut Vec<Cmd>, c: FftCall)
    ensures
        final(enc)@ == old(enc)@ + whole_constants(c),
{
    emit(
        enc,
        vec![
            Cmd::U32(1, c.src_off),
            Cmd::U32(2, c.dst_off),
            Cmd::U32(3, c.n),
            Cmd::U32(4, c.n.trailing_zeros()),
            Cmd::U32(5, flag(c.inverse)),
            Cmd::U32(6, c.norm_scale),
            Cmd::U32(7, c.outer),
        ],
    );
}

fn pick_on_chip(c: FftCall, radix: u32) -> (r: Kernel)
    requires
        c.fast == Some(radix),
    ensures
        r == on_chip_kernel(c),
{
    let m: u32 = c.n.trailing_zeros();
    if c.real_input {
        if radix >= 8 && m % 3 == 0 {
            Kernel::FftRadix8FullF32
        } else {
            Kernel::FftRadix4FullF32
        }
    } else if radix >= 16 && m % 4 == 0 {
        Kernel::FftRadix16FullF32
    } else if radix >= 8 && m % 3 == 0 {
        Kernel::FftRadix8FullF32
    } else if radix >= 4 {
        Kernel::FftRadix4FullF32
    } else {
        Kernel::FftRadix2FullBigF32
    }
}

fn emit_multi(enc: &mut Vec<Cmd>, c: FftCall, plan: &FftGpuPlan)
    requires
        c.n > 0,
        tile_count(c) * c.outer <= u32::MAX,
    ensures
        final(enc)@ == old(enc)@ + multi_steps(c, *plan),
{
    let ghost start = enc@;
    let tile: u32 = if c.n < FFT_TILE_SIZE {
        c.n
    } else {
        FFT_TILE_SIZE
    };
    let whole: u32 = c.n / tile;
    let num_tiles: u32 = if whole == 0 {
        1
    } else {
        whole
    };
    let threads: u64 = least((c.n / 2) as u64, (tile / 2) as u64);
    let groups: u32 = num_tiles * c.outer;
    emit(
        enc,
        vec![
            Cmd::Pipeline(Kernel::FftBitReverseF32),
            Cmd::U32(1, c.src_off),
            Cmd::U32(2, c.dst_off),
            Cmd::U32(3, c.n),
            Cmd::U32(4, c.n.trailing_zeros()),
            Cmd::U32(5, c.outer),
            Cmd::Groups(plane_of(grid_1d(c.n), c.outer as u64), row(WG)),
            Cmd::Pipeline(Kernel::FftInnerF32),
            Cmd::U32(1, c.dst_off),
            Cmd::U32(2, c.n),
            Cmd::U32(3, tile),
            Cmd::U32(4, low32(plan.inner_stages as u64)),
            Cmd::U32(5, flag(c.inverse)),
            Cmd::U32(6, ONE_BITS),
            Cmd::U32(7, c.outer),
            Cmd::Groups(row(groups as u64), row(threads)),
        ],
    );
    let ghost tiles = enc@;
    let count: usize = plan.outer_rad4_q.len();
    let quarter: u32 = if c.n / 4 == 0 {
        1
    } else {
        c.n / 4
    };
    let mut i: usize = 0;
    while i < count
        invariant
            i <= count,
            count == plan.outer_rad4_q@.len(),
            quarter == (if c.n / 4 == 0 {
                1
            } else {
                c.n / 4
            }),
            enc@ == tiles + radix4_passes(c, *plan, i as int),
        decreases count - i,
    {
        let scale: u32 = if plan.outer_r2_hs.is_none() && i + 1 == count {
            c.norm_scale
        } else {
            ONE_BITS
        };
        emit(
            enc,
            vec![
                Cmd::Pipeline(Kernel::FftOuterR4F32),
                Cmd::U32(1, c.dst_off),
                Cmd::U32(2, c.n),
                Cmd::U32(3, low32(plan.outer_rad4_q[i] as u64)),
                Cmd::U32(4, flag(c.inverse)),
                Cmd::U32(5, scale),
                Cmd::U32(6, c.outer),
                Cmd::Groups(plane_of(grid_1d(quarter), c.outer as u64), row(WG)),
            ],
        );
        i = i + 1;
        assert(enc@ =~= tiles + radix4_passes(c, *plan, i as int));
    }
    if let Some(hs) = plan.outer_r2_hs {
        emit(
            enc,
            vec![
                Cmd::Pipeline(Kernel::FftOuterR2F32),
                Cmd::U32(1, c.dst_off),
                Cmd::U32(2, c.n),
                Cmd::U32(3, low32(hs as u64)),
                Cmd::U32(4, flag(c.inverse)),
                Cmd::U32(5, c.norm_scale),
                Cmd::U32(6, c.outer),
                Cmd::Groups(plane_of(grid_1d(c.n / 2), c.outer as u64), row(WG)),
            ],
        );
    }
    assert(enc@ =~= start + multi_steps(c, *plan));
}

/// Encodes a transform of `outer` rows of length `n`.
pub fn run_fft_gpu(enc: &mut Vec<Cmd>, c: FftCall, plan: &FftGpuPlan)
    requires
        c.outer != 0 ==> c.n > 0,
        c.outer != 0 && !on_chip(c) && !plan.single_inner ==> tile_count(c) * c.outer <= u32::MAX,
    ensures
        final(enc)@ == old(enc)@ + fft_steps(c, *plan),
{
    if c.outer == 0 {
        return;
    }
    if let Some(radix) = c.fast {
        if c.n > FFT_TILE_SIZE && c.n <= BIG_FFT_MAX_N {
            let pipe: Kernel = pick_on_chip(c, radix);
            emit(enc, vec![Cmd::Buffer(0, Buf::Arena, 0), Cmd::Pipeline(pipe)]);
            emit_whole_constants(enc, c);
            emit(
                enc,
                vec![
                    Cmd::U32(8, flag(c.real_input)),
                    Cmd::Groups(row(c.outer as u64), row(WG)),
                ],
            );
            return;
        }
    }
    if plan.single_inner {
        emit(
            enc,
            vec![Cmd::Buffer(0, Buf::Arena, 0), Cmd::Pipeline(Kernel::FftRadix2FullF32)],
        );
        emit_whole_constants(enc, c);
        emit(enc, vec![Cmd::Groups(row(c.outer as u64), row(least(256, c.n as u64)))]);
        return;
    }
    emit(enc, vec![Cmd::Buffer(0, Buf::Arena, 0)]);
    emit_multi(enc, c, plan);
}

/// Whether a pass of a multi-kernel transform applies the scale.
pub open spec fn pass_scale(c: FftCall, p: FftGpuPlan, i: int) -> u32 {
    if p.outer_r2_hs is None && i + 1 == p.outer_rad4_q@.len() {
        c.norm_scale
    } else {
        ONE_BITS
    }
}

/// The scale is applied exactly once: by the radix-2 pass where there is one, otherwise by the
/// last radix-4 pass and by no earlier one.
pub proof fn lemma_scale_applied_once(c: FftCall, p: FftGpuPlan, i: int)
    requires
        0 <= i < p.outer_rad4_q@.len(),
    ensures
        radix4_steps(c, p, i)[5] == Cmd::U32(5, pass_scale(c, p, i)),
        i + 1 < p.outer_rad4_q@.len() || p.outer_r2_hs is Some ==> pass_scale(c, p, i) == ONE_BITS,
        i + 1 == p.outer_rad4_q@.len() && p.outer_r2_hs is None ==> pass_scale(c, p, i)
            == c.norm_scale,
{
}

/// A real input is only ever handed to a kernel that reads one.
pub proof fn lemma_real_input_kernels(c: FftCall)
    requires
        on_chip(c),
        c.real_input,
    ensures
        on_chip_kernel(c) == Kernel::FftRadix4FullF32 || on_chip_kernel(c)
            == Kernel::FftRadix8FullF32,
{
}

/// The steps of `encode_fft_butterfly_stage`.
pub open spec fn fft_butterfly_stage_steps(
    state: usize,
    out: usize,
    gate: usize,
    rev: usize,
    tw_re: usize,
    tw_im: usize,
    batch: u32,
    n_fft: u32,
    stage: u32,
) -> Seq<Cmd> {
    if batch == 0 || n_fft / 2 == 0 {
        Seq::<Cmd>::empty()
    } else {
        seq![
            Cmd::Pipeline(Kernel::FftButterflyStage),
            Cmd::Buffer(0, Buf::Arena, state as u64),
            Cmd::Buffer(1, Buf::Arena, out as u64),
            Cmd::Buffer(2, Buf::Arena, gate as u64),
            Cmd::Buffer(3, Buf::Arena, rev as u64),
            Cmd::Buffer(4, Buf::Arena, tw_re as u64),
            Cmd::Buffer(5, Buf::Arena, tw_im as u64),
            Cmd::U32x4(6, batch, n_fft, stage, n_fft / 2),
            Cmd::Threads(
                plane((n_fft / 2) as u64, batch as u64),
                Group::ExecWidth(Kernel::FftButterflyStage, (n_fft / 2) as u64),
            ),
        ]
    }
}

/// One butterfly stage with learned gates; nothing for an empty batch or a transform of fewer
/// than two points.
pub fn encode_fft_butterfly_stage(
    enc: &mut Vec<Cmd>,
    state: usize,
    out: usize,
    gate: usize,
    rev: usize,
    tw_re: usize,
    tw_im: usize,
    batch: u32,
    n_fft: u32,
    stage: u32,
)
    ensures
        final(enc)@ == old(enc)@ + fft_butterfly_stage_steps(
            state,
            out,
            gate,
            rev,
            tw_re,
            tw_im,
            batch,
            n_fft,
            stage,
        ),
{
    let n_half: u32 = n_fft / 2;
    if batch == 0 || n_half == 0 {
        return;
    }
    emit(
        enc,
        vec![
            Cmd::Pipeline(Kernel::FftButterflyStage),
            Cmd::Buffer(0, Buf::Arena, state as u64),
            Cmd::Buffer(1, Buf::Arena, out as u64),
            Cmd::Buffer(2, Buf::Arena, gate as u64),
            Cmd::Buffer(3, Buf::Arena, rev as u64),
            Cmd::Buffer(4, Buf::Arena, tw_re as u64),
            Cmd::Buffer(5, Buf::Arena, tw_im as u64),
            Cmd::U32x4(6, batch, n_fft, stage, n_half),
            Cmd::Threads(
                plane_of(n_half as u64, batch as u64),
                Group::ExecWidth(Kernel::FftButterflyStage, n_half as u64),
            ),
        ],
    );
}

} // verus!
