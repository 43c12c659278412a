//! Matrix products on the GPU: which kernel runs, what it is bound to, and how it is launched.

use vstd::prelude::*;

use crate::command::{
    ceil_div, div_up, emit, least, low32, low_word, min_u64, most, one_row, plane, plane_of, row,
    Activation, Buf, Cmd, Group, HalfFlag, Kernel, Size,
};
use crate::cost::{
    best_split, dims_fit, lemma_pick_never_overruns, picked, MetalHwModel, SgemmSettings,
    SgemmVariant,
};
use crate::encode::elementwise::{activation_steps, in_fours};

verus! {

/// The activation that a fused product applies.
#[derive(Clone, Copy, Debug, PartialEq, Eq, Structural)]
pub enum FusedAct {
    Identity,
    Gelu,
    Silu,
}

/// The number by which the kernels know an activation.
pub open spec fn act_code(a: FusedAct) -> u32 {
    match a {
        FusedAct::Identity => 0,
        FusedAct::Gelu => 1,
        FusedAct::Silu => 2,
    }
}

fn act_number(a: FusedAct) -> (r: u32)
    ensures
        r == act_code(a),
{
    match a {
        FusedAct::Identity => 0,
        FusedAct::Gelu => 1,
        FusedAct::Silu => 2,
    }
}

/// One threadgroup per `tile` by `tile` block of an `m` by `n` result.
pub open spec fn tile_grid(m: usize, n: usize, tile: u64) -> Size {
    plane(div_up(n as u64, tile), div_up(m as u64, tile))
}

pub open spec fn square_group(m: usize, n: usize) -> Group {
    Group::Fixed(plane(min_u64(16, n as u64), min_u64(16, m as u64)))
}

/// Pipeline and launch of each variant. The vendor's product has no kernel of this kind and
/// runs as the 32x32 one; a split that cannot zero its result first runs unsplit.
pub open spec fn variant_steps(v: SgemmVariant, m: usize, n: usize) -> Seq<Cmd> {
    match v {
        SgemmVariant::Mps | SgemmVariant::Simd4x4 => seq![
            Cmd::Pipeline(Kernel::SgemmSimd4x4),
            Cmd::Groups(tile_grid(m, n, 32), one_row(512)),
        ],
        SgemmVariant::Simd64 | SgemmVariant::Simd64SplitK => seq![
            Cmd::Pipeline(Kernel::SgemmSimd64),
            Cmd::Groups(plane((n / 64) as u64, (m / 64) as u64), plane(32, 8)),
        ],
        SgemmVariant::Simd => seq![
            Cmd::Pipeline(Kernel::SgemmSimd),
            Cmd::Groups(tile_grid(m, n, 8), one_row(32)),
        ],
        SgemmVariant::SimdPadded => seq![
            Cmd::Pipeline(Kernel::SgemmSimdPadded),
            Cmd::Groups(tile_grid(m, n, 8), one_row(32)),
        ],
        SgemmVariant::Tiled => seq![
            Cmd::Pipeline(Kernel::SgemmTiled),
            Cmd::Threads(
                plane(
                    (div_up(n as u64, 16) * 16) as u64,
                    (div_up(m as u64, 16) * 16) as u64,
                ),
                Group::Fixed(plane(16, 16)),
            ),
        ],
        SgemmVariant::Naive => seq![
            Cmd::Pipeline(Kernel::Sgemm),
            Cmd::Threads(plane(n as u64, m as u64), square_group(m, n)),
        ],
    }
}

/// The two factors, the result and the three dimensions.
pub open spec fn product_bindings(
    a: Buf,
    a_off: usize,
    b: Buf,
    b_off: usize,
    c: Buf,
    c_off: usize,
    m: usize,
    k: usize,
    n: usize,
) -> Seq<Cmd> {
    seq![
        Cmd::Buffer(0, a, a_off as u64),
        Cmd::Buffer(1, b, b_off as u64),
        Cmd::Buffer(2, c, c_off as u64),
        Cmd::U32(3, low_word(m as u64)),
        Cmd::U32(4, low_word(k as u64)),
        Cmd::U32(5, low_word(n as u64)),
    ]
}

fn bind_product(
    enc: &mut Vec<Cmd>,
    a: Buf,
    a_off: usize,
    b: Buf,
    b_off: usize,
    c: Buf,
    c_off: usize,
    m: usize,
    k: usize,
    n: usize,
)
    ensures
        final(enc)@ == old(enc)@ + product_bindings(a, a_off, b, b_off, c, c_off, m, k, n),
{
    emit(
        enc,
        vec![
            Cmd::Buffer(0, a, a_off as u64),
            Cmd::Buffer(1, b, b_off as u64),
            Cmd::Buffer(2, c, c_off as u64),
            Cmd::U32(3, low32(m as u64)),
            Cmd::U32(4, low32(k as u64)),
            Cmd::U32(5, low32(n as u64)),
        ],
    );
}

/// Dimensions that every launch shape can express.
pub open spec fn launch_fits(m: usize, k: usize, n: usize) -> bool {
    dims_fit(m, k, n) && m * n <= usize::MAX && m + 15 <= usize::MAX && n + 15 <= usize::MAX
}

fn tiles(m: usize, n: usize, tile: u64) -> (r: Size)
    requires
        tile > 0,
    ensures
        r == tile_grid(m, n, tile),
{
    plane_of(ceil_div(n as u64, tile), ceil_div(m as u64, tile))
}

fn square(m: usize, n: usize) -> (r: Group)
    ensures
        r == square_group(m, n),
{
    Group::Fixed(plane_of(least(16, n as u64), least(16, m as u64)))
}

fn launch_variant(enc: &mut Vec<Cmd>, v: SgemmVariant, m: usize, n: usize)
    requires
        m + 15 <= usize::MAX,
        n + 15 <= usize::MAX,
    ensures
        final(enc)@ == old(enc)@ + variant_steps(v, m, n),
{
    let steps: Vec<Cmd> = match v {
        SgemmVariant::Mps => vec![
            Cmd::Pipeline(Kernel::SgemmSimd4x4),
            Cmd::Groups(tiles(m, n, 32), row(512)),
        ],
        SgemmVariant::Simd4x4 => vec![
            Cmd::Pipeline(Kernel::SgemmSimd4x4),
            Cmd::Groups(tiles(m, n, 32), row(512)),
        ],
        SgemmVariant::Simd64 | SgemmVariant::Simd64SplitK => vec![
            Cmd::Pipeline(Kernel::SgemmSimd64),
            Cmd::Groups(plane_of((n / 64) as u64, (m / 64) as u64), plane_of(32, 8)),
        ],
        SgemmVariant::Simd => vec![
            Cmd::Pipeline(Kernel::SgemmSimd),
            Cmd::Groups(tiles(m, n, 8), row(32)),
        ],
        SgemmVariant::SimdPadded => vec![
            Cmd::Pipeline(Kernel::SgemmSimdPadded),
            Cmd::Groups(tiles(m, n, 8), row(32)),
        ],
        SgemmVariant::Tiled => {
            let grid_w: u64 = ceil_div(n as u64, 16) * 16;
            let grid_h: u64 = ceil_div(m as u64, 16) * 16;
            vec![
                Cmd::Pipeline(Kernel::SgemmTiled),
                Cmd::Threads(plane_of(grid_w, grid_h), Group::Fixed(plane_of(16, 16))),
            ]
        },
        SgemmVariant::Naive => vec![
            Cmd::Pipeline(Kernel::Sgemm),
            Cmd::Threads(plane_of(n as u64, m as u64), square(m, n)),
        ],
    };
    assert(steps@ =~= variant_steps(v, m, n));
    emit(enc, steps);
}

/// Selects and launches the kernel that the cost model picks.
pub fn dispatch_sgemm_variant(
    enc: &mut Vec<Cmd>,
    hw: &MetalHwModel,
    s: &SgemmSettings,
    m: usize,
    k: usize,
    n: usize,
)
    requires
        launch_fits(m, k, n),
    ensures
        final(enc)@ == old(enc)@ + variant_steps(
            picked(*hw, *s, m as int, k as int, n as int),
            m,
            n,
        ),
{
    launch_variant(enc, hw.pick_sgemm(s, m, k, n), m, n);
}

/// The steps of `encode_sgemm_buffers`.
pub open spec fn sgemm_buffers_steps(
    hw: MetalHwModel,
    s: SgemmSettings,
    a: Buf,
    b: Buf,
    c: Buf,
    m: usize,
    k: usize,
    n: usize,
) -> Seq<Cmd> {
    product_bindings(a, 0, b, 0, c, 0, m, k, n) + variant_steps(
        picked(hw, s, m as int, k as int, n as int),
        m,
        n,
    )
}

/// `C = A * B` on buffers of their own, from their starts.
pub fn encode_sgemm_buffers(
    enc: &mut Vec<Cmd>,
    hw: &MetalHwModel,
    s: &SgemmSettings,
    a: Buf,
    b: Buf,
    c: Buf,
    m: usize,
    k: usize,
    n: usize,
)
    requires
        launch_fits(m, k, n),
    ensures
        final(enc)@ == old(enc)@ + sgemm_buffers_steps(*hw, *s, a, b, c, m, k, n),
{
    bind_product(enc, a, 0, b, 0, c, 0, m, k, n);
    dispatch_sgemm_variant(enc, hw, s, m, k, n);
}

/// Zeroing the result, and the product split `split` ways that adds into it.
pub open spec fn split_steps(
    a: Buf,
    a_off: usize,
    b: Buf,
    b_off: usize,
    c: Buf,
    c_off: usize,
    m: usize,
    n: usize,
    split: u32,
) -> Seq<Cmd> {
    seq![
        Cmd::Pipeline(Kernel::ZeroF32),
        Cmd::Buffer(0, c, c_off as u64),
        Cmd::U32(1, low_word((m * n) as u64)),
        Cmd::Threads(one_row((m * n) as u64), Group::Fixed(one_row(256))),
        Cmd::Buffer(0, a, a_off as u64),
        Cmd::Buffer(1, b, b_off as u64),
        Cmd::Buffer(2, c, c_off as u64),
        Cmd::U32(6, split),
        Cmd::Pipeline(Kernel::SgemmSimd64Splitk),
        Cmd::Groups(
            Size { width: (n / 64) as u64, height: (m / 64) as u64, depth: split as u64 },
            plane(32, 8),
        ),
    ]
}

/// The whole of one product.
pub open spec fn product_steps(
    v: SgemmVariant,
    a: Buf,
    a_off: usize,
    b: Buf,
    b_off: usize,
    c: Buf,
    c_off: usize,
    m: usize,
    k: usize,
    n: usize,
) -> Seq<Cmd> {
    product_bindings(a, a_off, b, b_off, c, c_off, m, k, n) + if v == SgemmVariant::Simd64SplitK {
        let found = best_split(m as int, k as int, n as int);
        split_steps(
            a,
            a_off,
            b,
            b_off,
            c,
            c_off,
            m,
            n,
            if found == 0 {
                1
            } else {
                found
            },
        )
    } else {
        variant_steps(v, m, n)
    }
}

/// `C = A * B`, each in a buffer from an offset on.
pub fn metal_sgemm_bufs(
    enc: &mut Vec<Cmd>,
    hw: &MetalHwModel,
    s: &SgemmSettings,
    a: Buf,
    a_off: usize,
    b: Buf,
    b_off: usize,
    c: Buf,
    c_off: usize,
    m: usize,
    k: usize,
    n: usize,
)
    requires
        launch_fits(m, k, n),
    ensures
        final(enc)@ == old(enc)@ + product_steps(
            picked(*hw, *s, m as int, k as int, n as int),
            a,
            a_off,
            b,
            b_off,
            c,
            c_off,
            m,
            k,
            n,
        ),
{
    bind_product(enc, a, a_off, b, b_off, c, c_off, m, k, n);
    let v: SgemmVariant = hw.pick_sgemm(s, m, k, n);
    if v == SgemmVariant::Simd64SplitK {
        let found: u32 = hw.ksplits(m, k, n);
        let split: u32 = if found == 0 {
            1
        } else {
            found
        };
        let elems: usize = m * n;
        emit(
            enc,
            vec![
                Cmd::Pipeline(Kernel::ZeroF32),
                Cmd::Buffer(0, c, c_off as u64),
                Cmd::U32(1, low32(elems as u64)),
                Cmd::Threads(row(elems as u64), Group::Fixed(row(256))),
                Cmd::Buffer(0, a, a_off as u64),
                Cmd::Buffer(1, b, b_off as u64),
                Cmd::Buffer(2, c, c_off as u64),
                Cmd::U32(6, split),
                Cmd::Pipeline(Kernel::SgemmSimd64Splitk),
                Cmd::Groups(
                    Size { width: (n / 64) as u64, height: (m / 64) as u64, depth: split as u64 },
                    plane_of(32, 8),
                ),
            ],
        );
    } else {
        launch_variant(enc, v, m, n);
    }
}

/// `C = A * B` within the arena.
pub fn metal_sgemm(
    enc: &mut Vec<Cmd>,
    hw: &MetalHwModel,
    s: &SgemmSettings,
    a_off: usize,
    b_off: usize,
    c_off: usize,
    m: usize,
    k: usize,
    n: usize,
)
    requires
        launch_fits(m, k, n),
    ensures
        final(enc)@ == old(enc)@ + product_steps(
            picked(*hw, *s, m as int, k as int, n as int),
            Buf::Arena,
            a_off,
            Buf::Arena,
            b_off,
            Buf::Arena,
            c_off,
            m,
            k,
            n,
        ),
{
    metal_sgemm_bufs(
        enc,
        hw,
        s,
        Buf::Arena,
        a_off,
        Buf::Arena,
        b_off,
        Buf::Arena,
        c_off,
        m,
        k,
        n,
    );
}

/// `C = A * B + R` in one kernel.
pub open spec fn residual_steps(
    a: Buf,
    a_off: usize,
    b: Buf,
    b_off: usize,
    c: Buf,
    c_off: usize,
    r: Buf,
    r_off: usize,
    m: usize,
    k: usize,
    n: usize,
) -> Seq<Cmd> {
    seq![Cmd::Pipeline(Kernel::SgemmSimdPaddedResidual)] + product_bindings(
        a,
        a_off,
        b,
        b_off,
        c,
        c_off,
        m,
        k,
        n,
    ) + seq![Cmd::Buffer(6, r, r_off as u64), Cmd::Groups(tile_grid(m, n, 8), one_row(32))]
}

/// `C = A * B + R` where the padded kernel is picked, and `C = A * B` otherwise. Returns whether
/// `R` was added.
pub fn metal_sgemm_residual_bufs(
    enc: &mut Vec<Cmd>,
    hw: &MetalHwModel,
    s: &SgemmSettings,
    a: Buf,
    a_off: usize,
    b: Buf,
    b_off: usize,
    c: Buf,
    c_off: usize,
    r: Buf,
    r_off: usize,
    m: usize,
    k: usize,
    n: usize,
) -> (applied: bool)
    requires
        launch_fits(m, k, n),
    ensures
        applied == (picked(*hw, *s, m as int, k as int, n as int) == SgemmVariant::SimdPadded),
        applied ==> final(enc)@ == old(enc)@ + residual_steps(
            a,
            a_off,
            b,
            b_off,
            c,
            c_off,
            r,
            r_off,
            m,
            k,
            n,
        ),
        !applied ==> final(enc)@ == old(enc)@ + product_steps(
            picked(*hw, *s, m as int, k as int, n as int),
            a,
            a_off,
            b,
            b_off,
            c,
            c_off,
            m,
            k,
            n,
        ),
{
    if hw.pick_sgemm(s, m, k, n) != SgemmVariant::SimdPadded {
        metal_sgemm_bufs(enc, hw, s, a, a_off, b, b_off, c, c_off, m, k, n);
        return false;
    }
    emit(enc, vec![Cmd::Pipeline(Kernel::SgemmSimdPaddedResidual)]);
    bind_product(enc, a, a_off, b, b_off, c, c_off, m, k, n);
    emit(
        enc,
        vec![Cmd::Buffer(6, r, r_off as u64), Cmd::Groups(tiles(m, n, 8), row(32))],
    );
    true
}

/// Whether the padded kernel for half-precision weights is worth it.
pub open spec fn padded_f16w(v: SgemmVariant, k: usize, n: usize) -> bool {
    (v == SgemmVariant::SimdPadded || v == SgemmVariant::Simd || v == SgemmVariant::Simd4x4 || v
        == SgemmVariant::Mps || v == SgemmVariant::Tiled) && k >= 256 && n >= 256
}

/// Pipeline and launch of a product with half-precision weights.
pub open spec fn f16w_steps(
    v: SgemmVariant,
    split_gemv: bool,
    m: usize,
    k: usize,
    n: usize,
) -> Seq<Cmd> {
    if m == 1 && n >= 64 && n % 2 == 0 && split_gemv {
        seq![
            Cmd::Pipeline(Kernel::GemvF16wSplitk),
            Cmd::U32(3, low_word(k as u64)),
            Cmd::U32(4, low_word(n as u64)),
            Cmd::Groups(one_row(div_up(n as u64, 64)), plane(32, 32)),
        ]
    } else if m <= 4 && n >= 64 {
        seq![
            Cmd::Pipeline(Kernel::SgemmF16wSmallM),
            Cmd::Threads(one_row(n as u64), Group::Fixed(one_row(min_u64(64, n as u64)))),
        ]
    } else if padded_f16w(v, k, n) {
        seq![
            Cmd::Pipeline(Kernel::SgemmSimdPaddedF16w),
            Cmd::Groups(tile_grid(m, n, 8), one_row(32)),
        ]
    } else {
        seq![
            Cmd::Pipeline(Kernel::SgemmF16w),
            Cmd::Threads(plane(n as u64, m as u64), square_group(m, n)),
        ]
    }
}

/// The steps of `metal_sgemm_f16w_bufs`.
pub open spec fn sgemm_f16w_bufs_steps(
    hw: MetalHwModel,
    s: SgemmSettings,
    split_gemv: bool,
    a: Buf,
    a_off: usize,
    b: Buf,
    b_off: usize,
    c: Buf,
    c_off: usize,
    m: usize,
    k: usize,
    n: usize,
) -> Seq<Cmd> {
    product_bindings(a, a_off, b, b_off, c, c_off, m, k, n)
    + f16w_steps(picked(hw, s, m as int, k as int, n as int), split_gemv, m, k, n)
}

/// `C = A * B` with `A` and `C` in single and `B` in half precision.
pub fn metal_sgemm_f16w_bufs(
    enc: &mut Vec<Cmd>,
    hw: &MetalHwModel,
    s: &SgemmSettings,
    split_gemv: bool,
    a: Buf,
    a_off: usize,
    b: Buf,
    b_off: usize,
    c: Buf,
    c_off: usize,
    m: usize,
    k: usize,
    n: usize,
)
    requires
        launch_fits(m, k, n),
    ensures
        final(enc)@ == old(enc)@ + sgemm_f16w_bufs_steps(
            *hw,
            *s,
            split_gemv,
            a,
            a_off,
            b,
            b_off,
            c,
            c_off,
            m,
            k,
            n,
        ),
{
    bind_product(enc, a, a_off, b, b_off, c, c_off, m, k, n);
    let steps: Vec<Cmd> = if m == 1 && n >= 64 && n % 2 == 0 && split_gemv {
        vec![
            Cmd::Pipeline(Kernel::GemvF16wSplitk),
            Cmd::U32(3, low32(k as u64)),
            Cmd::U32(4, low32(n as u64)),
            Cmd::Groups(row(ceil_div(n as u64, 64)), plane_of(32, 32)),
        ]
    } else if m <= 4 && n >= 64 {
        vec![
            Cmd::Pipeline(Kernel::SgemmF16wSmallM),
            Cmd::Threads(row(n as u64), Group::Fixed(row(most(least(64, n as u64), 1)))),
        ]
    } else {
        let use_padded: bool = matches!(
            hw.pick_sgemm(s, m, k, n),
            SgemmVariant::SimdPadded | SgemmVariant::Simd | SgemmVariant::Simd4x4
                | SgemmVariant::Mps | SgemmVariant::Tiled
        ) && k >= 256 && n >= 256;
        if use_padded {
            vec![
                Cmd::Pipeline(Kernel::SgemmSimdPaddedF16w),
                Cmd::Groups(tiles(m, n, 8), row(32)),
            ]
        } else {
            vec![
                Cmd::Pipeline(Kernel::SgemmF16w),
                Cmd::Threads(plane_of(n as u64, m as u64), square(m, n)),
            ]
        }
    };
    assert(steps@ =~= f16w_steps(
        picked(*hw, *s, m as int, k as int, n as int),
        split_gemv,
        m,
        k,
        n,
    ));
    emit(enc, steps);
}

/// The steps of `metal_sgemm_f16w`.
pub open spec fn sgemm_f16w_steps(
    hw: MetalHwModel,
    s: SgemmSettings,
    split_gemv: bool,
    a_off: usize,
    b_off: usize,
    c_off: usize,
    m: usize,
    k: usize,
    n: usize,
) -> Seq<Cmd> {
    product_bindings(
        Buf::Arena,
        a_off,
        Buf::Arena,
        b_off,
        Buf::Arena,
        c_off,
        m,
        k,
        n,
    ) + f16w_steps(picked(hw, s, m as int, k as int, n as int), split_gemv, m, k, n)
}

/// The same within the arena.
pub fn metal_sgemm_f16w(
    enc: &mut Vec<Cmd>,
    hw: &MetalHwModel,
    s: &SgemmSettings,
    split_gemv: bool,
    a_off: usize,
    b_off: usize,
    c_off: usize,
    m: usize,
    k: usize,
    n: usize,
)
    requires
        launch_fits(m, k, n),
    ensures
        final(enc)@ == old(enc)@ + sgemm_f16w_steps(
            *hw,
            *s,
            split_gemv,
            a_off,
            b_off,
            c_off,
            m,
            k,
            n,
        ),
{
    metal_sgemm_f16w_bufs(
        enc,
        hw,
        s,
        split_gemv,
        Buf::Arena,
        a_off,
        Buf::Arena,
        b_off,
        Buf::Arena,
        c_off,
        m,
        k,
        n,
    );
}

/// The steps of `metal_sgemm_f16a_bufs`.
pub open spec fn sgemm_f16a_bufs_steps(
    a: Buf,
    a_off: usize,
    b: Buf,
    b_off: usize,
    c: Buf,
    c_off: usize,
    m: usize,
    k: usize,
    n: usize,
) -> Seq<Cmd> {
    product_bindings(a, a_off, b, b_off, c, c_off, m, k, n)
        + seq![
        Cmd::Pipeline(Kernel::SgemmF16a),
        Cmd::Threads(plane(n as u64, m as u64), square_group(m, n)),
    ]
}

/// `C = A * B` with `A` in half and `B` and `C` in single precision.
pub fn metal_sgemm_f16a_bufs(
    enc: &mut Vec<Cmd>,
    a: Buf,
    a_off: usize,
    b: Buf,
    b_off: usize,
    c: Buf,
    c_off: usize,
    m: usize,
    k: usize,
    n: usize,
)
    ensures
        final(enc)@ == old(enc)@ + sgemm_f16a_bufs_steps(a, a_off, b, b_off, c, c_off, m, k, n),
{
    bind_product(enc, a, a_off, b, b_off, c, c_off, m, k, n);
    emit(
        enc,
        vec![
            Cmd::Pipeline(Kernel::SgemmF16a),
            Cmd::Threads(plane_of(n as u64, m as u64), square(m, n)),
        ],
    );
}

/// What the kernels that also add a bias are bound to.
pub open spec fn biased_bindings(
    a_off: usize,
    b_off: usize,
    bias_off: usize,
    c_off: usize,
    m: usize,
    k: usize,
    n: usize,
    act: FusedAct,
) -> Seq<Cmd> {
    seq![
        Cmd::Buffer(0, Buf::Arena, a_off as u64),
        Cmd::Buffer(1, Buf::Arena, b_off as u64),
        Cmd::Buffer(2, Buf::Arena, bias_off as u64),
        Cmd::Buffer(3, Buf::Arena, c_off as u64),
        Cmd::U32(4, low_word(m as u64)),
        Cmd::U32(5, low_word(k as u64)),
        Cmd::U32(6, low_word(n as u64)),
        Cmd::U32(7, act_code(act)),
    ]
}

fn bind_biased(
    enc: &mut Vec<Cmd>,
    a_off: usize,
    b_off: usize,
    bias_off: usize,
    c_off: usize,
    m: usize,
    k: usize,
    n: usize,
    act: FusedAct,
)
    ensures
        final(enc)@ == old(enc)@ + biased_bindings(a_off, b_off, bias_off, c_off, m, k, n, act),
{
    emit(
        enc,
        vec![
            Cmd::Buffer(0, Buf::Arena, a_off as u64),
            Cmd::Buffer(1, Buf::Arena, b_off as u64),
            Cmd::Buffer(2, Buf::Arena, bias_off as u64),
            Cmd::Buffer(3, Buf::Arena, c_off as u64),
            Cmd::U32(4, low32(m as u64)),
            Cmd::U32(5, low32(k as u64)),
            Cmd::U32(6, low32(n as u64)),
            Cmd::U32(7, act_number(act)),
        ],
    );
}

/// The kernel that applies an activation in place.
pub open spec fn act_kernel(a: FusedAct) -> Kernel {
    if a == FusedAct::Gelu {
        Kernel::GeluInplace
    } else {
        Kernel::SiluInplace
    }
}

/// How an activation is bound to `len` elements from `off` on. The kernel of Gelu takes the arena
/// from its base, a byte offset and the length; the one of Silu starts at its elements.
pub open spec fn act_bindings(act: FusedAct, off: usize, len: u32) -> Seq<Cmd> {
    if act == FusedAct::Gelu {
        seq![Cmd::Buffer(0, Buf::Arena, 0), Cmd::U64(1, off as u64), Cmd::U32(2, len)]
    } else {
        seq![Cmd::Buffer(0, Buf::Arena, off as u64), Cmd::U32(1, len)]
    }
}

/// Bias and activation as dispatches of their own.
pub open spec fn bias_and_act_steps(
    bias_off: usize,
    c_off: usize,
    m: usize,
    n: usize,
    act: FusedAct,
) -> Seq<Cmd> {
    seq![
        Cmd::Pipeline(Kernel::BiasAdd),
        Cmd::Buffer(0, Buf::Arena, c_off as u64),
        Cmd::Buffer(1, Buf::Arena, bias_off as u64),
        Cmd::U32(2, low_word(m as u64)),
        Cmd::U32(3, low_word(n as u64)),
        Cmd::Threads(plane(n as u64, m as u64), square_group(m, n)),
    ] + if act == FusedAct::Identity {
        Seq::<Cmd>::empty()
    } else {
        let len = low_word((m * n) as u64);
        seq![Cmd::Pipeline(act_kernel(act))] + act_bindings(act, c_off, len) + seq![
            Cmd::Threads(one_row(len as u64), Group::ExecWidth(act_kernel(act), len as u64)),
        ]
    }
}

/// The Gelu behind a product is the one that runs on its own, where that one does not take the
/// elements by fours.
pub proof fn lemma_gelu_as_on_its_own(off: usize, len: u32)
    requires
        !in_fours(len),
    ensures
        activation_steps(off, len, Activation::Gelu, HalfFlag::F32) == seq![
            Cmd::Pipeline(act_kernel(FusedAct::Gelu)),
        ] + act_bindings(FusedAct::Gelu, off, len) + seq![
            Cmd::Threads(one_row(len as u64), Group::ExecWidth(Kernel::GeluInplace, len as u64)),
        ],
{
    assert(activation_steps(off, len, Activation::Gelu, HalfFlag::F32) =~= seq![
        Cmd::Pipeline(act_kernel(FusedAct::Gelu)),
    ] + act_bindings(FusedAct::Gelu, off, len) + seq![
        Cmd::Threads(one_row(len as u64), Group::ExecWidth(Kernel::GeluInplace, len as u64)),
    ]);
}

/// A product with bias and activation: fused where the picked variant has a fused kernel,
/// otherwise one dispatch after another.
pub open spec fn biased_steps(
    v: SgemmVariant,
    a_off: usize,
    b_off: usize,
    bias_off: usize,
    c_off: usize,
    m: usize,
    k: usize,
    n: usize,
    act: FusedAct,
) -> Seq<Cmd> {
    match v {
        SgemmVariant::Simd4x4 => biased_bindings(a_off, b_off, bias_off, c_off, m, k, n, act)
            + seq![
            Cmd::Pipeline(Kernel::SgemmSimd4x4Bias),
            Cmd::Groups(tile_grid(m, n, 32), one_row(512)),
        ],
        SgemmVariant::Simd => biased_bindings(a_off, b_off, bias_off, c_off, m, k, n, act)
            + seq![
            Cmd::Pipeline(Kernel::SgemmSimdBias),
            Cmd::Groups(tile_grid(m, n, 8), one_row(32)),
        ],
        SgemmVariant::SimdPadded => biased_bindings(a_off, b_off, bias_off, c_off, m, k, n, act)
            + seq![
            Cmd::Pipeline(Kernel::SgemmSimdPaddedBias),
            Cmd::Groups(tile_grid(m, n, 8), one_row(32)),
        ],
        _ => product_steps(
            v,
            Buf::Arena,
            a_off,
            Buf::Arena,
            b_off,
            Buf::Arena,
            c_off,
            m,
            k,
            n,
        ) + bias_and_act_steps(bias_off, c_off, m, n, act),
    }
}

/// `C = A * B + bias`, with an activation on top.
pub fn metal_sgemm_bias(
    enc: &mut Vec<Cmd>,
    hw: &MetalHwModel,
    s: &SgemmSettings,
    a_off: usize,
    b_off: usize,
    bias_off: usize,
    c_off: usize,
    m: usize,
    k: usize,
    n: usize,
    act: FusedAct,
)
    requires
        launch_fits(m, k, n),
    ensures
        final(enc)@ == old(enc)@ + biased_steps(
            picked(*hw, *s, m as int, k as int, n as int),
            a_off,
            b_off,
            bias_off,
            c_off,
            m,
            k,
            n,
            act,
        ),
{
    match hw.pick_sgemm(s, m, k, n) {
        SgemmVariant::Simd4x4 => {
            bind_biased(enc, a_off, b_off, bias_off, c_off, m, k, n, act);
            emit(
                enc,
                vec![
                    Cmd::Pipeline(Kernel::SgemmSimd4x4Bias),
                    Cmd::Groups(tiles(m, n, 32), row(512)),
                ],
            );
        },
        SgemmVariant::Simd => {
            bind_biased(enc, a_off, b_off, bias_off, c_off, m, k, n, act);
            emit(
                enc,
                vec![
                    Cmd::Pipeline(Kernel::SgemmSimdBias),
                    Cmd::Groups(tiles(m, n, 8), row(32)),
                ],
            );
        },
        SgemmVariant::SimdPadded => {
            bind_biased(enc, a_off, b_off, bias_off, c_off, m, k, n, act);
            emit(
                enc,
                vec![
                    Cmd::Pipeline(Kernel::SgemmSimdPaddedBias),
                    Cmd::Groups(tiles(m, n, 8), row(32)),
                ],
            );
        },
        _ => {
            metal_sgemm(enc, hw, s, a_off, b_off, c_off, m, k, n);
            let ghost product = enc@;
            emit(
                enc,
                vec![
                    Cmd::Pipeline(Kernel::BiasAdd),
                    Cmd::Buffer(0, Buf::Arena, c_off as u64),
                    Cmd::Buffer(1, Buf::Arena, bias_off as u64),
                    Cmd::U32(2, low32(m as u64)),
                    Cmd::U32(3, low32(n as u64)),
                    Cmd::Threads(plane_of(n as u64, m as u64), square(m, n)),
                ],
            );
            if act != FusedAct::Identity {
                let elems: usize = m * n;
                let len: u32 = low32(elems as u64);
                let steps: Vec<Cmd> = if act == FusedAct::Gelu {
                    vec![
                        Cmd::Pipeline(Kernel::GeluInplace),
                        Cmd::Buffer(0, Buf::Arena, 0),
                        Cmd::U64(1, c_off as u64),
                        Cmd::U32(2, len),
                        Cmd::Threads(
                            row(len as u64),
                            Group::ExecWidth(Kernel::GeluInplace, len as u64),
                        ),
                    ]
                } else {
                    vec![
                        Cmd::Pipeline(Kernel::SiluInplace),
                        Cmd::Buffer(0, Buf::Arena, c_off as u64),
                        Cmd::U32(1, len),
                        Cmd::Threads(
                            row(len as u64),
                            Group::ExecWidth(Kernel::SiluInplace, len as u64),
                        ),
                    ]
                };
                emit(enc, steps);
            }
            assert(enc@ =~= product + bias_and_act_steps(bias_off, c_off, m, n, act));
        },
    }
}

/// The steps of `metal_hgemm_bufs`.
pub open spec fn hgemm_bufs_steps(
    a: Buf,
    a_off: usize,
    b: Buf,
    b_off: usize,
    c: Buf,
    c_off: usize,
    m: usize,
    k: usize,
    n: usize,
) -> Seq<Cmd> {
    product_bindings(a, a_off, b, b_off, c, c_off, m, k, n)
        + seq![
        Cmd::Pipeline(Kernel::HgemmSimd4x4),
        Cmd::Groups(tile_grid(m, n, 32), one_row(512)),
    ]
}

/// `C = A * B` in half precision.
pub fn metal_hgemm_bufs(
    enc: &mut Vec<Cmd>,
    a: Buf,
    a_off: usize,
    b: Buf,
    b_off: usize,
    c: Buf,
    c_off: usize,
    m: usize,
    k: usize,
    n: usize,
)
    ensures
        final(enc)@ == old(enc)@ + hgemm_bufs_steps(a, a_off, b, b_off, c, c_off, m, k, n),
{
    bind_product(enc, a, a_off, b, b_off, c, c_off, m, k, n);
    emit(
        enc,
        vec![Cmd::Pipeline(Kernel::HgemmSimd4x4), Cmd::Groups(tiles(m, n, 32), row(512))],
    );
}

/// The steps of `metal_hgemm`.
pub open spec fn hgemm_steps(
    a_off: usize,
    b_off: usize,
    c_off: usize,
    m: usize,
    k: usize,
    n: usize,
) -> Seq<Cmd> {
    product_bindings(
        Buf::Arena,
        a_off,
        Buf::Arena,
        b_off,
        Buf::Arena,
        c_off,
        m,
        k,
        n,
    ) + seq![
        Cmd::Pipeline(Kernel::HgemmSimd4x4),
        Cmd::Groups(tile_grid(m, n, 32), one_row(512)),
    ]
}

/// The same within the arena.
pub fn metal_hgemm(
    enc: &mut Vec<Cmd>,
    a_off: usize,
    b_off: usize,
    c_off: usize,
    m: usize,
    k: usize,
    n: usize,
)
    ensures
        final(enc)@ == old(enc)@ + hgemm_steps(a_off, b_off, c_off, m, k, n),
{
    metal_hgemm_bufs(enc, Buf::Arena, a_off, Buf::Arena, b_off, Buf::Arena, c_off, m, k, n);
}

/// The steps of `metal_hgemm_bias`.
pub open spec fn hgemm_bias_steps(
    a_off: usize,
    b_off: usize,
    bias_off: usize,
    c_off: usize,
    m: usize,
    k: usize,
    n: usize,
    act: FusedAct,
) -> Seq<Cmd> {
    biased_bindings(a_off, b_off, bias_off, c_off, m, k, n, act)
        + seq![
        Cmd::Pipeline(Kernel::HgemmSimd4x4Bias),
        Cmd::Groups(tile_grid(m, n, 32), one_row(512)),
    ]
}

/// `C = A * B + bias` in half precision, with an activation on top.
pub fn metal_hgemm_bias(
    enc: &mut Vec<Cmd>,
    a_off: usize,
    b_off: usize,
    bias_off: usize,
    c_off: usize,
    m: usize,
    k: usize,
    n: usize,
    act: FusedAct,
)
    ensures
        final(enc)@ == old(enc)@ + hgemm_bias_steps(a_off, b_off, bias_off, c_off, m, k, n, act),
{
    bind_biased(enc, a_off, b_off, bias_off, c_off, m, k, n, act);
    emit(
        enc,
        vec![Cmd::Pipeline(Kernel::HgemmSimd4x4Bias), Cmd::Groups(tiles(m, n, 32), row(512))],
    );
}

/// A kernel that writes whole tiles is launched on exactly the tiles of the result: nothing is
/// written past its last row or column. (Where the vendor's product is picked, the caller has
/// taken another path before a kernel is launched.)
pub proof fn lemma_whole_tiles_cover_the_result(
    hw: MetalHwModel,
    s: SgemmSettings,
    m: usize,
    k: usize,
    n: usize,
)
    ensures
        ({
            let v = picked(hw, s, m as int, k as int, n as int);
            &&& v == SgemmVariant::Simd4x4 ==> tile_grid(m, n, 32).width * 32 == n && tile_grid(
                m,
                n,
                32,
            ).height * 32 == m
            &&& v == SgemmVariant::Simd64 || v == SgemmVariant::Simd64SplitK ==> (n / 64) * 64 == n
                && (m / 64) * 64 == m
            &&& v == SgemmVariant::Simd ==> tile_grid(m, n, 8).width * 8 == n && tile_grid(
                m,
                n,
                8,
            ).height * 8 == m
        }),
{
    lemma_pick_never_overruns(hw, s, m as int, k as int, n as int);
}

} // verus!
