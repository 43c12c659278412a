//! Products with quantized weights.

use vstd::prelude::*;

use crate::command::{
    bit, ceil_div, div_up, emit, flag, least, low32, low_word, min_u64, one_row, plane, plane_of,
    row, Buf, Cmd, Group, Kernel,
};

verus! {

/// The quantization schemes that the choice of a kernel depends on.
#[derive(Clone, Copy, Debug, PartialEq, Eq, Structural)]
pub enum PackedFormat {
    Q1,
    Q2,
    Q4,
    Q5,
    Q8,
    Q4K,
    Q6K,
    Other,
}

/// What every product of a packed matrix with one vector is bound to.
pub open spec fn gemv_bindings(
    kernel: Kernel,
    x: usize,
    w_q: usize,
    dst: usize,
    k_dim: usize,
    n_dim: usize,
) -> Seq<Cmd> {
    seq![
        Cmd::Pipeline(kernel),
        Cmd::Buffer(0, Buf::Arena, 0),
        Cmd::U64(1, x as u64),
        Cmd::U64(2, w_q as u64),
        Cmd::U64(3, dst as u64),
        Cmd::U32(4, low_word(k_dim as u64)),
        Cmd::U32(5, low_word(n_dim as u64)),
    ]
}

/// One thread per output.
pub open spec fn per_output(n_dim: usize) -> Cmd {
    Cmd::Threads(one_row(n_dim as u64), Group::Fixed(one_row(min_u64(256, n_dim as u64))))
}

pub open spec fn gemv_steps(
    kernel: Kernel,
    x: usize,
    w_q: usize,
    dst: usize,
    k_dim: usize,
    n_dim: usize,
) -> Seq<Cmd> {
    gemv_bindings(kernel, x, w_q, dst, k_dim, n_dim) + seq![per_output(n_dim)]
}

/// The same for the schemes that need lookup tables.
pub open spec fn grid_gemv_steps(
    kernel: Kernel,
    x: usize,
    w_q: usize,
    dst: usize,
    k_dim: usize,
    n_dim: usize,
) -> Seq<Cmd> {
    gemv_bindings(kernel, x, w_q, dst, k_dim, n_dim) + seq![
        Cmd::Buffer(6, Buf::IqGrid, 0),
        per_output(n_dim),
    ]
}

/// Threads where `nsg` simdgroups share a threadgroup and each computes `rows` outputs.
pub open spec fn simd_threads(n_dim: usize, nsg: u64, rows: u64) -> int {
    div_up(div_up(n_dim as u64, rows), nsg) * nsg * 32
}

/// Simdgroup-cooperative products.
pub open spec fn simd_gemv_steps(
    kernel: Kernel,
    x: usize,
    w_q: usize,
    dst: usize,
    k_dim: usize,
    n_dim: usize,
    nsg: u64,
    rows: u64,
) -> Seq<Cmd> {
    gemv_bindings(kernel, x, w_q, dst, k_dim, n_dim) + seq![
        Cmd::Threads(
            one_row(simd_threads(n_dim, nsg, rows) as u64),
            Group::Fixed(one_row((nsg * 32) as u64)),
        ),
    ]
}

fn bind_gemv(
    enc: &mut Vec<Cmd>,
    kernel: Kernel,
    x: usize,
    w_q: usize,
    dst: usize,
    k_dim: usize,
    n_dim: usize,
)
    ensures
        final(enc)@ == old(enc)@ + gemv_bindings(kernel, x, w_q, dst, k_dim, n_dim),
{
    emit(
        enc,
        vec![
            Cmd::Pipeline(kernel),
            Cmd::Buffer(0, Buf::Arena, 0),
            Cmd::U64(1, x as u64),
            Cmd::U64(2, w_q as u64),
            Cmd::U64(3, dst as u64),
            Cmd::U32(4, low32(k_dim as u64)),
            Cmd::U32(5, low32(n_dim as u64)),
        ],
    );
}

fn output_threads(n_dim: usize) -> (r: Cmd)
    ensures
        r == per_output(n_dim),
{
    Cmd::Threads(row(n_dim as u64), Group::Fixed(row(least(256, n_dim as u64))))
}

fn emit_gemv(
    enc: &mut Vec<Cmd>,
    kernel: Kernel,
    x: usize,
    w_q: usize,
    dst: usize,
    k_dim: usize,
    n_dim: usize,
)
    ensures
        final(enc)@ == old(enc)@ + gemv_steps(kernel, x, w_q, dst, k_dim, n_dim),
{
    bind_gemv(enc, kernel, x, w_q, dst, k_dim, n_dim);
    emit(enc, vec![output_threads(n_dim)]);
}

fn emit_grid_gemv(
    enc: &mut Vec<Cmd>,
    kernel: Kernel,
    x: usize,
    w_q: usize,
    dst: usize,
    k_dim: usize,
    n_dim: usize,
)
    ensures
        final(enc)@ == old(enc)@ + grid_gemv_steps(kernel, x, w_q, dst, k_dim, n_dim),
{
    bind_gemv(enc, kernel, x, w_q, dst, k_dim, n_dim);
    emit(enc, vec![Cmd::Buffer(6, Buf::IqGrid, 0), output_threads(n_dim)]);
}

fn count_simd_threads(n_dim: usize, nsg: u64, rows: u64) -> (r: u64)
    requires
        0 < nsg <= 4,
        0 < rows,
        simd_threads(n_dim, nsg, rows) <= u64::MAX,
    ensures
        r == simd_threads(n_dim, nsg, rows),
{
    let groups: u64 = ceil_div(n_dim as u64, rows);
    let teams: u64 = ceil_div(groups, nsg);
    assert(teams * nsg <= teams * nsg * 32) by (nonlinear_arith);
    teams * nsg * 32
}

fn emit_simd_gemv(
    enc: &mut Vec<Cmd>,
    kernel: Kernel,
    x: usize,
    w_q: usize,
    dst: usize,
    k_dim: usize,
    n_dim: usize,
    nsg: u64,
    rows: u64,
)
    requires
        0 < nsg <= 4,
        0 < rows,
        simd_threads(n_dim, nsg, rows) <= u64::MAX,
    ensures
        final(enc)@ == old(enc)@ + simd_gemv_steps(
            kernel,
            x,
            w_q,
            dst,
            k_dim,
            n_dim,
            nsg,
            rows,
        ),
{
    bind_gemv(enc, kernel, x, w_q, dst, k_dim, n_dim);
    let threads: u64 = count_simd_threads(n_dim, nsg, rows);
    emit(enc, vec![Cmd::Threads(row(threads), Group::Fixed(row(nsg * 32)))]);
}

/// The steps of `encode_q4k_mv_f32_sg`.
pub open spec fn q4k_mv_f32_sg_steps(
    x: usize,
    w_q: usize,
    dst: usize,
    k_dim: usize,
    n_dim: usize,
) -> Seq<Cmd> {
    simd_gemv_steps(
        Kernel::Q4kMvF32Sg,
        x,
        w_q,
        dst,
        k_dim,
        n_dim,
        4,
        2,
    )
}

/// Q4_K, four simdgroups of two outputs.
pub fn encode_q4k_mv_f32_sg(
    enc: &mut Vec<Cmd>,
    x: usize,
    w_q: usize,
    dst: usize,
    k_dim: usize,
    n_dim: usize,
)
    requires
        simd_threads(n_dim, 4, 2) <= u64::MAX,
    ensures
        final(enc)@ == old(enc)@ + q4k_mv_f32_sg_steps(x, w_q, dst, k_dim, n_dim),
{
    emit_simd_gemv(enc, Kernel::Q4kMvF32Sg, x, w_q, dst, k_dim, n_dim, 4, 2);
}

/// The steps of `encode_q8_0_mv_f32_sg`.
pub open spec fn q8_0_mv_f32_sg_steps(
    x: usize,
    w_q: usize,
    dst: usize,
    k_dim: usize,
    n_dim: usize,
) -> Seq<Cmd> {
    simd_gemv_steps(
        Kernel::Q80MvF32Sg,
        x,
        w_q,
        dst,
        k_dim,
        n_dim,
        2,
        4,
    )
}

/// Q8_0, two simdgroups of four outputs.
pub fn encode_q8_0_mv_f32_sg(
    enc: &mut Vec<Cmd>,
    x: usize,
    w_q: usize,
    dst: usize,
    k_dim: usize,
    n_dim: usize,
)
    requires
        simd_threads(n_dim, 2, 4) <= u64::MAX,
    ensures
        final(enc)@ == old(enc)@ + q8_0_mv_f32_sg_steps(x, w_q, dst, k_dim, n_dim),
{
    emit_simd_gemv(enc, Kernel::Q80MvF32Sg, x, w_q, dst, k_dim, n_dim, 2, 4);
}

/// The steps of `encode_q4_0_mv_f32_sg`.
pub open spec fn q4_0_mv_f32_sg_steps(
    x: usize,
    w_q: usize,
    dst: usize,
    k_dim: usize,
    n_dim: usize,
) -> Seq<Cmd> {
    simd_gemv_steps(
        Kernel::Q40MvF32Sg,
        x,
        w_q,
        dst,
        k_dim,
        n_dim,
        2,
        4,
    )
}

/// Q4_0, two simdgroups of four outputs.
pub fn encode_q4_0_mv_f32_sg(
    enc: &mut Vec<Cmd>,
    x: usize,
    w_q: usize,
    dst: usize,
    k_dim: usize,
    n_dim: usize,
)
    requires
        simd_threads(n_dim, 2, 4) <= u64::MAX,
    ensures
        final(enc)@ == old(enc)@ + q4_0_mv_f32_sg_steps(x, w_q, dst, k_dim, n_dim),
{
    emit_simd_gemv(enc, Kernel::Q40MvF32Sg, x, w_q, dst, k_dim, n_dim, 2, 4);
}

/// The steps of `encode_q4_1_mv_f32_sg`.
pub open spec fn q4_1_mv_f32_sg_steps(
    x: usize,
    w_q: usize,
    dst: usize,
    k_dim: usize,
    n_dim: usize,
) -> Seq<Cmd> {
    simd_gemv_steps(
        Kernel::Q41MvF32Sg,
        x,
        w_q,
        dst,
        k_dim,
        n_dim,
        2,
        4,
    )
}

/// Q4_1, two simdgroups of four outputs.
pub fn encode_q4_1_mv_f32_sg(
    enc: &mut Vec<Cmd>,
    x: usize,
    w_q: usize,
    dst: usize,
    k_dim: usize,
    n_dim: usize,
)
    requires
        simd_threads(n_dim, 2, 4) <= u64::MAX,
    ensures
        final(enc)@ == old(enc)@ + q4_1_mv_f32_sg_steps(x, w_q, dst, k_dim, n_dim),
{
    emit_simd_gemv(enc, Kernel::Q41MvF32Sg, x, w_q, dst, k_dim, n_dim, 2, 4);
}

/// The steps of `encode_q6k_mv_f32_sg`.
pub open spec fn q6k_mv_f32_sg_steps(
    x: usize,
    w_q: usize,
    dst: usize,
    k_dim: usize,
    n_dim: usize,
) -> Seq<Cmd> {
    simd_gemv_steps(
        Kernel::Q6kMvF32Sg,
        x,
        w_q,
        dst,
        k_dim,
        n_dim,
        4,
        1,
    )
}

/// Q6_K, four simdgroups of one output.
pub fn encode_q6k_mv_f32_sg(
    enc: &mut Vec<Cmd>,
    x: usize,
    w_q: usize,
    dst: usize,
    k_dim: usize,
    n_dim: usize,
)
    requires
        simd_threads(n_dim, 4, 1) <= u64::MAX,
    ensures
        final(enc)@ == old(enc)@ + q6k_mv_f32_sg_steps(x, w_q, dst, k_dim, n_dim),
{
    emit_simd_gemv(enc, Kernel::Q6kMvF32Sg, x, w_q, dst, k_dim, n_dim, 4, 1);
}

/// The steps of `encode_q3k_mv_f32_sg`.
pub open spec fn q3k_mv_f32_sg_steps(
    x: usize,
    w_q: usize,
    dst: usize,
    k_dim: usize,
    n_dim: usize,
) -> Seq<Cmd> {
    simd_gemv_steps(
        Kernel::Q3kMvF32Sg,
        x,
        w_q,
        dst,
        k_dim,
        n_dim,
        4,
        2,
    )
}

/// Q3_K, four simdgroups of two outputs.
pub fn encode_q3k_mv_f32_sg(
    enc: &mut Vec<Cmd>,
    x: usize,
    w_q: usize,
    dst: usize,
    k_dim: usize,
    n_dim: usize,
)
    requires
        simd_threads(n_dim, 4, 2) <= u64::MAX,
    ensures
        final(enc)@ == old(enc)@ + q3k_mv_f32_sg_steps(x, w_q, dst, k_dim, n_dim),
{
    emit_simd_gemv(enc, Kernel::Q3kMvF32Sg, x, w_q, dst, k_dim, n_dim, 4, 2);
}

/// The steps of `encode_q3k_mv_f32`.
pub open spec fn q3k_mv_f32_steps(
    x: usize,
    w_q: usize,
    dst: usize,
    k_dim: usize,
    n_dim: usize,
) -> Seq<Cmd> {
    gemv_steps(Kernel::Q3kMvF32, x, w_q, dst, k_dim, n_dim)
}

/// Q3_K, one thread per output.
pub fn encode_q3k_mv_f32(
    enc: &mut Vec<Cmd>,
    x: usize,
    w_q: usize,
    dst: usize,
    k_dim: usize,
    n_dim: usize,
)
    ensures
        final(enc)@ == old(enc)@ + q3k_mv_f32_steps(x, w_q, dst, k_dim, n_dim),
{
    emit_gemv(enc, Kernel::Q3kMvF32, x, w_q, dst, k_dim, n_dim);
}

/// The steps of `encode_q6k_mv_f32`.
pub open spec fn q6k_mv_f32_steps(
    x: usize,
    w_q: usize,
    dst: usize,
    k_dim: usize,
    n_dim: usize,
) -> Seq<Cmd> {
    gemv_steps(Kernel::Q6kMvF32, x, w_q, dst, k_dim, n_dim)
}

/// Q6_K, one thread per output.
pub fn encode_q6k_mv_f32(
    enc: &mut Vec<Cmd>,
    x: usize,
    w_q: usize,
    dst: usize,
    k_dim: usize,
    n_dim: usize,
)
    ensures
        final(enc)@ == old(enc)@ + q6k_mv_f32_steps(x, w_q, dst, k_dim, n_dim),
{
    emit_gemv(enc, Kernel::Q6kMvF32, x, w_q, dst, k_dim, n_dim);
}

/// The steps of `encode_q4k_mv_f32`.
pub open spec fn q4k_mv_f32_steps(
    x: usize,
    w_q: usize,
    dst: usize,
    k_dim: usize,
    n_dim: usize,
) -> Seq<Cmd> {
    gemv_steps(Kernel::Q4kMvF32, x, w_q, dst, k_dim, n_dim)
}

/// Q4_K, one thread per output.
pub fn encode_q4k_mv_f32(
    enc: &mut Vec<Cmd>,
    x: usize,
    w_q: usize,
    dst: usize,
    k_dim: usize,
    n_dim: usize,
)
    ensures
        final(enc)@ == old(enc)@ + q4k_mv_f32_steps(x, w_q, dst, k_dim, n_dim),
{
    emit_gemv(enc, Kernel::Q4kMvF32, x, w_q, dst, k_dim, n_dim);
}

/// The steps of `encode_q4_0_mv_f32`.
pub open spec fn q4_0_mv_f32_steps(
    x: usize,
    w_q: usize,
    dst: usize,
    k_dim: usize,
    n_dim: usize,
) -> Seq<Cmd> {
    gemv_steps(Kernel::Q40MvF32, x, w_q, dst, k_dim, n_dim)
}

/// Q4_0, one thread per output.
pub fn encode_q4_0_mv_f32(
    enc: &mut Vec<Cmd>,
    x: usize,
    w_q: usize,
    dst: usize,
    k_dim: usize,
    n_dim: usize,
)
    ensures
        final(enc)@ == old(enc)@ + q4_0_mv_f32_steps(x, w_q, dst, k_dim, n_dim),
{
    emit_gemv(enc, Kernel::Q40MvF32, x, w_q, dst, k_dim, n_dim);
}

/// The steps of `encode_q4_1_mv_f32`.
pub open spec fn q4_1_mv_f32_steps(
    x: usize,
    w_q: usize,
    dst: usize,
    k_dim: usize,
    n_dim: usize,
) -> Seq<Cmd> {
    gemv_steps(Kernel::Q41MvF32, x, w_q, dst, k_dim, n_dim)
}

/// Q4_1, one thread per output.
pub fn encode_q4_1_mv_f32(
    enc: &mut Vec<Cmd>,
    x: usize,
    w_q: usize,
    dst: usize,
    k_dim: usize,
    n_dim: usize,
)
    ensures
        final(enc)@ == old(enc)@ + q4_1_mv_f32_steps(x, w_q, dst, k_dim, n_dim),
{
    emit_gemv(enc, Kernel::Q41MvF32, x, w_q, dst, k_dim, n_dim);
}

/// The steps of `encode_q8_0_mv_f32`.
pub open spec fn q8_0_mv_f32_steps(
    x: usize,
    w_q: usize,
    dst: usize,
    k_dim: usize,
    n_dim: usize,
) -> Seq<Cmd> {
    gemv_steps(Kernel::Q80MvF32, x, w_q, dst, k_dim, n_dim)
}

/// Q8_0, one thread per output.
pub fn encode_q8_0_mv_f32(
    enc: &mut Vec<Cmd>,
    x: usize,
    w_q: usize,
    dst: usize,
    k_dim: usize,
    n_dim: usize,
)
    ensures
        final(enc)@ == old(enc)@ + q8_0_mv_f32_steps(x, w_q, dst, k_dim, n_dim),
{
    emit_gemv(enc, Kernel::Q80MvF32, x, w_q, dst, k_dim, n_dim);
}

/// The steps of `encode_iq4_nl_mv_f32`.
pub open spec fn iq4_nl_mv_f32_steps(
    x: usize,
    w_q: usize,
    dst: usize,
    k_dim: usize,
    n_dim: usize,
) -> Seq<Cmd> {
    gemv_steps(Kernel::Iq4NlMvF32, x, w_q, dst, k_dim, n_dim)
}

/// IQ4_NL, one thread per output.
pub fn encode_iq4_nl_mv_f32(
    enc: &mut Vec<Cmd>,
    x: usize,
    w_q: usize,
    dst: usize,
    k_dim: usize,
    n_dim: usize,
)
    ensures
        final(enc)@ == old(enc)@ + iq4_nl_mv_f32_steps(x, w_q, dst, k_dim, n_dim),
{
    emit_gemv(enc, Kernel::Iq4NlMvF32, x, w_q, dst, k_dim, n_dim);
}

/// The steps of `encode_iq2_xxs_mv_f32`.
pub open spec fn iq2_xxs_mv_f32_steps(
    x: usize,
    w_q: usize,
    dst: usize,
    k_dim: usize,
    n_dim: usize,
) -> Seq<Cmd> {
    grid_gemv_steps(Kernel::Iq2XxsMvF32, x, w_q, dst, k_dim, n_dim)
}

/// IQ2_XXS, with lookup tables.
pub fn encode_iq2_xxs_mv_f32(
    enc: &mut Vec<Cmd>,
    x: usize,
    w_q: usize,
    dst: usize,
    k_dim: usize,
    n_dim: usize,
)
    ensures
        final(enc)@ == old(enc)@ + iq2_xxs_mv_f32_steps(x, w_q, dst, k_dim, n_dim),
{
    emit_grid_gemv(enc, Kernel::Iq2XxsMvF32, x, w_q, dst, k_dim, n_dim);
}

/// The steps of `encode_iq2_xs_mv_f32`.
pub open spec fn iq2_xs_mv_f32_steps(
    x: usize,
    w_q: usize,
    dst: usize,
    k_dim: usize,
    n_dim: usize,
) -> Seq<Cmd> {
    grid_gemv_steps(Kernel::Iq2XsMvF32, x, w_q, dst, k_dim, n_dim)
}

/// IQ2_XS, with lookup tables.
pub fn encode_iq2_xs_mv_f32(
    enc: &mut Vec<Cmd>,
    x: usize,
    w_q: usize,
    dst: usize,
    k_dim: usize,
    n_dim: usize,
)
    ensures
        final(enc)@ == old(enc)@ + iq2_xs_mv_f32_steps(x, w_q, dst, k_dim, n_dim),
{
    emit_grid_gemv(enc, Kernel::Iq2XsMvF32, x, w_q, dst, k_dim, n_dim);
}

/// The steps of `encode_iq3_xxs_mv_f32`.
pub open spec fn iq3_xxs_mv_f32_steps(
    x: usize,
    w_q: usize,
    dst: usize,
    k_dim: usize,
    n_dim: usize,
) -> Seq<Cmd> {
    grid_gemv_steps(Kernel::Iq3XxsMvF32, x, w_q, dst, k_dim, n_dim)
}

/// IQ3_XXS, with lookup tables.
pub fn encode_iq3_xxs_mv_f32(
    enc: &mut Vec<Cmd>,
    x: usize,
    w_q: usize,
    dst: usize,
    k_dim: usize,
    n_dim: usize,
)
    ensures
        final(enc)@ == old(enc)@ + iq3_xxs_mv_f32_steps(x, w_q, dst, k_dim, n_dim),
{
    emit_grid_gemv(enc, Kernel::Iq3XxsMvF32, x, w_q, dst, k_dim, n_dim);
}

/// The steps of `encode_iq2_s_mv_f32`.
pub open spec fn iq2_s_mv_f32_steps(
    x: usize,
    w_q: usize,
    dst: usize,
    k_dim: usize,
    n_dim: usize,
) -> Seq<Cmd> {
    grid_gemv_steps(Kernel::Iq2SMvF32, x, w_q, dst, k_dim, n_dim)
}

/// IQ2_S, with lookup tables.
pub fn encode_iq2_s_mv_f32(
    enc: &mut Vec<Cmd>,
    x: usize,
    w_q: usize,
    dst: usize,
    k_dim: usize,
    n_dim: usize,
)
    ensures
        final(enc)@ == old(enc)@ + iq2_s_mv_f32_steps(x, w_q, dst, k_dim, n_dim),
{
    emit_grid_gemv(enc, Kernel::Iq2SMvF32, x, w_q, dst, k_dim, n_dim);
}

/// The steps of `encode_iq3_s_mv_f32`.
pub open spec fn iq3_s_mv_f32_steps(
    x: usize,
    w_q: usize,
    dst: usize,
    k_dim: usize,
    n_dim: usize,
) -> Seq<Cmd> {
    grid_gemv_steps(Kernel::Iq3SMvF32, x, w_q, dst, k_dim, n_dim)
}

/// IQ3_S, with lookup tables.
pub fn encode_iq3_s_mv_f32(
    enc: &mut Vec<Cmd>,
    x: usize,
    w_q: usize,
    dst: usize,
    k_dim: usize,
    n_dim: usize,
)
    ensures
        final(enc)@ == old(enc)@ + iq3_s_mv_f32_steps(x, w_q, dst, k_dim, n_dim),
{
    emit_grid_gemv(enc, Kernel::Iq3SMvF32, x, w_q, dst, k_dim, n_dim);
}

/// The steps of `encode_iq1_s_mv_f32`.
pub open spec fn iq1_s_mv_f32_steps(
    x: usize,
    w_q: usize,
    dst: usize,
    k_dim: usize,
    n_dim: usize,
) -> Seq<Cmd> {
    grid_gemv_steps(Kernel::Iq1SMvF32, x, w_q, dst, k_dim, n_dim)
}

/// IQ1_S, with lookup tables.
pub fn encode_iq1_s_mv_f32(
    enc: &mut Vec<Cmd>,
    x: usize,
    w_q: usize,
    dst: usize,
    k_dim: usize,
    n_dim: usize,
)
    ensures
        final(enc)@ == old(enc)@ + iq1_s_mv_f32_steps(x, w_q, dst, k_dim, n_dim),
{
    emit_grid_gemv(enc, Kernel::Iq1SMvF32, x, w_q, dst, k_dim, n_dim);
}

/// The steps of `encode_iq1_m_mv_f32`.
pub open spec fn iq1_m_mv_f32_steps(
    x: usize,
    w_q: usize,
    dst: usize,
    k_dim: usize,
    n_dim: usize,
) -> Seq<Cmd> {
    grid_gemv_steps(Kernel::Iq1MMvF32, x, w_q, dst, k_dim, n_dim)
}

/// IQ1_M, with lookup tables.
pub fn encode_iq1_m_mv_f32(
    enc: &mut Vec<Cmd>,
    x: usize,
    w_q: usize,
    dst: usize,
    k_dim: usize,
    n_dim: usize,
)
    ensures
        final(enc)@ == old(enc)@ + iq1_m_mv_f32_steps(x, w_q, dst, k_dim, n_dim),
{
    emit_grid_gemv(enc, Kernel::Iq1MMvF32, x, w_q, dst, k_dim, n_dim);
}

/// A product of a packed matrix with `m` rows, eight rows per thread.
pub open spec fn rows_gemm_steps(
    kernel: Kernel,
    x: usize,
    w_q: usize,
    dst: usize,
    m_dim: usize,
    k_dim: usize,
    n_dim: usize,
) -> Seq<Cmd> {
    seq![
        Cmd::Pipeline(kernel),
        Cmd::Buffer(0, Buf::Arena, 0),
        Cmd::U64(1, x as u64),
        Cmd::U64(2, w_q as u64),
        Cmd::U64(3, dst as u64),
        Cmd::U32(4, low_word(m_dim as u64)),
        Cmd::U32(5, low_word(k_dim as u64)),
        Cmd::U32(6, low_word(n_dim as u64)),
        Cmd::Threads(
            plane(n_dim as u64, div_up(m_dim as u64, 8)),
            Group::Fixed(one_row(min_u64(n_dim as u64, 64))),
        ),
    ]
}

/// Product of a Q4_K or Q6_K matrix with several rows.
pub fn encode_qk_mm_f32(
    enc: &mut Vec<Cmd>,
    pipeline: Kernel,
    x: usize,
    w_q: usize,
    dst: usize,
    m_dim: usize,
    k_dim: usize,
    n_dim: usize,
)
    ensures
        final(enc)@ == old(enc)@ + rows_gemm_steps(pipeline, x, w_q, dst, m_dim, k_dim, n_dim),
{
    emit(
        enc,
        vec![
            Cmd::Pipeline(pipeline),
            Cmd::Buffer(0, Buf::Arena, 0),
            Cmd::U64(1, x as u64),
            Cmd::U64(2, w_q as u64),
            Cmd::U64(3, dst as u64),
            Cmd::U32(4, low32(m_dim as u64)),
            Cmd::U32(5, low32(k_dim as u64)),
            Cmd::U32(6, low32(n_dim as u64)),
            Cmd::Threads(
                plane_of(n_dim as u64, ceil_div(m_dim as u64, 8)),
                Group::Fixed(row(least(n_dim as u64, 64))),
            ),
        ],
    );
}

/// The steps of `encode_q1_0_mv_f32`.
pub open spec fn q1_0_mv_f32_steps(
    scheme: PackedFormat,
    w_buffer: Buf,
    x: usize,
    w_raw: usize,
    dst: usize,
    k_dim: usize,
    n_dim: usize,
) -> Seq<Cmd> {
    seq![
        Cmd::Pipeline(
            if scheme == PackedFormat::Q1 { Kernel::Q10MvF32 } else { Kernel::Q20MvF32 },
        ),
        Cmd::Buffer(0, Buf::Arena, 0),
        Cmd::U64(1, x as u64),
        Cmd::U64(2, w_raw as u64),
        Cmd::U64(3, dst as u64),
        Cmd::U32(4, low_word(k_dim as u64)),
        Cmd::U32(5, low_word(n_dim as u64)),
        Cmd::Buffer(7, w_buffer, 0),
        Cmd::Threads(one_row(n_dim as u64), Group::Fixed(one_row(min_u64(256, n_dim as u64)))),
    ]
}

/// Product of a one- or two-bit matrix, in a buffer of its own, with one vector.
pub fn encode_q1_0_mv_f32(
    enc: &mut Vec<Cmd>,
    scheme: PackedFormat,
    w_buffer: Buf,
    x: usize,
    w_raw: usize,
    dst: usize,
    k_dim: usize,
    n_dim: usize,
)
    requires
        scheme == PackedFormat::Q1 || scheme == PackedFormat::Q2,
    ensures
        final(enc)@ == old(enc)@ + q1_0_mv_f32_steps(scheme, w_buffer, x, w_raw, dst, k_dim, n_dim),
{
    emit(
        enc,
        vec![
            Cmd::Pipeline(
                if scheme == PackedFormat::Q1 { Kernel::Q10MvF32 } else { Kernel::Q20MvF32 },
            ),
            Cmd::Buffer(0, Buf::Arena, 0),
            Cmd::U64(1, x as u64),
            Cmd::U64(2, w_raw as u64),
            Cmd::U64(3, dst as u64),
            Cmd::U32(4, low32(k_dim as u64)),
            Cmd::U32(5, low32(n_dim as u64)),
            Cmd::Buffer(7, w_buffer, 0),
            Cmd::Threads(row(n_dim as u64), Group::Fixed(row(least(256, n_dim as u64)))),
        ],
    );
}

/// The steps of `encode_q1_0_mv_f32_sg_flags`.
pub open spec fn q1_0_mv_f32_sg_flags_steps(
    scheme: PackedFormat,
    w_buffer: Buf,
    x: usize,
    w_raw: usize,
    dst: usize,
    k_dim: usize,
    n_dim: usize,
    x_f16: bool,
    dst_f16: bool,
) -> Seq<Cmd> {
    seq![
        Cmd::Pipeline(
            if scheme == PackedFormat::Q1 { Kernel::Q10MvF32Sg } else { Kernel::Q20MvF32Sg },
        ),
        Cmd::Buffer(0, Buf::Arena, 0),
        Cmd::U64(1, x as u64),
        Cmd::U64(2, w_raw as u64),
        Cmd::U64(3, dst as u64),
        Cmd::U32(4, low_word(k_dim as u64)),
        Cmd::U32(5, low_word(n_dim as u64)),
        Cmd::U32(6, (bit(x_f16) + bit(dst_f16) * 2) as u32),
        Cmd::Buffer(7, w_buffer, 0),
        Cmd::Threads(one_row(simd_threads(n_dim, 2, 8) as u64), Group::Fixed(one_row(64))),
    ]
}

/// The same by simdgroups, with the precision of input and output as flags.
pub fn encode_q1_0_mv_f32_sg_flags(
    enc: &mut Vec<Cmd>,
    scheme: PackedFormat,
    w_buffer: Buf,
    x: usize,
    w_raw: usize,
    dst: usize,
    k_dim: usize,
    n_dim: usize,
    x_f16: bool,
    dst_f16: bool,
)
    requires
        scheme == PackedFormat::Q1 || scheme == PackedFormat::Q2,
        simd_threads(n_dim, 2, 8) <= u64::MAX,
    ensures
        final(enc)@ == old(enc)@ + q1_0_mv_f32_sg_flags_steps(
            scheme,
            w_buffer,
            x,
            w_raw,
            dst,
            k_dim,
            n_dim,
            x_f16,
            dst_f16,
        ),
{
    emit(
        enc,
        vec![
            Cmd::Pipeline(
                if scheme == PackedFormat::Q1 { Kernel::Q10MvF32Sg } else { Kernel::Q20MvF32Sg },
            ),
            Cmd::Buffer(0, Buf::Arena, 0),
            Cmd::U64(1, x as u64),
            Cmd::U64(2, w_raw as u64),
            Cmd::U64(3, dst as u64),
            Cmd::U32(4, low32(k_dim as u64)),
            Cmd::U32(5, low32(n_dim as u64)),
            Cmd::U32(6, (flag(x_f16) + flag(dst_f16) * 2) as u32),
            Cmd::Buffer(7, w_buffer, 0),
            Cmd::Threads(row(count_simd_threads(n_dim, 2, 8)), Group::Fixed(row(64))),
        ],
    );
}

/// The steps of `encode_q1_0_dual_mv_f32_sg_flags`.
pub open spec fn q1_0_dual_mv_f32_sg_flags_steps(
    scheme: PackedFormat,
    w_buffer: Buf,
    x: usize,
    w0_raw: usize,
    w1_raw: usize,
    dst0: usize,
    dst1: usize,
    k_dim: usize,
    n0: usize,
    n1: usize,
    x_f16: bool,
    dst_f16: bool,
) -> Seq<Cmd> {
    seq![
        Cmd::Pipeline(
            if scheme == PackedFormat::Q1 {
                Kernel::Q10DualMvF32Sg
            } else {
                Kernel::Q20DualMvF32Sg
            },
        ),
        Cmd::Buffer(0, Buf::Arena, 0),
        Cmd::U64(1, x as u64),
        Cmd::U64(2, w0_raw as u64),
        Cmd::U64(3, w1_raw as u64),
        Cmd::U64(4, dst0 as u64),
        Cmd::U64(5, dst1 as u64),
        Cmd::U32x4(
            6,
            low_word(k_dim as u64),
            low_word(n0 as u64),
            low_word(n1 as u64),
            (bit(x_f16) + bit(dst_f16) * 2) as u32,
        ),
        Cmd::Buffer(7, w_buffer, 0),
        Cmd::Threads(
            one_row(simd_threads(if n0 >= n1 { n0 } else { n1 }, 2, 8) as u64),
            Group::Fixed(one_row(64)),
        ),
    ]
}

/// Two such products that share their input.
pub fn encode_q1_0_dual_mv_f32_sg_flags(
    enc: &mut Vec<Cmd>,
    scheme: PackedFormat,
    w_buffer: Buf,
    x: usize,
    w0_raw: usize,
    w1_raw: usize,
    dst0: usize,
    dst1: usize,
    k_dim: usize,
    n0: usize,
    n1: usize,
    x_f16: bool,
    dst_f16: bool,
)
    requires
        scheme == PackedFormat::Q1 || scheme == PackedFormat::Q2,
        simd_threads(if n0 >= n1 { n0 } else { n1 }, 2, 8) <= u64::MAX,
    ensures
        final(enc)@ == old(enc)@ + q1_0_dual_mv_f32_sg_flags_steps(
            scheme,
            w_buffer,
            x,
            w0_raw,
            w1_raw,
            dst0,
            dst1,
            k_dim,
            n0,
            n1,
            x_f16,
            dst_f16,
        ),
{
    emit(
        enc,
        vec![
            Cmd::Pipeline(
                if scheme == PackedFormat::Q1 {
                    Kernel::Q10DualMvF32Sg
                } else {
                    Kernel::Q20DualMvF32Sg
                },
            ),
            Cmd::Buffer(0, Buf::Arena, 0),
            Cmd::U64(1, x as u64),
            Cmd::U64(2, w0_raw as u64),
            Cmd::U64(3, w1_raw as u64),
            Cmd::U64(4, dst0 as u64),
            Cmd::U64(5, dst1 as u64),
            Cmd::U32x4(
                6,
                low32(k_dim as u64),
                low32(n0 as u64),
                low32(n1 as u64),
                (flag(x_f16) + flag(dst_f16) * 2) as u32,
            ),
            Cmd::Buffer(7, w_buffer, 0),
            Cmd::Threads(
                row(count_simd_threads(if n0 >= n1 { n0 } else { n1 }, 2, 8)),
                Group::Fixed(row(64)),
            ),
        ],
    );
}

/// The steps of `encode_q1_0_mm_f32`.
pub open spec fn q1_0_mm_f32_steps(
    scheme: PackedFormat,
    w_buffer: Buf,
    x: usize,
    w_raw: usize,
    dst: usize,
    m_dim: usize,
    k_dim: usize,
    n_dim: usize,
) -> Seq<Cmd> {
    seq![
        Cmd::Pipeline(
            if scheme == PackedFormat::Q1 { Kernel::Q10MmF32 } else { Kernel::Q20MmF32 },
        ),
        Cmd::Buffer(0, Buf::Arena, 0),
        Cmd::U64(1, x as u64),
        Cmd::U64(2, w_raw as u64),
        Cmd::U64(3, dst as u64),
        Cmd::U32(4, low_word(m_dim as u64)),
        Cmd::U32(5, low_word(k_dim as u64)),
        Cmd::U32(6, low_word(n_dim as u64)),
        Cmd::Buffer(7, w_buffer, 0),
        Cmd::Threads(
            plane(n_dim as u64, div_up(m_dim as u64, 8)),
            Group::Fixed(one_row(min_u64(n_dim as u64, 64))),
        ),
    ]
}

/// Product of a one- or two-bit matrix with several rows.
pub fn encode_q1_0_mm_f32(
    enc: &mut Vec<Cmd>,
    scheme: PackedFormat,
    w_buffer: Buf,
    x: usize,
    w_raw: usize,
    dst: usize,
    m_dim: usize,
    k_dim: usize,
    n_dim: usize,
)
    requires
        scheme == PackedFormat::Q1 || scheme == PackedFormat::Q2,
    ensures
        final(enc)@ == old(enc)@ + q1_0_mm_f32_steps(
            scheme,
            w_buffer,
            x,
            w_raw,
            dst,
            m_dim,
            k_dim,
            n_dim,
        ),
{
    emit(
        enc,
        vec![
            Cmd::Pipeline(
                if scheme == PackedFormat::Q1 { Kernel::Q10MmF32 } else { Kernel::Q20MmF32 },
            ),
            Cmd::Buffer(0, Buf::Arena, 0),
            Cmd::U64(1, x as u64),
            Cmd::U64(2, w_raw as u64),
            Cmd::U64(3, dst as u64),
            Cmd::U32(4, low32(m_dim as u64)),
            Cmd::U32(5, low32(k_dim as u64)),
            Cmd::U32(6, low32(n_dim as u64)),
            Cmd::Buffer(7, w_buffer, 0),
            Cmd::Threads(
                plane_of(n_dim as u64, ceil_div(m_dim as u64, 8)),
                Group::Fixed(row(least(n_dim as u64, 64))),
            ),
        ],
    );
}

/// Gate and up projection with their activation in one pass.
pub open spec fn gate_up_steps(
    kernel: Kernel,
    x: usize,
    gate_w: usize,
    up_w: usize,
    dst: usize,
    k_dim: usize,
    n_dim: usize,
) -> Seq<Cmd> {
    seq![
        Cmd::Pipeline(kernel),
        Cmd::Buffer(0, Buf::Arena, 0),
        Cmd::U64(1, x as u64),
        Cmd::U64(2, gate_w as u64),
        Cmd::U64(3, up_w as u64),
        Cmd::U64(4, dst as u64),
        Cmd::U32(5, low_word(k_dim as u64)),
        Cmd::U32(6, low_word(n_dim as u64)),
        per_output(n_dim),
    ]
}

/// Gate and up projection by a given kernel.
pub fn encode_fused_mlp_gate_up_mv_f32(
    enc: &mut Vec<Cmd>,
    pipeline: Kernel,
    x: usize,
    gate_w: usize,
    up_w: usize,
    dst: usize,
    k_dim: usize,
    n_dim: usize,
)
    ensures
        final(enc)@ == old(enc)@ + gate_up_steps(pipeline, x, gate_w, up_w, dst, k_dim, n_dim),
{
    emit(
        enc,
        vec![
            Cmd::Pipeline(pipeline),
            Cmd::Buffer(0, Buf::Arena, 0),
            Cmd::U64(1, x as u64),
            Cmd::U64(2, gate_w as u64),
            Cmd::U64(3, up_w as u64),
            Cmd::U64(4, dst as u64),
            Cmd::U32(5, low32(k_dim as u64)),
            Cmd::U32(6, low32(n_dim as u64)),
            output_threads(n_dim),
        ],
    );
}

/// The steps of `encode_fused_mlp_gate_up_swiglu`.
pub open spec fn fused_mlp_gate_up_swiglu_steps(
    scheme: PackedFormat,
    x: usize,
    gate_w: usize,
    up_w: usize,
    dst: usize,
    k_dim: usize,
    n_dim: usize,
) -> Seq<Cmd> {
    gate_up_steps(
        if scheme == PackedFormat::Q4K {
            Kernel::Q4kSwigluMvF32
        } else {
            Kernel::Q50SwigluMvF32
        },
        x,
        gate_w,
        up_w,
        dst,
        k_dim,
        n_dim,
    )
}

/// Gate and up projection with SwiGLU, for Q4_K and Q5_0.
pub fn encode_fused_mlp_gate_up_swiglu(
    enc: &mut Vec<Cmd>,
    scheme: PackedFormat,
    x: usize,
    gate_w: usize,
    up_w: usize,
    dst: usize,
    k_dim: usize,
    n_dim: usize,
)
    requires
        scheme == PackedFormat::Q4K || scheme == PackedFormat::Q5,
    ensures
        final(enc)@ == old(enc)@ + fused_mlp_gate_up_swiglu_steps(
            scheme,
            x,
            gate_w,
            up_w,
            dst,
            k_dim,
            n_dim,
        ),
{
    let pipeline: Kernel = if scheme == PackedFormat::Q4K {
        Kernel::Q4kSwigluMvF32
    } else {
        Kernel::Q50SwigluMvF32
    };
    encode_fused_mlp_gate_up_mv_f32(enc, pipeline, x, gate_w, up_w, dst, k_dim, n_dim);
}

/// The steps of `encode_fused_mlp_gate_up_gelu`.
pub open spec fn fused_mlp_gate_up_gelu_steps(
    scheme: PackedFormat,
    x: usize,
    gate_w: usize,
    up_w: usize,
    dst: usize,
    k_dim: usize,
    n_dim: usize,
) -> Seq<Cmd> {
    gate_up_steps(
        if scheme == PackedFormat::Q4K { Kernel::Q4kGeluMvF32 } else { Kernel::Q50GeluMvF32 },
        x,
        gate_w,
        up_w,
        dst,
        k_dim,
        n_dim,
    )
}

/// Gate and up projection with approximate GELU, for Q4_K and Q5_0.
pub fn encode_fused_mlp_gate_up_gelu(
    enc: &mut Vec<Cmd>,
    scheme: PackedFormat,
    x: usize,
    gate_w: usize,
    up_w: usize,
    dst: usize,
    k_dim: usize,
    n_dim: usize,
)
    requires
        scheme == PackedFormat::Q4K || scheme == PackedFormat::Q5,
    ensures
        final(enc)@ == old(enc)@ + fused_mlp_gate_up_gelu_steps(
            scheme,
            x,
            gate_w,
            up_w,
            dst,
            k_dim,
            n_dim,
        ),
{
    let pipeline: Kernel = if scheme == PackedFormat::Q4K {
        Kernel::Q4kGeluMvF32
    } else {
        Kernel::Q50GeluMvF32
    };
    encode_fused_mlp_gate_up_mv_f32(enc, pipeline, x, gate_w, up_w, dst, k_dim, n_dim);
}

pub open spec fn swiglu_mv_kernel(scheme: PackedFormat, by_simdgroups: bool) -> Kernel {
    match (scheme, by_simdgroups) {
        (PackedFormat::Q1, true) => Kernel::Q10SwigluMvF32Sg,
        (PackedFormat::Q1, false) => Kernel::Q10SwigluMvF32,
        (_, true) => Kernel::Q20SwigluMvF32Sg,
        (_, false) => Kernel::Q20SwigluMvF32,
    }
}

/// The steps of `encode_q1_0_swiglu_mv_f32`.
pub open spec fn q1_0_swiglu_mv_f32_steps(
    scheme: PackedFormat,
    w_buffer: Buf,
    x: usize,
    gate_raw: usize,
    up_raw: usize,
    dst: usize,
    k_dim: usize,
    n_dim: usize,
    x_f16: bool,
    dst_f16: bool,
    simd: bool,
) -> Seq<Cmd> {
    seq![
        Cmd::Pipeline(swiglu_mv_kernel(scheme, n_dim % 8 == 0 && simd)),
        Cmd::Buffer(0, Buf::Arena, 0),
        Cmd::U64(1, x as u64),
        Cmd::U64(2, gate_raw as u64),
        Cmd::U64(3, up_raw as u64),
        Cmd::U64(4, dst as u64),
        Cmd::U32(5, low_word(k_dim as u64)),
        Cmd::U32(6, low_word(n_dim as u64)),
        Cmd::Buffer(7, w_buffer, 0),
    ] + (if n_dim % 8 == 0 && simd {
        seq![
            Cmd::U32(8, (bit(x_f16) + bit(dst_f16) * 2) as u32),
            Cmd::Threads(one_row(simd_threads(n_dim, 2, 8) as u64), Group::Fixed(one_row(64))),
        ]
    } else {
        seq![
            Cmd::Threads(
                one_row(n_dim as u64),
                Group::Fixed(one_row(min_u64(256, n_dim as u64))),
            ),
        ]
    })
}

/// Gate and up projection with SwiGLU on one- or two-bit weights: by simdgroups where the width
/// is a multiple of eight and `simd` allows.
pub fn encode_q1_0_swiglu_mv_f32(
    enc: &mut Vec<Cmd>,
    scheme: PackedFormat,
    w_buffer: Buf,
    x: usize,
    gate_raw: usize,
    up_raw: usize,
    dst: usize,
    k_dim: usize,
    n_dim: usize,
    x_f16: bool,
    dst_f16: bool,
    simd: bool,
)
    requires
        scheme == PackedFormat::Q1 || scheme == PackedFormat::Q2,
        n_dim % 8 == 0 && simd ==> simd_threads(n_dim, 2, 8) <= u64::MAX,
    ensures
        final(enc)@ == old(enc)@ + q1_0_swiglu_mv_f32_steps(
            scheme,
            w_buffer,
            x,
            gate_raw,
            up_raw,
            dst,
            k_dim,
            n_dim,
            x_f16,
            dst_f16,
            simd,
        ),
{
    let kernel: Kernel = match (scheme, n_dim % 8 == 0 && simd) {
        (PackedFormat::Q1, true) => Kernel::Q10SwigluMvF32Sg,
        (PackedFormat::Q1, false) => Kernel::Q10SwigluMvF32,
        (_, true) => Kernel::Q20SwigluMvF32Sg,
        (_, false) => Kernel::Q20SwigluMvF32,
    };
    emit(
        enc,
        vec![
            Cmd::Pipeline(kernel),
            Cmd::Buffer(0, Buf::Arena, 0),
            Cmd::U64(1, x as u64),
            Cmd::U64(2, gate_raw as u64),
            Cmd::U64(3, up_raw as u64),
            Cmd::U64(4, dst as u64),
            Cmd::U32(5, low32(k_dim as u64)),
            Cmd::U32(6, low32(n_dim as u64)),
            Cmd::Buffer(7, w_buffer, 0),
        ],
    );
    if n_dim % 8 == 0 && simd {
        emit(
            enc,
            vec![
                Cmd::U32(8, (flag(x_f16) + flag(dst_f16) * 2) as u32),
                Cmd::Threads(row(count_simd_threads(n_dim, 2, 8)), Group::Fixed(row(64))),
            ],
        );
    } else {
        emit(
            enc,
            vec![
                Cmd::Threads(row(n_dim as u64), Group::Fixed(row(least(256, n_dim as u64)))),
            ],
        );
    }
}

pub open spec fn residual_mv_kernel(scheme: PackedFormat, by_simdgroups: bool) -> Kernel {
    match (scheme, by_simdgroups) {
        (PackedFormat::Q1, true) => Kernel::Q10MvResidualF32Sg,
        (PackedFormat::Q1, false) => Kernel::Q10MvResidualF32,
        (_, true) => Kernel::Q20MvResidualF32Sg,
        (_, false) => Kernel::Q20MvResidualF32,
    }
}

/// The steps of `encode_q1_0_mv_residual_f32`.
pub open spec fn q1_0_mv_residual_f32_steps(
    scheme: PackedFormat,
    w_buffer: Buf,
    x: usize,
    w_raw: usize,
    res: usize,
    dst: usize,
    k_dim: usize,
    n_dim: usize,
    x_f16: bool,
    dst_f16: bool,
    res_f16: bool,
    simd: bool,
) -> Seq<Cmd> {
    seq![
        Cmd::Pipeline(residual_mv_kernel(scheme, n_dim % 8 == 0 && simd)),
        Cmd::Buffer(0, Buf::Arena, 0),
        Cmd::U64(1, x as u64),
        Cmd::U64(2, w_raw as u64),
        Cmd::U64(3, dst as u64),
        Cmd::U64(4, res as u64),
        Cmd::U32(5, low_word(k_dim as u64)),
        Cmd::U32(6, low_word(n_dim as u64)),
        Cmd::Buffer(7, w_buffer, 0),
    ] + (if n_dim % 8 == 0 && simd {
        seq![
            Cmd::U32(8, (bit(x_f16) + bit(dst_f16) * 2 + bit(res_f16) * 4) as u32),
            Cmd::Threads(one_row(simd_threads(n_dim, 2, 8) as u64), Group::Fixed(one_row(64))),
        ]
    } else {
        seq![
            Cmd::Threads(
                one_row(n_dim as u64),
                Group::Fixed(one_row(min_u64(256, n_dim as u64))),
            ),
        ]
    })
}

/// Down projection plus residual on one- or two-bit weights, with the same choice.
pub fn encode_q1_0_mv_residual_f32(
    enc: &mut Vec<Cmd>,
    scheme: PackedFormat,
    w_buffer: Buf,
    x: usize,
    w_raw: usize,
    res: usize,
    dst: usize,
    k_dim: usize,
    n_dim: usize,
    x_f16: bool,
    dst_f16: bool,
    res_f16: bool,
    simd: bool,
)
    requires
        scheme == PackedFormat::Q1 || scheme == PackedFormat::Q2,
        n_dim % 8 == 0 && simd ==> simd_threads(n_dim, 2, 8) <= u64::MAX,
    ensures
        final(enc)@ == old(enc)@ + q1_0_mv_residual_f32_steps(
            scheme,
            w_buffer,
            x,
            w_raw,
            res,
            dst,
            k_dim,
            n_dim,
            x_f16,
            dst_f16,
            res_f16,
            simd,
        ),
{
    let kernel: Kernel = match (scheme, n_dim % 8 == 0 && simd) {
        (PackedFormat::Q1, true) => Kernel::Q10MvResidualF32Sg,
        (PackedFormat::Q1, false) => Kernel::Q10MvResidualF32,
        (_, true) => Kernel::Q20MvResidualF32Sg,
        (_, false) => Kernel::Q20MvResidualF32,
    };
    emit(
        enc,
        vec![
            Cmd::Pipeline(kernel),
            Cmd::Buffer(0, Buf::Arena, 0),
            Cmd::U64(1, x as u64),
            Cmd::U64(2, w_raw as u64),
            Cmd::U64(3, dst as u64),
            Cmd::U64(4, res as u64),
            Cmd::U32(5, low32(k_dim as u64)),
            Cmd::U32(6, low32(n_dim as u64)),
            Cmd::Buffer(7, w_buffer, 0),
        ],
    );
    if n_dim % 8 == 0 && simd {
        emit(
            enc,
            vec![
                Cmd::U32(8, (flag(x_f16) + flag(dst_f16) * 2 + flag(res_f16) * 4) as u32),
                Cmd::Threads(row(count_simd_threads(n_dim, 2, 8)), Group::Fixed(row(64))),
            ],
        );
    } else {
        emit(
            enc,
            vec![
                Cmd::Threads(row(n_dim as u64), Group::Fixed(row(least(256, n_dim as u64)))),
            ],
        );
    }
}

/// The steps of `encode_q4k_mv_residual_f32`.
pub open spec fn q4k_mv_residual_f32_steps(
    pipeline: Kernel,
    x: usize,
    w_q: usize,
    res: usize,
    dst: usize,
    k_dim: usize,
    n_dim: usize,
) -> Seq<Cmd> {
    seq![
        Cmd::Pipeline(pipeline),
        Cmd::Buffer(0, Buf::Arena, 0),
        Cmd::U64(1, x as u64),
        Cmd::U64(2, w_q as u64),
        Cmd::U64(3, dst as u64),
        Cmd::U64(4, res as u64),
        Cmd::U32(5, low_word(k_dim as u64)),
        Cmd::U32(6, low_word(n_dim as u64)),
        Cmd::Threads(one_row(n_dim as u64), Group::Fixed(one_row(min_u64(256, n_dim as u64)))),
    ]
}

/// Down projection plus residual by a given kernel.
pub fn encode_q4k_mv_residual_f32(
    enc: &mut Vec<Cmd>,
    pipeline: Kernel,
    x: usize,
    w_q: usize,
    res: usize,
    dst: usize,
    k_dim: usize,
    n_dim: usize,
)
    ensures
        final(enc)@ == old(enc)@ + q4k_mv_residual_f32_steps(
            pipeline,
            x,
            w_q,
            res,
            dst,
            k_dim,
            n_dim,
        ),
{
    emit(
        enc,
        vec![
            Cmd::Pipeline(pipeline),
            Cmd::Buffer(0, Buf::Arena, 0),
            Cmd::U64(1, x as u64),
            Cmd::U64(2, w_q as u64),
            Cmd::U64(3, dst as u64),
            Cmd::U64(4, res as u64),
            Cmd::U32(5, low32(k_dim as u64)),
            Cmd::U32(6, low32(n_dim as u64)),
            Cmd::Threads(row(n_dim as u64), Group::Fixed(row(least(256, n_dim as u64)))),
        ],
    );
}

/// The steps of `encode_dequant_matmul`.
pub open spec fn dequant_matmul_steps(
    pipeline: Kernel,
    x: usize,
    w_q: usize,
    scale: usize,
    zp: usize,
    dst: usize,
    m: u32,
    k: u32,
    n: u32,
    block_size: u32,
    asym: u32,
) -> Seq<Cmd> {
    seq![
        Cmd::Pipeline(pipeline),
        Cmd::Buffer(0, Buf::Arena, x as u64),
        Cmd::Buffer(1, Buf::Arena, w_q as u64),
        Cmd::Buffer(2, Buf::Arena, scale as u64),
        Cmd::Buffer(3, Buf::Arena, zp as u64),
        Cmd::Buffer(4, Buf::Arena, dst as u64),
        Cmd::U32(5, m),
        Cmd::U32(6, k),
        Cmd::U32(7, n),
        Cmd::U32(8, block_size),
        Cmd::U32(9, asym),
        Cmd::Threads(
            one_row((m * n) as u64),
            Group::Fixed(one_row(min_u64((m * n) as u64, 256))),
        ),
    ]
}

/// Product with block-quantized integer weights.
pub fn encode_dequant_matmul(
    enc: &mut Vec<Cmd>,
    pipeline: Kernel,
    x: usize,
    w_q: usize,
    scale: usize,
    zp: usize,
    dst: usize,
    m: u32,
    k: u32,
    n: u32,
    block_size: u32,
    asym: u32,
)
    requires
        m * n <= u32::MAX,
    ensures
        final(enc)@ == old(enc)@ + dequant_matmul_steps(
            pipeline,
            x,
            w_q,
            scale,
            zp,
            dst,
            m,
            k,
            n,
            block_size,
            asym,
        ),
{
    emit(
        enc,
        vec![
            Cmd::Pipeline(pipeline),
            Cmd::Buffer(0, Buf::Arena, x as u64),
            Cmd::Buffer(1, Buf::Arena, w_q as u64),
            Cmd::Buffer(2, Buf::Arena, scale as u64),
            Cmd::Buffer(3, Buf::Arena, zp as u64),
            Cmd::Buffer(4, Buf::Arena, dst as u64),
            Cmd::U32(5, m),
            Cmd::U32(6, k),
            Cmd::U32(7, n),
            Cmd::U32(8, block_size),
            Cmd::U32(9, asym),
            Cmd::Threads(row((m * n) as u64), Group::Fixed(row(least((m * n) as u64, 256)))),
        ],
    );
}

/// The steps of `encode_dequant_matmul_fp8`.
pub open spec fn dequant_matmul_fp8_steps(
    pipeline: Kernel,
    x: usize,
    w_q: usize,
    scale: usize,
    dst: usize,
    m: u32,
    k: u32,
    n: u32,
    e5m2: u32,
) -> Seq<Cmd> {
    seq![
        Cmd::Pipeline(pipeline),
        Cmd::Buffer(0, Buf::Arena, x as u64),
        Cmd::Buffer(1, Buf::Arena, w_q as u64),
        Cmd::Buffer(2, Buf::Arena, scale as u64),
        Cmd::Buffer(4, Buf::Arena, dst as u64),
        Cmd::U32(5, m),
        Cmd::U32(6, k),
        Cmd::U32(7, n),
        Cmd::U32(8, e5m2),
        Cmd::Threads(
            one_row((m * n) as u64),
            Group::Fixed(one_row(min_u64((m * n) as u64, 256))),
        ),
    ]
}

/// Product with 8-bit float weights.
pub fn encode_dequant_matmul_fp8(
    enc: &mut Vec<Cmd>,
    pipeline: Kernel,
    x: usize,
    w_q: usize,
    scale: usize,
    dst: usize,
    m: u32,
    k: u32,
    n: u32,
    e5m2: u32,
)
    requires
        m * n <= u32::MAX,
    ensures
        final(enc)@ == old(enc)@ + dequant_matmul_fp8_steps(
            pipeline,
            x,
            w_q,
            scale,
            dst,
            m,
            k,
            n,
            e5m2,
        ),
{
    emit(
        enc,
        vec![
            Cmd::Pipeline(pipeline),
            Cmd::Buffer(0, Buf::Arena, x as u64),
            Cmd::Buffer(1, Buf::Arena, w_q as u64),
            Cmd::Buffer(2, Buf::Arena, scale as u64),
            Cmd::Buffer(4, Buf::Arena, dst as u64),
            Cmd::U32(5, m),
            Cmd::U32(6, k),
            Cmd::U32(7, n),
            Cmd::U32(8, e5m2),
            Cmd::Threads(row((m * n) as u64), Group::Fixed(row(least((m * n) as u64, 256)))),
        ],
    );
}

/// The steps of `encode_dequant_matmul_nvfp4`.
pub open spec fn dequant_matmul_nvfp4_steps(
    pipeline: Kernel,
    x: usize,
    w_q: usize,
    scale: usize,
    global_scale: usize,
    dst: usize,
    m: u32,
    k: u32,
    n: u32,
    group: u32,
) -> Seq<Cmd> {
    seq![
        Cmd::Pipeline(pipeline),
        Cmd::Buffer(0, Buf::Arena, x as u64),
        Cmd::Buffer(1, Buf::Arena, w_q as u64),
        Cmd::Buffer(2, Buf::Arena, scale as u64),
        Cmd::Buffer(3, Buf::Arena, global_scale as u64),
        Cmd::Buffer(4, Buf::Arena, dst as u64),
        Cmd::U32(5, m),
        Cmd::U32(6, k),
        Cmd::U32(7, n),
        Cmd::U32(8, group),
        Cmd::Threads(
            one_row((m * n) as u64),
            Group::Fixed(one_row(min_u64((m * n) as u64, 256))),
        ),
    ]
}

/// Product with 4-bit float weights in groups, under a global scale.
pub fn encode_dequant_matmul_nvfp4(
    enc: &mut Vec<Cmd>,
    pipeline: Kernel,
    x: usize,
    w_q: usize,
    scale: usize,
    global_scale: usize,
    dst: usize,
    m: u32,
    k: u32,
    n: u32,
    group: u32,
)
    requires
        m * n <= u32::MAX,
    ensures
        final(enc)@ == old(enc)@ + dequant_matmul_nvfp4_steps(
            pipeline,
            x,
            w_q,
            scale,
            global_scale,
            dst,
            m,
            k,
            n,
            group,
        ),
{
    emit(
        enc,
        vec![
            Cmd::Pipeline(pipeline),
            Cmd::Buffer(0, Buf::Arena, x as u64),
            Cmd::Buffer(1, Buf::Arena, w_q as u64),
            Cmd::Buffer(2, Buf::Arena, scale as u64),
            Cmd::Buffer(3, Buf::Arena, global_scale as u64),
            Cmd::Buffer(4, Buf::Arena, dst as u64),
            Cmd::U32(5, m),
            Cmd::U32(6, k),
            Cmd::U32(7, n),
            Cmd::U32(8, group),
            Cmd::Threads(row((m * n) as u64), Group::Fixed(row(least((m * n) as u64, 256)))),
        ],
    );
}

/// The steps of `encode_dequant_matmul_mxfp4x2`.
pub open spec fn dequant_matmul_mxfp4x2_steps(
    pipeline: Kernel,
    x: usize,
    w_q: usize,
    scale: usize,
    dst: usize,
    m: u32,
    k: u32,
    n: u32,
    group: u32,
) -> Seq<Cmd> {
    seq![
        Cmd::Pipeline(pipeline),
        Cmd::Buffer(0, Buf::Arena, x as u64),
        Cmd::Buffer(1, Buf::Arena, w_q as u64),
        Cmd::Buffer(2, Buf::Arena, scale as u64),
        Cmd::Buffer(3, Buf::Arena, dst as u64),
        Cmd::U32(4, m),
        Cmd::U32(5, k),
        Cmd::U32(6, n),
        Cmd::U32(7, group),
        Cmd::Threads(
            one_row((m * n) as u64),
            Group::Fixed(one_row(min_u64((m * n) as u64, 256))),
        ),
    ]
}

/// Product with pairs of 4-bit floats.
pub fn encode_dequant_matmul_mxfp4x2(
    enc: &mut Vec<Cmd>,
    pipeline: Kernel,
    x: usize,
    w_q: usize,
    scale: usize,
    dst: usize,
    m: u32,
    k: u32,
    n: u32,
    group: u32,
)
    requires
        m * n <= u32::MAX,
    ensures
        final(enc)@ == old(enc)@ + dequant_matmul_mxfp4x2_steps(
            pipeline,
            x,
            w_q,
            scale,
            dst,
            m,
            k,
            n,
            group,
        ),
{
    emit(
        enc,
        vec![
            Cmd::Pipeline(pipeline),
            Cmd::Buffer(0, Buf::Arena, x as u64),
            Cmd::Buffer(1, Buf::Arena, w_q as u64),
            Cmd::Buffer(2, Buf::Arena, scale as u64),
            Cmd::Buffer(3, Buf::Arena, dst as u64),
            Cmd::U32(4, m),
            Cmd::U32(5, k),
            Cmd::U32(6, n),
            Cmd::U32(7, group),
            Cmd::Threads(row((m * n) as u64), Group::Fixed(row(least((m * n) as u64, 256)))),
        ],
    );
}

/// The steps of `encode_dequant_matmul_mlx_gemm`.
pub open spec fn dequant_matmul_mlx_gemm_steps(
    pipeline: Kernel,
    x: usize,
    w_q: usize,
    scale: usize,
    zp: usize,
    dst: usize,
    m: u32,
    k: u32,
    n: u32,
    kind: u32,
    bits: u32,
    group_size: u32,
) -> Seq<Cmd> {
    seq![
        Cmd::Pipeline(pipeline),
        Cmd::Buffer(0, Buf::Arena, x as u64),
        Cmd::Buffer(1, Buf::Arena, w_q as u64),
        Cmd::Buffer(2, Buf::Arena, scale as u64),
        Cmd::Buffer(3, Buf::Arena, zp as u64),
        Cmd::Buffer(4, Buf::Arena, dst as u64),
        Cmd::U32(5, m),
        Cmd::U32(6, k),
        Cmd::U32(7, n),
        Cmd::U32(8, kind),
        Cmd::U32(9, bits),
        Cmd::U32(10, group_size),
        Cmd::Groups(one_row((n * div_up(m as u64, 8)) as u64), one_row(256)),
    ]
}

/// Product with weights in the MLX layout, eight rows per threadgroup.
pub fn encode_dequant_matmul_mlx_gemm(
    enc: &mut Vec<Cmd>,
    pipeline: Kernel,
    x: usize,
    w_q: usize,
    scale: usize,
    zp: usize,
    dst: usize,
    m: u32,
    k: u32,
    n: u32,
    kind: u32,
    bits: u32,
    group_size: u32,
)
    requires
        n * div_up(m as u64, 8) <= u32::MAX,
    ensures
        final(enc)@ == old(enc)@ + dequant_matmul_mlx_gemm_steps(
            pipeline,
            x,
            w_q,
            scale,
            zp,
            dst,
            m,
            k,
            n,
            kind,
            bits,
            group_size,
        ),
{
    emit(
        enc,
        vec![
            Cmd::Pipeline(pipeline),
            Cmd::Buffer(0, Buf::Arena, x as u64),
            Cmd::Buffer(1, Buf::Arena, w_q as u64),
            Cmd::Buffer(2, Buf::Arena, scale as u64),
            Cmd::Buffer(3, Buf::Arena, zp as u64),
            Cmd::Buffer(4, Buf::Arena, dst as u64),
            Cmd::U32(5, m),
            Cmd::U32(6, k),
            Cmd::U32(7, n),
            Cmd::U32(8, kind),
            Cmd::U32(9, bits),
            Cmd::U32(10, group_size),
            Cmd::Groups(row((n as u64) * ceil_div(m as u64, 8)), row(256)),
        ],
    );
}

/// The steps of `encode_dequant_matmul_mlx_gemv`.
pub open spec fn dequant_matmul_mlx_gemv_steps(
    pipeline: Kernel,
    x: usize,
    w_q: usize,
    scale: usize,
    zp: usize,
    dst: usize,
    k: u32,
    n: u32,
    kind: u32,
    bits: u32,
    group_size: u32,
) -> Seq<Cmd> {
    seq![
        Cmd::Pipeline(pipeline),
        Cmd::Buffer(0, Buf::Arena, x as u64),
        Cmd::Buffer(1, Buf::Arena, w_q as u64),
        Cmd::Buffer(2, Buf::Arena, scale as u64),
        Cmd::Buffer(3, Buf::Arena, zp as u64),
        Cmd::Buffer(4, Buf::Arena, dst as u64),
        Cmd::U32(5, k),
        Cmd::U32(6, n),
        Cmd::U32(7, kind),
        Cmd::U32(8, bits),
        Cmd::U32(9, group_size),
        Cmd::Groups(one_row(n as u64), one_row(256)),
    ]
}

/// The same for a single row.
pub fn encode_dequant_matmul_mlx_gemv(
    enc: &mut Vec<Cmd>,
    pipeline: Kernel,
    x: usize,
    w_q: usize,
    scale: usize,
    zp: usize,
    dst: usize,
    k: u32,
    n: u32,
    kind: u32,
    bits: u32,
    group_size: u32,
)
    ensures
        final(enc)@ == old(enc)@ + dequant_matmul_mlx_gemv_steps(
            pipeline,
            x,
            w_q,
            scale,
            zp,
            dst,
            k,
            n,
            kind,
            bits,
            group_size,
        ),
{
    emit(
        enc,
        vec![
            Cmd::Pipeline(pipeline),
            Cmd::Buffer(0, Buf::Arena, x as u64),
            Cmd::Buffer(1, Buf::Arena, w_q as u64),
            Cmd::Buffer(2, Buf::Arena, scale as u64),
            Cmd::Buffer(3, Buf::Arena, zp as u64),
            Cmd::Buffer(4, Buf::Arena, dst as u64),
            Cmd::U32(5, k),
            Cmd::U32(6, n),
            Cmd::U32(7, kind),
            Cmd::U32(8, bits),
            Cmd::U32(9, group_size),
            Cmd::Groups(row(n as u64), row(256)),
        ],
    );
}

/// The steps of `encode_grouped_dequant_matmul_mlx_gemv`.
pub open spec fn grouped_dequant_matmul_mlx_gemv_steps(
    pipeline: Kernel,
    x: usize,
    w_q: usize,
    scale: usize,
    zp: usize,
    dst: usize,
    e_idx: usize,
    k: u32,
    n: u32,
    kind: u32,
    bits: u32,
    group_size: u32,
    slab_bytes: u32,
    scale_bf16: u32,
) -> Seq<Cmd> {
    seq![
        Cmd::Pipeline(pipeline),
        Cmd::Buffer(0, Buf::Arena, x as u64),
        Cmd::Buffer(1, Buf::Arena, w_q as u64),
        Cmd::Buffer(2, Buf::Arena, scale as u64),
        Cmd::Buffer(3, Buf::Arena, zp as u64),
        Cmd::Buffer(4, Buf::Arena, dst as u64),
        Cmd::Buffer(5, Buf::Arena, e_idx as u64),
        Cmd::U32(6, k),
        Cmd::U32(7, n),
        Cmd::U32(8, kind),
        Cmd::U32(9, bits),
        Cmd::U32(10, group_size),
        Cmd::U32(11, slab_bytes),
        Cmd::U32(12, scale_bf16),
        Cmd::Groups(one_row(n as u64), one_row(256)),
    ]
}

/// The same with the matrix of an expert.
pub fn encode_grouped_dequant_matmul_mlx_gemv(
    enc: &mut Vec<Cmd>,
    pipeline: Kernel,
    x: usize,
    w_q: usize,
    scale: usize,
    zp: usize,
    dst: usize,
    e_idx: usize,
    k: u32,
    n: u32,
    kind: u32,
    bits: u32,
    group_size: u32,
    slab_bytes: u32,
    scale_bf16: u32,
)
    ensures
        final(enc)@ == old(enc)@ + grouped_dequant_matmul_mlx_gemv_steps(
            pipeline,
            x,
            w_q,
            scale,
            zp,
            dst,
            e_idx,
            k,
            n,
            kind,
            bits,
            group_size,
            slab_bytes,
            scale_bf16,
        ),
{
    emit(
        enc,
        vec![
            Cmd::Pipeline(pipeline),
            Cmd::Buffer(0, Buf::Arena, x as u64),
            Cmd::Buffer(1, Buf::Arena, w_q as u64),
            Cmd::Buffer(2, Buf::Arena, scale as u64),
            Cmd::Buffer(3, Buf::Arena, zp as u64),
            Cmd::Buffer(4, Buf::Arena, dst as u64),
            Cmd::Buffer(5, Buf::Arena, e_idx as u64),
            Cmd::U32(6, k),
            Cmd::U32(7, n),
            Cmd::U32(8, kind),
            Cmd::U32(9, bits),
            Cmd::U32(10, group_size),
            Cmd::U32(11, slab_bytes),
            Cmd::U32(12, scale_bf16),
            Cmd::Groups(row(n as u64), row(256)),
        ],
    );
}

/// The steps of `encode_grouped_dequant_matmul_mlx_gemm`.
pub open spec fn grouped_dequant_matmul_mlx_gemm_steps(
    pipeline: Kernel,
    x: usize,
    w_q: usize,
    scale: usize,
    zp: usize,
    dst: usize,
    e_idx: usize,
    m: u32,
    k: u32,
    n: u32,
    kind: u32,
    bits: u32,
    group_size: u32,
    slab_bytes: u32,
    scale_bf16: u32,
) -> Seq<Cmd> {
    seq![
        Cmd::Pipeline(pipeline),
        Cmd::Buffer(0, Buf::Arena, x as u64),
        Cmd::Buffer(1, Buf::Arena, w_q as u64),
        Cmd::Buffer(2, Buf::Arena, scale as u64),
        Cmd::Buffer(3, Buf::Arena, zp as u64),
        Cmd::Buffer(4, Buf::Arena, dst as u64),
        Cmd::Buffer(5, Buf::Arena, e_idx as u64),
        Cmd::U32(6, m),
        Cmd::U32(7, k),
        Cmd::U32(8, n),
        Cmd::U32(9, kind),
        Cmd::U32(10, bits),
        Cmd::U32(11, group_size),
        Cmd::U32(12, slab_bytes),
        Cmd::U32(13, scale_bf16),
        Cmd::Groups(one_row((n * div_up(m as u64, 8)) as u64), one_row(256)),
    ]
}

/// Several rows with the matrices of their experts.
pub fn encode_grouped_dequant_matmul_mlx_gemm(
    enc: &mut Vec<Cmd>,
    pipeline: Kernel,
    x: usize,
    w_q: usize,
    scale: usize,
    zp: usize,
    dst: usize,
    e_idx: usize,
    m: u32,
    k: u32,
    n: u32,
    kind: u32,
    bits: u32,
    group_size: u32,
    slab_bytes: u32,
    scale_bf16: u32,
)
    requires
        n * div_up(m as u64, 8) <= u32::MAX,
    ensures
        final(enc)@ == old(enc)@ + grouped_dequant_matmul_mlx_gemm_steps(
            pipeline,
            x,
            w_q,
            scale,
            zp,
            dst,
            e_idx,
            m,
            k,
            n,
            kind,
            bits,
            group_size,
            slab_bytes,
            scale_bf16,
        ),
{
    emit(
        enc,
        vec![
            Cmd::Pipeline(pipeline),
            Cmd::Buffer(0, Buf::Arena, x as u64),
            Cmd::Buffer(1, Buf::Arena, w_q as u64),
            Cmd::Buffer(2, Buf::Arena, scale as u64),
            Cmd::Buffer(3, Buf::Arena, zp as u64),
            Cmd::Buffer(4, Buf::Arena, dst as u64),
            Cmd::Buffer(5, Buf::Arena, e_idx as u64),
            Cmd::U32(6, m),
            Cmd::U32(7, k),
            Cmd::U32(8, n),
            Cmd::U32(9, kind),
            Cmd::U32(10, bits),
            Cmd::U32(11, group_size),
            Cmd::U32(12, slab_bytes),
            Cmd::U32(13, scale_bf16),
            Cmd::Groups(row((n as u64) * ceil_div(m as u64, 8)), row(256)),
        ],
    );
}

} // verus!
