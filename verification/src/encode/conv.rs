//! Convolutions and pooling.

use vstd::prelude::*;

use crate::command::{
    bit, ceil_div, div_up, emit, flag, least, low32, low_word, max_u64, min_u64, most, one_row,
    plane, plane_of, row, Buf, Cmd, Group, Kernel, Size,
};

use crate::encode::reduce::{reduce_code, reduce_number, ReduceOp};

verus! {

/// The steps of `encode_conv2d`.
pub open spec fn conv2d_steps(
    src: usize,
    weight: usize,
    dst: usize,
    n: u32,
    c_in: u32,
    h: u32,
    w: u32,
    c_out: u32,
    h_out: u32,
    w_out: u32,
    kh: u32,
    kw: u32,
    sh: u32,
    sw: u32,
    ph: u32,
    pw: u32,
    dh: u32,
    dw: u32,
    groups: u32,
) -> Seq<Cmd> {
    seq![
        Cmd::Pipeline(if w == 1 && w_out == 1 { Kernel::Conv2dW1 } else { Kernel::Conv2d }),
        Cmd::Buffer(0, Buf::Arena, src as u64),
        Cmd::Buffer(1, Buf::Arena, weight as u64),
        Cmd::Buffer(2, Buf::Arena, dst as u64),
        Cmd::U32x4(3, n, c_in, h, w),
        Cmd::U32x4(4, c_out, h_out, w_out, groups),
        Cmd::U32x4(5, kh, kw, sh, sw),
        Cmd::U32x4(6, ph, pw, dh, dw),
    ] + (if w == 1 && w_out == 1 {
        seq![
            Cmd::Threads(
                Size { width: 1, height: h_out as u64, depth: (n * c_out) as u64 },
                Group::Fixed(plane(1, min_u64(8, h_out as u64))),
            ),
        ]
    } else {
        seq![
            Cmd::Threads(
                Size { width: w_out as u64, height: h_out as u64, depth: (n * c_out) as u64 },
                Group::Fixed(plane(min_u64(8, w_out as u64), min_u64(8, h_out as u64))),
            ),
        ]
    })
}

/// Two-dimensional convolution; single columns have a kernel of their own.
pub fn encode_conv2d(
    enc: &mut Vec<Cmd>,
    src: usize,
    weight: usize,
    dst: usize,
    n: u32,
    c_in: u32,
    h: u32,
    w: u32,
    c_out: u32,
    h_out: u32,
    w_out: u32,
    kh: u32,
    kw: u32,
    sh: u32,
    sw: u32,
    ph: u32,
    pw: u32,
    dh: u32,
    dw: u32,
    groups: u32,
)
    requires
        n * c_out <= u32::MAX,
    ensures
        final(enc)@ == old(enc)@ + conv2d_steps(
            src,
            weight,
            dst,
            n,
            c_in,
            h,
            w,
            c_out,
            h_out,
            w_out,
            kh,
            kw,
            sh,
            sw,
            ph,
            pw,
            dh,
            dw,
            groups,
        ),
{
    emit(
        enc,
        vec![
            Cmd::Pipeline(if w == 1 && w_out == 1 { Kernel::Conv2dW1 } else { Kernel::Conv2d }),
            Cmd::Buffer(0, Buf::Arena, src as u64),
            Cmd::Buffer(1, Buf::Arena, weight as u64),
            Cmd::Buffer(2, Buf::Arena, dst as u64),
            Cmd::U32x4(3, n, c_in, h, w),
            Cmd::U32x4(4, c_out, h_out, w_out, groups),
            Cmd::U32x4(5, kh, kw, sh, sw),
            Cmd::U32x4(6, ph, pw, dh, dw),
        ],
    );
    if w == 1 && w_out == 1 {
        emit(
            enc,
            vec![
                Cmd::Threads(
                    Size { width: 1, height: h_out as u64, depth: (n * c_out) as u64 },
                    Group::Fixed(plane_of(1, least(8, h_out as u64))),
                ),
            ],
        );
    } else {
        emit(
            enc,
            vec![
                Cmd::Threads(
                    Size { width: w_out as u64, height: h_out as u64, depth: (n * c_out) as u64 },
                    Group::Fixed(plane_of(least(8, w_out as u64), least(8, h_out as u64))),
                ),
            ],
        );
    }
}

/// The steps of `encode_conv_transpose2d`.
pub open spec fn conv_transpose2d_steps(
    src: usize,
    weight: usize,
    dst: usize,
    n: u32,
    c_in: u32,
    h: u32,
    w: u32,
    c_out: u32,
    h_out: u32,
    w_out: u32,
    kh: u32,
    kw: u32,
    sh: u32,
    sw: u32,
    ph: u32,
    pw: u32,
    dh: u32,
    dw: u32,
    groups: u32,
) -> Seq<Cmd> {
    seq![
        Cmd::Pipeline(Kernel::ConvTranspose2d),
        Cmd::Buffer(0, Buf::Arena, src as u64),
        Cmd::Buffer(1, Buf::Arena, weight as u64),
        Cmd::Buffer(2, Buf::Arena, dst as u64),
        Cmd::U32x4(3, n, c_in, h, w),
        Cmd::U32x4(4, c_out, h_out, w_out, groups),
        Cmd::U32x4(5, kh, kw, sh, sw),
        Cmd::U32x4(6, ph, pw, dh, dw),
        Cmd::Threads(
            Size { width: w_out as u64, height: h_out as u64, depth: (n * c_out) as u64 },
            Group::Fixed(plane(min_u64(8, w_out as u64), min_u64(8, h_out as u64))),
        ),
    ]
}

/// Transposed two-dimensional convolution.
pub fn encode_conv_transpose2d(
    enc: &mut Vec<Cmd>,
    src: usize,
    weight: usize,
    dst: usize,
    n: u32,
    c_in: u32,
    h: u32,
    w: u32,
    c_out: u32,
    h_out: u32,
    w_out: u32,
    kh: u32,
    kw: u32,
    sh: u32,
    sw: u32,
    ph: u32,
    pw: u32,
    dh: u32,
    dw: u32,
    groups: u32,
)
    requires
        n * c_out <= u32::MAX,
    ensures
        final(enc)@ == old(enc)@ + conv_transpose2d_steps(
            src,
            weight,
            dst,
            n,
            c_in,
            h,
            w,
            c_out,
            h_out,
            w_out,
            kh,
            kw,
            sh,
            sw,
            ph,
            pw,
            dh,
            dw,
            groups,
        ),
{
    emit(
        enc,
        vec![
            Cmd::Pipeline(Kernel::ConvTranspose2d),
            Cmd::Buffer(0, Buf::Arena, src as u64),
            Cmd::Buffer(1, Buf::Arena, weight as u64),
            Cmd::Buffer(2, Buf::Arena, dst as u64),
            Cmd::U32x4(3, n, c_in, h, w),
            Cmd::U32x4(4, c_out, h_out, w_out, groups),
            Cmd::U32x4(5, kh, kw, sh, sw),
            Cmd::U32x4(6, ph, pw, dh, dw),
            Cmd::Threads(
                Size { width: w_out as u64, height: h_out as u64, depth: (n * c_out) as u64 },
                Group::Fixed(plane_of(least(8, w_out as u64), least(8, h_out as u64))),
            ),
        ],
    );
}

/// The steps of `encode_conv3d`.
pub open spec fn conv3d_steps(
    src: usize,
    weight: usize,
    dst: usize,
    n: u32,
    c_in: u32,
    d: u32,
    h: u32,
    w: u32,
    c_out: u32,
    d_out: u32,
    h_out: u32,
    w_out: u32,
    kd: u32,
    kh: u32,
    kw: u32,
    sd: u32,
    sh: u32,
    sw: u32,
    pd: u32,
    ph: u32,
    pw: u32,
    dd: u32,
    dh: u32,
    dw: u32,
    groups: u32,
) -> Seq<Cmd> {
    seq![
        Cmd::Pipeline(Kernel::Conv3d),
        Cmd::Buffer(0, Buf::Arena, src as u64),
        Cmd::Buffer(1, Buf::Arena, weight as u64),
        Cmd::Buffer(2, Buf::Arena, dst as u64),
        Cmd::U32x4(3, n, c_in, d, h),
        Cmd::U32x4(4, w, c_out, d_out, h_out),
        Cmd::U32x4(5, w_out, kd, kh, kw),
        Cmd::U32x4(6, sd, sh, sw, groups),
        Cmd::U32x4(7, pd, ph, pw, dd),
        Cmd::U32x4(8, dh, dw, 0, 0),
        Cmd::Threads(
            Size {
                width: w_out as u64,
                height: h_out as u64,
                depth: (n * c_out * d_out) as u64,
            },
            Group::Fixed(plane(min_u64(8, w_out as u64), min_u64(8, h_out as u64))),
        ),
    ]
}

/// Three-dimensional convolution.
pub fn encode_conv3d(
    enc: &mut Vec<Cmd>,
    src: usize,
    weight: usize,
    dst: usize,
    n: u32,
    c_in: u32,
    d: u32,
    h: u32,
    w: u32,
    c_out: u32,
    d_out: u32,
    h_out: u32,
    w_out: u32,
    kd: u32,
    kh: u32,
    kw: u32,
    sd: u32,
    sh: u32,
    sw: u32,
    pd: u32,
    ph: u32,
    pw: u32,
    dd: u32,
    dh: u32,
    dw: u32,
    groups: u32,
)
    requires
        n * c_out <= u32::MAX,
        n * c_out * d_out <= u32::MAX,
    ensures
        final(enc)@ == old(enc)@ + conv3d_steps(
            src,
            weight,
            dst,
            n,
            c_in,
            d,
            h,
            w,
            c_out,
            d_out,
            h_out,
            w_out,
            kd,
            kh,
            kw,
            sd,
            sh,
            sw,
            pd,
            ph,
            pw,
            dd,
            dh,
            dw,
            groups,
        ),
{
    emit(
        enc,
        vec![
            Cmd::Pipeline(Kernel::Conv3d),
            Cmd::Buffer(0, Buf::Arena, src as u64),
            Cmd::Buffer(1, Buf::Arena, weight as u64),
            Cmd::Buffer(2, Buf::Arena, dst as u64),
            Cmd::U32x4(3, n, c_in, d, h),
            Cmd::U32x4(4, w, c_out, d_out, h_out),
            Cmd::U32x4(5, w_out, kd, kh, kw),
            Cmd::U32x4(6, sd, sh, sw, groups),
            Cmd::U32x4(7, pd, ph, pw, dd),
            Cmd::U32x4(8, dh, dw, 0, 0),
            Cmd::Threads(
                Size {
                    width: w_out as u64,
                    height: h_out as u64,
                    depth: (n * c_out * d_out) as u64,
                },
                Group::Fixed(plane_of(least(8, w_out as u64), least(8, h_out as u64))),
            ),
        ],
    );
}

/// The steps of `encode_conv_transpose3d`.
pub open spec fn conv_transpose3d_steps(
    src: usize,
    weight: usize,
    dst: usize,
    n: u32,
    c_in: u32,
    d: u32,
    h: u32,
    w: u32,
    c_out: u32,
    d_out: u32,
    h_out: u32,
    w_out: u32,
    kd: u32,
    kh: u32,
    kw: u32,
    sd: u32,
    sh: u32,
    sw: u32,
    pd: u32,
    ph: u32,
    pw: u32,
    dd: u32,
    dh: u32,
    dw: u32,
    groups: u32,
) -> Seq<Cmd> {
    seq![
        Cmd::Pipeline(Kernel::ConvTranspose3d),
        Cmd::Buffer(0, Buf::Arena, src as u64),
        Cmd::Buffer(1, Buf::Arena, weight as u64),
        Cmd::Buffer(2, Buf::Arena, dst as u64),
        Cmd::U32x4(3, n, c_in, d, h),
        Cmd::U32x4(4, w, c_out, d_out, h_out),
        Cmd::U32x4(5, w_out, kd, kh, kw),
        Cmd::U32x4(6, sd, sh, sw, groups),
        Cmd::U32x4(7, pd, ph, pw, dd),
        Cmd::U32x4(8, dh, dw, 0, 0),
        Cmd::Threads(
            Size {
                width: w_out as u64,
                height: h_out as u64,
                depth: (n * c_out * d_out) as u64,
            },
            Group::Fixed(plane(min_u64(8, w_out as u64), min_u64(8, h_out as u64))),
        ),
    ]
}

/// Transposed three-dimensional convolution.
pub fn encode_conv_transpose3d(
    enc: &mut Vec<Cmd>,
    src: usize,
    weight: usize,
    dst: usize,
    n: u32,
    c_in: u32,
    d: u32,
    h: u32,
    w: u32,
    c_out: u32,
    d_out: u32,
    h_out: u32,
    w_out: u32,
    kd: u32,
    kh: u32,
    kw: u32,
    sd: u32,
    sh: u32,
    sw: u32,
    pd: u32,
    ph: u32,
    pw: u32,
    dd: u32,
    dh: u32,
    dw: u32,
    groups: u32,
)
    requires
        n * c_out <= u32::MAX,
        n * c_out * d_out <= u32::MAX,
    ensures
        final(enc)@ == old(enc)@ + conv_transpose3d_steps(
            src,
            weight,
            dst,
            n,
            c_in,
            d,
            h,
            w,
            c_out,
            d_out,
            h_out,
            w_out,
            kd,
            kh,
            kw,
            sd,
            sh,
            sw,
            pd,
            ph,
            pw,
            dd,
            dh,
            dw,
            groups,
        ),
{
    emit(
        enc,
        vec![
            Cmd::Pipeline(Kernel::ConvTranspose3d),
            Cmd::Buffer(0, Buf::Arena, src as u64),
            Cmd::Buffer(1, Buf::Arena, weight as u64),
            Cmd::Buffer(2, Buf::Arena, dst as u64),
            Cmd::U32x4(3, n, c_in, d, h),
            Cmd::U32x4(4, w, c_out, d_out, h_out),
            Cmd::U32x4(5, w_out, kd, kh, kw),
            Cmd::U32x4(6, sd, sh, sw, groups),
            Cmd::U32x4(7, pd, ph, pw, dd),
            Cmd::U32x4(8, dh, dw, 0, 0),
            Cmd::Threads(
                Size {
                    width: w_out as u64,
                    height: h_out as u64,
                    depth: (n * c_out * d_out) as u64,
                },
                Group::Fixed(plane_of(least(8, w_out as u64), least(8, h_out as u64))),
            ),
        ],
    );
}

/// The steps of `encode_im2col_group`.
pub open spec fn im2col_group_steps(
    x: usize,
    col: usize,
    nchw: (u32, u32, u32, u32),
    out_dims: (u32, u32, u32, u32),
    kshape: (u32, u32, u32, u32),
    padd: (u32, u32, u32, u32),
    elems: u64,
) -> Seq<Cmd> {
    seq![
        Cmd::Pipeline(
            if nchw.2 == 1 && out_dims.2 == 1 {
                Kernel::Im2colGroupW1
            } else {
                Kernel::Im2colGroup
            },
        ),
        Cmd::Buffer(0, Buf::Arena, x as u64),
        Cmd::Buffer(1, Buf::Arena, col as u64),
        Cmd::U32x4(2, nchw.0, nchw.1, nchw.2, nchw.3),
        Cmd::U32x4(3, out_dims.0, out_dims.1, out_dims.2, out_dims.3),
        Cmd::U32x4(4, kshape.0, kshape.1, kshape.2, kshape.3),
        Cmd::U32x4(5, padd.0, padd.1, padd.2, padd.3),
        Cmd::Threads(one_row(elems), Group::Fixed(one_row(max_u64(min_u64(512, elems), 1)))),
    ]
}

/// Unfolds the patches of one group; single columns have a kernel of their own.
pub fn encode_im2col_group(
    enc: &mut Vec<Cmd>,
    x: usize,
    col: usize,
    nchw: (u32, u32, u32, u32),
    out_dims: (u32, u32, u32, u32),
    kshape: (u32, u32, u32, u32),
    padd: (u32, u32, u32, u32),
    elems: u64,
)
    ensures
        final(enc)@ == old(enc)@ + im2col_group_steps(x, col, nchw, out_dims, kshape, padd, elems),
{
    emit(
        enc,
        vec![
            Cmd::Pipeline(
                if nchw.2 == 1 && out_dims.2 == 1 {
                    Kernel::Im2colGroupW1
                } else {
                    Kernel::Im2colGroup
                },
            ),
            Cmd::Buffer(0, Buf::Arena, x as u64),
            Cmd::Buffer(1, Buf::Arena, col as u64),
            Cmd::U32x4(2, nchw.0, nchw.1, nchw.2, nchw.3),
            Cmd::U32x4(3, out_dims.0, out_dims.1, out_dims.2, out_dims.3),
            Cmd::U32x4(4, kshape.0, kshape.1, kshape.2, kshape.3),
            Cmd::U32x4(5, padd.0, padd.1, padd.2, padd.3),
            Cmd::Threads(row(elems), Group::Fixed(row(most(least(512, elems), 1)))),
        ],
    );
}

/// The steps of `encode_conv2d_bwd_weight_gemm`.
pub open spec fn conv2d_bwd_weight_gemm_steps(
    dy: usize,
    x: usize,
    dw: usize,
    m: usize,
    k: usize,
    n: usize,
    nchw: (u32, u32, u32, u32),
    out_dims: (u32, u32, u32, u32),
    kshape: (u32, u32, u32, u32),
    padd: (u32, u32, u32, u32),
) -> Seq<Cmd> {
    seq![
        Cmd::Buffer(0, Buf::Arena, dy as u64),
        Cmd::Buffer(1, Buf::Arena, x as u64),
        Cmd::Buffer(2, Buf::Arena, dw as u64),
        Cmd::U32(3, low_word(m as u64)),
        Cmd::U32(4, low_word(k as u64)),
        Cmd::U32(5, low_word(n as u64)),
        Cmd::U32x4(6, nchw.0, nchw.1, nchw.2, nchw.3),
        Cmd::U32x4(7, out_dims.0, out_dims.1, out_dims.2, out_dims.3),
        Cmd::U32x4(8, kshape.0, kshape.1, kshape.2, kshape.3),
        Cmd::U32x4(9, padd.0, padd.1, padd.2, padd.3),
    ] + (if m % 32 == 0 && k % 32 == 0 && n % 32 == 0 && m >= 32 && n >= 32 {
        seq![
            Cmd::Pipeline(Kernel::Conv2dBwdWeightGemm4x4),
            Cmd::Groups(plane(div_up(n as u64, 32), div_up(m as u64, 32)), one_row(512)),
        ]
    } else {
        seq![
            Cmd::Pipeline(Kernel::Conv2dBwdWeightGemm),
            Cmd::Groups(plane(div_up(n as u64, 8), div_up(m as u64, 8)), one_row(32)),
        ]
    })
}

/// The weight gradient as a product over implicit patches: 32 by 32 tiles where everything is
/// aligned, otherwise 8 by 8.
pub fn encode_conv2d_bwd_weight_gemm(
    enc: &mut Vec<Cmd>,
    dy: usize,
    x: usize,
    dw: usize,
    m: usize,
    k: usize,
    n: usize,
    nchw: (u32, u32, u32, u32),
    out_dims: (u32, u32, u32, u32),
    kshape: (u32, u32, u32, u32),
    padd: (u32, u32, u32, u32),
)
    ensures
        final(enc)@ == old(enc)@ + conv2d_bwd_weight_gemm_steps(
            dy,
            x,
            dw,
            m,
            k,
            n,
            nchw,
            out_dims,
            kshape,
            padd,
        ),
{
    emit(
        enc,
        vec![
            Cmd::Buffer(0, Buf::Arena, dy as u64),
            Cmd::Buffer(1, Buf::Arena, x as u64),
            Cmd::Buffer(2, Buf::Arena, dw as u64),
            Cmd::U32(3, low32(m as u64)),
            Cmd::U32(4, low32(k as u64)),
            Cmd::U32(5, low32(n as u64)),
            Cmd::U32x4(6, nchw.0, nchw.1, nchw.2, nchw.3),
            Cmd::U32x4(7, out_dims.0, out_dims.1, out_dims.2, out_dims.3),
            Cmd::U32x4(8, kshape.0, kshape.1, kshape.2, kshape.3),
            Cmd::U32x4(9, padd.0, padd.1, padd.2, padd.3),
        ],
    );
    if m % 32 == 0 && k % 32 == 0 && n % 32 == 0 && m >= 32 && n >= 32 {
        emit(
            enc,
            vec![
                Cmd::Pipeline(Kernel::Conv2dBwdWeightGemm4x4),
                Cmd::Groups(plane_of(ceil_div(n as u64, 32), ceil_div(m as u64, 32)), row(512)),
            ],
        );
    } else {
        emit(
            enc,
            vec![
                Cmd::Pipeline(Kernel::Conv2dBwdWeightGemm),
                Cmd::Groups(plane_of(ceil_div(n as u64, 8), ceil_div(m as u64, 8)), row(32)),
            ],
        );
    }
}

/// The steps of `encode_resize_nearest_2x`.
pub open spec fn resize_nearest_2x_steps(
    src: usize,
    dst: usize,
    n: u32,
    c: u32,
    h: u32,
    w: u32,
) -> Seq<Cmd> {
    seq![
        Cmd::Pipeline(Kernel::ResizeNearest2x),
        Cmd::Buffer(0, Buf::Arena, src as u64),
        Cmd::Buffer(1, Buf::Arena, dst as u64),
        Cmd::U32x4(2, n, c, h, w),
        Cmd::Threads(
            Size { width: (w * 2) as u64, height: (h * 2) as u64, depth: (n * c) as u64 },
            Group::Fixed(plane(min_u64(8, (w * 2) as u64), min_u64(8, (h * 2) as u64))),
        ),
    ]
}

/// Doubles both sides of every plane.
pub fn encode_resize_nearest_2x(
    enc: &mut Vec<Cmd>,
    src: usize,
    dst: usize,
    n: u32,
    c: u32,
    h: u32,
    w: u32,
)
    requires
        w * 2 <= u32::MAX,
        h * 2 <= u32::MAX,
        n * c <= u32::MAX,
    ensures
        final(enc)@ == old(enc)@ + resize_nearest_2x_steps(src, dst, n, c, h, w),
{
    emit(
        enc,
        vec![
            Cmd::Pipeline(Kernel::ResizeNearest2x),
            Cmd::Buffer(0, Buf::Arena, src as u64),
            Cmd::Buffer(1, Buf::Arena, dst as u64),
            Cmd::U32x4(2, n, c, h, w),
            Cmd::Threads(
                Size { width: (w * 2) as u64, height: (h * 2) as u64, depth: (n * c) as u64 },
                Group::Fixed(plane_of(least(8, (w * 2) as u64), least(8, (h * 2) as u64))),
            ),
        ],
    );
}

/// The steps of `encode_pool2d`.
pub open spec fn pool2d_steps(
    src: usize,
    dst: usize,
    n: u32,
    c: u32,
    h: u32,
    w: u32,
    h_out: u32,
    w_out: u32,
    kh: u32,
    kw: u32,
    sh: u32,
    sw: u32,
    ph: u32,
    pw: u32,
    kind: ReduceOp,
) -> Seq<Cmd> {
    seq![
        Cmd::Pipeline(Kernel::Pool2d),
        Cmd::Buffer(0, Buf::Arena, src as u64),
        Cmd::Buffer(1, Buf::Arena, dst as u64),
        Cmd::U32x4(2, n, c, h, w),
        Cmd::U32x2(3, h_out, w_out),
        Cmd::U32x4(4, kh, kw, sh, sw),
        Cmd::U32x2(5, ph, pw),
        Cmd::U32(6, reduce_code(kind)),
        Cmd::Threads(
            Size { width: w_out as u64, height: h_out as u64, depth: (n * c) as u64 },
            Group::Fixed(plane(min_u64(8, w_out as u64), min_u64(8, h_out as u64))),
        ),
    ]
}

/// Two-dimensional pooling.
pub fn encode_pool2d(
    enc: &mut Vec<Cmd>,
    src: usize,
    dst: usize,
    n: u32,
    c: u32,
    h: u32,
    w: u32,
    h_out: u32,
    w_out: u32,
    kh: u32,
    kw: u32,
    sh: u32,
    sw: u32,
    ph: u32,
    pw: u32,
    kind: ReduceOp,
)
    requires
        n * c <= u32::MAX,
    ensures
        final(enc)@ == old(enc)@ + pool2d_steps(
            src,
            dst,
            n,
            c,
            h,
            w,
            h_out,
            w_out,
            kh,
            kw,
            sh,
            sw,
            ph,
            pw,
            kind,
        ),
{
    emit(
        enc,
        vec![
            Cmd::Pipeline(Kernel::Pool2d),
            Cmd::Buffer(0, Buf::Arena, src as u64),
            Cmd::Buffer(1, Buf::Arena, dst as u64),
            Cmd::U32x4(2, n, c, h, w),
            Cmd::U32x2(3, h_out, w_out),
            Cmd::U32x4(4, kh, kw, sh, sw),
            Cmd::U32x2(5, ph, pw),
            Cmd::U32(6, reduce_number(kind)),
            Cmd::Threads(
                Size { width: w_out as u64, height: h_out as u64, depth: (n * c) as u64 },
                Group::Fixed(plane_of(least(8, w_out as u64), least(8, h_out as u64))),
            ),
        ],
    );
}

/// The steps of `encode_maxpool2d_backward`.
pub open spec fn maxpool2d_backward_steps(
    x: usize,
    dy: usize,
    dx: usize,
    n: u32,
    c: u32,
    h: u32,
    w: u32,
    h_out: u32,
    w_out: u32,
    kh: u32,
    kw: u32,
    sh: u32,
    sw: u32,
    ph: u32,
    pw: u32,
) -> Seq<Cmd> {
    seq![
        Cmd::Pipeline(Kernel::Maxpool2dBackward),
        Cmd::Buffer(0, Buf::Arena, x as u64),
        Cmd::Buffer(1, Buf::Arena, dy as u64),
        Cmd::Buffer(2, Buf::Arena, dx as u64),
        Cmd::U32x4(3, n, c, h, w),
        Cmd::U32x4(4, h_out, w_out, kh, kw),
        Cmd::U32x4(5, sh, sw, ph, pw),
        Cmd::Threads(
            Size { width: w as u64, height: h as u64, depth: (n * c) as u64 },
            Group::Fixed(plane(min_u64(8, w as u64), min_u64(8, h as u64))),
        ),
    ]
}

/// The gradient of two-dimensional max pooling.
pub fn encode_maxpool2d_backward(
    enc: &mut Vec<Cmd>,
    x: usize,
    dy: usize,
    dx: usize,
    n: u32,
    c: u32,
    h: u32,
    w: u32,
    h_out: u32,
    w_out: u32,
    kh: u32,
    kw: u32,
    sh: u32,
    sw: u32,
    ph: u32,
    pw: u32,
)
    requires
        n * c <= u32::MAX,
    ensures
        final(enc)@ == old(enc)@ + maxpool2d_backward_steps(
            x,
            dy,
            dx,
            n,
            c,
            h,
            w,
            h_out,
            w_out,
            kh,
            kw,
            sh,
            sw,
            ph,
            pw,
        ),
{
    emit(
        enc,
        vec![
            Cmd::Pipeline(Kernel::Maxpool2dBackward),
            Cmd::Buffer(0, Buf::Arena, x as u64),
            Cmd::Buffer(1, Buf::Arena, dy as u64),
            Cmd::Buffer(2, Buf::Arena, dx as u64),
            Cmd::U32x4(3, n, c, h, w),
            Cmd::U32x4(4, h_out, w_out, kh, kw),
            Cmd::U32x4(5, sh, sw, ph, pw),
            Cmd::Threads(
                Size { width: w as u64, height: h as u64, depth: (n * c) as u64 },
                Group::Fixed(plane_of(least(8, w as u64), least(8, h as u64))),
            ),
        ],
    );
}

/// The steps of `encode_maxpool3d_backward`.
pub open spec fn maxpool3d_backward_steps(
    x: usize,
    dy: usize,
    dx: usize,
    n: u32,
    c: u32,
    d: u32,
    h: u32,
    w: u32,
    d_out: u32,
    h_out: u32,
    w_out: u32,
    kd: u32,
    kh: u32,
    kw: u32,
    sd: u32,
    sh: u32,
    sw: u32,
    pd: u32,
    ph: u32,
    pw: u32,
) -> Seq<Cmd> {
    seq![
        Cmd::Pipeline(Kernel::Maxpool3dBackward),
        Cmd::Buffer(0, Buf::Arena, x as u64),
        Cmd::Buffer(1, Buf::Arena, dy as u64),
        Cmd::Buffer(2, Buf::Arena, dx as u64),
        Cmd::U32x4(3, n, c, d, h),
        Cmd::U32x4(4, w, d_out, h_out, w_out),
        Cmd::U32x4(5, kd, kh, kw, sd),
        Cmd::U32x4(6, sh, sw, pd, ph),
        Cmd::U32(7, pw),
        Cmd::Threads(
            one_row(max_u64((n * c * d * h * w) as u64, 1)),
            Group::Fixed(one_row(min_u64(256, max_u64((n * c * d * h * w) as u64, 1)))),
        ),
    ]
}

/// The gradient of three-dimensional max pooling.
pub fn encode_maxpool3d_backward(
    enc: &mut Vec<Cmd>,
    x: usize,
    dy: usize,
    dx: usize,
    n: u32,
    c: u32,
    d: u32,
    h: u32,
    w: u32,
    d_out: u32,
    h_out: u32,
    w_out: u32,
    kd: u32,
    kh: u32,
    kw: u32,
    sd: u32,
    sh: u32,
    sw: u32,
    pd: u32,
    ph: u32,
    pw: u32,
)
    requires
        n * c <= u32::MAX,
        n * c * d <= u32::MAX,
        n * c * d * h <= u32::MAX,
        n * c * d * h * w <= u32::MAX,
    ensures
        final(enc)@ == old(enc)@ + maxpool3d_backward_steps(
            x,
            dy,
            dx,
            n,
            c,
            d,
            h,
            w,
            d_out,
            h_out,
            w_out,
            kd,
            kh,
            kw,
            sd,
            sh,
            sw,
            pd,
            ph,
            pw,
        ),
{
    emit(
        enc,
        vec![
            Cmd::Pipeline(Kernel::Maxpool3dBackward),
            Cmd::Buffer(0, Buf::Arena, x as u64),
            Cmd::Buffer(1, Buf::Arena, dy as u64),
            Cmd::Buffer(2, Buf::Arena, dx as u64),
            Cmd::U32x4(3, n, c, d, h),
            Cmd::U32x4(4, w, d_out, h_out, w_out),
            Cmd::U32x4(5, kd, kh, kw, sd),
            Cmd::U32x4(6, sh, sw, pd, ph),
            Cmd::U32(7, pw),
            Cmd::Threads(
                row(most((n * c * d * h * w) as u64, 1)),
                Group::Fixed(row(least(256, most((n * c * d * h * w) as u64, 1)))),
            ),
        ],
    );
}

/// The steps of `encode_conv3d_backward_input`.
pub open spec fn conv3d_backward_input_steps(
    dy: usize,
    w: usize,
    dx: usize,
    n: u32,
    c_in: u32,
    d: u32,
    h: u32,
    w_in: u32,
    c_out: u32,
    d_out: u32,
    h_out: u32,
    w_out: u32,
    kd: u32,
    kh: u32,
    kw: u32,
    sd: u32,
    sh: u32,
    sw: u32,
    pd: u32,
    ph: u32,
    pw: u32,
    dd: u32,
    dh: u32,
    dw: u32,
    groups: u32,
) -> Seq<Cmd> {
    seq![
        Cmd::Pipeline(Kernel::Conv3dBackwardInput),
        Cmd::Buffer(0, Buf::Arena, dy as u64),
        Cmd::Buffer(1, Buf::Arena, w as u64),
        Cmd::Buffer(2, Buf::Arena, dx as u64),
        Cmd::U32x4(3, n, c_in, d, h),
        Cmd::U32x4(4, w_in, c_out, d_out, h_out),
        Cmd::U32x4(5, w_out, kd, kh, kw),
        Cmd::U32x4(6, sd, sh, sw, pd),
        Cmd::U32x4(7, ph, pw, dd, dh),
        Cmd::U32x2(8, dw, groups),
        Cmd::Threads(
            one_row(max_u64((n * c_in * d * h * w_in) as u64, 1)),
            Group::Fixed(one_row(min_u64(256, max_u64((n * c_in * d * h * w_in) as u64, 1)))),
        ),
    ]
}

/// The gradient of a three-dimensional convolution with respect to its input.
pub fn encode_conv3d_backward_input(
    enc: &mut Vec<Cmd>,
    dy: usize,
    w: usize,
    dx: usize,
    n: u32,
    c_in: u32,
    d: u32,
    h: u32,
    w_in: u32,
    c_out: u32,
    d_out: u32,
    h_out: u32,
    w_out: u32,
    kd: u32,
    kh: u32,
    kw: u32,
    sd: u32,
    sh: u32,
    sw: u32,
    pd: u32,
    ph: u32,
    pw: u32,
    dd: u32,
    dh: u32,
    dw: u32,
    groups: u32,
)
    requires
        n * c_in <= u32::MAX,
        n * c_in * d <= u32::MAX,
        n * c_in * d * h <= u32::MAX,
        n * c_in * d * h * w_in <= u32::MAX,
    ensures
        final(enc)@ == old(enc)@ + conv3d_backward_input_steps(
            dy,
            w,
            dx,
            n,
            c_in,
            d,
            h,
            w_in,
            c_out,
            d_out,
            h_out,
            w_out,
            kd,
            kh,
            kw,
            sd,
            sh,
            sw,
            pd,
            ph,
            pw,
            dd,
            dh,
            dw,
            groups,
        ),
{
    emit(
        enc,
        vec![
            Cmd::Pipeline(Kernel::Conv3dBackwardInput),
            Cmd::Buffer(0, Buf::Arena, dy as u64),
            Cmd::Buffer(1, Buf::Arena, w as u64),
            Cmd::Buffer(2, Buf::Arena, dx as u64),
            Cmd::U32x4(3, n, c_in, d, h),
            Cmd::U32x4(4, w_in, c_out, d_out, h_out),
            Cmd::U32x4(5, w_out, kd, kh, kw),
            Cmd::U32x4(6, sd, sh, sw, pd),
            Cmd::U32x4(7, ph, pw, dd, dh),
            Cmd::U32x2(8, dw, groups),
            Cmd::Threads(
                row(most((n * c_in * d * h * w_in) as u64, 1)),
                Group::Fixed(row(least(256, most((n * c_in * d * h * w_in) as u64, 1)))),
            ),
        ],
    );
}

/// Input channels that a group of output channels reads; no group at all counts as one.
pub open spec fn group_channels(c_in: u32, groups: u32) -> int {
    if groups == 0 {
        c_in as int
    } else {
        c_in as int / groups as int
    }
}

/// A launch of one thread for each of so many values, and of one at least.
pub open spec fn one_thread_each(count: u64) -> Cmd {
    let threads = max_u64(count, 1);
    Cmd::Threads(one_row(threads), Group::Fixed(one_row(min_u64(256, threads))))
}

/// The steps of `encode_conv3d_backward_weight`.
pub open spec fn conv3d_backward_weight_steps(
    x: usize,
    dy: usize,
    dw: usize,
    n: u32,
    c_in: u32,
    d: u32,
    h: u32,
    w: u32,
    c_out: u32,
    d_out: u32,
    h_out: u32,
    w_out: u32,
    kd: u32,
    kh: u32,
    kw: u32,
    sd: u32,
    sh: u32,
    sw: u32,
    pd: u32,
    ph: u32,
    pw: u32,
    dd: u32,
    dh: u32,
    dw_dil: u32,
    groups: u32,
) -> Seq<Cmd> {
    seq![
        Cmd::Pipeline(Kernel::Conv3dBackwardWeight),
        Cmd::Buffer(0, Buf::Arena, x as u64),
        Cmd::Buffer(1, Buf::Arena, dy as u64),
        Cmd::Buffer(2, Buf::Arena, dw as u64),
        Cmd::U32x4(3, n, c_in, d, h),
        Cmd::U32x4(4, w, c_out, d_out, h_out),
        Cmd::U32x4(5, w_out, kd, kh, kw),
        Cmd::U32x4(6, sd, sh, sw, pd),
        Cmd::U32x4(7, ph, pw, dd, dh),
        Cmd::U32x2(8, dw_dil, groups),
        one_thread_each((c_out * group_channels(c_in, groups) * kd * kh * kw) as u64),
    ]
}

/// The gradient of a three-dimensional convolution with respect to its weights.
pub fn encode_conv3d_backward_weight(
    enc: &mut Vec<Cmd>,
    x: usize,
    dy: usize,
    dw: usize,
    n: u32,
    c_in: u32,
    d: u32,
    h: u32,
    w: u32,
    c_out: u32,
    d_out: u32,
    h_out: u32,
    w_out: u32,
    kd: u32,
    kh: u32,
    kw: u32,
    sd: u32,
    sh: u32,
    sw: u32,
    pd: u32,
    ph: u32,
    pw: u32,
    dd: u32,
    dh: u32,
    dw_dil: u32,
    groups: u32,
)
    requires
        c_out * group_channels(c_in, groups) <= u32::MAX,
        c_out * group_channels(c_in, groups) * kd <= u32::MAX,
        c_out * group_channels(c_in, groups) * kd * kh <= u32::MAX,
        c_out * group_channels(c_in, groups) * kd * kh * kw <= u32::MAX,
    ensures
        final(enc)@ == old(enc)@ + conv3d_backward_weight_steps(
            x,
            dy,
            dw,
            n,
            c_in,
            d,
            h,
            w,
            c_out,
            d_out,
            h_out,
            w_out,
            kd,
            kh,
            kw,
            sd,
            sh,
            sw,
            pd,
            ph,
            pw,
            dd,
            dh,
            dw_dil,
            groups,
        ),
{
    let channels: u32 = if groups == 0 {
        c_in
    } else {
        c_in / groups
    };
    let weights: u64 = most((c_out * channels * kd * kh * kw) as u64, 1);
    emit(
        enc,
        vec![
            Cmd::Pipeline(Kernel::Conv3dBackwardWeight),
            Cmd::Buffer(0, Buf::Arena, x as u64),
            Cmd::Buffer(1, Buf::Arena, dy as u64),
            Cmd::Buffer(2, Buf::Arena, dw as u64),
            Cmd::U32x4(3, n, c_in, d, h),
            Cmd::U32x4(4, w, c_out, d_out, h_out),
            Cmd::U32x4(5, w_out, kd, kh, kw),
            Cmd::U32x4(6, sd, sh, sw, pd),
            Cmd::U32x4(7, ph, pw, dd, dh),
            Cmd::U32x2(8, dw_dil, groups),
            Cmd::Threads(row(weights), Group::Fixed(row(least(256, weights)))),
        ],
    );
}

/// The steps of `encode_conv2d_backward_input`.
pub open spec fn conv2d_backward_input_steps(
    dy: usize,
    w: usize,
    dx: usize,
    n: u32,
    c_in: u32,
    h: u32,
    w_in: u32,
    c_out: u32,
    h_out: u32,
    w_out: u32,
    kh: u32,
    kw: u32,
    sh: u32,
    sw: u32,
    ph: u32,
    pw: u32,
    dh: u32,
    dw: u32,
    groups: u32,
) -> Seq<Cmd> {
    seq![
        Cmd::Pipeline(Kernel::Conv2dBackwardInput),
        Cmd::Buffer(0, Buf::Arena, dy as u64),
        Cmd::Buffer(1, Buf::Arena, w as u64),
        Cmd::Buffer(2, Buf::Arena, dx as u64),
        Cmd::U32x4(3, n, c_in, h, w_in),
        Cmd::U32x4(4, c_out, h_out, w_out, kh),
        Cmd::U32x4(5, kw, sh, sw, ph),
        Cmd::U32x4(6, pw, dh, dw, groups),
        Cmd::Threads(
            Size { width: w_in as u64, height: h as u64, depth: (n * c_in) as u64 },
            Group::Fixed(plane(min_u64(8, w_in as u64), min_u64(8, h as u64))),
        ),
    ]
}

/// The gradient of a two-dimensional convolution with respect to its input.
pub fn encode_conv2d_backward_input(
    enc: &mut Vec<Cmd>,
    dy: usize,
    w: usize,
    dx: usize,
    n: u32,
    c_in: u32,
    h: u32,
    w_in: u32,
    c_out: u32,
    h_out: u32,
    w_out: u32,
    kh: u32,
    kw: u32,
    sh: u32,
    sw: u32,
    ph: u32,
    pw: u32,
    dh: u32,
    dw: u32,
    groups: u32,
)
    requires
        n * c_in <= u32::MAX,
    ensures
        final(enc)@ == old(enc)@ + conv2d_backward_input_steps(
            dy,
            w,
            dx,
            n,
            c_in,
            h,
            w_in,
            c_out,
            h_out,
            w_out,
            kh,
            kw,
            sh,
            sw,
            ph,
            pw,
            dh,
            dw,
            groups,
        ),
{
    emit(
        enc,
        vec![
            Cmd::Pipeline(Kernel::Conv2dBackwardInput),
            Cmd::Buffer(0, Buf::Arena, dy as u64),
            Cmd::Buffer(1, Buf::Arena, w as u64),
            Cmd::Buffer(2, Buf::Arena, dx as u64),
            Cmd::U32x4(3, n, c_in, h, w_in),
            Cmd::U32x4(4, c_out, h_out, w_out, kh),
            Cmd::U32x4(5, kw, sh, sw, ph),
            Cmd::U32x4(6, pw, dh, dw, groups),
            Cmd::Threads(
                Size { width: w_in as u64, height: h as u64, depth: (n * c_in) as u64 },
                Group::Fixed(plane_of(least(8, w_in as u64), least(8, h as u64))),
            ),
        ],
    );
}

/// The steps of `encode_conv2d_backward_weight`.
pub open spec fn conv2d_backward_weight_steps(
    x: usize,
    dy: usize,
    dw: usize,
    n: u32,
    c_in: u32,
    h: u32,
    w: u32,
    c_out: u32,
    h_out: u32,
    w_out: u32,
    kh: u32,
    kw: u32,
    sh: u32,
    sw: u32,
    ph: u32,
    pw: u32,
    dh: u32,
    dw_dil: u32,
    groups: u32,
) -> Seq<Cmd> {
    seq![
        Cmd::Pipeline(Kernel::Conv2dBackwardWeight),
        Cmd::Buffer(0, Buf::Arena, x as u64),
        Cmd::Buffer(1, Buf::Arena, dy as u64),
        Cmd::Buffer(2, Buf::Arena, dw as u64),
        Cmd::U32x4(3, n, c_in, h, w),
        Cmd::U32x4(4, c_out, h_out, w_out, kh),
        Cmd::U32x4(5, kw, sh, sw, ph),
        Cmd::U32x4(6, pw, dh, dw_dil, groups),
        Cmd::Threads(
            Size {
                width: kw as u64,
                height: kh as u64,
                depth: (c_out * (c_in / groups)) as u64,
            },
            Group::Fixed(plane(kw as u64, kh as u64)),
        ),
    ]
}

/// The gradient of a two-dimensional convolution with respect to its weights.
pub fn encode_conv2d_backward_weight(
    enc: &mut Vec<Cmd>,
    x: usize,
    dy: usize,
    dw: usize,
    n: u32,
    c_in: u32,
    h: u32,
    w: u32,
    c_out: u32,
    h_out: u32,
    w_out: u32,
    kh: u32,
    kw: u32,
    sh: u32,
    sw: u32,
    ph: u32,
    pw: u32,
    dh: u32,
    dw_dil: u32,
    groups: u32,
)
    requires
        groups > 0,
        c_out * (c_in / groups) <= u32::MAX,
    ensures
        final(enc)@ == old(enc)@ + conv2d_backward_weight_steps(
            x,
            dy,
            dw,
            n,
            c_in,
            h,
            w,
            c_out,
            h_out,
            w_out,
            kh,
            kw,
            sh,
            sw,
            ph,
            pw,
            dh,
            dw_dil,
            groups,
        ),
{
    emit(
        enc,
        vec![
            Cmd::Pipeline(Kernel::Conv2dBackwardWeight),
            Cmd::Buffer(0, Buf::Arena, x as u64),
            Cmd::Buffer(1, Buf::Arena, dy as u64),
            Cmd::Buffer(2, Buf::Arena, dw as u64),
            Cmd::U32x4(3, n, c_in, h, w),
            Cmd::U32x4(4, c_out, h_out, w_out, kh),
            Cmd::U32x4(5, kw, sh, sw, ph),
            Cmd::U32x4(6, pw, dh, dw_dil, groups),
            Cmd::Threads(
                Size {
                    width: kw as u64,
                    height: kh as u64,
                    depth: (c_out * (c_in / groups)) as u64,
                },
                Group::Fixed(plane_of(kw as u64, kh as u64)),
            ),
        ],
    );
}

/// The steps of `encode_conv2d_backward_weight_2pass`.
pub open spec fn conv2d_backward_weight_2pass_steps(
    part_off: usize,
    x: usize,
    dy: usize,
    dw: usize,
    n: u32,
    c_in: u32,
    h: u32,
    w: u32,
    c_out: u32,
    h_out: u32,
    w_out: u32,
    kh: u32,
    kw: u32,
    sh: u32,
    sw: u32,
    ph: u32,
    pw: u32,
    dh: u32,
    dw_dil: u32,
    groups: u32,
) -> Seq<Cmd> {
    seq![
        Cmd::Pipeline(Kernel::Conv2dBackwardWeightPartial),
        Cmd::Buffer(0, Buf::Arena, x as u64),
        Cmd::Buffer(1, Buf::Arena, dy as u64),
        Cmd::Buffer(2, Buf::Arena, part_off as u64),
        Cmd::U32x4(3, n, c_in, h, w),
        Cmd::U32x4(4, c_out, h_out, w_out, kh),
        Cmd::U32x4(5, kw, sh, sw, ph),
        Cmd::U32x4(6, pw, dh, dw_dil, groups),
        Cmd::Threads(
            Size {
                width: ((c_in / groups) * kh * kw) as u64,
                height: c_out as u64,
                depth: n as u64,
            },
            Group::Fixed(
                plane(
                    max_u64(min_u64(8, ((c_in / groups) * kh * kw) as u64), 1),
                    max_u64(min_u64(8, c_out as u64), 1),
                ),
            ),
        ),
        Cmd::Pipeline(Kernel::Conv2dBackwardWeightReduce),
        Cmd::Buffer(0, Buf::Arena, part_off as u64),
        Cmd::Buffer(1, Buf::Arena, dw as u64),
        Cmd::U32x2(2, n, (c_out * ((c_in / groups) * kh * kw)) as u32),
        Cmd::Threads(
            one_row((c_out * ((c_in / groups) * kh * kw)) as u64),
            Group::Fixed(
                one_row(max_u64(min_u64(64, (c_out * ((c_in / groups) * kh * kw)) as u64), 1)),
            ),
        ),
    ]
}

/// The same gradient in two passes: per batch item into scratch, then summed over the batch.
pub fn encode_conv2d_backward_weight_2pass(
    enc: &mut Vec<Cmd>,
    part_off: usize,
    x: usize,
    dy: usize,
    dw: usize,
    n: u32,
    c_in: u32,
    h: u32,
    w: u32,
    c_out: u32,
    h_out: u32,
    w_out: u32,
    kh: u32,
    kw: u32,
    sh: u32,
    sw: u32,
    ph: u32,
    pw: u32,
    dh: u32,
    dw_dil: u32,
    groups: u32,
)
    requires
        groups > 0,
        (c_in / groups) * kh <= u32::MAX,
        (c_in / groups) * kh * kw <= u32::MAX,
        c_out * ((c_in / groups) * kh * kw) <= u32::MAX,
    ensures
        final(enc)@ == old(enc)@ + conv2d_backward_weight_2pass_steps(
            part_off,
            x,
            dy,
            dw,
            n,
            c_in,
            h,
            w,
            c_out,
            h_out,
            w_out,
            kh,
            kw,
            sh,
            sw,
            ph,
            pw,
            dh,
            dw_dil,
            groups,
        ),
{
    let slab: u32 = (c_in / groups) * kh * kw;
    let whole: u32 = c_out * slab;
    emit(
        enc,
        vec![
            Cmd::Pipeline(Kernel::Conv2dBackwardWeightPartial),
            Cmd::Buffer(0, Buf::Arena, x as u64),
            Cmd::Buffer(1, Buf::Arena, dy as u64),
            Cmd::Buffer(2, Buf::Arena, part_off as u64),
            Cmd::U32x4(3, n, c_in, h, w),
            Cmd::U32x4(4, c_out, h_out, w_out, kh),
            Cmd::U32x4(5, kw, sh, sw, ph),
            Cmd::U32x4(6, pw, dh, dw_dil, groups),
            Cmd::Threads(
                Size { width: slab as u64, height: c_out as u64, depth: n as u64 },
                Group::Fixed(
                    plane_of(most(least(8, slab as u64), 1), most(least(8, c_out as u64), 1)),
                ),
            ),
            Cmd::Pipeline(Kernel::Conv2dBackwardWeightReduce),
            Cmd::Buffer(0, Buf::Arena, part_off as u64),
            Cmd::Buffer(1, Buf::Arena, dw as u64),
            Cmd::U32x2(2, n, whole),
            Cmd::Threads(row(whole as u64), Group::Fixed(row(most(least(64, whole as u64), 1)))),
        ],
    );
}

/// The steps of `encode_depthwise_conv1d_bsc`.
pub open spec fn depthwise_conv1d_bsc_steps(
    w_buffer: Buf,
    src: usize,
    wt_raw: usize,
    dst: usize,
    batch: u32,
    width: u32,
    out_seq: u32,
    channels: u32,
    kw: u32,
    silu: bool,
) -> Seq<Cmd> {
    seq![
        Cmd::Pipeline(Kernel::DepthwiseConv1dBsc),
        Cmd::Buffer(0, Buf::Arena, 0),
        Cmd::U64(1, src as u64),
        Cmd::U64(2, wt_raw as u64),
        Cmd::U64(3, dst as u64),
        Cmd::U32x4(4, batch, width, out_seq, channels),
        Cmd::U32x2(5, kw, bit(silu)),
        Cmd::Buffer(7, w_buffer, 0),
        Cmd::Threads(
            one_row(max_u64((batch * out_seq * channels) as u64, 1)),
            Group::Fixed(
                one_row(min_u64(256, max_u64((batch * out_seq * channels) as u64, 1))),
            ),
        ),
    ]
}

/// Depthwise convolution along the sequence, the weights in a buffer of their own.
pub fn encode_depthwise_conv1d_bsc(
    enc: &mut Vec<Cmd>,
    w_buffer: Buf,
    src: usize,
    wt_raw: usize,
    dst: usize,
    batch: u32,
    width: u32,
    out_seq: u32,
    channels: u32,
    kw: u32,
    silu: bool,
)
    requires
        batch * out_seq * channels <= u64::MAX,
    ensures
        final(enc)@ == old(enc)@ + depthwise_conv1d_bsc_steps(
            w_buffer,
            src,
            wt_raw,
            dst,
            batch,
            width,
            out_seq,
            channels,
            kw,
            silu,
        ),
{
    assert(batch * out_seq <= 0xffff_ffff * 0xffff_ffff) by (nonlinear_arith);
    emit(
        enc,
        vec![
            Cmd::Pipeline(Kernel::DepthwiseConv1dBsc),
            Cmd::Buffer(0, Buf::Arena, 0),
            Cmd::U64(1, src as u64),
            Cmd::U64(2, wt_raw as u64),
            Cmd::U64(3, dst as u64),
            Cmd::U32x4(4, batch, width, out_seq, channels),
            Cmd::U32x2(5, kw, flag(silu)),
            Cmd::Buffer(7, w_buffer, 0),
            Cmd::Threads(
                row(most((batch as u64) * (out_seq as u64) * (channels as u64), 1)),
                Group::Fixed(
                    row(least(256, most((batch as u64) * (out_seq as u64) * (channels as u64), 1))),
                ),
            ),
        ],
    );
}

} // verus!
