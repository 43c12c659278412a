//! Convolution and pooling: what each kernel is handed and what its launch covers.

use vstd::prelude::*;

use crate::command::{
    Buf, Cmd, Group, Kernel, Size, bit, div_up, low_word, max_u64, min_u64, one_row, plane,
};
use crate::encode::conv::{
    conv2d_backward_input_steps, conv2d_backward_weight_2pass_steps, conv2d_backward_weight_steps,
    conv2d_bwd_weight_gemm_steps, conv2d_steps, conv3d_backward_input_steps,
    conv3d_backward_weight_steps, conv3d_steps, conv_transpose2d_steps, conv_transpose3d_steps,
    depthwise_conv1d_bsc_steps, group_channels, im2col_group_steps, maxpool2d_backward_steps,
    maxpool3d_backward_steps, pool2d_steps, resize_nearest_2x_steps,
};
use crate::encode::reduce::{ReduceOp, reduce_code};
use crate::launch::{group_launches, launch, launches, launches_once};

verus! {

/// Two-dimensional convolution; single columns have a kernel of their own. The kernel finds each
/// operand and number of the call at its own slot.
pub proof fn lemma_conv2d(
    src: usize,
    weight: usize,
    dst: usize,
    n: u32,
    c_in: u32,
    h: u32,
    w: u32,
    c_out: u32,
    h_out: u32,
    w_out: u32,
    kh: u32,
    kw: u32,
    sh: u32,
    sw: u32,
    ph: u32,
    pw: u32,
    dh: u32,
    dw: u32,
    groups: u32,
)
    ensures
        ({
            let s = conv2d_steps(
                src,
                weight,
                dst,
                n,
                c_in,
                h,
                w,
                c_out,
                h_out,
                w_out,
                kh,
                kw,
                sh,
                sw,
                ph,
                pw,
                dh,
                dw,
                groups,
            );
            &&& launches_once(s)
            &&& launch(s).kernel() == Some(
                if w == 1 && w_out == 1 { Kernel::Conv2dW1 } else { Kernel::Conv2d },
            )
            &&& launch(s).place(0) == Some((Buf::Arena, src as u64))
            &&& launch(s).place(1) == Some((Buf::Arena, weight as u64))
            &&& launch(s).place(2) == Some((Buf::Arena, dst as u64))
            &&& launch(s).arg(3) == Some(Cmd::U32x4(3, n, c_in, h, w))
            &&& launch(s).arg(4) == Some(Cmd::U32x4(4, c_out, h_out, w_out, groups))
            &&& launch(s).arg(5) == Some(Cmd::U32x4(5, kh, kw, sh, sw))
            &&& launch(s).arg(6) == Some(Cmd::U32x4(6, ph, pw, dh, dw))
            &&& w == 1 && w_out == 1 ==> {
                &&& launch(s).shape == Cmd::Threads(
                    Size { width: 1, height: h_out as u64, depth: (n * c_out) as u64 },
                    Group::Fixed(plane(1, min_u64(8, h_out as u64))),
                )
            }
            &&& !(w == 1 && w_out == 1) ==> {
                &&& launch(s).shape == Cmd::Threads(
                    Size { width: w_out as u64, height: h_out as u64, depth: (n * c_out) as u64 },
                    Group::Fixed(plane(min_u64(8, w_out as u64), min_u64(8, h_out as u64))),
                )
            }
        }),
{
    broadcast use group_launches;

    let s = conv2d_steps(
        src,
        weight,
        dst,
        n,
        c_in,
        h,
        w,
        c_out,
        h_out,
        w_out,
        kh,
        kw,
        sh,
        sw,
        ph,
        pw,
        dh,
        dw,
        groups,
    );
    if w == 1 && w_out == 1 {
        assert(launches(s).len() == 1);
    } else if !(w == 1 && w_out == 1) {
        assert(launches(s).len() == 1);
    }
}

/// Transposed two-dimensional convolution. The kernel finds each operand and number of the call at
/// its own slot.
pub proof fn lemma_conv_transpose2d(
    src: usize,
    weight: usize,
    dst: usize,
    n: u32,
    c_in: u32,
    h: u32,
    w: u32,
    c_out: u32,
    h_out: u32,
    w_out: u32,
    kh: u32,
    kw: u32,
    sh: u32,
    sw: u32,
    ph: u32,
    pw: u32,
    dh: u32,
    dw: u32,
    groups: u32,
)
    ensures
        ({
            let s = conv_transpose2d_steps(
                src,
                weight,
                dst,
                n,
                c_in,
                h,
                w,
                c_out,
                h_out,
                w_out,
                kh,
                kw,
                sh,
                sw,
                ph,
                pw,
                dh,
                dw,
                groups,
            );
            &&& launches_once(s)
            &&& launch(s).kernel() == Some(Kernel::ConvTranspose2d)
            &&& launch(s).place(0) == Some((Buf::Arena, src as u64))
            &&& launch(s).place(1) == Some((Buf::Arena, weight as u64))
            &&& launch(s).place(2) == Some((Buf::Arena, dst as u64))
            &&& launch(s).arg(3) == Some(Cmd::U32x4(3, n, c_in, h, w))
            &&& launch(s).arg(4) == Some(Cmd::U32x4(4, c_out, h_out, w_out, groups))
            &&& launch(s).arg(5) == Some(Cmd::U32x4(5, kh, kw, sh, sw))
            &&& launch(s).arg(6) == Some(Cmd::U32x4(6, ph, pw, dh, dw))
            &&& launch(s).shape == Cmd::Threads(
                Size { width: w_out as u64, height: h_out as u64, depth: (n * c_out) as u64 },
                Group::Fixed(plane(min_u64(8, w_out as u64), min_u64(8, h_out as u64))),
            )
        }),
{
    broadcast use group_launches;

    let s = conv_transpose2d_steps(
        src,
        weight,
        dst,
        n,
        c_in,
        h,
        w,
        c_out,
        h_out,
        w_out,
        kh,
        kw,
        sh,
        sw,
        ph,
        pw,
        dh,
        dw,
        groups,
    );
    assert(launches(s).len() == 1);
}

/// Three-dimensional convolution. The kernel finds each operand and number of the call at its own
/// slot.
pub proof fn lemma_conv3d(
    src: usize,
    weight: usize,
    dst: usize,
    n: u32,
    c_in: u32,
    d: u32,
    h: u32,
    w: u32,
    c_out: u32,
    d_out: u32,
    h_out: u32,
    w_out: u32,
    kd: u32,
    kh: u32,
    kw: u32,
    sd: u32,
    sh: u32,
    sw: u32,
    pd: u32,
    ph: u32,
    pw: u32,
    dd: u32,
    dh: u32,
    dw: u32,
    groups: u32,
)
    ensures
        ({
            let s = conv3d_steps(
                src,
                weight,
                dst,
                n,
                c_in,
                d,
                h,
                w,
                c_out,
                d_out,
                h_out,
                w_out,
                kd,
                kh,
                kw,
                sd,
                sh,
                sw,
                pd,
                ph,
                pw,
                dd,
                dh,
                dw,
                groups,
            );
            &&& launches_once(s)
            &&& launch(s).kernel() == Some(Kernel::Conv3d)
            &&& launch(s).place(0) == Some((Buf::Arena, src as u64))
            &&& launch(s).place(1) == Some((Buf::Arena, weight as u64))
            &&& launch(s).place(2) == Some((Buf::Arena, dst as u64))
            &&& launch(s).arg(3) == Some(Cmd::U32x4(3, n, c_in, d, h))
            &&& launch(s).arg(4) == Some(Cmd::U32x4(4, w, c_out, d_out, h_out))
            &&& launch(s).arg(5) == Some(Cmd::U32x4(5, w_out, kd, kh, kw))
            &&& launch(s).arg(6) == Some(Cmd::U32x4(6, sd, sh, sw, groups))
            &&& launch(s).arg(7) == Some(Cmd::U32x4(7, pd, ph, pw, dd))
            &&& launch(s).arg(8) == Some(Cmd::U32x4(8, dh, dw, 0, 0))
            &&& launch(s).shape == Cmd::Threads(
                Size {
                    width: w_out as u64, height: h_out as u64, depth: (n * c_out * d_out) as u64,
                },
                Group::Fixed(plane(min_u64(8, w_out as u64), min_u64(8, h_out as u64))),
            )
        }),
{
    broadcast use group_launches;

    let s = conv3d_steps(
        src,
        weight,
        dst,
        n,
        c_in,
        d,
        h,
        w,
        c_out,
        d_out,
        h_out,
        w_out,
        kd,
        kh,
        kw,
        sd,
        sh,
        sw,
        pd,
        ph,
        pw,
        dd,
        dh,
        dw,
        groups,
    );
    assert(launches(s).len() == 1);
}

/// Transposed three-dimensional convolution. The kernel finds each operand and number of the call
/// at its own slot.
pub proof fn lemma_conv_transpose3d(
    src: usize,
    weight: usize,
    dst: usize,
    n: u32,
    c_in: u32,
    d: u32,
    h: u32,
    w: u32,
    c_out: u32,
    d_out: u32,
    h_out: u32,
    w_out: u32,
    kd: u32,
    kh: u32,
    kw: u32,
    sd: u32,
    sh: u32,
    sw: u32,
    pd: u32,
    ph: u32,
    pw: u32,
    dd: u32,
    dh: u32,
    dw: u32,
    groups: u32,
)
    ensures
        ({
            let s = conv_transpose3d_steps(
                src,
                weight,
                dst,
                n,
                c_in,
                d,
                h,
                w,
                c_out,
                d_out,
                h_out,
                w_out,
                kd,
                kh,
                kw,
                sd,
                sh,
                sw,
                pd,
                ph,
                pw,
                dd,
                dh,
                dw,
                groups,
            );
            &&& launches_once(s)
            &&& launch(s).kernel() == Some(Kernel::ConvTranspose3d)
            &&& launch(s).place(0) == Some((Buf::Arena, src as u64))
            &&& launch(s).place(1) == Some((Buf::Arena, weight as u64))
            &&& launch(s).place(2) == Some((Buf::Arena, dst as u64))
            &&& launch(s).arg(3) == Some(Cmd::U32x4(3, n, c_in, d, h))
            &&& launch(s).arg(4) == Some(Cmd::U32x4(4, w, c_out, d_out, h_out))
            &&& launch(s).arg(5) == Some(Cmd::U32x4(5, w_out, kd, kh, kw))
            &&& launch(s).arg(6) == Some(Cmd::U32x4(6, sd, sh, sw, groups))
            &&& launch(s).arg(7) == Some(Cmd::U32x4(7, pd, ph, pw, dd))
            &&& launch(s).arg(8) == Some(Cmd::U32x4(8, dh, dw, 0, 0))
            &&& launch(s).shape == Cmd::Threads(
                Size {
                    width: w_out as u64, height: h_out as u64, depth: (n * c_out * d_out) as u64,
                },
                Group::Fixed(plane(min_u64(8, w_out as u64), min_u64(8, h_out as u64))),
            )
        }),
{
    broadcast use group_launches;

    let s = conv_transpose3d_steps(
        src,
        weight,
        dst,
        n,
        c_in,
        d,
        h,
        w,
        c_out,
        d_out,
        h_out,
        w_out,
        kd,
        kh,
        kw,
        sd,
        sh,
        sw,
        pd,
        ph,
        pw,
        dd,
        dh,
        dw,
        groups,
    );
    assert(launches(s).len() == 1);
}

/// Unfolds the patches of one group; single columns have a kernel of their own. The kernel finds
/// each operand and number of the call at its own slot.
pub proof fn lemma_im2col_group(
    x: usize,
    col: usize,
    nchw: (u32, u32, u32, u32),
    out_dims: (u32, u32, u32, u32),
    kshape: (u32, u32, u32, u32),
    padd: (u32, u32, u32, u32),
    elems: u64,
)
    ensures
        ({
            let s = im2col_group_steps(x, col, nchw, out_dims, kshape, padd, elems);
            &&& launches_once(s)
            &&& launch(s).kernel() == Some(
                if nchw.2 == 1 && out_dims.2 == 1 {
                    Kernel::Im2colGroupW1
                } else { Kernel::Im2colGroup },
            )
            &&& launch(s).place(0) == Some((Buf::Arena, x as u64))
            &&& launch(s).place(1) == Some((Buf::Arena, col as u64))
            &&& launch(s).arg(2) == Some(Cmd::U32x4(2, nchw.0, nchw.1, nchw.2, nchw.3))
            &&& launch(s).arg(3) == Some(Cmd::U32x4(3, out_dims.0, out_dims.1, out_dims.2, out_dims.3))
            &&& launch(s).arg(4) == Some(Cmd::U32x4(4, kshape.0, kshape.1, kshape.2, kshape.3))
            &&& launch(s).arg(5) == Some(Cmd::U32x4(5, padd.0, padd.1, padd.2, padd.3))
            &&& launch(s).shape == Cmd::Threads(
                one_row(elems),
                Group::Fixed(one_row(max_u64(min_u64(512, elems), 1))),
            )
        }),
{
    broadcast use group_launches;

    let s = im2col_group_steps(x, col, nchw, out_dims, kshape, padd, elems);
    assert(launches(s).len() == 1);
}

/// The weight gradient as a product over implicit patches: 32 by 32 tiles where everything is
/// aligned, otherwise 8 by 8. The kernel finds each operand and number of the call at its own slot.
pub proof fn lemma_conv2d_bwd_weight_gemm(
    dy: usize,
    x: usize,
    dw: usize,
    m: usize,
    k: usize,
    n: usize,
    nchw: (u32, u32, u32, u32),
    out_dims: (u32, u32, u32, u32),
    kshape: (u32, u32, u32, u32),
    padd: (u32, u32, u32, u32),
)
    ensures
        ({
            let s = conv2d_bwd_weight_gemm_steps(dy, x, dw, m, k, n, nchw, out_dims, kshape, padd);
            &&& launches_once(s)
            &&& launch(s).place(0) == Some((Buf::Arena, dy as u64))
            &&& launch(s).place(1) == Some((Buf::Arena, x as u64))
            &&& launch(s).place(2) == Some((Buf::Arena, dw as u64))
            &&& launch(s).word(3) == Some(low_word(m as u64))
            &&& launch(s).word(4) == Some(low_word(k as u64))
            &&& launch(s).word(5) == Some(low_word(n as u64))
            &&& launch(s).arg(6) == Some(Cmd::U32x4(6, nchw.0, nchw.1, nchw.2, nchw.3))
            &&& launch(s).arg(7) == Some(Cmd::U32x4(7, out_dims.0, out_dims.1, out_dims.2, out_dims.3))
            &&& launch(s).arg(8) == Some(Cmd::U32x4(8, kshape.0, kshape.1, kshape.2, kshape.3))
            &&& launch(s).arg(9) == Some(Cmd::U32x4(9, padd.0, padd.1, padd.2, padd.3))
            &&& m % 32 == 0 && k % 32 == 0 && n % 32 == 0 && m >= 32 && n >= 32 ==> {
                &&& launch(s).kernel() == Some(Kernel::Conv2dBwdWeightGemm4x4)
                &&& launch(s).shape == Cmd::Groups(
                    plane(div_up(n as u64, 32), div_up(m as u64, 32)),
                    one_row(512),
                )
            }
            &&& !(m % 32 == 0 && k % 32 == 0 && n % 32 == 0 && m >= 32 && n >= 32) ==> {
                &&& launch(s).kernel() == Some(Kernel::Conv2dBwdWeightGemm)
                &&& launch(s).shape == Cmd::Groups(
                    plane(div_up(n as u64, 8), div_up(m as u64, 8)),
                    one_row(32),
                )
            }
        }),
{
    broadcast use group_launches;

    let s = conv2d_bwd_weight_gemm_steps(dy, x, dw, m, k, n, nchw, out_dims, kshape, padd);
    if m % 32 == 0 && k % 32 == 0 && n % 32 == 0 && m >= 32 && n >= 32 {
        assert(launches(s).len() == 1);
    } else if !(m % 32 == 0 && k % 32 == 0 && n % 32 == 0 && m >= 32 && n >= 32) {
        assert(launches(s).len() == 1);
    }
}

/// Doubles both sides of every plane. The kernel finds each operand and number of the call at its
/// own slot.
pub proof fn lemma_resize_nearest_2x(src: usize, dst: usize, n: u32, c: u32, h: u32, w: u32)
    ensures
        ({
            let s = resize_nearest_2x_steps(src, dst, n, c, h, w);
            &&& launches_once(s)
            &&& launch(s).kernel() == Some(Kernel::ResizeNearest2x)
            &&& launch(s).place(0) == Some((Buf::Arena, src as u64))
            &&& launch(s).place(1) == Some((Buf::Arena, dst as u64))
            &&& launch(s).arg(2) == Some(Cmd::U32x4(2, n, c, h, w))
            &&& launch(s).shape == Cmd::Threads(
                Size { width: (w * 2) as u64, height: (h * 2) as u64, depth: (n * c) as u64 },
                Group::Fixed(plane(min_u64(8, (w * 2) as u64), min_u64(8, (h * 2) as u64))),
            )
        }),
{
    broadcast use group_launches;

    let s = resize_nearest_2x_steps(src, dst, n, c, h, w);
    assert(launches(s).len() == 1);
}

/// Two-dimensional pooling. The kernel finds each operand and number of the call at its own slot.
pub proof fn lemma_pool2d(
    src: usize,
    dst: usize,
    n: u32,
    c: u32,
    h: u32,
    w: u32,
    h_out: u32,
    w_out: u32,
    kh: u32,
    kw: u32,
    sh: u32,
    sw: u32,
    ph: u32,
    pw: u32,
    kind: ReduceOp,
)
    ensures
        ({
            let s = pool2d_steps(src, dst, n, c, h, w, h_out, w_out, kh, kw, sh, sw, ph, pw, kind);
            &&& launches_once(s)
            &&& launch(s).kernel() == Some(Kernel::Pool2d)
            &&& launch(s).place(0) == Some((Buf::Arena, src as u64))
            &&& launch(s).place(1) == Some((Buf::Arena, dst as u64))
            &&& launch(s).arg(2) == Some(Cmd::U32x4(2, n, c, h, w))
            &&& launch(s).arg(3) == Some(Cmd::U32x2(3, h_out, w_out))
            &&& launch(s).arg(4) == Some(Cmd::U32x4(4, kh, kw, sh, sw))
            &&& launch(s).arg(5) == Some(Cmd::U32x2(5, ph, pw))
            &&& launch(s).word(6) == Some(reduce_code(kind))
            &&& launch(s).shape == Cmd::Threads(
                Size { width: w_out as u64, height: h_out as u64, depth: (n * c) as u64 },
                Group::Fixed(plane(min_u64(8, w_out as u64), min_u64(8, h_out as u64))),
            )
        }),
{
    broadcast use group_launches;

    let s = pool2d_steps(src, dst, n, c, h, w, h_out, w_out, kh, kw, sh, sw, ph, pw, kind);
    assert(launches(s).len() == 1);
}

/// The gradient of two-dimensional max pooling. The kernel finds each operand and number of the
/// call at its own slot.
pub proof fn lemma_maxpool2d_backward(
    x: usize,
    dy: usize,
    dx: usize,
    n: u32,
    c: u32,
    h: u32,
    w: u32,
    h_out: u32,
    w_out: u32,
    kh: u32,
    kw: u32,
    sh: u32,
    sw: u32,
    ph: u32,
    pw: u32,
)
    ensures
        ({
            let s = maxpool2d_backward_steps(
                x,
                dy,
                dx,
                n,
                c,
                h,
                w,
                h_out,
                w_out,
                kh,
                kw,
                sh,
                sw,
                ph,
                pw,
            );
            &&& launches_once(s)
            &&& launch(s).kernel() == Some(Kernel::Maxpool2dBackward)
            &&& launch(s).place(0) == Some((Buf::Arena, x as u64))
            &&& launch(s).place(1) == Some((Buf::Arena, dy as u64))
            &&& launch(s).place(2) == Some((Buf::Arena, dx as u64))
            &&& launch(s).arg(3) == Some(Cmd::U32x4(3, n, c, h, w))
            &&& launch(s).arg(4) == Some(Cmd::U32x4(4, h_out, w_out, kh, kw))
            &&& launch(s).arg(5) == Some(Cmd::U32x4(5, sh, sw, ph, pw))
            &&& launch(s).shape == Cmd::Threads(
                Size { width: w as u64, height: h as u64, depth: (n * c) as u64 },
                Group::Fixed(plane(min_u64(8, w as u64), min_u64(8, h as u64))),
            )
        }),
{
    broadcast use group_launches;

    let s = maxpool2d_backward_steps(x, dy, dx, n, c, h, w, h_out, w_out, kh, kw, sh, sw, ph, pw);
    assert(launches(s).len() == 1);
}

/// The gradient of three-dimensional max pooling. The kernel finds each operand and number of the
/// call at its own slot.
pub proof fn lemma_maxpool3d_backward(
    x: usize,
    dy: usize,
    dx: usize,
    n: u32,
    c: u32,
    d: u32,
    h: u32,
    w: u32,
    d_out: u32,
    h_out: u32,
    w_out: u32,
    kd: u32,
    kh: u32,
    kw: u32,
    sd: u32,
    sh: u32,
    sw: u32,
    pd: u32,
    ph: u32,
    pw: u32,
)
    ensures
        ({
            let s = maxpool3d_backward_steps(
                x,
                dy,
                dx,
                n,
                c,
                d,
                h,
                w,
                d_out,
                h_out,
                w_out,
                kd,
                kh,
                kw,
                sd,
                sh,
                sw,
                pd,
                ph,
                pw,
            );
            &&& launches_once(s)
            &&& launch(s).kernel() == Some(Kernel::Maxpool3dBackward)
            &&& launch(s).place(0) == Some((Buf::Arena, x as u64))
            &&& launch(s).place(1) == Some((Buf::Arena, dy as u64))
            &&& launch(s).place(2) == Some((Buf::Arena, dx as u64))
            &&& launch(s).arg(3) == Some(Cmd::U32x4(3, n, c, d, h))
            &&& launch(s).arg(4) == Some(Cmd::U32x4(4, w, d_out, h_out, w_out))
            &&& launch(s).arg(5) == Some(Cmd::U32x4(5, kd, kh, kw, sd))
            &&& launch(s).arg(6) == Some(Cmd::U32x4(6, sh, sw, pd, ph))
            &&& launch(s).word(7) == Some(pw)
            &&& launch(s).shape == Cmd::Threads(
                one_row(max_u64((n * c * d * h * w) as u64, 1)),
                Group::Fixed(one_row(min_u64(256, max_u64((n * c * d * h * w) as u64, 1)))),
            )
        }),
{
    broadcast use group_launches;

    let s = maxpool3d_backward_steps(
        x,
        dy,
        dx,
        n,
        c,
        d,
        h,
        w,
        d_out,
        h_out,
        w_out,
        kd,
        kh,
        kw,
        sd,
        sh,
        sw,
        pd,
        ph,
        pw,
    );
    assert(launches(s).len() == 1);
}

/// The gradient of a three-dimensional convolution with respect to its input. The kernel finds each
/// operand and number of the call at its own slot.
pub proof fn lemma_conv3d_backward_input(
    dy: usize,
    w: usize,
    dx: usize,
    n: u32,
    c_in: u32,
    d: u32,
    h: u32,
    w_in: u32,
    c_out: u32,
    d_out: u32,
    h_out: u32,
    w_out: u32,
    kd: u32,
    kh: u32,
    kw: u32,
    sd: u32,
    sh: u32,
    sw: u32,
    pd: u32,
    ph: u32,
    pw: u32,
    dd: u32,
    dh: u32,
    dw: u32,
    groups: u32,
)
    ensures
        ({
            let s = conv3d_backward_input_steps(
                dy,
                w,
                dx,
                n,
                c_in,
                d,
                h,
                w_in,
                c_out,
                d_out,
                h_out,
                w_out,
                kd,
                kh,
                kw,
                sd,
                sh,
                sw,
                pd,
                ph,
                pw,
                dd,
                dh,
                dw,
                groups,
            );
            &&& launches_once(s)
            &&& launch(s).kernel() == Some(Kernel::Conv3dBackwardInput)
            &&& launch(s).place(0) == Some((Buf::Arena, dy as u64))
            &&& launch(s).place(1) == Some((Buf::Arena, w as u64))
            &&& launch(s).place(2) == Some((Buf::Arena, dx as u64))
            &&& launch(s).arg(3) == Some(Cmd::U32x4(3, n, c_in, d, h))
            &&& launch(s).arg(4) == Some(Cmd::U32x4(4, w_in, c_out, d_out, h_out))
            &&& launch(s).arg(5) == Some(Cmd::U32x4(5, w_out, kd, kh, kw))
            &&& launch(s).arg(6) == Some(Cmd::U32x4(6, sd, sh, sw, pd))
            &&& launch(s).arg(7) == Some(Cmd::U32x4(7, ph, pw, dd, dh))
            &&& launch(s).arg(8) == Some(Cmd::U32x2(8, dw, groups))
            &&& launch(s).shape == Cmd::Threads(
                one_row(max_u64((n * c_in * d * h * w_in) as u64, 1)),
                Group::Fixed(one_row(min_u64(256, max_u64((n * c_in * d * h * w_in) as u64, 1)))),
            )
        }),
{
    broadcast use group_launches;

    let s = conv3d_backward_input_steps(
        dy,
        w,
        dx,
        n,
        c_in,
        d,
        h,
        w_in,
        c_out,
        d_out,
        h_out,
        w_out,
        kd,
        kh,
        kw,
        sd,
        sh,
        sw,
        pd,
        ph,
        pw,
        dd,
        dh,
        dw,
        groups,
    );
    assert(launches(s).len() == 1);
}

/// The gradient of a three-dimensional convolution with respect to its weights. The kernel finds
/// each operand and number of the call at its own slot.
pub proof fn lemma_conv3d_backward_weight(
    x: usize,
    dy: usize,
    dw: usize,
    n: u32,
    c_in: u32,
    d: u32,
    h: u32,
    w: u32,
    c_out: u32,
    d_out: u32,
    h_out: u32,
    w_out: u32,
    kd: u32,
    kh: u32,
    kw: u32,
    sd: u32,
    sh: u32,
    sw: u32,
    pd: u32,
    ph: u32,
    pw: u32,
    dd: u32,
    dh: u32,
    dw_dil: u32,
    groups: u32,
)
    ensures
        ({
            let s = conv3d_backward_weight_steps(
                x,
                dy,
                dw,
                n,
                c_in,
                d,
                h,
                w,
                c_out,
                d_out,
                h_out,
                w_out,
                kd,
                kh,
                kw,
                sd,
                sh,
                sw,
                pd,
                ph,
                pw,
                dd,
                dh,
                dw_dil,
                groups,
            );
            &&& launches_once(s)
            &&& launch(s).kernel() == Some(Kernel::Conv3dBackwardWeight)
            &&& launch(s).place(0) == Some((Buf::Arena, x as u64))
            &&& launch(s).place(1) == Some((Buf::Arena, dy as u64))
            &&& launch(s).place(2) == Some((Buf::Arena, dw as u64))
            &&& launch(s).arg(3) == Some(Cmd::U32x4(3, n, c_in, d, h))
            &&& launch(s).arg(4) == Some(Cmd::U32x4(4, w, c_out, d_out, h_out))
            &&& launch(s).arg(5) == Some(Cmd::U32x4(5, w_out, kd, kh, kw))
            &&& launch(s).arg(6) == Some(Cmd::U32x4(6, sd, sh, sw, pd))
            &&& launch(s).arg(7) == Some(Cmd::U32x4(7, ph, pw, dd, dh))
            &&& launch(s).arg(8) == Some(Cmd::U32x2(8, dw_dil, groups))
            &&& launch(s).threads() == Some(
                one_row(max_u64((c_out * group_channels(c_in, groups) * kd * kh * kw) as u64, 1)),
            )
        }),
{
    broadcast use group_launches;

    let s = conv3d_backward_weight_steps(
        x,
        dy,
        dw,
        n,
        c_in,
        d,
        h,
        w,
        c_out,
        d_out,
        h_out,
        w_out,
        kd,
        kh,
        kw,
        sd,
        sh,
        sw,
        pd,
        ph,
        pw,
        dd,
        dh,
        dw_dil,
        groups,
    );
    assert(launches(s).len() == 1);
}

/// The gradient of a two-dimensional convolution with respect to its input. The kernel finds each
/// operand and number of the call at its own slot.
pub proof fn lemma_conv2d_backward_input(
    dy: usize,
    w: usize,
    dx: usize,
    n: u32,
    c_in: u32,
    h: u32,
    w_in: u32,
    c_out: u32,
    h_out: u32,
    w_out: u32,
    kh: u32,
    kw: u32,
    sh: u32,
    sw: u32,
    ph: u32,
    pw: u32,
    dh: u32,
    dw: u32,
    groups: u32,
)
    ensures
        ({
            let s = conv2d_backward_input_steps(
                dy,
                w,
                dx,
                n,
                c_in,
                h,
                w_in,
                c_out,
                h_out,
                w_out,
                kh,
                kw,
                sh,
                sw,
                ph,
                pw,
                dh,
                dw,
                groups,
            );
            &&& launches_once(s)
            &&& launch(s).kernel() == Some(Kernel::Conv2dBackwardInput)
            &&& launch(s).place(0) == Some((Buf::Arena, dy as u64))
            &&& launch(s).place(1) == Some((Buf::Arena, w as u64))
            &&& launch(s).place(2) == Some((Buf::Arena, dx as u64))
            &&& launch(s).arg(3) == Some(Cmd::U32x4(3, n, c_in, h, w_in))
            &&& launch(s).arg(4) == Some(Cmd::U32x4(4, c_out, h_out, w_out, kh))
            &&& launch(s).arg(5) == Some(Cmd::U32x4(5, kw, sh, sw, ph))
            &&& launch(s).arg(6) == Some(Cmd::U32x4(6, pw, dh, dw, groups))
            &&& launch(s).shape == Cmd::Threads(
                Size { width: w_in as u64, height: h as u64, depth: (n * c_in) as u64 },
                Group::Fixed(plane(min_u64(8, w_in as u64), min_u64(8, h as u64))),
            )
        }),
{
    broadcast use group_launches;

    let s = conv2d_backward_input_steps(
        dy,
        w,
        dx,
        n,
        c_in,
        h,
        w_in,
        c_out,
        h_out,
        w_out,
        kh,
        kw,
        sh,
        sw,
        ph,
        pw,
        dh,
        dw,
        groups,
    );
    assert(launches(s).len() == 1);
}

/// The gradient of a two-dimensional convolution with respect to its weights. The kernel finds each
/// operand and number of the call at its own slot.
pub proof fn lemma_conv2d_backward_weight(
    x: usize,
    dy: usize,
    dw: usize,
    n: u32,
    c_in: u32,
    h: u32,
    w: u32,
    c_out: u32,
    h_out: u32,
    w_out: u32,
    kh: u32,
    kw: u32,
    sh: u32,
    sw: u32,
    ph: u32,
    pw: u32,
    dh: u32,
    dw_dil: u32,
    groups: u32,
)
    ensures
        ({
            let s = conv2d_backward_weight_steps(
                x,
                dy,
                dw,
                n,
                c_in,
                h,
                w,
                c_out,
                h_out,
                w_out,
                kh,
                kw,
                sh,
                sw,
                ph,
                pw,
                dh,
                dw_dil,
                groups,
            );
            &&& launches_once(s)
            &&& launch(s).kernel() == Some(Kernel::Conv2dBackwardWeight)
            &&& launch(s).place(0) == Some((Buf::Arena, x as u64))
            &&& launch(s).place(1) == Some((Buf::Arena, dy as u64))
            &&& launch(s).place(2) == Some((Buf::Arena, dw as u64))
            &&& launch(s).arg(3) == Some(Cmd::U32x4(3, n, c_in, h, w))
            &&& launch(s).arg(4) == Some(Cmd::U32x4(4, c_out, h_out, w_out, kh))
            &&& launch(s).arg(5) == Some(Cmd::U32x4(5, kw, sh, sw, ph))
            &&& launch(s).arg(6) == Some(Cmd::U32x4(6, pw, dh, dw_dil, groups))
            &&& launch(s).shape == Cmd::Threads(
                Size {
                    width: kw as u64, height: kh as u64, depth: (c_out * (c_in / groups)) as u64,
                },
                Group::Fixed(plane(kw as u64, kh as u64)),
            )
        }),
{
    broadcast use group_launches;

    let s = conv2d_backward_weight_steps(
        x,
        dy,
        dw,
        n,
        c_in,
        h,
        w,
        c_out,
        h_out,
        w_out,
        kh,
        kw,
        sh,
        sw,
        ph,
        pw,
        dh,
        dw_dil,
        groups,
    );
    assert(launches(s).len() == 1);
}

/// The same gradient in two passes: per batch item into scratch, then summed over the batch. Each
/// kernel finds the operands and numbers of the call at their own slots.
pub proof fn lemma_conv2d_backward_weight_2pass(
    part_off: usize,
    x: usize,
    dy: usize,
    dw: usize,
    n: u32,
    c_in: u32,
    h: u32,
    w: u32,
    c_out: u32,
    h_out: u32,
    w_out: u32,
    kh: u32,
    kw: u32,
    sh: u32,
    sw: u32,
    ph: u32,
    pw: u32,
    dh: u32,
    dw_dil: u32,
    groups: u32,
)
    ensures
        ({
            let s = conv2d_backward_weight_2pass_steps(
                part_off,
                x,
                dy,
                dw,
                n,
                c_in,
                h,
                w,
                c_out,
                h_out,
                w_out,
                kh,
                kw,
                sh,
                sw,
                ph,
                pw,
                dh,
                dw_dil,
                groups,
            );
            &&& launches(s).len() == 2
            &&& launches(s)[0].kernel() == Some(Kernel::Conv2dBackwardWeightPartial)
            &&& launches(s)[0].place(0) == Some((Buf::Arena, x as u64))
            &&& launches(s)[0].place(1) == Some((Buf::Arena, dy as u64))
            &&& launches(s)[0].place(2) == Some((Buf::Arena, part_off as u64))
            &&& launches(s)[0].arg(3) == Some(Cmd::U32x4(3, n, c_in, h, w))
            &&& launches(s)[0].arg(4) == Some(Cmd::U32x4(4, c_out, h_out, w_out, kh))
            &&& launches(s)[0].arg(5) == Some(Cmd::U32x4(5, kw, sh, sw, ph))
            &&& launches(s)[0].arg(6) == Some(Cmd::U32x4(6, pw, dh, dw_dil, groups))
            &&& launches(s)[0].shape == Cmd::Threads(
                Size {
                    width: ((c_in / groups) * kh * kw) as u64, height: c_out as u64, depth: n as u64,
                },
                Group::Fixed(
                    plane(
                        max_u64(min_u64(8, ((c_in / groups) * kh * kw) as u64), 1),
                        max_u64(min_u64(8, c_out as u64), 1),
                    ),
                ),
            )
            &&& launches(s)[1].kernel() == Some(Kernel::Conv2dBackwardWeightReduce)
            &&& launches(s)[1].place(0) == Some((Buf::Arena, part_off as u64))
            &&& launches(s)[1].place(1) == Some((Buf::Arena, dw as u64))
            &&& launches(s)[1].arg(2) == Some(
                Cmd::U32x2(2, n, (c_out * ((c_in / groups) * kh * kw)) as u32),
            )
            &&& launches(s)[1].arg(3) == Some(Cmd::U32x4(3, n, c_in, h, w))
            &&& launches(s)[1].arg(4) == Some(Cmd::U32x4(4, c_out, h_out, w_out, kh))
            &&& launches(s)[1].arg(5) == Some(Cmd::U32x4(5, kw, sh, sw, ph))
            &&& launches(s)[1].arg(6) == Some(Cmd::U32x4(6, pw, dh, dw_dil, groups))
            &&& launches(s)[1].shape == Cmd::Threads(
                one_row((c_out * ((c_in / groups) * kh * kw)) as u64),
                Group::Fixed(
                    one_row(max_u64(min_u64(64, (c_out * ((c_in / groups) * kh * kw)) as u64), 1)),
                ),
            )
        }),
{
    broadcast use group_launches;

    let s = conv2d_backward_weight_2pass_steps(
        part_off,
        x,
        dy,
        dw,
        n,
        c_in,
        h,
        w,
        c_out,
        h_out,
        w_out,
        kh,
        kw,
        sh,
        sw,
        ph,
        pw,
        dh,
        dw_dil,
        groups,
    );
    assert(launches(s).len() == 2);
}

/// Depthwise convolution along the sequence, the weights in a buffer of their own. The kernel finds
/// each operand and number of the call at its own slot.
pub proof fn lemma_depthwise_conv1d_bsc(
    w_buffer: Buf,
    src: usize,
    wt_raw: usize,
    dst: usize,
    batch: u32,
    width: u32,
    out_seq: u32,
    channels: u32,
    kw: u32,
    silu: bool,
)
    ensures
        ({
            let s = depthwise_conv1d_bsc_steps(
                w_buffer,
                src,
                wt_raw,
                dst,
                batch,
                width,
                out_seq,
                channels,
                kw,
                silu,
            );
            &&& launches_once(s)
            &&& launch(s).kernel() == Some(Kernel::DepthwiseConv1dBsc)
            &&& launch(s).place(0) == Some((Buf::Arena, 0u64))
            &&& launch(s).long(1) == Some(src as u64)
            &&& launch(s).long(2) == Some(wt_raw as u64)
            &&& launch(s).long(3) == Some(dst as u64)
            &&& launch(s).arg(4) == Some(Cmd::U32x4(4, batch, width, out_seq, channels))
            &&& launch(s).arg(5) == Some(Cmd::U32x2(5, kw, bit(silu)))
            &&& launch(s).place(7) == Some((w_buffer, 0u64))
            &&& launch(s).shape == Cmd::Threads(
                one_row(max_u64((batch * out_seq * channels) as u64, 1)),
                Group::Fixed(one_row(min_u64(256, max_u64((batch * out_seq * channels) as u64, 1)))),
            )
        }),
{
    broadcast use group_launches;

    let s = depthwise_conv1d_bsc_steps(
        w_buffer,
        src,
        wt_raw,
        dst,
        batch,
        width,
        out_seq,
        channels,
        kw,
        silu,
    );
    assert(launches(s).len() == 1);
}

} // verus!
