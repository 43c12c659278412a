//! The numbers that launches and constants are made of.

use vstd::prelude::*;

use crate::command::{
    bit, div_up, f32_index, low_word, max_u64, min_u64, one_row, plane, reduction_span, sat_mul,
    word_count, Group, HalfFlag, Kernel,
};
use crate::encode::conv::group_channels;
use crate::encode::reduce::{reduce_code, suits_simdgroups, ReduceOp};

verus! {

/// Rounding up gives the fewest parts of a size that reach a count.
pub proof fn lemma_fewest_parts(a: u64, b: u64)
    requires
        b > 0,
        a + b <= u64::MAX,
    ensures
        a <= div_up(a, b) * b,
        div_up(a, b) * b < a + b,
        a > 0 ==> (div_up(a, b) - 1) * b < a,
{
    let q = (a + b - 1) / b as int;
    vstd::arithmetic::div_mod::lemma_fundamental_div_mod(a + b - 1, b as int);
    vstd::arithmetic::div_mod::lemma_mod_bound(a + b - 1, b as int);
    assert(q * b == b * q) by (nonlinear_arith);
    assert(0 <= q <= a) by (nonlinear_arith)
        requires
            a <= q * b < a + b,
            0 < b,
            0 <= a,
    ;
    assert((q - 1) * b == q * b - b) by (nonlinear_arith);
}

/// The low word of a number that fits is the number, and whole multiples of its range do not count.
pub proof fn lemma_low_word(x: u64, y: u64)
    ensures
        x < 0x1_0000_0000 ==> low_word(x) == x,
        low_word(x) == low_word(y) <==> (x - y) % 0x1_0000_0000 == 0,
        x == low_word(x) + (x / 0x1_0000_0000) * 0x1_0000_0000,
{
}

/// A flag is one exactly where it is set, and zero otherwise.
pub proof fn lemma_bit(b: bool)
    ensures
        bit(b) == 1 <==> b,
        bit(b) == 0 <==> !b,
{
}

/// A row has as many threads as it is wide, a plane as it is wide and high.
pub proof fn lemma_sizes(w: u64, h: u64)
    ensures
        one_row(w).width * one_row(w).height * one_row(w).depth == w,
        plane(w, h).width * plane(w, h).height * plane(w, h).depth == w * h,
        plane(w, h).width == w && plane(w, h).height == h,
        one_row(w) == plane(w, 1),
{
    assert(w * 1 * 1 == w) by (nonlinear_arith);
    let p = w * h;
    assert(p * 1 == p) by (nonlinear_arith);
}

/// The smaller and the larger of two numbers.
pub proof fn lemma_min_max(a: u64, b: u64)
    ensures
        min_u64(a, b) <= a && min_u64(a, b) <= b,
        min_u64(a, b) == a || min_u64(a, b) == b,
        max_u64(a, b) >= a && max_u64(a, b) >= b,
        max_u64(a, b) == a || max_u64(a, b) == b,
{
}

/// A saturated product is the product where it fits and never exceeds it.
pub proof fn lemma_saturated(a: u32, b: u32)
    ensures
        a * b <= u32::MAX <==> sat_mul(a, b) == a * b,
        a * b > u32::MAX ==> sat_mul(a, b) == u32::MAX,
{
}

/// Words hold one single-precision or two half-precision values, and the last may be half full.
pub proof fn lemma_word_count(len: u32)
    ensures
        word_count(HalfFlag::F32, len) == len,
        len <= 2 * word_count(HalfFlag::F16, len) <= len + 1,
{
}

/// A reduction runs on the largest power of two that is no longer than what it reduces, between one
/// thread and 256.
pub proof fn lemma_reduction_span(len: u32)
    ensures
        ({
            let s = reduction_span(len);
            &&& s == 1 || s == 2 || s == 4 || s == 8 || s == 16 || s == 32 || s == 64 || s == 128
                || s == 256
            &&& len >= 1 ==> s <= len
            &&& len == 0 ==> s == 1
            &&& s < 256 ==> len < 2 * s
        }),
{
}

/// A float index times four is the byte offset of the float, where the offset is of a float and fits.
pub proof fn lemma_float_index(byte_off: usize)
    ensures
        byte_off as int % 4 == 0 && byte_off < 0x4_0000_0000 ==> f32_index(byte_off) * 4 == byte_off,
{
}

/// A threadgroup never has more threads in a direction than it is asked to have at most.
pub proof fn lemma_group_resolved(kernel: Kernel, cap_w: u64, cap_h: u64, exec_width: u64)
    ensures
        Group::ExecWidth(kernel, cap_w).resolved(exec_width) == one_row(min_u64(exec_width, cap_w)),
        ({
            let s = Group::ExecTile(kernel, cap_w, cap_h).resolved(exec_width);
            &&& s.width == min_u64(exec_width, cap_w)
            &&& s.height <= cap_h
            &&& s.depth == 1
            &&& s.width > 0 ==> s.width * s.height <= 256 || s.height <= 256int / s.width as int
        }),
        Group::Fixed(one_row(cap_w)).resolved(exec_width) == one_row(cap_w),
{
}

/// The reduction that a number means.
pub open spec fn reduction(number: u32) -> Option<ReduceOp> {
    match number {
        0 => Some(ReduceOp::Sum),
        1 => Some(ReduceOp::Mean),
        2 => Some(ReduceOp::Max),
        3 => Some(ReduceOp::Min),
        4 => Some(ReduceOp::Prod),
        _ => None,
    }
}

/// The number of a reduction means that reduction. Only sums and means of single-precision values
/// are reduced by simdgroups, and only where the reduced axis is long and longer than there are
/// results.
pub proof fn lemma_reductions(op: ReduceOp, outer: u32, reduced: u32, inner: u32, dt: HalfFlag)
    ensures
        reduction(reduce_code(op)) == Some(op),
        suits_simdgroups(outer, reduced, inner, op, dt) ==> (op == ReduceOp::Sum || op
            == ReduceOp::Mean) && dt == HalfFlag::F32 && reduced >= 64 && inner * outer <= reduced,
        (op == ReduceOp::Sum || op == ReduceOp::Mean) && reduced >= 64 && inner * outer <= reduced
            ==> suits_simdgroups(outer, reduced, inner, op, HalfFlag::F32),
{
}

/// The input channels are split evenly among the groups, where they divide.
pub proof fn lemma_group_channels(c_in: u32, groups: u32)
    ensures
        groups > 0 && c_in as int % groups as int == 0 ==> group_channels(c_in, groups) * groups
            == c_in,
        groups <= 1 ==> group_channels(c_in, groups) == c_in,
        0 <= group_channels(c_in, groups) <= c_in,
{
    if groups > 0 {
        vstd::arithmetic::div_mod::lemma_fundamental_div_mod(c_in as int, groups as int);
        let q = c_in as int / groups as int;
        assert(q * groups == groups * q) by (nonlinear_arith);
        assert(0 <= q <= c_in) by (nonlinear_arith)
            requires
                q == c_in as int / groups as int,
                groups > 0,
                c_in >= 0,
        ;
    }
}

} // verus!
