//! Numbers as bytes and floats as bits.

use vstd::prelude::*;

use crate::float_bits::{
    log2, nearest_even, significand, single_of, single_of_natural, widened_brain, widened_half,
};
use crate::graph::DType;
use crate::run::{element_bits, integer_at, number_at, signed};

verus! {

/// A number of several bytes has the low byte first, and its value is below the range of its bytes.
pub proof fn lemma_number_at(data: Seq<u8>, at: int, width: nat)
    ensures
        number_at(data, at, 1) == data[at],
        number_at(data, at, 2) == data[at] + 256 * data[at + 1],
        number_at(data, at, width + 1) == data[at] + 256 * number_at(data, at + 1, width),
        number_at(data, at, 4) == number_at(data, at, 2) + 0x1_0000 * number_at(data, at + 2, 2),
        number_at(data, at, 8) == number_at(data, at, 4) + 0x1_0000_0000 * number_at(data, at + 4, 4),
        number_at(data, at, 4) < 0x1_0000_0000,
{
    reveal_with_fuel(number_at, 9);
}

/// A signed number lies within its range and differs from its bits by a whole range or not at all.
pub proof fn lemma_signed(n: nat, half: int)
    requires
        0 < half,
        n < 2 * half,
    ensures
        -half <= signed(n, half) < half,
        signed(n, half) == n || signed(n, half) == n - 2 * half,
        signed(n, half) < 0 <==> n >= half,
{
}

/// The elements of a typed input lie one behind the other: element `i` is read from its own bytes, and
/// data that agree there have the same element.
pub proof fn lemma_element_bytes(a: Seq<u8>, b: Seq<u8>, dt: DType, i: int)
    requires
        dt != DType::F64,
        forall|k: int|
            i * dt.width() <= k < (i + 1) * dt.width() ==> #[trigger] a[k] == b[k],
    ensures
        element_bits(a, dt, i) == element_bits(b, dt, i),
{
    reveal_with_fuel(number_at, 9);
    let w = dt.width() as int;
    assert(i * w + w == (i + 1) * w) by (nonlinear_arith);
    if w == 1 {
        assert(a[i] == b[i]);
    } else if w == 2 {
        assert(a[2 * i] == b[2 * i] && a[2 * i + 1] == b[2 * i + 1]);
        assert(number_at(a, 2 * i, 2) == number_at(b, 2 * i, 2));
    } else if w == 4 {
        assert(a[4 * i] == b[4 * i] && a[4 * i + 1] == b[4 * i + 1] && a[4 * i + 2] == b[4 * i + 2]
            && a[4 * i + 3] == b[4 * i + 3]);
        assert(number_at(a, 4 * i, 4) == number_at(b, 4 * i, 4));
    } else {
        assert(a[8 * i] == b[8 * i] && a[8 * i + 1] == b[8 * i + 1] && a[8 * i + 2] == b[8 * i + 2]
            && a[8 * i + 3] == b[8 * i + 3] && a[8 * i + 4] == b[8 * i + 4] && a[8 * i + 5] == b[8 * i
            + 5] && a[8 * i + 6] == b[8 * i + 6] && a[8 * i + 7] == b[8 * i + 7]);
        assert(number_at(a, 8 * i, 8) == number_at(b, 8 * i, 8));
    }
}

/// What an element is: a float taken as it is or widened, or the float nearest to an integer, which is
/// signed for the signed types.
pub proof fn lemma_element_meaning(data: Seq<u8>, i: int)
    ensures
        element_bits(data, DType::F32, i) == number_at(data, 4 * i, 4),
        element_bits(data, DType::F16, i) == widened_half(number_at(data, 2 * i, 2)),
        element_bits(data, DType::BF16, i) == widened_brain(number_at(data, 2 * i, 2)),
        element_bits(data, DType::U32, i) == single_of(number_at(data, 4 * i, 4) as int),
        element_bits(data, DType::I32, i) == single_of(integer_at(data, DType::I32, i)),
        element_bits(data, DType::I64, i) == single_of(integer_at(data, DType::I64, i)),
        element_bits(data, DType::Bool, i) == single_of(data[i] as int),
        (integer_at(data, DType::I32, i) - number_at(data, 4 * i, 4)) % 0x1_0000_0000 == 0,
        -0x8000_0000 <= integer_at(data, DType::I32, i) < 0x8000_0000,
{
    lemma_number_at(data, 4 * i, 4);
}

/// Rounding to a multiple of a unit goes to the nearest, and to an even multiple where two are as
/// near.
pub proof fn lemma_nearest_even(a: nat, unit: nat)
    requires
        unit > 0,
    ensures
        ({
            let q = nearest_even(a, unit);
            &&& 2 * (q * unit) <= 2 * a + unit
            &&& 2 * a <= 2 * (q * unit) + unit
            &&& 2 * (q * unit) == 2 * a + unit || 2 * a == 2 * (q * unit) + unit ==> q % 2 == 0
            &&& a % unit == 0 ==> q * unit == a
        }),
{
    let q = a / unit;
    let r = a % unit;
    vstd::arithmetic::div_mod::lemma_fundamental_div_mod(a as int, unit as int);
    vstd::arithmetic::div_mod::lemma_mod_bound(a as int, unit as int);
    assert(unit * q == q * unit) by (nonlinear_arith);
    assert((q + 1) * unit == q * unit + unit) by (nonlinear_arith);
}

/// The float of a negative number is that of the positive one with the sign bit set; zero is all
/// zeros, and one is one.
pub proof fn lemma_single_sign(v: int)
    requires
        v > 0,
    ensures
        single_of(-v) == single_of(v) + 0x8000_0000,
        single_of(0) == 0,
        single_of(1) == 0x3f80_0000,
        single_of(v) == single_of_natural(v as nat),
{
    reveal_with_fuel(log2, 2);
    vstd::arithmetic::power2::lemma2_to64();
    assert(log2(1) == 0);
    assert(significand(1) == 1 * vstd::arithmetic::power2::pow2(23));
}

/// Widening a half float keeps its sign; a step between normal half floats is the same step between
/// singles, and one is one.
pub proof fn lemma_widened_half(bits: nat)
    ensures
        bits < 0x8000 ==> widened_half(bits + 0x8000) == widened_half(bits) + 0x8000_0000,
        widened_half(0) == 0,
        widened_half(0x3c00) == 0x3f80_0000,
        0x400 <= bits < 0x7bff ==> widened_half(bits + 1) == widened_half(bits) + 0x2000,
        0 < bits < 0x400 ==> widened_half(bits) + 24 * 0x80_0000 == single_of_natural(bits),
        widened_half(0x7c00) == 0x7f80_0000,
        0x7c00 < bits < 0x8000 ==> 0x7fc0_0000 <= widened_half(bits) < 0x8000_0000,
        0x7e00 <= bits < 0x8000 ==> widened_half(bits) == 0x7fc0_0000 + (bits - 0x7e00) * 0x2000,
        0x7c00 < bits < 0x7e00 ==> widened_half(bits) == widened_half(bits + 0x200),
{
    if 0 < bits < 0x400 {
        crate::float_bits::lemma_small_integers_are_exact(bits);
        assert(single_of_natural(bits) / 0x80_0000 >= 127);
    }
    if bits < 0x8000 {
        assert((bits + 0x8000) / 0x8000 == 1);
        assert(((bits + 0x8000) / 0x400) % 32 == (bits / 0x400) % 32);
        assert((bits + 0x8000) % 0x400 == bits % 0x400);
    }
    if 0x400 <= bits < 0x7bff {
        let e = bits / 0x400;
        let f = bits % 0x400;
        if f + 1 < 0x400 {
            assert((bits + 1) / 0x400 == e);
            assert((bits + 1) % 0x400 == f + 1);
        } else {
            assert((bits + 1) / 0x400 == e + 1);
            assert((bits + 1) % 0x400 == 0);
        }
    }
}

/// Widening a brain float puts its bits in the upper half; only a signalling NaN is changed, which
/// becomes quiet.
pub proof fn lemma_widened_brain(bits: nat)
    requires
        bits < 0x1_0000,
    ensures
        widened_brain(bits) % 0x1_0000 == 0,
        bits % 0x8000 <= 0x7f80 ==> widened_brain(bits) / 0x1_0000 == bits,
        bits % 0x8000 > 0x7f80 ==> (widened_brain(bits) / 0x1_0000 / 64) % 2 == 1,
        bits % 0x8000 > 0x7f80 && (bits / 64) % 2 == 1 ==> widened_brain(bits) / 0x1_0000 == bits,
        bits % 0x8000 > 0x7f80 && (bits / 64) % 2 == 0 ==> widened_brain(bits) / 0x1_0000 == bits + 64,
{
}

} // verus!
