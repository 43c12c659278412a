//! Floats in single precision, as bit patterns: what half floats, brain floats and integers become.

use vstd::arithmetic::power2::{
    lemma2_to64, lemma2_to64_rest, lemma_pow2_adds, lemma_pow2_pos, lemma_pow2_strictly_increases,
    lemma_pow2_unfold, pow2,
};
use vstd::bits::{lemma_u64_pow2_no_overflow, lemma_u64_shl_is_mul};
use vstd::prelude::*;

verus! {

/// The bit pattern in single precision of a float that is stored as the upper half of one: what
/// is missing is zero, and the highest bit of the fraction is set where it is not a number.
pub open spec fn widened_brain(bits: nat) -> nat {
    let not_a_number = bits % 0x8000 > 0x7f80;
    let quiet = (bits / 64) % 2 == 1;
    if not_a_number && !quiet {
        (bits + 64) * 0x1_0000
    } else {
        bits * 0x1_0000
    }
}

/// Widens a float with `half::bf16::to_f32`, on bit patterns. The bits become the upper half of
/// the result; where they are not a number, the highest bit of the fraction is set besides.
#[verifier::external_body]
pub(crate) fn brain_to_single(bits: u16) -> (r: u32)
    ensures
        r as nat == widened_brain(bits as nat),
{
    half::bf16::from_bits(bits).to_f32().to_bits()
}

/// The exponent of the greatest power of two that is not above a number.
pub open spec fn log2(n: nat) -> nat
    decreases n,
{
    if n <= 1 {
        0
    } else {
        1 + log2(n / 2)
    }
}

/// A quotient to the nearest integer, and to the even one halfway between two.
pub open spec fn nearest_even(a: nat, unit: nat) -> nat {
    let (q, r) = (a / unit, a % unit);
    if 2 * r > unit || (2 * r == unit && q % 2 == 1) {
        q + 1
    } else {
        q
    }
}

/// The leading 24 bits of a number, rounded. Rounding up may give one bit more.
pub open spec fn significand(a: nat) -> nat {
    let e = log2(a);
    if e <= 23 {
        a * pow2((23 - e) as nat)
    } else {
        nearest_even(a, pow2((e - 23) as nat))
    }
}

/// The float nearest to a natural number. The leading bit of the significand, which is not stored,
/// adds one to the exponent; so does a carry from rounding.
pub open spec fn single_of_natural(a: nat) -> nat {
    if a == 0 {
        0
    } else {
        (log2(a) + 126) * 0x80_0000 + significand(a)
    }
}

/// The float nearest to an integer.
pub open spec fn single_of(v: int) -> nat {
    if v < 0 {
        0x8000_0000 + single_of_natural((-v) as nat)
    } else {
        single_of_natural(v as nat)
    }
}

/// A half float in single precision. Its exponent is rebiased and its fraction keeps its leading
/// bits; a fraction without an exponent counts units of two to the power of -24; and what is not a
/// number gets the highest bit of the fraction.
pub open spec fn widened_half(bits: nat) -> nat {
    let sign = bits / 0x8000;
    let exponent = (bits / 0x400) % 32;
    let fraction = bits % 0x400;
    let magnitude = if exponent == 31 {
        0x7f80_0000 + fraction * 0x2000 + if 0 < fraction < 0x200 {
            0x40_0000nat
        } else {
            0
        }
    } else if exponent > 0 {
        (exponent + 112) * 0x80_0000 + fraction * 0x2000
    } else if fraction > 0 {
        (single_of_natural(fraction) - 24 * 0x80_0000) as nat
    } else {
        0
    };
    sign * 0x8000_0000 + magnitude
}

/// The power of two below a number, and the one above it.
pub proof fn lemma_log2(n: nat)
    requires
        n > 0,
    ensures
        pow2(log2(n)) <= n < pow2(log2(n) + 1),
    decreases n,
{
    if n == 1 {
        lemma2_to64();
    } else {
        lemma_log2(n / 2);
        lemma_pow2_unfold(log2(n));
        lemma_pow2_unfold(log2(n) + 1);
    }
}

proof fn lemma_log2_bound(n: nat, bits: nat)
    requires
        0 < n < pow2(bits),
    ensures
        log2(n) < bits,
{
    lemma_log2(n);
    if log2(n) > bits {
        lemma_pow2_strictly_increases(bits, log2(n));
    }
}

/// The significand fills 24 bits, or is the next power of two.
pub proof fn lemma_significand(a: nat)
    requires
        a > 0,
    ensures
        0x80_0000 <= significand(a) <= 0x100_0000,
        log2(a) <= 23 ==> significand(a) < 0x100_0000,
{
    let e = log2(a);
    lemma_log2(a);
    lemma2_to64();
    if e <= 23 {
        let unit = pow2((23 - e) as nat);
        lemma_pow2_adds(e, (23 - e) as nat);
        lemma_pow2_adds(e + 1, (23 - e) as nat);
        let low = pow2(e);
        let high = pow2(e + 1);
        assert(low * unit <= a * unit && a * unit <= (high - 1) * unit && (high - 1) * unit == high
            * unit - unit) by (nonlinear_arith)
            requires
                low <= a,
                a <= high - 1,
                0 <= unit,
        ;
        lemma_pow2_pos((23 - e) as nat);
    } else {
        let unit = pow2((e - 23) as nat);
        lemma_pow2_pos((e - 23) as nat);
        lemma_pow2_adds(23, (e - 23) as nat);
        lemma_pow2_adds(24, (e - 23) as nat);
        let q = a / unit;
        assert(0x80_0000 <= q < 0x100_0000) by (nonlinear_arith)
            requires
                0x80_0000 * unit <= a < 0x100_0000 * unit,
                unit > 0,
                q == a / unit,
        ;
    }
}

/// An integer of up to 24 bits is kept exactly: the significand of its float, at the float's
/// exponent, is the integer.
pub proof fn lemma_small_integers_are_exact(a: nat)
    requires
        0 < a < 0x100_0000,
    ensures
        ({
            let bits = single_of_natural(a);
            let exponent = bits / 0x80_0000 - 127;
            &&& 0 <= exponent <= 23
            &&& 0x80_0000 + bits % 0x80_0000 == a * pow2((23 - exponent) as nat)
        }),
{
    lemma2_to64();
    lemma_log2_bound(a, 24);
    lemma_significand(a);
    let (e, sig) = (log2(a), significand(a));
    assert((e + 126) * 0x80_0000 + sig == (e + 127) * 0x80_0000 + (sig - 0x80_0000));
    assert(single_of_natural(a) / 0x80_0000 == e + 127);
}

fn power(n: u32) -> (r: u64)
    requires
        n < 64,
    ensures
        r == pow2(n as nat),
        r > 0,
{
    proof {
        lemma_u64_pow2_no_overflow(n as nat);
        lemma_u64_shl_is_mul(1, n as u64);
        lemma_pow2_pos(n as nat);
    }
    1u64 << (n as u64)
}

fn single_of_magnitude(a: u64) -> (r: u32)
    ensures
        r as nat == single_of_natural(a as nat),
        r < 0x6000_0000,
        a > 0 ==> r >= 127 * 0x80_0000,
{
    if a == 0 {
        return 0;
    }
    proof {
        lemma2_to64_rest();
        lemma_log2_bound(a as nat, 64);
    }
    let mut e: u32 = 0;
    let mut rest: u64 = a;
    while rest > 1
        invariant
            1 <= rest,
            e + log2(rest as nat) == log2(a as nat) < 64,
        decreases rest,
    {
        rest = rest / 2;
        e = e + 1;
    }
    proof {
        lemma_significand(a as nat);
    }
    let digits: u64 = if e <= 23 {
        a * power(23 - e)
    } else {
        let unit: u64 = power(e - 23);
        let q: u64 = a / unit;
        let r: u64 = a % unit;
        // Compares twice the rest to the unit.
        if r > unit - r || (r == unit - r && q % 2 == 1) {
            q + 1
        } else {
            q
        }
    };
    (e + 126) * 0x80_0000 + digits as u32
}

/// An integer in single precision, to the nearest float.
pub fn single_of_integer(v: i64) -> (r: u32)
    ensures
        r as nat == single_of(v as int),
{
    if v < 0 {
        let magnitude: u64 = (-(v + 1)) as u64 + 1;
        0x8000_0000 + single_of_magnitude(magnitude)
    } else {
        single_of_magnitude(v as u64)
    }
}

/// A half float in single precision, on bit patterns.
pub fn half_to_single(bits: u16) -> (r: u32)
    ensures
        r as nat == widened_half(bits as nat),
{
    let sign: u32 = (bits / 0x8000) as u32;
    let exponent: u32 = ((bits / 0x400) % 32) as u32;
    let fraction: u32 = (bits % 0x400) as u32;
    let magnitude: u32 = if exponent == 31 {
        if 0 < fraction && fraction < 0x200 {
            0x7fc0_0000 + fraction * 0x2000
        } else {
            0x7f80_0000 + fraction * 0x2000
        }
    } else if exponent > 0 {
        (exponent + 112) * 0x80_0000 + fraction * 0x2000
    } else if fraction > 0 {
        single_of_magnitude(fraction as u64) - 24 * 0x80_0000
    } else {
        0
    };
    sign * 0x8000_0000 + magnitude
}

} // verus!
