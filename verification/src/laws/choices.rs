//! Which product runs, how fast it is taken to be, and what settings say of it.

use vstd::prelude::*;

use crate::cost::{
    asks_precise, best_split, default_variant, eligible, family_rates, general_choice, layer_bytes,
    lower, lowered, occupies, override_of, picked, pin_of, shape_allows, small_m_choice,
    threshold_setting, tiles64, variant_of, variant_rate, AppleGpuFamily, MetalHwModel, RateBase,
    SgemmSettings, SgemmVariant, MPS_THRESHOLD_FLOP,
};

verus! {

/// Tiles of 64 by 64 are counted exactly where they divide, and a product fills the GPU from 32 of
/// them on.
pub proof fn lemma_tiles(m: int, n: int)
    requires
        0 <= m,
        0 <= n,
    ensures
        m % 64 == 0 && n % 64 == 0 ==> tiles64(m, n) * 4096 == m * n,
        occupies(m, n) <==> tiles64(m, n) >= 32,
{
    let a = m / 64;
    let b = n / 64;
    if m % 64 == 0 && n % 64 == 0 {
        assert(m == 64 * a && n == 64 * b);
        assert((64 * a) * (64 * b) == (a * b) * 4096) by (nonlinear_arith);
    }
}

/// A variant that was pinned is taken where it can run, otherwise one that was measured, otherwise the
/// default; a pin that cannot run does not fall back on what was measured.
pub proof fn lemma_pinned(hw: MetalHwModel, s: SgemmSettings, m: int, k: int, n: int)
    ensures
        s.pin matches Some(v) ==> picked(hw, s, m, k, n) == (if eligible(s, v, m, k, n) {
            v
        } else {
            default_variant(hw, s, m, k, n)
        }),
        s.pin is None && s.table is Some && eligible(s, variant_of(s.table->0), m, k, n) ==> picked(
            hw,
            s,
            m,
            k,
            n,
        ) == variant_of(s.table->0),
        s.pin is None && s.table is None ==> picked(hw, s, m, k, n) == default_variant(hw, s, m, k, n),
{
}

/// A variant can run where its tiles divide the shape, the vendor's product where it is supported, and
/// a split product where a split of four or more exists.
pub proof fn lemma_eligible(s: SgemmSettings, v: SgemmVariant, m: int, k: int, n: int)
    ensures
        v == SgemmVariant::Mps ==> (eligible(s, v, m, k, n) <==> s.mps_supported),
        v == SgemmVariant::Simd4x4 ==> (eligible(s, v, m, k, n) <==> m % 32 == 0 && k % 32 == 0 && n % 32
            == 0),
        v == SgemmVariant::Simd64 ==> (eligible(s, v, m, k, n) <==> m % 64 == 0 && n % 64 == 0 && k % 8
            == 0),
        v == SgemmVariant::Simd64SplitK ==> (eligible(s, v, m, k, n) <==> m % 64 == 0 && n % 64 == 0
            && k % 32 == 0 && best_split(m, k, n) >= 4),
        v == SgemmVariant::Simd ==> (eligible(s, v, m, k, n) <==> m % 8 == 0 && k % 8 == 0 && n % 8
            == 0),
        v == SgemmVariant::SimdPadded || v == SgemmVariant::Tiled || v == SgemmVariant::Naive
            ==> eligible(s, v, m, k, n),
{
}

/// The default is the vendor's product where that is on and forced or the work is large; next the
/// largest tiles where they divide the shape and fill the GPU; next a split; next the vendor's product
/// for a single narrow row; next tiles of 32; small and general shapes come last.
pub proof fn lemma_default_order(hw: MetalHwModel, s: SgemmSettings, m: int, k: int, n: int)
    ensures
        ({
            let v = default_variant(hw, s, m, k, n);
            let mps = s.mps_supported && !s.mps_disabled;
            let large = mps && (s.mps_forced || m * k * n >= hw.mps_threshold_flop);
            let big_tiles = !s.no_sgemm64 && m % 64 == 0 && n % 64 == 0 && k % 8 == 0 && tiles64(m, n)
                >= 32;
            let split = s.splitk && m % 64 == 0 && n % 64 == 0 && tiles64(m, n) < 32 && best_split(
                m,
                k,
                n,
            ) >= 4;
            let narrow = mps && m == 1 && n < 64;
            let tiles = m % 32 == 0 && k % 32 == 0 && n % 32 == 0;
            &&& large ==> v == SgemmVariant::Mps
            &&& !large && big_tiles ==> v == SgemmVariant::Simd64
            &&& !large && !big_tiles && split ==> v == SgemmVariant::Simd64SplitK
            &&& !large && !big_tiles && !split && narrow ==> v == SgemmVariant::Mps
            &&& !large && !big_tiles && !split && !narrow && tiles ==> v == SgemmVariant::Simd4x4
            &&& !large && !big_tiles && !split && !narrow && !tiles && m < 32 ==> v == small_m_choice(
                s,
                m,
                k,
                n,
            )
            &&& !large && !big_tiles && !split && !narrow && !tiles && m >= 32 ==> v == general_choice(
                m,
                k,
                n,
            )
            &&& v == SgemmVariant::Simd64 ==> !s.no_sgemm64
            &&& v == SgemmVariant::Simd64SplitK ==> s.splitk
        }),
{
}

/// Shapes of multiples of eight take the plain simdgroup kernel, others the padded one where the inner
/// dimension divides, others threadgroup tiles where both sides are long enough, and the rest the plain
/// kernel.
pub proof fn lemma_general_choice(m: int, k: int, n: int)
    requires
        m >= 1,
    ensures
        ({
            let eights = m % 8 == 0 && k % 8 == 0 && n % 8 == 0 && m >= 8 && n >= 8;
            let padded = k % 8 == 0 && n >= 8;
            let tiled = m >= 16 && n >= 16;
            let v = general_choice(m, k, n);
            &&& v == SgemmVariant::Simd <==> eights
            &&& v == SgemmVariant::SimdPadded <==> !eights && padded
            &&& v == SgemmVariant::Tiled <==> !eights && !padded && tiled
            &&& v == SgemmVariant::Naive <==> !eights && !padded && !tiled
        }),
{
}

/// Few rows: the plain kernel where precision is asked for; the vendor's product for square weights of
/// some size and rows that are no multiple of eight, where that is on; otherwise as any other shape.
pub proof fn lemma_small_m_choice(s: SgemmSettings, m: int, k: int, n: int)
    requires
        m >= 1,
    ensures
        ({
            let v = small_m_choice(s, m, k, n);
            let vendor = m >= 2 && m % 8 != 0 && k == n && k >= 256 && s.mps_supported
                && !s.mps_disabled && !s.no_small_m_mps;
            &&& s.precise ==> v == SgemmVariant::Naive
            &&& !s.precise && vendor ==> v == SgemmVariant::Mps
            &&& !s.precise && !vendor ==> v == general_choice(m, k, n)
            &&& v == SgemmVariant::Mps ==> vendor
        }),
{
}

/// Rates: the vendor's product counts as twice as fast as tiles of 32, a split as three times, large
/// tiles as nearly twice where they fill the GPU, and the plain kernel as a third of threadgroup tiles.
pub proof fn lemma_rates(m: int, n: int)
    ensures
        variant_rate(SgemmVariant::Simd4x4, m, n) == (RateBase::Simd4x4, 10u32),
        variant_rate(SgemmVariant::Mps, m, n).0 == RateBase::Simd4x4,
        variant_rate(SgemmVariant::Mps, m, n).1 == 2 * variant_rate(SgemmVariant::Simd4x4, m, n).1,
        variant_rate(SgemmVariant::Simd64SplitK, m, n).0 == RateBase::Simd4x4,
        variant_rate(SgemmVariant::Simd64SplitK, m, n).1 == 3 * variant_rate(
            SgemmVariant::Simd4x4,
            m,
            n,
        ).1,
        occupies(m, n) ==> variant_rate(SgemmVariant::Simd64, m, n) == (RateBase::Simd4x4, 18u32),
        !occupies(m, n) ==> variant_rate(SgemmVariant::Simd64, m, n) == variant_rate(
            SgemmVariant::Simd4x4,
            m,
            n,
        ),
        variant_rate(SgemmVariant::Simd, m, n) == (RateBase::Simd, 10u32),
        variant_rate(SgemmVariant::SimdPadded, m, n) == (RateBase::Padded, 10u32),
        variant_rate(SgemmVariant::Tiled, m, n) == (RateBase::Tiled, 10u32),
        variant_rate(SgemmVariant::Naive, m, n) == (RateBase::Tiled, 3u32),
{
}

/// Newer families are faster with every kernel, the simdgroup kernel is the fastest of each, and an
/// unknown family counts between the first and its larger sibling.
pub proof fn lemma_family_rates(f: AppleGpuFamily)
    ensures
        family_rates(f).0 > family_rates(f).1 > family_rates(f).2 > 0,
        faster(AppleGpuFamily::M4, AppleGpuFamily::M3),
        faster(AppleGpuFamily::M3, AppleGpuFamily::M2),
        faster(AppleGpuFamily::M2, AppleGpuFamily::M1Pro),
        faster(AppleGpuFamily::M1Pro, AppleGpuFamily::Unknown),
        faster(AppleGpuFamily::Unknown, AppleGpuFamily::M1),
{
}

pub open spec fn faster(a: AppleGpuFamily, b: AppleGpuFamily) -> bool {
    &&& family_rates(a).0 > family_rates(b).0
    &&& family_rates(a).1 > family_rates(b).1
    &&& family_rates(a).2 > family_rates(b).2
}

/// A layer moves, per token, five vectors of the hidden width and one of the intermediate width, four
/// bytes a value.
pub proof fn lemma_layer_bytes(batch: int, seq: int, hidden: int, intermediate: int)
    ensures
        layer_bytes(1, 1, hidden, intermediate) == 20 * hidden + 4 * intermediate,
        layer_bytes(batch, seq, hidden, intermediate) == batch * seq * layer_bytes(
            1,
            1,
            hidden,
            intermediate,
        ),
{
    let t = batch * seq;
    let w = 5 * hidden + intermediate;
    assert(1 * 1 * w * 4 == w * 4) by (nonlinear_arith);
    assert(t * w * 4 == t * (w * 4)) by (nonlinear_arith);
}

/// Lower case changes the capitals of ASCII and nothing else, and doing it twice changes nothing more.
pub proof fn lemma_lowered(s: Seq<char>, c: char)
    ensures
        'A' <= c && c <= 'Z' ==> lower(c) as int == c as int + 32,
        !('A' <= c && c <= 'Z') ==> lower(c) == c,
        lowered(s).len() == s.len(),
        lowered(lowered(s)) == lowered(s),
{
    assert(lowered(lowered(s)) =~= lowered(s));
}

/// A variant that is named is taken before a wish for precision, which asks for the plain kernel; a
/// name that is none counts as not given.
pub proof fn lemma_override(pin: &str, precise: &str)
    ensures
        pin_of(pin@) is Some ==> override_of(Some(pin), Some(precise)) == pin_of(pin@),
        pin_of(pin@) is Some ==> override_of(Some(pin), None) == pin_of(pin@),
        pin_of(pin@) is None && asks_precise(precise@) ==> override_of(Some(pin), Some(precise)) == Some(
            SgemmVariant::Naive,
        ),
        asks_precise(precise@) ==> override_of(None, Some(precise)) == Some(SgemmVariant::Naive),
        !asks_precise(precise@) ==> override_of(None, Some(precise)) is None,
        override_of(None, None) is None,
        asks_precise(precise@) == asks_precise(lowered(precise@)),
        threshold_setting(None) == MPS_THRESHOLD_FLOP,
{
    lemma_lowered(precise@, 'a');
}

/// Precision is asked for with the usual words, in any case.
pub proof fn lemma_asks_precise(raw: Seq<char>)
    ensures
        asks_precise(raw) <==> lowered(raw) == "1"@ || lowered(raw) == "true"@ || lowered(raw) == "yes"@
            || lowered(raw) == "on"@,
{
}

} // verus!
