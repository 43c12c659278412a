//! Cost model: analytical selection of the matrix-product kernel.

use vstd::prelude::*;

use crate::text::{chars_of, parse_unsigned, parsed_unsigned, same_chars};

verus! {

/// GPU generations that have their own default rates.
#[derive(Clone, Copy, Debug, PartialEq, Eq, Structural)]
pub enum AppleGpuFamily {
    M4,
    M3,
    M2,
    M1Pro,
    M1,
    Unknown,
}

/// Variant picked by the cost model.
#[derive(Debug, Clone, Copy, PartialEq, Eq, Structural)]
pub enum SgemmVariant {
    /// The vendor's per-chip-tuned product. Wins for large products where the bridging cost
    /// amortizes against compute time.
    Mps,
    /// 32x32 output per threadgroup. Requires `m`, `k` and `n` to be multiples of 32.
    Simd4x4,
    /// 64x64 output per threadgroup. Requires `m` and `n` to be multiples of 64 and `k` of 8.
    Simd64,
    /// 64x64 tiles with the inner dimension split; partials are added atomically into a zeroed
    /// result. Requires 64-alignment and `k` to be a multiple of eight times the split.
    Simd64SplitK,
    /// 8x8 output per threadgroup. Requires `m`, `k` and `n` to be multiples of 8.
    Simd,
    /// Tensor units with bounds-checked partial tiles.
    SimdPadded,
    /// Threadgroup-memory-tiled scalar code (16x16 tiles).
    Tiled,
    /// One thread per output element; for very small dimensions.
    Naive,
}

/// The variants as the shared dispatch table names them.
#[derive(Debug, Clone, Copy, PartialEq, Eq, Structural)]
pub enum MetalSgemm {
    Mps,
    Simd4x4,
    Simd64,
    Simd64SplitK,
    Simd,
    SimdPadded,
    Tiled,
    Naive,
}

pub open spec fn dispatch_of(v: SgemmVariant) -> MetalSgemm {
    match v {
        SgemmVariant::Mps => MetalSgemm::Mps,
        SgemmVariant::Simd4x4 => MetalSgemm::Simd4x4,
        SgemmVariant::Simd64 => MetalSgemm::Simd64,
        SgemmVariant::Simd64SplitK => MetalSgemm::Simd64SplitK,
        SgemmVariant::Simd => MetalSgemm::Simd,
        SgemmVariant::SimdPadded => MetalSgemm::SimdPadded,
        SgemmVariant::Tiled => MetalSgemm::Tiled,
        SgemmVariant::Naive => MetalSgemm::Naive,
    }
}

pub open spec fn variant_of(d: MetalSgemm) -> SgemmVariant {
    match d {
        MetalSgemm::Mps => SgemmVariant::Mps,
        MetalSgemm::Simd4x4 => SgemmVariant::Simd4x4,
        MetalSgemm::Simd64 => SgemmVariant::Simd64,
        MetalSgemm::Simd64SplitK => SgemmVariant::Simd64SplitK,
        MetalSgemm::Simd => SgemmVariant::Simd,
        MetalSgemm::SimdPadded => SgemmVariant::SimdPadded,
        MetalSgemm::Tiled => SgemmVariant::Tiled,
        MetalSgemm::Naive => SgemmVariant::Naive,
    }
}

pub fn to_dispatch(v: SgemmVariant) -> (r: MetalSgemm)
    ensures
        r == dispatch_of(v),
{
    match v {
        SgemmVariant::Mps => MetalSgemm::Mps,
        SgemmVariant::Simd4x4 => MetalSgemm::Simd4x4,
        SgemmVariant::Simd64 => MetalSgemm::Simd64,
        SgemmVariant::Simd64SplitK => MetalSgemm::Simd64SplitK,
        SgemmVariant::Simd => MetalSgemm::Simd,
        SgemmVariant::SimdPadded => MetalSgemm::SimdPadded,
        SgemmVariant::Tiled => MetalSgemm::Tiled,
        SgemmVariant::Naive => MetalSgemm::Naive,
    }
}

pub fn from_dispatch(d: MetalSgemm) -> (r: SgemmVariant)
    ensures
        r == variant_of(d),
{
    match d {
        MetalSgemm::Mps => SgemmVariant::Mps,
        MetalSgemm::Simd4x4 => SgemmVariant::Simd4x4,
        MetalSgemm::Simd64 => SgemmVariant::Simd64,
        MetalSgemm::Simd64SplitK => SgemmVariant::Simd64SplitK,
        MetalSgemm::Simd => SgemmVariant::Simd,
        MetalSgemm::SimdPadded => SgemmVariant::SimdPadded,
        MetalSgemm::Tiled => SgemmVariant::Tiled,
        MetalSgemm::Naive => SgemmVariant::Naive,
    }
}

/// The two enums map onto each other exactly.
pub proof fn lemma_dispatch_mapping_round_trips(v: SgemmVariant, d: MetalSgemm)
    ensures
        variant_of(dispatch_of(v)) == v,
        dispatch_of(variant_of(d)) == d,
{
}

/// Whether a kernel may run at a shape: the alignment that it assumes.
pub open spec fn shape_allows(v: SgemmVariant, m: int, k: int, n: int) -> bool {
    match v {
        SgemmVariant::Simd4x4 => m % 32 == 0 && k % 32 == 0 && n % 32 == 0,
        SgemmVariant::Simd64 => m % 64 == 0 && n % 64 == 0 && k % 8 == 0,
        SgemmVariant::Simd64SplitK => m % 64 == 0 && n % 64 == 0 && k % 32 == 0,
        SgemmVariant::Simd => m % 8 == 0 && k % 8 == 0 && n % 8 == 0,
        _ => true,
    }
}

impl MetalSgemm {
    pub fn shape_eligible(self, m: usize, k: usize, n: usize) -> (r: bool)
        ensures
            r == shape_allows(variant_of(self), m as int, k as int, n as int),
    {
        match self {
            MetalSgemm::Simd4x4 => m % 32 == 0 && k % 32 == 0 && n % 32 == 0,
            MetalSgemm::Simd64 => m % 64 == 0 && n % 64 == 0 && k % 8 == 0,
            MetalSgemm::Simd64SplitK => m % 64 == 0 && n % 64 == 0 && k % 32 == 0,
            MetalSgemm::Simd => m % 8 == 0 && k % 8 == 0 && n % 8 == 0,
            MetalSgemm::Mps | MetalSgemm::SimdPadded | MetalSgemm::Tiled | MetalSgemm::Naive
                => true,
        }
    }
}

/// Whether the inner dimension splits `s` ways without overfilling the GPU.
pub open spec fn split_fits(m: int, k: int, n: int, s: int) -> bool {
    k % (s * 8) == 0 && tiles64(m, n) * s <= 256
}

/// The largest fitting split of 32, 16, 8 and 4 ways; zero where none fits.
pub open spec fn best_split(m: int, k: int, n: int) -> u32 {
    if m % 64 != 0 || n % 64 != 0 {
        0
    } else if split_fits(m, k, n, 32) {
        32
    } else if split_fits(m, k, n, 16) {
        16
    } else if split_fits(m, k, n, 8) {
        8
    } else if split_fits(m, k, n, 4) {
        4
    } else {
        0
    }
}

/// Whole tiles of 64 by 64 in a result.
pub open spec fn tiles64(m: int, n: int) -> int {
    (m / 64) * (n / 64)
}

/// The threadgroups of a split can be counted.
pub open spec fn splits_fit(m: usize, n: usize) -> bool {
    m % 64 == 0 && n % 64 == 0 ==> tiles64(m as int, n as int) * 32 <= usize::MAX
}

/// Dimensions whose products stay within machine integers.
pub open spec fn dims_fit(m: usize, k: usize, n: usize) -> bool {
    splits_fit(m, n) && tiles64(m as int, n as int) <= usize::MAX && m * k * n <= u64::MAX
}

proof fn lemma_tiles_positive(m: usize, n: usize)
    ensures
        0 <= tiles64(m as int, n as int),
{
    let a = m as int / 64;
    let b = n as int / 64;
    assert(0 <= a * b) by (nonlinear_arith)
        requires
            0 <= a,
            0 <= b,
    ;
}

/// Split count for `Simd64SplitK`.
pub fn pick_ksplits(m: usize, k: usize, n: usize) -> (r: u32)
    requires
        splits_fit(m, n),
    ensures
        r == best_split(m as int, k as int, n as int),
{
    if m % 64 != 0 || n % 64 != 0 {
        return 0;
    }
    proof {
        lemma_tiles_positive(m, n);
    }
    let tiles: usize = (m / 64) * (n / 64);
    if k % 256 == 0 && tiles * 32 <= 256 {
        return 32;
    }
    if k % 128 == 0 && tiles * 16 <= 256 {
        return 16;
    }
    if k % 64 == 0 && tiles * 8 <= 256 {
        return 8;
    }
    if k % 32 == 0 && tiles * 4 <= 256 {
        return 4;
    }
    0
}

/// A split that is found divides the inner dimension into multiples of eight, keeps at most 256
/// threadgroups, and no larger split does.
pub proof fn lemma_best_split(m: int, k: int, n: int)
    ensures
        best_split(m, k, n) > 0 ==> best_split(m, k, n) >= 4 && m % 64 == 0 && n % 64 == 0
            && split_fits(m, k, n, best_split(m, k, n) as int),
        forall|s: int|
            (s == 4 || s == 8 || s == 16 || s == 32) && m % 64 == 0 && n % 64 == 0
                && #[trigger] split_fits(m, k, n, s) ==> s <= best_split(m, k, n),
{
}

/// Whether the 64x64 kernel has enough output tiles to fill the GPU.
pub open spec fn occupies(m: int, n: int) -> bool {
    tiles64(m, n) >= 32
}

/// The settings that the environment and the device contribute to a selection.
#[derive(Clone, Copy, Debug)]
pub struct SgemmSettings {
    /// A variant pinned by the operator.
    pub pin: Option<SgemmVariant>,
    /// What the tuning table holds for this shape.
    pub table: Option<MetalSgemm>,
    /// The vendor's product is to be used for every shape.
    pub mps_forced: bool,
    /// The vendor's product is not to be used.
    pub mps_disabled: bool,
    /// The device has the vendor's product.
    pub mps_supported: bool,
    pub no_sgemm64: bool,
    pub splitk: bool,
    /// Small products keep the reference path.
    pub precise: bool,
    pub no_small_m_mps: bool,
}

/// The integral part of the hardware model.
#[derive(Clone, Copy, Debug)]
pub struct MetalHwModel {
    pub gpu_family: AppleGpuFamily,
    /// Threadgroup memory budget per group, in bytes.
    pub threadgroup_mem_bytes: usize,
    pub unified_memory: bool,
    /// The least `m * k * n` at which the vendor's product pays off.
    pub mps_threshold_flop: u64,
}

/// What the cascade picks for fewer than 32 rows.
pub open spec fn small_m_choice(s: SgemmSettings, m: int, k: int, n: int) -> SgemmVariant {
    if s.precise {
        SgemmVariant::Naive
    } else if 2 <= m && m % 8 != 0 && k == n && k >= 256 && !s.mps_disabled && !s.no_small_m_mps
        && s.mps_supported {
        SgemmVariant::Mps
    } else if m % 8 == 0 && k % 8 == 0 && n % 8 == 0 && m >= 8 && n >= 8 {
        SgemmVariant::Simd
    } else if k % 8 == 0 && n >= 8 {
        SgemmVariant::SimdPadded
    } else if m >= 16 && n >= 16 {
        SgemmVariant::Tiled
    } else {
        SgemmVariant::Naive
    }
}

/// What the cascade picks for 32 rows or more: the plain order of preference by alignment.
pub open spec fn general_choice(m: int, k: int, n: int) -> SgemmVariant {
    if m % 8 == 0 && k % 8 == 0 && n % 8 == 0 && m >= 8 && n >= 8 {
        SgemmVariant::Simd
    } else if k % 8 == 0 && n >= 8 && m >= 1 {
        SgemmVariant::SimdPadded
    } else if m >= 16 && n >= 16 {
        SgemmVariant::Tiled
    } else {
        SgemmVariant::Naive
    }
}

/// The default cascade.
pub open spec fn default_variant(
    hw: MetalHwModel,
    s: SgemmSettings,
    m: int,
    k: int,
    n: int,
) -> SgemmVariant {
    let mps = !s.mps_disabled && s.mps_supported;
    if mps && (s.mps_forced || m * k * n >= hw.mps_threshold_flop) {
        SgemmVariant::Mps
    } else if !s.no_sgemm64 && shape_allows(SgemmVariant::Simd64, m, k, n) && occupies(m, n) {
        SgemmVariant::Simd64
    } else if s.splitk && m % 64 == 0 && n % 64 == 0 && !occupies(m, n) && best_split(m, k, n)
        >= 4 {
        SgemmVariant::Simd64SplitK
    } else if m == 1 && n < 64 && mps {
        SgemmVariant::Mps
    } else if shape_allows(SgemmVariant::Simd4x4, m, k, n) {
        SgemmVariant::Simd4x4
    } else if m < 32 {
        small_m_choice(s, m, k, n)
    } else {
        general_choice(m, k, n)
    }
}

/// Whether a variant can run at a shape on a device.
pub open spec fn eligible(s: SgemmSettings, v: SgemmVariant, m: int, k: int, n: int) -> bool {
    &&& shape_allows(v, m, k, n)
    &&& v == SgemmVariant::Mps ==> s.mps_supported
    &&& v == SgemmVariant::Simd64SplitK ==> best_split(m, k, n) >= 4
}

/// The pick: a pin where it is eligible, otherwise the default; without a pin the table's
/// variant where it is eligible, otherwise the default.
pub open spec fn picked(
    hw: MetalHwModel,
    s: SgemmSettings,
    m: int,
    k: int,
    n: int,
) -> SgemmVariant {
    let default = default_variant(hw, s, m, k, n);
    let want = match s.pin {
        Some(v) => Some(v),
        None => match s.table {
            Some(d) => Some(variant_of(d)),
            None => None,
        },
    };
    match want {
        Some(v) => if eligible(s, v, m, k, n) {
            v
        } else {
            default
        },
        None => default,
    }
}

/// What an operator is told about a pick.
#[derive(Clone, Copy, Debug, PartialEq, Eq, Structural)]
pub enum SgemmNotice {
    /// The pinned variant cannot run here; the second one runs.
    PinRefused(SgemmVariant, SgemmVariant),
    /// The table's variant cannot run here; the second one runs.
    TableRefused(SgemmVariant, SgemmVariant),
}

pub open spec fn pick_notice(
    hw: MetalHwModel,
    s: SgemmSettings,
    m: int,
    k: int,
    n: int,
) -> Option<SgemmNotice> {
    let default = default_variant(hw, s, m, k, n);
    match s.pin {
        Some(v) => if eligible(s, v, m, k, n) {
            None
        } else {
            Some(SgemmNotice::PinRefused(v, default))
        },
        None => match s.table {
            Some(d) => if variant_of(d) == default || eligible(s, variant_of(d), m, k, n) {
                None
            } else {
                Some(SgemmNotice::TableRefused(variant_of(d), default))
            },
            None => None,
        },
    }
}

/// The measured rate that a variant is modelled by, and the factor on it in tenths.
#[derive(Clone, Copy, Debug, PartialEq, Eq, Structural)]
pub enum RateBase {
    Simd4x4,
    Simd,
    Padded,
    Tiled,
}

pub open spec fn variant_rate(v: SgemmVariant, m: int, n: int) -> (RateBase, u32) {
    match v {
        SgemmVariant::Mps => (RateBase::Simd4x4, 20),
        SgemmVariant::Simd64 => if occupies(m, n) {
            (RateBase::Simd4x4, 18)
        } else {
            (RateBase::Simd4x4, 10)
        },
        SgemmVariant::Simd64SplitK => (RateBase::Simd4x4, 30),
        SgemmVariant::Simd4x4 => (RateBase::Simd4x4, 10),
        SgemmVariant::Simd => (RateBase::Simd, 10),
        SgemmVariant::SimdPadded => (RateBase::Padded, 10),
        SgemmVariant::Tiled => (RateBase::Tiled, 10),
        SgemmVariant::Naive => (RateBase::Tiled, 3),
    }
}

/// Bytes of the intermediates of one transformer layer.
pub open spec fn layer_bytes(batch: int, seq: int, hidden: int, intermediate: int) -> int {
    batch * seq * (5 * hidden + intermediate) * 4
}

impl MetalHwModel {
    pub fn ksplits(&self, m: usize, k: usize, n: usize) -> (r: u32)
        requires
            splits_fit(m, n),
        ensures
            r == best_split(m as int, k as int, n as int),
    {
        pick_ksplits(m, k, n)
    }

    fn simd64_has_occupancy(m: usize, n: usize) -> (r: bool)
        requires
            tiles64(m as int, n as int) <= usize::MAX,
        ensures
            r == occupies(m as int, n as int),
    {
        proof {
            lemma_tiles_positive(m, n);
        }
        (m / 64) * (n / 64) >= 32
    }

    /// Pick the variant for these dimensions.
    pub fn pick_sgemm(&self, s: &SgemmSettings, m: usize, k: usize, n: usize) -> (r: SgemmVariant)
        requires
            dims_fit(m, k, n),
        ensures
            r == picked(*self, *s, m as int, k as int, n as int),
    {
        let default: SgemmVariant = self.pick_sgemm_default(s, m, k, n);
        if let Some(forced) = s.pin {
            if self.sgemm_eligible(s, forced, m, k, n) {
                return forced;
            }
            return default;
        }
        let want: SgemmVariant = match s.table {
            None => return default,
            Some(d) => from_dispatch(d),
        };
        if self.sgemm_eligible(s, want, m, k, n) {
            want
        } else {
            default
        }
    }

    /// What is to be reported about the pick for these dimensions.
    pub fn sgemm_notice(&self, s: &SgemmSettings, m: usize, k: usize, n: usize) -> (r: Option<
        SgemmNotice,
    >)
        requires
            dims_fit(m, k, n),
        ensures
            r == pick_notice(*self, *s, m as int, k as int, n as int),
    {
        let default: SgemmVariant = self.pick_sgemm_default(s, m, k, n);
        if let Some(forced) = s.pin {
            if self.sgemm_eligible(s, forced, m, k, n) {
                return None;
            }
            return Some(SgemmNotice::PinRefused(forced, default));
        }
        let want: SgemmVariant = match s.table {
            None => return None,
            Some(d) => from_dispatch(d),
        };
        if want == default || self.sgemm_eligible(s, want, m, k, n) {
            None
        } else {
            Some(SgemmNotice::TableRefused(want, default))
        }
    }

    /// Can this variant legally run at this shape on this device?
    pub fn sgemm_eligible(
        &self,
        s: &SgemmSettings,
        v: SgemmVariant,
        m: usize,
        k: usize,
        n: usize,
    ) -> (r: bool)
        requires
            v == SgemmVariant::Simd64SplitK ==> splits_fit(m, n),
        ensures
            r == eligible(*s, v, m as int, k as int, n as int),
    {
        if !to_dispatch(v).shape_eligible(m, k, n) {
            return false;
        }
        match v {
            SgemmVariant::Mps => s.mps_supported,
            SgemmVariant::Simd64SplitK => pick_ksplits(m, k, n) >= 4,
            _ => true,
        }
    }

    /// The rate that a variant is modelled by at a shape.
    pub fn sgemm_variant_rate(&self, v: SgemmVariant, m: usize, n: usize) -> (r: (RateBase, u32))
        requires
            v == SgemmVariant::Simd64 ==> tiles64(m as int, n as int) <= usize::MAX,
        ensures
            r == variant_rate(v, m as int, n as int),
    {
        match v {
            SgemmVariant::Mps => (RateBase::Simd4x4, 20),
            SgemmVariant::Simd64 => {
                if Self::simd64_has_occupancy(m, n) {
                    (RateBase::Simd4x4, 18)
                } else {
                    (RateBase::Simd4x4, 10)
                }
            },
            SgemmVariant::Simd64SplitK => (RateBase::Simd4x4, 30),
            SgemmVariant::Simd4x4 => (RateBase::Simd4x4, 10),
            SgemmVariant::Simd => (RateBase::Simd, 10),
            SgemmVariant::SimdPadded => (RateBase::Padded, 10),
            SgemmVariant::Tiled => (RateBase::Tiled, 10),
            SgemmVariant::Naive => (RateBase::Tiled, 3),
        }
    }

    /// The cascade that the table and the pin override.
    pub fn pick_sgemm_default(&self, s: &SgemmSettings, m: usize, k: usize, n: usize) -> (r:
        SgemmVariant)
        requires
            dims_fit(m, k, n),
        ensures
            r == default_variant(*self, *s, m as int, k as int, n as int),
    {
        let aligned_8: bool = m % 8 == 0 && k % 8 == 0 && n % 8 == 0;
        proof {
            lemma_mac_fits(m, k, n);
        }
        let flop: u64 = if n == 0 {
            0
        } else {
            (m as u64) * (k as u64) * (n as u64)
        };
        if !s.mps_disabled && s.mps_supported && (s.mps_forced || flop >= self.mps_threshold_flop) {
            return SgemmVariant::Mps;
        }
        if !s.no_sgemm64 && m % 64 == 0 && n % 64 == 0 && k % 8 == 0 && Self::simd64_has_occupancy(
            m,
            n,
        ) {
            return SgemmVariant::Simd64;
        }
        if s.splitk && m % 64 == 0 && n % 64 == 0 && !Self::simd64_has_occupancy(m, n)
            && pick_ksplits(m, k, n) >= 4 {
            return SgemmVariant::Simd64SplitK;
        }
        if m == 1 && n < 64 && !s.mps_disabled && s.mps_supported {
            return SgemmVariant::Mps;
        }
        if k % 32 == 0 && n % 32 == 0 && m % 32 == 0 {
            SgemmVariant::Simd4x4
        } else if m < 32 {
            if s.precise {
                SgemmVariant::Naive
            } else if 2 <= m && m % 8 != 0 && k == n && k >= 256 && !s.mps_disabled
                && !s.no_small_m_mps && s.mps_supported {
                SgemmVariant::Mps
            } else if aligned_8 && m >= 8 && n >= 8 {
                SgemmVariant::Simd
            } else if k % 8 == 0 && n >= 8 {
                SgemmVariant::SimdPadded
            } else if m >= 16 && n >= 16 {
                SgemmVariant::Tiled
            } else {
                SgemmVariant::Naive
            }
        } else if aligned_8 && m >= 8 && n >= 8 {
            SgemmVariant::Simd
        } else if k % 8 == 0 && n >= 8 && m >= 1 {
            SgemmVariant::SimdPadded
        } else if m >= 16 && n >= 16 {
            SgemmVariant::Tiled
        } else {
            SgemmVariant::Naive
        }
    }

    /// Whether product, bias and activation go into a single kernel: always.
    pub fn prefer_fused_matmul_bias(&self, m: usize, k: usize, n: usize) -> (r: bool)
        ensures
            r,
    {
        true
    }

    /// Can a transformer layer's intermediates fit in threadgroup memory?
    pub fn fits_threadgroup_mem(
        &self,
        batch: usize,
        seq: usize,
        hidden: usize,
        intermediate: usize,
    ) -> (r: bool)
        requires
            batch * seq <= usize::MAX,
            5 * hidden + intermediate <= usize::MAX,
            batch * seq * (5 * hidden + intermediate) <= usize::MAX,
            layer_bytes(
                batch as int,
                seq as int,
                hidden as int,
                intermediate as int,
            ) <= usize::MAX,
        ensures
            r == (layer_bytes(batch as int, seq as int, hidden as int, intermediate as int)
                <= self.threadgroup_mem_bytes),
    {
        let m: usize = batch * seq;
        let row: usize = hidden + 3 * hidden + hidden + intermediate;
        let bytes: usize = m * row * 4;
        bytes <= self.threadgroup_mem_bytes
    }
}

proof fn lemma_mac_fits(m: usize, k: usize, n: usize)
    requires
        m * k * n <= u64::MAX,
    ensures
        n == 0 ==> m * k * n == 0,
        n != 0 ==> m * k <= u64::MAX,
{
    assert(n == 0 ==> m * k * n == 0) by (nonlinear_arith);
    assert(n != 0 ==> m * k <= m * k * n) by (nonlinear_arith);
}

/// Whatever the default cascade picks satisfies that kernel's alignment.
pub proof fn lemma_default_is_aligned(hw: MetalHwModel, s: SgemmSettings, m: int, k: int, n: int)
    ensures
        shape_allows(default_variant(hw, s, m, k, n), m, k, n),
{
    lemma_best_split(m, k, n);
    if best_split(m, k, n) >= 4 {
        let b = best_split(m, k, n) as int;
        assert(b == 4 || b == 8 || b == 16 || b == 32);
        if b == 8 {
            assert(k % 64 == 0);
        } else if b == 16 {
            assert(k % 128 == 0);
        } else if b == 32 {
            assert(k % 256 == 0);
        }
        assert(k % 32 == 0);
    }
}

/// No pin and no table entry can bring a kernel to a shape that it would overrun.
pub proof fn lemma_pick_never_overruns(hw: MetalHwModel, s: SgemmSettings, m: int, k: int, n: int)
    ensures
        shape_allows(picked(hw, s, m, k, n), m, k, n),
{
    lemma_default_is_aligned(hw, s, m, k, n);
}

/// Without a pin and without a table entry the pick is the cascade's.
pub proof fn lemma_untuned_pick_is_default(
    hw: MetalHwModel,
    s: SgemmSettings,
    m: int,
    k: int,
    n: int,
)
    requires
        s.pin is None,
        s.table is None,
    ensures
        picked(hw, s, m, k, n) == default_variant(hw, s, m, k, n),
{
}

/// A refused pin or table entry leaves the default in place.
pub proof fn lemma_notice_means_default(
    hw: MetalHwModel,
    s: SgemmSettings,
    m: int,
    k: int,
    n: int,
)
    requires
        pick_notice(hw, s, m, k, n) is Some,
    ensures
        picked(hw, s, m, k, n) == default_variant(hw, s, m, k, n),
{
}

/// The vendor's product is never picked on a device without it.
pub proof fn lemma_mps_only_where_supported(
    hw: MetalHwModel,
    s: SgemmSettings,
    m: int,
    k: int,
    n: int,
)
    ensures
        picked(hw, s, m, k, n) == SgemmVariant::Mps ==> s.mps_supported,
{
}

/// An ASCII letter in lower case; any other character unchanged.
pub open spec fn lower(c: char) -> char {
    if 65 <= c as int <= 90 {
        (c as int + 32) as char
    } else {
        c
    }
}

pub open spec fn lowered(s: Seq<char>) -> Seq<char> {
    Seq::new(s.len(), |i: int| lower(s[i]))
}

fn lower_char(c: char) -> (r: char)
    ensures
        r == lower(c),
{
    let code: u32 = c as u32;
    if 65 <= code && code <= 90 {
        ((code + 32) as u8) as char
    } else {
        c
    }
}

pub fn ascii_lowercase(s: &str) -> (r: Vec<char>)
    ensures
        r@ == lowered(s@),
{
    let chars: Vec<char> = chars_of(s);
    let mut out: Vec<char> = Vec::new();
    let mut i: usize = 0;
    while i < chars.len()
        invariant
            i <= chars@.len(),
            chars@ == s@,
            out@ == lowered(s@).take(i as int),
        decreases chars@.len() - i,
    {
        let c: char = chars[i];
        out.push(lower_char(c));
        i = i + 1;
        assert(out@ =~= lowered(s@).take(i as int));
    }
    assert(lowered(s@).take(i as int) =~= lowered(s@));
    out
}

/// Every accepted spelling of a pin, and the variant it selects.
pub open spec fn pin_table() -> Seq<(&'static str, SgemmVariant)> {
    seq![
        ("mps", SgemmVariant::Mps),
        ("simd4x4", SgemmVariant::Simd4x4),
        ("simd_4x4", SgemmVariant::Simd4x4),
        ("4x4", SgemmVariant::Simd4x4),
        ("simd64", SgemmVariant::Simd64),
        ("simd_64", SgemmVariant::Simd64),
        ("64x64", SgemmVariant::Simd64),
        ("simd64splitk", SgemmVariant::Simd64SplitK),
        ("simd64_splitk", SgemmVariant::Simd64SplitK),
        ("splitk", SgemmVariant::Simd64SplitK),
        ("simd", SgemmVariant::Simd),
        ("simd8", SgemmVariant::Simd),
        ("simd_8", SgemmVariant::Simd),
        ("padded", SgemmVariant::SimdPadded),
        ("simd_padded", SgemmVariant::SimdPadded),
        ("simdpadded", SgemmVariant::SimdPadded),
        ("tiled", SgemmVariant::Tiled),
        ("naive", SgemmVariant::Naive),
    ]
}

pub fn sgemm_pin_names() -> (r: Vec<(&'static str, SgemmVariant)>)
    ensures
        r@ == pin_table(),
{
    let v: Vec<(&'static str, SgemmVariant)> = vec![
        ("mps", SgemmVariant::Mps),
        ("simd4x4", SgemmVariant::Simd4x4),
        ("simd_4x4", SgemmVariant::Simd4x4),
        ("4x4", SgemmVariant::Simd4x4),
        ("simd64", SgemmVariant::Simd64),
        ("simd_64", SgemmVariant::Simd64),
        ("64x64", SgemmVariant::Simd64),
        ("simd64splitk", SgemmVariant::Simd64SplitK),
        ("simd64_splitk", SgemmVariant::Simd64SplitK),
        ("splitk", SgemmVariant::Simd64SplitK),
        ("simd", SgemmVariant::Simd),
        ("simd8", SgemmVariant::Simd),
        ("simd_8", SgemmVariant::Simd),
        ("padded", SgemmVariant::SimdPadded),
        ("simd_padded", SgemmVariant::SimdPadded),
        ("simdpadded", SgemmVariant::SimdPadded),
        ("tiled", SgemmVariant::Tiled),
        ("naive", SgemmVariant::Naive),
    ];
    assert(v@ =~= pin_table());
    v
}

/// The variant of the first row with that name.
pub open spec fn row_named(
    rows: Seq<(&'static str, SgemmVariant)>,
    name: Seq<char>,
) -> Option<SgemmVariant>
    decreases rows.len(),
{
    if rows.len() == 0 {
        None
    } else if rows[0].0@ == name {
        Some(rows[0].1)
    } else {
        row_named(rows.subrange(1, rows.len() as int), name)
    }
}

/// The variant that a pin selects, in any mixture of cases.
pub open spec fn pin_of(raw: Seq<char>) -> Option<SgemmVariant> {
    row_named(pin_table(), lowered(raw))
}

/// The variant that a pin names, if it names one.
pub fn parse_pin(raw: &str) -> (r: Option<SgemmVariant>)
    ensures
        r == pin_of(raw@),
{
    let key: Vec<char> = ascii_lowercase(raw);
    let rows: Vec<(&'static str, SgemmVariant)> = sgemm_pin_names();
    let mut i: usize = 0;
    assert(rows@.subrange(0, rows@.len() as int) =~= rows@);
    while i < rows.len()
        invariant
            i <= rows@.len(),
            rows@ == pin_table(),
            key@ == lowered(raw@),
            pin_of(raw@) == row_named(rows@.subrange(i as int, rows@.len() as int), key@),
        decreases rows@.len() - i,
    {
        let name: Vec<char> = chars_of(rows[i].0);
        let ghost rest = rows@.subrange(i as int, rows@.len() as int);
        assert(rest[0] == rows@[i as int]);
        if same_chars(&name, &key) {
            return Some(rows[i].1);
        }
        assert(rest.subrange(1, rest.len() as int) =~= rows@.subrange(
            i + 1,
            rows@.len() as int,
        ));
        i = i + 1;
    }
    None
}

/// Whether a precision setting asks for the reference path.
pub open spec fn asks_precise(raw: Seq<char>) -> bool {
    let key = lowered(raw);
    key == "1"@ || key == "true"@ || key == "yes"@ || key == "on"@
}

/// The pinned variant: by name, otherwise the reference path where precision is asked for.
pub open spec fn override_of(pin: Option<&str>, precise: Option<&str>) -> Option<SgemmVariant> {
    let named = match pin {
        Some(raw) => pin_of(raw@),
        None => None,
    };
    if named is Some {
        named
    } else if precise matches Some(raw) && asks_precise(raw@) {
        Some(SgemmVariant::Naive)
    } else {
        None
    }
}

/// The variant that the operator forces, from the two settings that can.
pub fn sgemm_variant_override(pin: Option<&str>, precise: Option<&str>) -> (r: Option<SgemmVariant>)
    ensures
        r == override_of(pin, precise),
{
    if let Some(raw) = pin {
        if let Some(v) = parse_pin(raw) {
            return Some(v);
        }
    }
    if let Some(raw) = precise {
        let key: Vec<char> = ascii_lowercase(raw);
        if same_chars(&key, &chars_of("1")) || same_chars(&key, &chars_of("true")) || same_chars(
            &key,
            &chars_of("yes"),
        ) || same_chars(&key, &chars_of("on")) {
            return Some(SgemmVariant::Naive);
        }
    }
    None
}

/// The default threshold for the vendor's product.
pub const MPS_THRESHOLD_FLOP: u64 = 16_000_000;

/// The threshold for the vendor's product, from its setting.
pub fn mps_threshold(raw: Option<&str>) -> (r: u64)
    ensures
        r as nat == threshold_setting(raw),
{
    match raw {
        Some(s) => {
            let chars: Vec<char> = chars_of(s);
            match parse_unsigned(&chars, u64::MAX) {
                Some(n) => n,
                None => MPS_THRESHOLD_FLOP,
            }
        },
        None => MPS_THRESHOLD_FLOP,
    }
}

/// The threshold that a setting asks for.
pub open spec fn threshold_setting(raw: Option<&str>) -> nat {
    match raw {
        Some(s) => match parsed_unsigned(s@, u64::MAX as nat) {
            Some(n) => n,
            None => MPS_THRESHOLD_FLOP as nat,
        },
        None => MPS_THRESHOLD_FLOP as nat,
    }
}

/// Threadgroup memory of every generation.
pub const THREADGROUP_MEM_BYTES: usize = 32_768;

impl MetalHwModel {
    /// The model of a device, from its generation, its memory and the setting of the threshold.
    pub fn detect(gpu_family: AppleGpuFamily, unified_memory: bool, raw: Option<&str>) -> (r: Self)
        ensures
            r.gpu_family == gpu_family,
            r.unified_memory == unified_memory,
            r.threadgroup_mem_bytes == THREADGROUP_MEM_BYTES,
            r.mps_threshold_flop as nat == threshold_setting(raw),
    {
        MetalHwModel {
            gpu_family,
            threadgroup_mem_bytes: THREADGROUP_MEM_BYTES,
            unified_memory,
            mps_threshold_flop: mps_threshold(raw),
        }
    }
}

/// Default rates of a GPU generation in GFLOP/s: simdgroup, padded and tiled.
pub open spec fn family_rates(f: AppleGpuFamily) -> (u32, u32, u32) {
    match f {
        AppleGpuFamily::M4 => (600, 350, 100),
        AppleGpuFamily::M3 => (500, 300, 90),
        AppleGpuFamily::M2 => (400, 240, 75),
        AppleGpuFamily::M1Pro => (350, 200, 65),
        AppleGpuFamily::M1 => (200, 110, 40),
        AppleGpuFamily::Unknown => (300, 180, 60),
    }
}

pub fn default_rates(f: AppleGpuFamily) -> (r: (u32, u32, u32))
    ensures
        r == family_rates(f),
{
    match f {
        AppleGpuFamily::M4 => (600, 350, 100),
        AppleGpuFamily::M3 => (500, 300, 90),
        AppleGpuFamily::M2 => (400, 240, 75),
        AppleGpuFamily::M1Pro => (350, 200, 65),
        AppleGpuFamily::M1 => (200, 110, 40),
        AppleGpuFamily::Unknown => (300, 180, 60),
    }
}

/// Rates of the four kernels that the model knows, in one unit.
pub struct KernelRates {
    pub simd_4x4: int,
    pub simd: int,
    pub padded: int,
    pub tiled: int,
}

/// The default rates of a GPU generation, in tenths of a GFLOP/s. The kernel on 32 by 32 tiles is
/// taken to be three and a half times as fast as the one on single tiles.
pub open spec fn family_kernel_rates(f: AppleGpuFamily) -> KernelRates {
    let (simd, padded, tiled) = family_rates(f);
    KernelRates { simd_4x4: 35 * simd, simd: 10 * simd, padded: 10 * padded, tiled: 10 * tiled }
}

/// The rate that the model gives a variant at a shape, in tenths.
pub open spec fn modelled_rate(r: KernelRates, v: SgemmVariant, m: int, n: int) -> int {
    let (base, tenths) = variant_rate(v, m, n);
    let measured = match base {
        RateBase::Simd4x4 => r.simd_4x4,
        RateBase::Simd => r.simd,
        RateBase::Padded => r.padded,
        RateBase::Tiled => r.tiled,
    };
    measured * tenths
}

/// The modelled rates, variant by variant.
pub proof fn lemma_modelled_rate(r: KernelRates, v: SgemmVariant, m: int, n: int)
    ensures
        modelled_rate(r, v, m, n) == match v {
            SgemmVariant::Mps => 20 * r.simd_4x4,
            SgemmVariant::Simd64 => if occupies(m, n) {
                18 * r.simd_4x4
            } else {
                10 * r.simd_4x4
            },
            SgemmVariant::Simd64SplitK => 30 * r.simd_4x4,
            SgemmVariant::Simd4x4 => 10 * r.simd_4x4,
            SgemmVariant::Simd => 10 * r.simd,
            SgemmVariant::SimdPadded => 10 * r.padded,
            SgemmVariant::Tiled => 10 * r.tiled,
            SgemmVariant::Naive => 3 * r.tiled,
        },
{
    match v {
        SgemmVariant::Naive => {
            assert(r.tiled * 3 == 3 * r.tiled);
        },
        SgemmVariant::Simd64 => {
            if occupies(m, n) {
                assert(r.simd_4x4 * 18 == 18 * r.simd_4x4);
            }
        },
        _ => {},
    }
}

/// The cascade ends at one of the simdgroup kernels. It passes by a big-tile kernel that the shape
/// allows neither because it was switched off nor because the inner dimension does not suit the
/// next smaller one, and it does not pad where there is nothing to pad, as it does without rows.
pub open spec fn well_served(hw: MetalHwModel, s: SgemmSettings, m: int, k: int, n: int) -> bool {
    let v = default_variant(hw, s, m, k, n);
    let big = shape_allows(SgemmVariant::Simd64, m, k, n);
    &&& v != SgemmVariant::Mps && v != SgemmVariant::Tiled && v != SgemmVariant::Naive
    &&& big ==> v != SgemmVariant::Simd
    &&& shape_allows(SgemmVariant::Simd, m, k, n) ==> v != SgemmVariant::SimdPadded
    &&& big && s.no_sgemm64 ==> !occupies(m, n)
}

/// No kernel on the device that the shape allows would be more than half as fast again as the one
/// that the cascade picks, whatever the rates are, as long as the simpler kernels are not much
/// faster than the more demanding ones.
pub proof fn lemma_cascade_is_not_beaten(
    hw: MetalHwModel,
    s: SgemmSettings,
    m: int,
    k: int,
    n: int,
    c: SgemmVariant,
    r: KernelRates,
)
    requires
        0 <= m,
        0 <= n,
        well_served(hw, s, m, k, n),
        shape_allows(c, m, k, n),
        c != SgemmVariant::Mps && c != SgemmVariant::Simd64SplitK,
        0 <= r.tiled,
        r.simd_4x4 >= r.simd,
        r.simd_4x4 >= r.padded,
        r.simd_4x4 >= r.tiled,
        3 * r.simd >= 2 * r.padded,
        3 * r.simd >= 2 * r.tiled,
        3 * r.padded >= 2 * r.tiled,
    ensures
        3 * modelled_rate(r, default_variant(hw, s, m, k, n), m, n) >= 2 * modelled_rate(r, c, m, n),
        r.simd >= r.padded >= r.tiled ==> modelled_rate(r, default_variant(hw, s, m, k, n), m, n)
            >= modelled_rate(r, c, m, n),
{
    lemma_modelled_rate(r, default_variant(hw, s, m, k, n), m, n);
    lemma_modelled_rate(r, c, m, n);
}

/// At the default rates of any GPU generation, the kernel that the cascade picks is the fastest
/// that the shape allows.
pub proof fn lemma_cascade_picks_the_fastest(
    hw: MetalHwModel,
    s: SgemmSettings,
    m: int,
    k: int,
    n: int,
    c: SgemmVariant,
    f: AppleGpuFamily,
)
    requires
        0 <= m,
        0 <= n,
        well_served(hw, s, m, k, n),
        shape_allows(c, m, k, n),
        c != SgemmVariant::Mps && c != SgemmVariant::Simd64SplitK,
    ensures
        ({
            let r = family_kernel_rates(f);
            modelled_rate(r, default_variant(hw, s, m, k, n), m, n) >= modelled_rate(r, c, m, n)
        }),
{
    lemma_cascade_is_not_beaten(hw, s, m, k, n, c, family_kernel_rates(f));
}

/// Every row of the table is found under its own name.
pub proof fn lemma_every_pin_name_selects_its_variant(i: int)
    requires
        0 <= i < pin_table().len(),
    ensures
        row_named(pin_table(), pin_table()[i].0@) == Some(pin_table()[i].1),
{
    lemma_pin_names_distinct();
    lemma_row_found(pin_table(), i);
}

spec fn names_distinct(rows: Seq<(&'static str, SgemmVariant)>) -> bool {
    forall|a: int, b: int|
        0 <= a < b < rows.len() ==> (#[trigger] rows[a]).0@ != (#[trigger] rows[b]).0@
}

proof fn lemma_row_found(rows: Seq<(&'static str, SgemmVariant)>, i: int)
    requires
        0 <= i < rows.len(),
        names_distinct(rows),
    ensures
        row_named(rows, rows[i].0@) == Some(rows[i].1),
    decreases i,
{
    if i > 0 {
        let rest = rows.subrange(1, rows.len() as int);
        assert(rows[0].0@ != rows[i].0@);
        assert forall|a: int, b: int| 0 <= a < b < rest.len() implies (#[trigger] rest[a]).0@ != (
        #[trigger] rest[b]).0@ by {
            assert(rest[a] == rows[a + 1]);
            assert(rest[b] == rows[b + 1]);
        }
        assert(rest[i - 1] == rows[i]);
        lemma_row_found(rest, i - 1);
    }
}

proof fn lemma_pin_names_distinct()
    ensures
        names_distinct(pin_table()),
{
    reveal_strlit("mps");
    reveal_strlit("simd4x4");
    reveal_strlit("simd_4x4");
    reveal_strlit("4x4");
    reveal_strlit("simd64");
    reveal_strlit("simd_64");
    reveal_strlit("64x64");
    reveal_strlit("simd64splitk");
    reveal_strlit("simd64_splitk");
    reveal_strlit("splitk");
    reveal_strlit("simd");
    reveal_strlit("simd8");
    reveal_strlit("simd_8");
    reveal_strlit("padded");
    reveal_strlit("simd_padded");
    reveal_strlit("simdpadded");
    reveal_strlit("tiled");
    reveal_strlit("naive");
    let t = pin_table();
    // Names of one length differ in their first, second or fifth letter.
    assert forall|a: int, b: int| 0 <= a < b < t.len() implies (#[trigger] t[a]).0@ != (#[trigger] t[b]).0@ by {
        let x = t[a].0@;
        let y = t[b].0@;
        if x == y {
            assert(x.len() == y.len());
            assert(x[0] == y[0]);
            assert(x[1] == y[1]);
            assert(x[4] == y[4]);
        }
    }
}

/// Every variant has a spelling, so every variant can be pinned.
pub proof fn lemma_every_variant_can_be_pinned(v: SgemmVariant)
    ensures
        exists|i: int| 0 <= i < pin_table().len() && (#[trigger] pin_table()[i]).1 == v,
{
    let t = pin_table();
    assert(t[0].1 == SgemmVariant::Mps);
    assert(t[1].1 == SgemmVariant::Simd4x4);
    assert(t[4].1 == SgemmVariant::Simd64);
    assert(t[7].1 == SgemmVariant::Simd64SplitK);
    assert(t[10].1 == SgemmVariant::Simd);
    assert(t[13].1 == SgemmVariant::SimdPadded);
    assert(t[16].1 == SgemmVariant::Tiled);
    assert(t[17].1 == SgemmVariant::Naive);
}

/// Case does not matter in a pin.
pub proof fn lemma_pin_ignores_case(a: Seq<char>, b: Seq<char>)
    requires
        lowered(a) == lowered(b),
    ensures
        pin_of(a) == pin_of(b),
{
}

} // verus!
