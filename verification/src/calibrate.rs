//! Measuring what the matrix kernels reach on the attached device: which products are timed, how
//! they are laid out and encoded, and which stored results are used again.

use vstd::prelude::*;

use crate::blas::{launch_fits, metal_sgemm, product_steps};
use crate::command::{Buf, Cmd};
use crate::cost::{picked, MetalHwModel, SgemmSettings};
use crate::text::{chars_of, parse_unsigned, parsed_unsigned};

verus! {

/// Measured results of one device. Rates in operations per second and times in nanoseconds travel
/// as the bit patterns of floats in double precision.
#[derive(Debug)]
pub struct Calibration {
    pub gpu_name: String,
    pub registry_id: u64,
    pub sgemm_simd_4x4_flops: u64,
    pub sgemm_simd_flops: u64,
    pub sgemm_padded_flops: u64,
    pub sgemm_tiled_flops: u64,
    pub roundtrip_overhead_ns: u64,
    pub attention_flops: u64,
}

impl Calibration {
    /// Stored results are used only on the device that they were measured on.
    pub fn load(stored: Option<Calibration>, registry_id: u64) -> (r: Option<Calibration>)
        ensures
            r == (match stored {
                Some(cal) => if cal.registry_id == registry_id {
                    Some(cal)
                } else {
                    None
                },
                None => None,
            }),
    {
        match stored {
            Some(cal) => if cal.registry_id == registry_id {
                Some(cal)
            } else {
                None
            },
            None => None,
        }
    }
}

/// A hexadecimal digit.
pub open spec fn hex_char(d: nat) -> char {
    if d < 10 {
        ('0' as u8 + d) as char
    } else {
        ('a' as u8 + (d - 10)) as char
    }
}

/// A number in hexadecimal, without leading zeros.
pub open spec fn hexadecimal(n: nat) -> Seq<char>
    decreases n,
{
    if n < 16 {
        seq![hex_char(n)]
    } else {
        hexadecimal(n / 16).push(hex_char(n % 16))
    }
}

fn push_hex_digit(out: &mut String, d: u64)
    requires
        d < 16,
    ensures
        final(out)@ == old(out)@.push(hex_char(d as nat)),
{
    let ghost before = out@;
    let digit: &str = if d == 0 {
        "0"
    } else if d == 1 {
        "1"
    } else if d == 2 {
        "2"
    } else if d == 3 {
        "3"
    } else if d == 4 {
        "4"
    } else if d == 5 {
        "5"
    } else if d == 6 {
        "6"
    } else if d == 7 {
        "7"
    } else if d == 8 {
        "8"
    } else if d == 9 {
        "9"
    } else if d == 10 {
        "a"
    } else if d == 11 {
        "b"
    } else if d == 12 {
        "c"
    } else if d == 13 {
        "d"
    } else if d == 14 {
        "e"
    } else {
        "f"
    };
    proof {
        reveal_strlit("0");
        reveal_strlit("1");
        reveal_strlit("2");
        reveal_strlit("3");
        reveal_strlit("4");
        reveal_strlit("5");
        reveal_strlit("6");
        reveal_strlit("7");
        reveal_strlit("8");
        reveal_strlit("9");
        reveal_strlit("a");
        reveal_strlit("b");
        reveal_strlit("c");
        reveal_strlit("d");
        reveal_strlit("e");
        reveal_strlit("f");
    }
    out.append(digit);
    assert(out@ =~= before.push(hex_char(d as nat)));
}

fn push_hexadecimal(out: &mut String, n: u64)
    ensures
        final(out)@ == old(out)@ + hexadecimal(n as nat),
    decreases n,
{
    let ghost before = out@;
    if n >= 16 {
        push_hexadecimal(out, n / 16);
    }
    push_hex_digit(out, n % 16);
    assert(out@ =~= before + hexadecimal(n as nat));
}

/// The name of the file that keeps the results of a device.
pub fn cache_file_name(registry_id: u64) -> (r: String)
    ensures
        r@ == "metal-calib-"@ + hexadecimal(registry_id as nat) + ".json"@,
{
    let mut out: String = "metal-calib-".to_owned();
    push_hexadecimal(&mut out, registry_id);
    out.append(".json");
    out
}

/// Whether measuring reports what it does: the setting is a number of at least one.
pub fn verbose(raw: Option<&str>) -> (r: bool)
    ensures
        r == (match raw {
            Some(s) => match parsed_unsigned(s@, u8::MAX as nat) {
                Some(n) => n >= 1,
                None => false,
            },
            None => false,
        }),
{
    match raw {
        Some(s) => match parse_unsigned(&chars_of(s), 255) {
            Some(n) => n >= 1,
            None => false,
        },
        None => false,
    }
}

/// Where the two factors and the result of a probe lie in one buffer, in bytes.
#[derive(Clone, Copy, Debug, PartialEq, Eq, Structural)]
pub struct ProbeLayout {
    pub a_off: usize,
    pub b_off: usize,
    pub c_off: usize,
    pub total: usize,
}

/// The floats of both factors and the result can be counted in bytes.
pub open spec fn probe_fits(m: usize, k: usize, n: usize) -> bool {
    &&& m * k <= usize::MAX
    &&& k * n <= usize::MAX
    &&& m * n <= usize::MAX
    &&& (m * k + k * n + m * n) * 4 <= usize::MAX
}

pub open spec fn layout(m: int, k: int, n: int) -> ProbeLayout {
    ProbeLayout {
        a_off: 0,
        b_off: (m * k * 4) as usize,
        c_off: ((m * k + k * n) * 4) as usize,
        total: ((m * k + k * n + m * n) * 4) as usize,
    }
}

/// The layout of a probe: the result lies behind the factors.
pub fn probe_layout(m: usize, k: usize, n: usize) -> (r: ProbeLayout)
    requires
        probe_fits(m, k, n),
    ensures
        r == layout(m as int, k as int, n as int),
{
    assert(0 <= m * k && 0 <= k * n && 0 <= m * n) by (nonlinear_arith);
    ProbeLayout {
        a_off: 0,
        b_off: m * k * 4,
        c_off: (m * k + k * n) * 4,
        total: (m * k + k * n + m * n) * 4,
    }
}

/// The numerator, over 257, of the `i`th float of a probe's factors.
pub fn probe_value(i: usize) -> (r: u32)
    requires
        i * 13 + 7 <= usize::MAX,
    ensures
        r == (i * 13 + 7) % 257,
        r < 257,
{
    ((i * 13 + 7) % 257) as u32
}

/// The commands of a product, so many times over.
pub open spec fn repeated_product(
    hw: MetalHwModel,
    s: SgemmSettings,
    m: usize,
    k: usize,
    n: usize,
    times: nat,
) -> Seq<Cmd>
    decreases times,
{
    if times == 0 {
        Seq::empty()
    } else {
        let l = layout(m as int, k as int, n as int);
        repeated_product(hw, s, m, k, n, (times - 1) as nat) + product_steps(
            picked(hw, s, m as int, k as int, n as int),
            Buf::Arena,
            l.a_off,
            Buf::Arena,
            l.b_off,
            Buf::Arena,
            l.c_off,
            m,
            k,
            n,
        )
    }
}

/// Products of one probe that are run before timing, and those that are timed.
pub const WARMUP_ITERS: u64 = 2;

pub const TIMED_ITERS: u64 = 50;

/// Encodes a probe's product so many times.
pub fn encode_probe(
    enc: &mut Vec<Cmd>,
    hw: &MetalHwModel,
    s: &SgemmSettings,
    m: usize,
    k: usize,
    n: usize,
    times: u64,
)
    requires
        launch_fits(m, k, n),
        probe_fits(m, k, n),
    ensures
        final(enc)@ == old(enc)@ + repeated_product(*hw, *s, m, k, n, times as nat),
{
    let ghost before = enc@;
    let l: ProbeLayout = probe_layout(m, k, n);
    let mut i: u64 = 0;
    assert(before + repeated_product(*hw, *s, m, k, n, 0) =~= before);
    while i < times
        invariant
            i <= times,
            launch_fits(m, k, n),
            l == layout(m as int, k as int, n as int),
            enc@ == before + repeated_product(*hw, *s, m, k, n, i as nat),
        decreases times - i,
    {
        metal_sgemm(enc, hw, s, l.a_off, l.b_off, l.c_off, m, k, n);
        i = i + 1;
        assert(enc@ =~= before + repeated_product(*hw, *s, m, k, n, i as nat));
    }
}

/// The operations of a timed probe.
pub fn probe_flops(m: usize, k: usize, n: usize) -> (r: u64)
    requires
        m * k <= u64::MAX,
        m * k * n * 100 <= u64::MAX,
    ensures
        r == 2 * (m * k * n) * TIMED_ITERS,
{
    assert(0 <= m * k * n) by (nonlinear_arith);
    assert(m * k * n <= u64::MAX);
    2 * ((m as u64) * (k as u64) * (n as u64)) * TIMED_ITERS
}

/// The products that are timed, one for each kernel: a large one, a small aligned one, one with few
/// rows, and one whose columns fit no tile.
pub fn probe_shapes() -> (r: Vec<(usize, usize, usize)>)
    ensures
        r@ == seq![
            (256usize, 768usize, 3072usize),
            (8usize, 512usize, 512usize),
            (6usize, 768usize, 768usize),
            (64usize, 128usize, 17usize),
        ],
{
    let r: Vec<(usize, usize, usize)> = vec![
        (256, 768, 3072),
        (8, 512, 512),
        (6, 768, 768),
        (64, 128, 17),
    ];
    assert(r@ =~= seq![
        (256usize, 768usize, 3072usize),
        (8usize, 512usize, 512usize),
        (6usize, 768usize, 768usize),
        (64usize, 128usize, 17usize),
    ]);
    r
}

/// The operations of causal attention over this shape: the mask leaves half of the pairs.
pub fn attention_probe_flops(batch: u64, heads: u64, seq: u64, head_dim: u64) -> (r: u64)
    requires
        batch * heads <= u64::MAX,
        seq * seq <= u64::MAX,
        (batch * heads) * (seq * seq) <= u64::MAX,
        2 * ((batch * heads) * (seq * seq) * head_dim) <= u64::MAX,
    ensures
        r == 2 * ((batch * heads) * (seq * seq) * head_dim),
{
    2 * ((batch * heads) * (seq * seq) * head_dim)
}

/// The areas of a probe follow one another and fill its buffer.
pub proof fn lemma_probe_areas_adjoin(m: usize, k: usize, n: usize)
    requires
        probe_fits(m, k, n),
    ensures
        ({
            let l = layout(m as int, k as int, n as int);
            &&& l.a_off + m * k * 4 == l.b_off
            &&& l.b_off + k * n * 4 == l.c_off
            &&& l.c_off + m * n * 4 == l.total
        }),
{
    assert(0 <= m * k && 0 <= k * n && 0 <= m * n) by (nonlinear_arith);
}

} // verus!
