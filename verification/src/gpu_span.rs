//! How long the device was busy with the last run. Spans travel as the bit patterns of floats in
//! double precision.

use vstd::prelude::*;

verus! {

/// The span of the last run, or a mark that none was recorded.
#[derive(Clone, Copy, Debug, PartialEq, Eq, Structural)]
pub struct GpuSpan {
    pub bits: u64,
}

/// The mark that no span was recorded. It is the pattern of no number.
pub const NOT_RECORDED: u64 = 0xffff_ffff_ffff_ffff;

/// The pattern of infinity.
pub const INFINITY_BITS: u64 = 0x7ff0_0000_0000_0000;

/// A pattern of a number that is finite and greater than zero.
pub open spec fn measurable(bits: u64) -> bool {
    0 < bits < INFINITY_BITS
}

/// The recorded span, if there is one.
pub open spec fn span(s: GpuSpan) -> Option<u64> {
    if s.bits == NOT_RECORDED {
        None
    } else {
        Some(s.bits)
    }
}

/// Nothing recorded yet.
pub fn unrecorded() -> (r: GpuSpan)
    ensures
        span(r) is None,
{
    GpuSpan { bits: NOT_RECORDED }
}

/// Records a span in milliseconds. A span of zero means that the device did not report one, so it
/// is refused, as every span that is not finite and positive is.
pub fn record(s: &mut GpuSpan, ms: u64)
    ensures
        span(*final(s)) == (if measurable(ms) {
            Some(ms)
        } else {
            None
        }),
{
    if 0 < ms && ms < INFINITY_BITS {
        s.bits = ms;
    } else {
        s.bits = NOT_RECORDED;
    }
}

/// The span of the last run in milliseconds, where one was recorded.
pub fn last_ms(s: &GpuSpan) -> (r: Option<u64>)
    ensures
        r == span(*s),
{
    if s.bits == NOT_RECORDED {
        None
    } else {
        Some(s.bits)
    }
}

/// Forgets the last span.
pub fn reset(s: &mut GpuSpan)
    ensures
        span(*final(s)) is None,
{
    s.bits = NOT_RECORDED;
}

} // verus!
