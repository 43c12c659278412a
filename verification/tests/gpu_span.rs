use rlx_metal::gpu_span::{last_ms, record, reset, unrecorded};

#[test]
fn a_recorded_span_round_trips() {
    let mut span = unrecorded();
    reset(&mut span);
    assert_eq!(last_ms(&span), None);
    record(&mut span, 1.25f64.to_bits());
    assert_eq!(last_ms(&span).map(f64::from_bits), Some(1.25));
}

#[test]
fn a_zero_or_nonfinite_span_is_refused_rather_than_recorded() {
    let mut span = unrecorded();
    for bad in [0.0, -1.0, f64::NAN, f64::INFINITY] {
        record(&mut span, 1.0f64.to_bits());
        record(&mut span, bad.to_bits());
        assert_eq!(
            last_ms(&span),
            None,
            "{bad} should not be recorded as a span"
        );
    }
}

#[test]
fn the_smallest_and_largest_spans_are_recorded() {
    let mut span = unrecorded();
    for ms in [f64::MIN_POSITIVE, f64::from_bits(1), f64::MAX] {
        record(&mut span, ms.to_bits());
        assert_eq!(last_ms(&span).map(f64::from_bits), Some(ms));
    }
    record(&mut span, (-0.0f64).to_bits());
    assert_eq!(last_ms(&span), None);
    record(&mut span, f64::NEG_INFINITY.to_bits());
    assert_eq!(last_ms(&span), None);
}
