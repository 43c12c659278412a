use rlx_metal::cost::{
    ascii_lowercase, default_rates, from_dispatch, mps_threshold, parse_pin, pick_ksplits,
    sgemm_pin_names, sgemm_variant_override, to_dispatch, AppleGpuFamily, MetalHwModel, MetalSgemm,
    RateBase, SgemmNotice, SgemmSettings, SgemmVariant,
};
use rlx_metal::estimate::ProductCost;

const VARIANTS: [SgemmVariant; 8] = [
    SgemmVariant::Mps,
    SgemmVariant::Simd4x4,
    SgemmVariant::Simd64,
    SgemmVariant::Simd64SplitK,
    SgemmVariant::Simd,
    SgemmVariant::SimdPadded,
    SgemmVariant::Tiled,
    SgemmVariant::Naive,
];

const TABLE: [MetalSgemm; 8] = [
    MetalSgemm::Mps,
    MetalSgemm::Simd4x4,
    MetalSgemm::Simd64,
    MetalSgemm::Simd64SplitK,
    MetalSgemm::Simd,
    MetalSgemm::SimdPadded,
    MetalSgemm::Tiled,
    MetalSgemm::Naive,
];

fn clean() -> SgemmSettings {
    SgemmSettings {
        pin: None,
        table: None,
        mps_forced: false,
        mps_disabled: false,
        mps_supported: true,
        no_sgemm64: false,
        splitk: false,
        precise: false,
        no_small_m_mps: false,
    }
}

fn without_mps() -> SgemmSettings {
    SgemmSettings {
        mps_disabled: true,
        ..clean()
    }
}

fn model() -> MetalHwModel {
    MetalHwModel::detect(AppleGpuFamily::M4, true, None)
}

/// Measured rates in operations per second.
struct Rates {
    simd_4x4: f64,
    simd: f64,
    padded: f64,
    tiled: f64,
    attention: f64,
    dispatch_ns: f64,
}

fn family_rates(f: AppleGpuFamily) -> Rates {
    let (simd, padded, tiled) = default_rates(f);
    let simd_4x4 = simd as f64 * 1e9 * 3.5;
    Rates {
        simd_4x4,
        simd: simd as f64 * 1e9,
        padded: padded as f64 * 1e9,
        tiled: tiled as f64 * 1e9,
        attention: simd_4x4 / 3.0,
        dispatch_ns: 8_000.0,
    }
}

fn rates_for_cost_tests() -> Rates {
    Rates {
        simd_4x4: 2_000e9,
        simd: 60e9,
        padded: 2_000e9,
        tiled: 2_000e9,
        attention: 700e9,
        dispatch_ns: 20_000.0,
    }
}

impl Rates {
    fn rate(&self, base: RateBase, tenths: u32) -> f64 {
        let measured = match base {
            RateBase::Simd4x4 => self.simd_4x4,
            RateBase::Simd => self.simd,
            RateBase::Padded => self.padded,
            RateBase::Tiled => self.tiled,
        };
        measured * tenths as f64 / 10.0
    }

    fn cost_ns(&self, c: ProductCost) -> f64 {
        c.flops as f64 / self.rate(c.base, c.tenths) * 1e9 + self.dispatch_ns
    }

    fn forward_ns(&self, batch: usize, seq: usize, hidden: usize, intermediate: usize) -> f64 {
        let f = model().transformer_forward_cost(&clean(), batch, seq, hidden, intermediate, 12, 1);
        let products =
            self.cost_ns(f.qkv) + self.cost_ns(f.out) + self.cost_ns(f.fc1) + self.cost_ns(f.fc2);
        let attention = f.attention_flops as f64 / self.attention * 1e9;
        (products + attention + f.dispatches as f64 * self.dispatch_ns) * f.layers as f64
    }
}

#[test]
fn probe_eligibility_of_affected_shapes() {
    let hw = model();
    let s = clean();
    let mut rows: Vec<(Vec<&str>, SgemmVariant)> = Vec::new();
    for (m, k, n) in [(8usize, 16usize, 16usize), (6, 7, 7), (16, 128, 3072)] {
        let elig: Vec<&str> = [
            (SgemmVariant::Simd, "Simd"),
            (SgemmVariant::SimdPadded, "SimdPadded"),
            (SgemmVariant::Tiled, "Tiled"),
        ]
        .into_iter()
        .filter(|(v, _)| hw.sgemm_eligible(&s, *v, m, k, n))
        .map(|(_, name)| name)
        .collect();
        println!(
            "{m}x{k}x{n}: eligible={elig:?} picked={:?}",
            hw.pick_sgemm(&s, m, k, n)
        );
        rows.push((elig, hw.pick_sgemm(&s, m, k, n)));
    }
    assert!(rows[0].0.contains(&"Simd"));
    assert_eq!(rows[0].1, SgemmVariant::Simd);
    assert_eq!(rows[1].1, SgemmVariant::Naive);
    assert_eq!(rows[2].1, SgemmVariant::Simd);
}

#[test]
fn the_cascade_never_picks_a_variant_its_own_cost_model_beats() {
    let m = model();
    let s = clean();
    let rates = family_rates(AppleGpuFamily::M4);
    let candidates = [
        SgemmVariant::Simd4x4,
        SgemmVariant::Simd64,
        SgemmVariant::Simd,
        SgemmVariant::SimdPadded,
        SgemmVariant::Tiled,
    ];
    let mut worst: Option<(usize, usize, usize, SgemmVariant, SgemmVariant, f64)> = None;
    let mut count = 0usize;
    for &mm in &[1usize, 2, 8, 16, 32, 64, 128, 256, 512, 1024] {
        for &kk in &[64usize, 128, 512, 1024, 2048] {
            for &nn in &[64usize, 128, 512, 1024, 3072] {
                let picked = m.pick_sgemm(&s, mm, kk, nn);
                if matches!(picked, SgemmVariant::Mps) {
                    continue;
                }
                let picked_cost = rates.cost_ns(m.sgemm_cost(&s, mm, kk, nn));
                for &c in &candidates {
                    if c == picked || !m.sgemm_eligible(&s, c, mm, kk, nn) {
                        continue;
                    }
                    let flops = 2.0 * mm as f64 * kk as f64 * nn as f64;
                    let (base, tenths) = m.sgemm_variant_rate(c, mm, nn);
                    let alt = flops / rates.rate(base, tenths) * 1e9 + rates.dispatch_ns;
                    let ratio = picked_cost / alt;
                    if ratio > 1.5 {
                        count += 1;
                        if worst.as_ref().map_or(true, |w| ratio > w.5) {
                            worst = Some((mm, kk, nn, picked, c, ratio));
                        }
                    }
                }
            }
        }
    }
    if let Some((mm, kk, nn, picked, better, ratio)) = worst {
        panic!(
            "cascade picked {picked:?} at {mm}x{kk}x{nn} where {better:?} was eligible and the \
             model scores it {ratio:.1}x cheaper ({count} such shape(s) in the sweep)"
        );
    }
}

#[test]
fn sgemm_cost_is_in_nanoseconds_not_seconds() {
    let rates = rates_for_cost_tests();
    let ns = rates.cost_ns(model().sgemm_cost(&clean(), 1024, 1024, 1024));
    assert!(
        (1e5..1e8).contains(&ns),
        "1024^3 should cost ~1e6 ns; got {ns:.3} — units regression"
    );
    assert!(
        ns > 10.0 * rates.dispatch_ns,
        "compute term is being swamped by dispatch overhead again"
    );
}

#[test]
fn sgemm_cost_scales_with_work() {
    let rates = rates_for_cost_tests();
    let small = rates.cost_ns(model().sgemm_cost(&clean(), 256, 256, 256)) - rates.dispatch_ns;
    let big = rates.cost_ns(model().sgemm_cost(&clean(), 1024, 1024, 1024)) - rates.dispatch_ns;
    let ratio = big / small;
    assert!(
        (60.0..70.0).contains(&ratio),
        "64x the FLOPs should be ~64x the compute: got {ratio:.1}x ({small:.0} -> {big:.0} ns)"
    );
}

#[test]
fn attention_cost_is_quadratic_in_sequence() {
    let rates = rates_for_cost_tests();
    let at = |seq: usize| rates.forward_ns(1, seq, 1024, 4096);
    let (s1, s2, s4) = (at(512), at(1024), at(2048));
    let d1 = s2 - s1;
    let d2 = s4 - s2;
    assert!(
        d2 > 2.5 * d1,
        "attention should grow superlinearly in seq: deltas {d1:.0} then {d2:.0}"
    );
}

#[test]
fn attention_cost_accounts_for_batch() {
    let rates = rates_for_cost_tests();
    let b1 = rates.forward_ns(1, 1024, 1024, 4096);
    let b4 = rates.forward_ns(4, 1024, 1024, 4096);
    assert!(
        b4 > 3.0 * b1,
        "4x the batch should cost ~4x: {b1:.0} -> {b4:.0}"
    );
}

#[test]
fn picks_simd_for_aligned() {
    let hw = model();
    let s = without_mps();
    assert_eq!(hw.pick_sgemm(&s, 64, 768, 2304), SgemmVariant::Simd64);
    assert_eq!(hw.pick_sgemm(&s, 750, 768, 2304), SgemmVariant::SimdPadded);
    assert_eq!(hw.pick_sgemm(&s, 8, 16, 16), SgemmVariant::Simd);
    assert_eq!(hw.pick_sgemm(&s, 6, 768, 2304), SgemmVariant::SimdPadded);
    assert_eq!(hw.pick_sgemm(&s, 2, 2048, 2048), SgemmVariant::SimdPadded);
    assert_eq!(hw.pick_sgemm(&s, 6, 7, 7), SgemmVariant::Naive);
    let precise = SgemmSettings { precise: true, ..s };
    assert_eq!(hw.pick_sgemm(&precise, 6, 768, 2304), SgemmVariant::Naive);
}

#[test]
fn dispatch_variant_mapping_round_trips() {
    for v in VARIANTS {
        assert_eq!(from_dispatch(to_dispatch(v)), v, "round-trip {v:?}");
    }
    for d in TABLE {
        assert_eq!(to_dispatch(from_dispatch(d)), d, "round-trip {d:?}");
    }
}

#[test]
fn untuned_pick_equals_the_hand_written_cascade() {
    let hw = model();
    let s = clean();
    for (m, k, n) in [
        (1, 1024, 1024),
        (6, 768, 2304),
        (64, 768, 2304),
        (750, 768, 2304),
        (2048, 2048, 2048),
        (8, 16, 16),
        (6, 7, 7),
    ] {
        assert_eq!(
            hw.pick_sgemm(&s, m, k, n),
            hw.pick_sgemm_default(&s, m, k, n),
            "untuned pick drifted at {m}x{k}x{n}"
        );
    }
}

#[test]
fn sgemm_pin_names_cover_every_variant() {
    for v in VARIANTS {
        // A variant without an arm here does not compile.
        match v {
            SgemmVariant::Mps
            | SgemmVariant::Simd4x4
            | SgemmVariant::Simd64
            | SgemmVariant::Simd64SplitK
            | SgemmVariant::Simd
            | SgemmVariant::SimdPadded
            | SgemmVariant::Tiled
            | SgemmVariant::Naive => {}
        }
        assert!(
            sgemm_pin_names().iter().any(|(_, pinned)| *pinned == v),
            "{v:?} has no RLX_METAL_SGEMM_VARIANT spelling, so it cannot be A/B'd"
        );
    }
}

#[test]
fn every_pin_name_parses_to_its_variant() {
    for (name, want) in sgemm_pin_names() {
        assert_eq!(
            sgemm_variant_override(Some(name), None),
            Some(want),
            "pin name {name:?} did not select {want:?}"
        );
        assert_eq!(
            sgemm_variant_override(Some(name.to_ascii_uppercase().as_str()), None),
            Some(want),
            "{name:?} is case-sensitive"
        );
    }
}

#[test]
fn an_unknown_pin_name_does_not_silently_select_the_default() {
    assert_eq!(sgemm_variant_override(Some("simd_64x64_typo"), None), None);
}

#[test]
fn env_pin_cannot_relax_an_alignment_rule() {
    let hw = model();
    let s = without_mps();
    let (m, k, n) = (750usize, 768usize, 2304usize);
    assert!(!hw.sgemm_eligible(&s, SgemmVariant::Simd4x4, m, k, n));
    let want = hw.pick_sgemm_default(&s, m, k, n);
    let pinned = SgemmSettings {
        pin: sgemm_variant_override(Some("simd4x4"), None),
        ..s
    };
    assert_eq!(
        hw.pick_sgemm(&pinned, m, k, n),
        want,
        "an ineligible env pin must be refused, not dispatched"
    );
    assert_eq!(
        hw.sgemm_notice(&pinned, m, k, n),
        Some(SgemmNotice::PinRefused(SgemmVariant::Simd4x4, want))
    );
}

#[test]
fn env_pin_is_honoured_where_it_is_eligible() {
    let hw = model();
    let s = without_mps();
    let (m, k, n) = (1024usize, 1024usize, 1024usize);
    for v in [
        SgemmVariant::Simd4x4,
        SgemmVariant::Simd64,
        SgemmVariant::Naive,
    ] {
        if !hw.sgemm_eligible(&s, v, m, k, n) {
            continue;
        }
        let name = sgemm_pin_names()
            .iter()
            .find(|(_, pv)| *pv == v)
            .map(|(n, _)| *n)
            .expect("covered by sgemm_pin_names_cover_every_variant");
        let pinned = SgemmSettings {
            pin: sgemm_variant_override(Some(name), None),
            ..s
        };
        assert_eq!(
            hw.pick_sgemm(&pinned, m, k, n),
            v,
            "eligible pin {name:?} was not honoured"
        );
        assert_eq!(hw.sgemm_notice(&pinned, m, k, n), None);
    }
}

#[test]
fn table_override_cannot_relax_an_alignment_rule() {
    let hw = model();
    let s = without_mps();
    let (m, k, n) = (750usize, 768usize, 2304usize);
    assert!(!hw.sgemm_eligible(&s, SgemmVariant::Simd4x4, m, k, n));
    let want = hw.pick_sgemm_default(&s, m, k, n);
    let tuned = SgemmSettings {
        table: Some(MetalSgemm::Simd4x4),
        ..s
    };
    assert_eq!(
        hw.pick_sgemm(&tuned, m, k, n),
        want,
        "an ineligible override must not displace the default"
    );
    assert_eq!(
        hw.sgemm_notice(&tuned, m, k, n),
        Some(SgemmNotice::TableRefused(SgemmVariant::Simd4x4, want))
    );
}

#[test]
fn eligible_table_override_is_honoured() {
    let hw = model();
    let s = without_mps();
    let (m, k, n) = (64usize, 768usize, 2304usize);
    assert_eq!(hw.pick_sgemm_default(&s, m, k, n), SgemmVariant::Simd64);
    assert!(hw.sgemm_eligible(&s, SgemmVariant::Tiled, m, k, n));
    let tuned = SgemmSettings {
        table: Some(MetalSgemm::Tiled),
        ..s
    };
    assert_eq!(hw.pick_sgemm(&tuned, m, k, n), SgemmVariant::Tiled);
}

#[test]
fn a_pin_outranks_the_table() {
    let hw = model();
    let s = SgemmSettings {
        pin: Some(SgemmVariant::Naive),
        table: Some(MetalSgemm::Tiled),
        ..without_mps()
    };
    assert_eq!(hw.pick_sgemm(&s, 64, 768, 2304), SgemmVariant::Naive);
}

#[test]
fn precise_settings_pin_the_reference_variant() {
    for on in ["1", "true", "YES", "On"] {
        assert_eq!(
            sgemm_variant_override(None, Some(on)),
            Some(SgemmVariant::Naive)
        );
    }
    assert_eq!(sgemm_variant_override(None, Some("0")), None);
    assert_eq!(
        sgemm_variant_override(Some("tiled"), Some("1")),
        Some(SgemmVariant::Tiled)
    );
}

#[test]
fn a_missing_product_is_never_picked() {
    let hw = model();
    let s = SgemmSettings {
        mps_supported: false,
        mps_forced: true,
        pin: Some(SgemmVariant::Mps),
        ..clean()
    };
    assert_ne!(hw.pick_sgemm(&s, 1024, 1024, 1024), SgemmVariant::Mps);
    assert_eq!(
        hw.pick_sgemm(&SgemmSettings { mps_supported: true, ..s }, 8, 8, 8),
        SgemmVariant::Mps
    );
}

#[test]
fn the_threshold_comes_from_its_setting() {
    assert_eq!(mps_threshold(None), 16_000_000);
    assert_eq!(mps_threshold(Some("42")), 42);
    assert_eq!(mps_threshold(Some("many")), 16_000_000);
    let low = MetalHwModel::detect(AppleGpuFamily::Unknown, false, Some("8"));
    assert_eq!(low.pick_sgemm(&clean(), 2, 2, 2), SgemmVariant::Mps);
    let high = MetalHwModel::detect(AppleGpuFamily::Unknown, false, Some("9"));
    assert_eq!(high.pick_sgemm(&clean(), 2, 2, 2), SgemmVariant::Naive);
}

#[test]
fn split_counts_divide_the_depth_and_stay_few() {
    assert_eq!(pick_ksplits(64, 4096, 64), 32);
    assert_eq!(pick_ksplits(64, 128, 64), 16);
    assert_eq!(pick_ksplits(64, 7, 64), 0);
    assert_eq!(model().ksplits(64, 4096, 64), 32);
}

#[test]
fn names_are_lowered_before_they_are_compared() {
    let lowered: String = ascii_lowercase("SiMd_4X4").into_iter().collect();
    assert_eq!(lowered, "simd_4x4");
    assert_eq!(parse_pin("SPLITK"), Some(SgemmVariant::Simd64SplitK));
}

#[test]
fn a_layer_fits_threadgroup_memory_only_while_it_is_small() {
    let hw = model();
    assert!(hw.fits_threadgroup_mem(1, 1, 1024, 3072));
    assert!(!hw.fits_threadgroup_mem(1, 2, 1024, 3072));
    assert!(hw.prefer_fused_matmul_bias(1, 1, 1));
}

#[test]
fn products_without_rows_pick_by_their_columns() {
    let s = without_mps();
    assert_eq!(model().pick_sgemm(&s, 0, 8, 8), SgemmVariant::SimdPadded);
    assert_eq!(model().pick_sgemm(&s, 0, 8, 7), SgemmVariant::Naive);
    assert_eq!(model().pick_sgemm(&s, 0, 7, 32), SgemmVariant::Naive);
    assert_eq!(model().pick_sgemm(&s, 0, 32, 32), SgemmVariant::Simd4x4);
}

#[test]
fn large_results_are_judged_by_their_tiles() {
    let hw = model();
    let s = without_mps();
    // The elements of these results cannot be counted, but their tiles can.
    let (m, n) = (1usize << 33, 1usize << 33);
    assert_eq!(pick_ksplits(m + 1, 256, n), 0);
    assert_eq!(hw.sgemm_variant_rate(SgemmVariant::Simd64, m, n), (RateBase::Simd4x4, 18));
    assert!(!hw.sgemm_eligible(&s, SgemmVariant::Simd64SplitK, m, 256, n));
    assert!(hw.sgemm_eligible(&s, SgemmVariant::Simd64, m, 8, n));
    assert_eq!(hw.pick_sgemm(&s, m, 0, n), SgemmVariant::Simd64);
}

#[test]
fn the_number_of_heads_makes_no_difference() {
    let hw = model();
    let a = hw.transformer_forward_cost(&clean(), 2, 64, 768, 3072, 12, 3);
    let b = hw.transformer_forward_cost(&clean(), 2, 64, 768, 3072, 1, 3);
    assert_eq!(a, b);
    let longer = hw.transformer_forward_cost(&clean(), 2, 128, 768, 3072, 12, 3);
    assert_eq!(longer.attention_flops, 4 * a.attention_flops);
    let more = hw.transformer_forward_cost(&clean(), 4, 64, 768, 3072, 12, 3);
    assert_eq!(more.attention_flops, 2 * a.attention_flops);
}
