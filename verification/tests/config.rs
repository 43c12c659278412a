use rlx_metal::calibrate::{
    attention_probe_flops, cache_file_name, encode_probe, probe_flops, probe_layout, probe_shapes,
    probe_value, verbose, Calibration, ProbeLayout,
};
use rlx_metal::command::{Buf, Cmd, Group, Kernel, Size};
use rlx_metal::config::{
    install_runtime_config, parse_sdpa_cache_eviction, reload_runtime_config, runtime_config,
    ConfigCell, MetalRuntimeConfig, RuntimeEnv,
};
use rlx_metal::cost::{AppleGpuFamily, MetalHwModel, SgemmSettings};
use rlx_metal::double_single::sum_pair;
use rlx_metal::hc_sinkhorn_gate::{encode, GateError, OP_NAME};
use rlx_metal::kernel_plan::TuneCacheEviction;

fn env() -> RuntimeEnv {
    RuntimeEnv {
        disable_mpsgraph: false,
        disable_mpsgraph_executable: false,
        disable_mpsgraph_hybrid_set: false,
        mpsgraph_force: false,
        mpsgraph_min_flops: 0,
        mpsgraph_trace: false,
        mpsgraph_param_const: false,
        mps_fp16: false,
        dequant_gpu_disable: false,
        dequant_matmul_legacy: false,
        metal_debug: false,
        metal_trace: false,
        host_fallback: false,
        gdn_host_fallback: false,
        gdn_cpu: false,
        fft_host_fallback: false,
        lstm_host_fallback: false,
        lstm_cpu: false,
        rnn_host_fallback: false,
        ssm_host_fallback: false,
        ssm_cpu: false,
        sample_host: false,
        concat_host: false,
        fuse_decode: None,
        fuse_decode_log: false,
        sdpa_flash_decode: None,
        sdpa_flash_p: None,
        sdpa_tune_cache: None,
        sdpa_tune_cache_load: None,
        sdpa_tune_cache_persist: None,
        sdpa_tune_cache_max_entries: None,
        sdpa_tune_cache_eviction: None,
    }
}

fn some(s: &str) -> Option<String> {
    Some(s.to_string())
}

#[test]
fn an_empty_environment_gives_the_defaults() {
    let cfg = MetalRuntimeConfig::from_env(env());
    assert!(cfg.fuse_decode);
    assert_eq!(cfg.sdpa_flash_decode, None);
    assert_eq!(cfg.sdpa_flash_partitions, None);
    assert!(cfg.sdpa_tune_cache_load && cfg.sdpa_tune_cache_persist);
    assert_eq!(cfg.sdpa_tune_cache_max_entries, 256);
    assert_eq!(
        cfg.sdpa_tune_cache_eviction,
        TuneCacheEviction::KeepLowBuckets
    );
    assert_eq!(cfg.sdpa_tune_cache_path, None);
}

#[test]
fn variables_are_read() {
    let cfg = MetalRuntimeConfig::from_env(RuntimeEnv {
        fuse_decode: some("0"),
        sdpa_flash_decode: some("0"),
        sdpa_flash_p: some("12"),
        sdpa_tune_cache: some("/tmp/t.tsv"),
        sdpa_tune_cache_load: some("0"),
        sdpa_tune_cache_persist: some("yes"),
        sdpa_tune_cache_max_entries: some("0"),
        sdpa_tune_cache_eviction: some("lru"),
        gdn_cpu: true,
        lstm_host_fallback: true,
        ssm_cpu: true,
        disable_mpsgraph_hybrid_set: true,
        mpsgraph_min_flops: 9,
        ..env()
    });
    assert!(!cfg.fuse_decode);
    assert_eq!(cfg.sdpa_flash_decode, Some(false));
    assert_eq!(cfg.sdpa_flash_partitions, Some(12));
    assert_eq!(cfg.sdpa_tune_cache_path.as_deref(), Some("/tmp/t.tsv"));
    assert!(!cfg.sdpa_tune_cache_load);
    assert!(cfg.sdpa_tune_cache_persist);
    assert_eq!(cfg.sdpa_tune_cache_max_entries, 1);
    assert_eq!(cfg.sdpa_tune_cache_eviction, TuneCacheEviction::Lru);
    assert!(cfg.gdn_host_fallback && cfg.lstm_cpu && cfg.ssm_cpu);
    assert!(cfg.disable_mpsgraph_hybrid);
    assert_eq!(cfg.mpsgraph_min_flops, 9);
    for bad in ["0", "-3", "x", "4294967296", ""] {
        let cfg = MetalRuntimeConfig::from_env(RuntimeEnv {
            sdpa_flash_p: some(bad),
            ..env()
        });
        assert_eq!(cfg.sdpa_flash_partitions, None, "{bad}");
    }
}

#[test]
fn evictions_have_names() {
    for high in ["keep-high", "keep_high", "high"] {
        assert_eq!(
            parse_sdpa_cache_eviction(some(high)),
            TuneCacheEviction::KeepHighBuckets
        );
    }
    assert_eq!(
        parse_sdpa_cache_eviction(some("LRU")),
        TuneCacheEviction::KeepLowBuckets
    );
    assert_eq!(
        parse_sdpa_cache_eviction(None),
        TuneCacheEviction::KeepLowBuckets
    );
}

#[test]
fn builders_change_what_they_name() {
    let cfg = MetalRuntimeConfig::from_env(env())
        .with_sdpa_flash(Some(true), Some(0))
        .with_sdpa_tune_cache(some("p"), false, true, 0)
        .with_sdpa_tune_cache_eviction(TuneCacheEviction::KeepHighBuckets);
    assert_eq!(cfg.sdpa_flash_decode, Some(true));
    assert_eq!(cfg.sdpa_flash_partitions, None);
    assert_eq!(cfg.sdpa_tune_cache_max_entries, 1);
    assert_eq!(
        cfg.sdpa_tune_cache_eviction,
        TuneCacheEviction::KeepHighBuckets
    );
    let cfg = cfg.with_sdpa_flash(None, Some(3));
    assert_eq!(cfg.sdpa_flash_partitions, Some(3));
}

#[test]
fn options_stay_until_they_are_replaced() {
    let traced = || RuntimeEnv { metal_trace: true, ..env() };
    let mut cell = ConfigCell::new();
    assert!(!runtime_config(&mut cell, env()).metal_trace);
    assert!(!runtime_config(&mut cell, traced()).metal_trace);
    rlx_metal::config::map(&mut cell, traced());
    assert!(!runtime_config(&mut cell, traced()).metal_trace);
    reload_runtime_config(&mut cell, traced());
    assert!(runtime_config(&mut cell, env()).metal_trace);
    let cfg = MetalRuntimeConfig::from_env(env()).with_sdpa_tune_cache(some("q"), true, true, 7);
    install_runtime_config(&mut cell, cfg.clone());
    let now = runtime_config(&mut cell, traced());
    assert_eq!(now.sdpa_tune_cache_path.as_deref(), Some("q"));
    assert_eq!(now.sdpa_tune_cache_max_entries, 7);
}

fn calibration(registry_id: u64) -> Calibration {
    Calibration {
        gpu_name: "gpu".to_string(),
        registry_id,
        sgemm_simd_4x4_flops: 0,
        sgemm_simd_flops: 0,
        sgemm_padded_flops: 0,
        sgemm_tiled_flops: 0,
        roundtrip_overhead_ns: 0,
        attention_flops: 0,
    }
}

#[test]
fn results_of_another_device_are_not_used() {
    assert!(Calibration::load(Some(calibration(7)), 7).is_some());
    assert!(Calibration::load(Some(calibration(7)), 8).is_none());
    assert!(Calibration::load(None, 8).is_none());
    assert_eq!(cache_file_name(0), "metal-calib-0.json");
    assert_eq!(cache_file_name(0x1000_0abc_def9), "metal-calib-10000abcdef9.json");
    assert_eq!(cache_file_name(u64::MAX), "metal-calib-ffffffffffffffff.json");
}

#[test]
fn measuring_reports_when_asked() {
    assert!(verbose(Some("1")));
    assert!(verbose(Some("255")));
    assert!(!verbose(Some("0")));
    assert!(!verbose(Some("256")));
    assert!(!verbose(None));
}

#[test]
fn probes_are_laid_out_and_repeated() {
    assert_eq!(
        probe_layout(6, 768, 768),
        ProbeLayout {
            a_off: 0,
            b_off: 6 * 768 * 4,
            c_off: (6 * 768 + 768 * 768) * 4,
            total: (6 * 768 + 768 * 768 + 6 * 768) * 4,
        }
    );
    assert_eq!(probe_value(0), 7);
    assert_eq!(probe_value(20), (20 * 13 + 7) % 257);
    assert_eq!(probe_flops(8, 512, 512), 2 * 8 * 512 * 512 * 50);
    assert_eq!(attention_probe_flops(1, 16, 512, 64), 2 * 16 * 512 * 512 * 64);
    assert_eq!(probe_shapes().len(), 4);
    let hw = MetalHwModel::detect(AppleGpuFamily::M2, true, None);
    let s = SgemmSettings {
        pin: None,
        table: None,
        mps_forced: false,
        mps_disabled: true,
        mps_supported: true,
        no_sgemm64: false,
        splitk: false,
        precise: false,
        no_small_m_mps: false,
    };
    let mut once = Vec::new();
    encode_probe(&mut once, &hw, &s, 8, 512, 512, 1);
    let mut twice = Vec::new();
    encode_probe(&mut twice, &hw, &s, 8, 512, 512, 2);
    assert_eq!(twice.len(), 2 * once.len());
    assert_eq!(twice[..once.len()], once[..]);
    assert_eq!(twice[once.len()..], once[..]);
}

#[test]
fn gates_run_one_thread_for_each_row() {
    assert_eq!(OP_NAME, "dsv4.hc_sinkhorn_gate");
    let mut attrs = Vec::new();
    attrs.extend_from_slice(&4u32.to_le_bytes());
    attrs.extend_from_slice(&20u32.to_le_bytes());
    attrs.extend_from_slice(&1e-6f32.to_le_bytes());
    let mut enc = Vec::new();
    assert_eq!(encode(&mut enc, &attrs, &[16, 32, 48], 64, 240), Ok(()));
    assert_eq!(
        enc,
        vec![
            Cmd::Pipeline(Kernel::HcSinkhornGate),
            Cmd::Buffer(0, Buf::Arena, 16),
            Cmd::Buffer(1, Buf::Arena, 32),
            Cmd::Buffer(2, Buf::Arena, 48),
            Cmd::Buffer(3, Buf::Arena, 64),
            Cmd::U32(4, 10),
            Cmd::U32(5, 4),
            Cmd::U32(6, 20),
            Cmd::U32(7, 1e-6f32.to_bits()),
            Cmd::Threads(
                Size { width: 10, height: 1, depth: 1 },
                Group::ExecWidth(Kernel::HcSinkhornGate, 10)
            ),
        ]
    );
    let mut enc = Vec::new();
    let err = encode(&mut enc, &attrs[..11], &[16, 32, 48], 64, 240);
    assert_eq!(err, Err(GateError::ShortAttrs));
    assert!(enc.is_empty());
    assert_eq!(
        GateError::ShortAttrs.message(),
        "hc_sinkhorn_gate: attrs must be [hc:u32, iters:u32, eps:f32]"
    );
}

#[test]
fn sums_run_in_one_threadgroup() {
    let (bytes, steps) = sum_pair(1000);
    assert_eq!(bytes, 4000);
    assert_eq!(steps[3], Cmd::U32(2, 1000));
    assert_eq!(
        steps[4],
        Cmd::Groups(
            Size { width: 1, height: 1, depth: 1 },
            Size { width: 256, height: 1, depth: 1 }
        )
    );
    assert_eq!(sum_pair(0).0, 4);
}
