use std::collections::HashMap;

use rlx_metal::config::{MetalRuntimeConfig, RuntimeEnv};
use rlx_metal::kernel_plan::{
    SdpaDecodeCandidate, SdpaDecodeVariant, TuneCacheEviction, TunePolicy,
};
use rlx_metal::tune_cache::{
    load_sdpa_tune_table_file, parse_sdpa_tune_table_text, render_sdpa_tune_table_text,
    sdpa_tune_cache_max_entries, sdpa_tune_drop_keys, SdpaTuneCache,
};

fn cand0() -> SdpaDecodeCandidate {
    SdpaDecodeVariant::BaseF32.candidate()
}

fn cand1() -> SdpaDecodeCandidate {
    SdpaDecodeVariant::PartialF16Kv.candidate()
}

fn plain_env() -> RuntimeEnv {
    RuntimeEnv {
        disable_mpsgraph: false,
        disable_mpsgraph_executable: false,
        disable_mpsgraph_hybrid_set: false,
        mpsgraph_force: false,
        mpsgraph_min_flops: 0,
        mpsgraph_trace: false,
        mpsgraph_param_const: false,
        mps_fp16: false,
        dequant_gpu_disable: false,
        dequant_matmul_legacy: false,
        metal_debug: false,
        metal_trace: false,
        host_fallback: false,
        gdn_host_fallback: false,
        gdn_cpu: false,
        fft_host_fallback: false,
        lstm_host_fallback: false,
        lstm_cpu: false,
        rnn_host_fallback: false,
        ssm_host_fallback: false,
        ssm_cpu: false,
        sample_host: false,
        concat_host: false,
        fuse_decode: None,
        fuse_decode_log: false,
        sdpa_flash_decode: None,
        sdpa_flash_p: None,
        sdpa_tune_cache: None,
        sdpa_tune_cache_load: None,
        sdpa_tune_cache_persist: None,
        sdpa_tune_cache_max_entries: None,
        sdpa_tune_cache_eviction: None,
    }
}

fn policy() -> TunePolicy {
    TunePolicy {
        cache_load: true,
        persist_cache: true,
        cache_max_entries: 256,
        ..TunePolicy::balanced_defaults()
    }
}

#[test]
fn eviction_keep_low_buckets_drops_highest_keys() {
    let mut table = HashMap::new();
    table.insert(0u16, cand0());
    table.insert(2u16, cand0());
    table.insert(5u16, cand1());
    let last_used = HashMap::new();
    let dropped = sdpa_tune_drop_keys(&table, &last_used, 2, TuneCacheEviction::KeepLowBuckets);
    assert_eq!(dropped, vec![5u16]);
}

#[test]
fn eviction_keep_high_buckets_drops_lowest_keys() {
    let mut table = HashMap::new();
    table.insert(0u16, cand0());
    table.insert(2u16, cand0());
    table.insert(5u16, cand1());
    let last_used = HashMap::new();
    let dropped = sdpa_tune_drop_keys(&table, &last_used, 2, TuneCacheEviction::KeepHighBuckets);
    assert_eq!(dropped, vec![0u16]);
}

#[test]
fn eviction_lru_drops_oldest_tick() {
    let mut table = HashMap::new();
    table.insert(1u16, cand0());
    table.insert(2u16, cand0());
    table.insert(3u16, cand1());
    let mut last_used = HashMap::new();
    last_used.insert(1u16, 30u64);
    last_used.insert(2u16, 10u64);
    last_used.insert(3u16, 20u64);
    let dropped = sdpa_tune_drop_keys(&table, &last_used, 2, TuneCacheEviction::Lru);
    assert_eq!(dropped, vec![2u16]);
}

#[test]
fn tune_table_text_roundtrip_keeps_ticks() {
    let mut table = HashMap::new();
    table.insert(1u16, cand0());
    table.insert(4u16, cand1());
    let mut last_used = HashMap::new();
    last_used.insert(1u16, 5u64);
    last_used.insert(4u16, 12u64);

    let text = render_sdpa_tune_table_text(&table, &last_used);
    let (parsed_table, parsed_last_used, max_tick) = parse_sdpa_tune_table_text(&text);

    assert_eq!(parsed_table, table);
    assert_eq!(parsed_last_used, last_used);
    assert_eq!(max_tick, 12u64);
}

#[test]
fn tune_table_text_parses_legacy_two_column_rows() {
    let c0 = cand0();
    let c1 = cand1();
    let text = format!(
        "# token_bucket\tcandidate\n2\t{}\n6\t{}\n",
        c0.tag(),
        c1.tag()
    );

    let (parsed_table, parsed_last_used, max_tick) = parse_sdpa_tune_table_text(&text);

    assert_eq!(parsed_table.get(&2), Some(&c0));
    assert_eq!(parsed_table.get(&6), Some(&c1));
    assert_eq!(parsed_last_used.get(&2), Some(&0u64));
    assert_eq!(parsed_last_used.get(&6), Some(&0u64));
    assert_eq!(max_tick, 0u64);
}

#[test]
fn tune_table_file_load_trim_persist_with_lru() {
    let c0 = cand0();
    let c1 = cand1();
    let mut input_table = HashMap::new();
    input_table.insert(1u16, c0);
    input_table.insert(2u16, c1);
    input_table.insert(3u16, c0);
    let mut input_last_used = HashMap::new();
    input_last_used.insert(1u16, 30u64);
    input_last_used.insert(2u16, 10u64);
    input_last_used.insert(3u16, 20u64);

    let stored = render_sdpa_tune_table_text(&input_table, &input_last_used);

    let (loaded_table, loaded_last_used, max_tick) =
        load_sdpa_tune_table_file(Some(stored.as_str()), 2, TuneCacheEviction::Lru);

    assert_eq!(loaded_table.len(), 2);
    assert!(loaded_table.contains_key(&1));
    assert!(loaded_table.contains_key(&3));
    assert!(!loaded_table.contains_key(&2));
    assert_eq!(loaded_last_used.get(&1), Some(&30u64));
    assert_eq!(loaded_last_used.get(&3), Some(&20u64));
    assert_eq!(max_tick, 30u64);

    let stored = render_sdpa_tune_table_text(&loaded_table, &loaded_last_used);
    let (roundtrip_table, roundtrip_last_used, roundtrip_max_tick) =
        parse_sdpa_tune_table_text(&stored);
    assert_eq!(roundtrip_table, loaded_table);
    assert_eq!(roundtrip_last_used, loaded_last_used);
    assert_eq!(roundtrip_max_tick, 30u64);
}

#[test]
fn tables_are_written_in_ascending_order() {
    let mut table = HashMap::new();
    table.insert(40u16, cand1());
    table.insert(7u16, cand0());
    let mut last_used = HashMap::new();
    last_used.insert(40u16, 3u64);
    let text = render_sdpa_tune_table_text(&table, &last_used);
    assert_eq!(
        text,
        format!(
            "# token_bucket\tcandidate\tlast_used_tick\n7\t{}\t0\n40\t{}\t3\n",
            cand0().tag(),
            cand1().tag()
        )
    );
}

#[test]
fn odd_lines_are_skipped() {
    let c = cand0().tag();
    let text = format!(
        "\r\n  \n# 9\t{c}\t1\n70000\t{c}\t1\n3\tnonsense\t1\n4\n  5\t{c}\tsoon \r\n+6\t{c}\t8\textra\n6\t{c}\t2"
    );
    let (table, last_used, max_tick) = parse_sdpa_tune_table_text(&text);
    let mut keys: Vec<u16> = table.keys().copied().collect();
    keys.sort_unstable();
    assert_eq!(keys, vec![5, 6]);
    assert_eq!(last_used.get(&5), Some(&0));
    assert_eq!(last_used.get(&6), Some(&2));
    assert_eq!(max_tick, 8);
}

#[test]
fn nothing_is_dropped_below_the_limit() {
    let mut table = HashMap::new();
    table.insert(0u16, cand0());
    let used = HashMap::new();
    for e in [
        TuneCacheEviction::KeepLowBuckets,
        TuneCacheEviction::KeepHighBuckets,
        TuneCacheEviction::Lru,
    ] {
        assert!(sdpa_tune_drop_keys(&table, &used, 1, e).is_empty());
        assert_eq!(sdpa_tune_drop_keys(&table, &used, 0, e), vec![0]);
    }
}

#[test]
fn several_keys_are_dropped_in_the_order_of_their_rule() {
    let mut table = HashMap::new();
    let mut used = HashMap::new();
    for k in 0u16..6 {
        table.insert(k, cand0());
        used.insert(k, (k as u64 * 5) % 7);
    }
    assert_eq!(
        sdpa_tune_drop_keys(&table, &used, 3, TuneCacheEviction::KeepLowBuckets),
        vec![5, 4, 3]
    );
    assert_eq!(
        sdpa_tune_drop_keys(&table, &used, 3, TuneCacheEviction::KeepHighBuckets),
        vec![0, 1, 2]
    );
    assert_eq!(
        sdpa_tune_drop_keys(&table, &used, 3, TuneCacheEviction::Lru),
        vec![0, 3, 2]
    );
}

#[test]
fn an_unreadable_file_gives_an_empty_table() {
    let (table, used, tick) = load_sdpa_tune_table_file(None, 4, TuneCacheEviction::Lru);
    assert!(table.is_empty() && used.is_empty());
    assert_eq!(tick, 0);
}

#[test]
fn the_smaller_limit_counts() {
    let cfg = MetalRuntimeConfig::from_env(plain_env()).with_sdpa_tune_cache(None, true, true, 0);
    assert_eq!(sdpa_tune_cache_max_entries(&cfg, &policy()), 1);
    let cfg = cfg.with_sdpa_tune_cache(None, true, true, 1000);
    assert_eq!(sdpa_tune_cache_max_entries(&cfg, &policy()), 256);
}

#[test]
fn a_recorded_winner_is_found_and_stored() {
    let cfg = MetalRuntimeConfig::from_env(plain_env());
    let mut cache = SdpaTuneCache::new();
    assert_eq!(cache.sdpa_tuned_candidate(&cfg, &policy(), None, 3), None);
    let stored = cache
        .sdpa_record_candidate(&cfg, &policy(), None, 3, cand1())
        .expect("a new winner is stored");
    assert!(stored.contains(&format!("3\t{}\t1\n", cand1().tag())));
    assert_eq!(
        cache.sdpa_tuned_candidate(&cfg, &policy(), None, 3),
        Some(cand1())
    );
    assert_eq!(cache.last_used.get(&3), Some(&2));
    assert_eq!(
        cache.sdpa_record_candidate(&cfg, &policy(), None, 3, cand1()),
        None,
        "an old winner is not stored again"
    );
    assert_eq!(cache.last_used.get(&3), Some(&3));
}

#[test]
fn the_stored_table_is_read_once() {
    let cfg = MetalRuntimeConfig::from_env(plain_env());
    let text = format!("9\t{}\t41\n", cand0().tag());
    let mut cache = SdpaTuneCache::new();
    assert_eq!(
        cache.sdpa_tuned_candidate(&cfg, &policy(), Some(text.as_str()), 9),
        Some(cand0())
    );
    assert_eq!(cache.tick, 42);
    let other = format!("9\t{}\t0\n", cand1().tag());
    assert_eq!(
        cache.sdpa_tuned_candidate(&cfg, &policy(), Some(other.as_str()), 9),
        Some(cand0())
    );
}

#[test]
fn switches_turn_loading_and_storing_off() {
    let cfg = MetalRuntimeConfig::from_env(plain_env()).with_sdpa_tune_cache(None, false, false, 8);
    let text = format!("9\t{}\t41\n", cand0().tag());
    let mut cache = SdpaTuneCache::new();
    assert_eq!(
        cache.sdpa_tuned_candidate(&cfg, &policy(), Some(text.as_str()), 9),
        None
    );
    assert!(!cache.loaded);
    assert_eq!(
        cache.sdpa_record_candidate(&cfg, &policy(), Some(text.as_str()), 1, cand0()),
        None
    );
    assert_eq!(cache.winners.len(), 1);
}

#[test]
fn recording_keeps_the_newest_under_lru() {
    let cfg = MetalRuntimeConfig::from_env(plain_env())
        .with_sdpa_tune_cache(None, true, true, 2)
        .with_sdpa_tune_cache_eviction(TuneCacheEviction::Lru);
    let mut cache = SdpaTuneCache::new();
    for k in [10u16, 20, 30, 5] {
        cache.sdpa_record_candidate(&cfg, &policy(), None, k, cand0());
        assert!(cache.winners.contains_key(&k));
    }
    let mut keys: Vec<u16> = cache.winners.keys().copied().collect();
    keys.sort_unstable();
    assert_eq!(keys, vec![5, 30]);
}

#[test]
fn the_clock_stops_at_its_end() {
    let mut cache = SdpaTuneCache::new();
    cache.tick = u64::MAX - 1;
    assert_eq!(cache.next_sdpa_tune_tick(), u64::MAX);
    assert_eq!(cache.next_sdpa_tune_tick(), u64::MAX);
}
