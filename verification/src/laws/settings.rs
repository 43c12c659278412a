//! Settings: each variable decides its own option and no other.

use vstd::prelude::*;

use crate::config::{
    at_least_one, eviction_value, max_entries_value, partitions_value, positive, switch_on,
    switch_value, ConfigCell, MetalRuntimeConfig, RuntimeEnv,
};
use crate::kernel_plan::TuneCacheEviction;
use crate::text::parsed_unsigned;

verus! {

/// An option that has one variable is what that variable says, whatever the others say; a fallback
/// that has two is taken where either asks for it.
pub proof fn lemma_options(env: RuntimeEnv)
    ensures
        ({
            let cfg = MetalRuntimeConfig::of_env(env);
            &&& cfg.disable_mpsgraph == env.disable_mpsgraph
            &&& cfg.disable_mpsgraph_executable == env.disable_mpsgraph_executable
            &&& cfg.mpsgraph_force == env.mpsgraph_force
            &&& cfg.mpsgraph_min_flops == env.mpsgraph_min_flops
            &&& cfg.mpsgraph_trace == env.mpsgraph_trace
            &&& cfg.mpsgraph_param_const == env.mpsgraph_param_const
            &&& cfg.mps_fp16 == env.mps_fp16
            &&& cfg.dequant_gpu_disable == env.dequant_gpu_disable
            &&& cfg.dequant_matmul_legacy == env.dequant_matmul_legacy
            &&& cfg.metal_debug == env.metal_debug
            &&& cfg.metal_trace == env.metal_trace
            &&& cfg.host_fallback == env.host_fallback
            &&& cfg.fft_host_fallback == env.fft_host_fallback
            &&& cfg.rnn_host_fallback == env.rnn_host_fallback
            &&& cfg.sample_host == env.sample_host
            &&& cfg.concat_host == env.concat_host
            &&& cfg.fuse_decode_log == env.fuse_decode_log
            &&& cfg.disable_mpsgraph_hybrid == env.disable_mpsgraph_hybrid_set
            &&& cfg.gdn_host_fallback <==> env.gdn_host_fallback || env.gdn_cpu
            &&& cfg.lstm_cpu <==> env.lstm_host_fallback || env.lstm_cpu
            &&& cfg.ssm_cpu <==> env.ssm_host_fallback || env.ssm_cpu
            &&& cfg.fuse_decode <==> switch_value(env.fuse_decode) != Some(false)
            &&& cfg.sdpa_flash_decode == switch_value(env.sdpa_flash_decode)
            &&& cfg.sdpa_flash_partitions == partitions_value(env.sdpa_flash_p)
            &&& cfg.sdpa_tune_cache_path == env.sdpa_tune_cache
            &&& cfg.sdpa_tune_cache_load <==> switch_value(env.sdpa_tune_cache_load) != Some(false)
            &&& cfg.sdpa_tune_cache_persist <==> switch_value(env.sdpa_tune_cache_persist) != Some(
                false,
            )
            &&& cfg.sdpa_tune_cache_max_entries == max_entries_value(
                env.sdpa_tune_cache_max_entries,
            )
            &&& cfg.sdpa_tune_cache_eviction == eviction_value(env.sdpa_tune_cache_eviction)
        }),
{
}

/// A switch is off exactly where it says zero; one that is not set is on, or left to the default.
pub proof fn lemma_switch(text: String)
    ensures
        switch_value(Some(text)) == Some(false) <==> text@ == "0"@,
        switch_value(Some(text)) is Some,
        switch_value(None) is None,
        switch_on(Some(text)) <==> text@ != "0"@,
        switch_on(None),
{
}

/// Counts: a partition count of zero counts as none, as does what is no number; a cache holds one
/// entry at least, and 256 where nothing else is said.
pub proof fn lemma_counts(text: String, n: u32, m: usize)
    ensures
        positive(Some(n)) is Some <==> n > 0,
        n > 0 ==> positive(Some(n)) == Some(n),
        positive(None) is None,
        partitions_value(None) is None,
        partitions_value(Some(text)) != Some(0u32),
        parsed_unsigned(text@, u32::MAX as nat) == Some(n as nat) && n > 0 ==> partitions_value(
            Some(text),
        ) == Some(n),
        parsed_unsigned(text@, u32::MAX as nat) is None ==> partitions_value(Some(text)) is None,
        max_entries_value(None) == 256,
        max_entries_value(Some(text)) >= 1,
        parsed_unsigned(text@, usize::MAX as nat) is None ==> max_entries_value(Some(text)) == 256,
        parsed_unsigned(text@, usize::MAX as nat) == Some(m as nat) && m > 0 ==> max_entries_value(
            Some(text),
        ) == m,
        at_least_one(m) >= 1,
        m > 0 ==> at_least_one(m) == m,
{
}

/// What stays in a full cache: high buckets or the recently used where that is asked for by name, low
/// buckets otherwise.
pub proof fn lemma_eviction(text: String)
    ensures
        eviction_value(None) == TuneCacheEviction::KeepLowBuckets,
        text@ == "lru"@ ==> eviction_value(Some(text)) == TuneCacheEviction::Lru,
        text@ == "keep-high"@ || text@ == "keep_high"@ || text@ == "high"@ ==> eviction_value(
            Some(text),
        ) == TuneCacheEviction::KeepHighBuckets,
        eviction_value(Some(text)) == TuneCacheEviction::Lru ==> text@ == "lru"@,
        eviction_value(Some(text)) == TuneCacheEviction::KeepHighBuckets ==> text@ == "keep-high"@
            || text@ == "keep_high"@ || text@ == "high"@,
{
    reveal_strlit("lru");
    reveal_strlit("keep-high");
    reveal_strlit("keep_high");
    reveal_strlit("high");
    assert("lru"@.len() != "high"@.len());
    assert("lru"@.len() != "keep-high"@.len());
    assert("lru"@.len() != "keep_high"@.len());
}

/// A configuration that was installed stays in force whatever the environment says.
pub proof fn lemma_installed_stays(cell: ConfigCell, env: RuntimeEnv)
    ensures
        cell.current matches Some(cfg) ==> cell.in_force(env) == cfg,
        cell.current is None ==> cell.in_force(env) == MetalRuntimeConfig::of_env(env),
{
}

} // verus!
