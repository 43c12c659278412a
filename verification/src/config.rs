//! Typed runtime options of the backend.

use vstd::prelude::*;

use crate::kernel_plan::TuneCacheEviction;
use crate::text::{chars_of, parse_unsigned, parsed_unsigned, same_chars};

verus! {

/// Backend options: how MPSGraph, quantized weights and host fallbacks are routed, and how
/// attention is tuned.
#[derive(Debug)]
pub struct MetalRuntimeConfig {
    pub disable_mpsgraph: bool,
    pub disable_mpsgraph_executable: bool,
    pub disable_mpsgraph_hybrid: bool,
    pub mpsgraph_force: bool,
    pub mpsgraph_min_flops: u64,
    pub mpsgraph_trace: bool,
    pub mpsgraph_param_const: bool,
    pub mps_fp16: bool,
    pub dequant_gpu_disable: bool,
    pub dequant_matmul_legacy: bool,
    pub metal_debug: bool,
    pub metal_trace: bool,
    pub host_fallback: bool,
    pub gdn_host_fallback: bool,
    pub fft_host_fallback: bool,
    pub lstm_cpu: bool,
    pub rnn_host_fallback: bool,
    pub ssm_cpu: bool,
    pub sample_host: bool,
    pub concat_host: bool,
    pub fuse_decode: bool,
    pub fuse_decode_log: bool,
    pub sdpa_flash_decode: Option<bool>,
    pub sdpa_flash_partitions: Option<u32>,
    pub sdpa_tune_cache_path: Option<String>,
    pub sdpa_tune_cache_load: bool,
    pub sdpa_tune_cache_persist: bool,
    pub sdpa_tune_cache_max_entries: usize,
    pub sdpa_tune_cache_eviction: TuneCacheEviction,
}

/// The environment as it was read: flags that are on, a number, and the variables that are set.
#[derive(Debug)]
pub struct RuntimeEnv {
    pub disable_mpsgraph: bool,
    pub disable_mpsgraph_executable: bool,
    /// Whether the variable is set at all, to whatever value.
    pub disable_mpsgraph_hybrid_set: bool,
    pub mpsgraph_force: bool,
    pub mpsgraph_min_flops: u64,
    pub mpsgraph_trace: bool,
    pub mpsgraph_param_const: bool,
    pub mps_fp16: bool,
    pub dequant_gpu_disable: bool,
    pub dequant_matmul_legacy: bool,
    pub metal_debug: bool,
    pub metal_trace: bool,
    pub host_fallback: bool,
    pub gdn_host_fallback: bool,
    pub gdn_cpu: bool,
    pub fft_host_fallback: bool,
    pub lstm_host_fallback: bool,
    pub lstm_cpu: bool,
    pub rnn_host_fallback: bool,
    pub ssm_host_fallback: bool,
    pub ssm_cpu: bool,
    pub sample_host: bool,
    pub concat_host: bool,
    pub fuse_decode: Option<String>,
    pub fuse_decode_log: bool,
    pub sdpa_flash_decode: Option<String>,
    pub sdpa_flash_p: Option<String>,
    pub sdpa_tune_cache: Option<String>,
    pub sdpa_tune_cache_load: Option<String>,
    pub sdpa_tune_cache_persist: Option<String>,
    pub sdpa_tune_cache_max_entries: Option<String>,
    pub sdpa_tune_cache_eviction: Option<String>,
}

/// A switch that is set is on unless it says `0`.
pub open spec fn switch_value(v: Option<String>) -> Option<bool> {
    match v {
        Some(s) => Some(s@ != "0"@),
        None => None,
    }
}

fn read_switch(v: &Option<String>) -> (r: Option<bool>)
    ensures
        r == switch_value(*v),
{
    match v {
        Some(s) => Some(!same_chars(&chars_of(s.as_str()), &chars_of("0"))),
        None => None,
    }
}

/// A switch that is on unless it says `0`.
pub open spec fn switch_on(v: Option<String>) -> bool {
    switch_value(v) != Some(false)
}

fn read_switch_on(v: &Option<String>) -> (r: bool)
    ensures
        r == switch_on(*v),
{
    match read_switch(v) {
        Some(on) => on,
        None => true,
    }
}

/// Zero partitions mean that none are asked for.
pub open spec fn positive(p: Option<u32>) -> Option<u32> {
    match p {
        Some(0) => None,
        _ => p,
    }
}

fn only_positive(p: Option<u32>) -> (r: Option<u32>)
    ensures
        r == positive(p),
{
    match p {
        Some(0) => None,
        _ => p,
    }
}

pub open spec fn partitions_value(v: Option<String>) -> Option<u32> {
    match v {
        Some(s) => match parsed_unsigned(s@, u32::MAX as nat) {
            Some(n) => positive(Some(n as u32)),
            None => None,
        },
        None => None,
    }
}

fn read_partitions(v: &Option<String>) -> (r: Option<u32>)
    ensures
        r == partitions_value(*v),
{
    match v {
        Some(s) => match parse_unsigned(&chars_of(s.as_str()), 0xffff_ffff) {
            Some(n) => only_positive(Some(n as u32)),
            None => None,
        },
        None => None,
    }
}

/// At least one entry.
pub open spec fn at_least_one(n: usize) -> usize {
    if n == 0 {
        1
    } else {
        n
    }
}

pub fn one_or_more(n: usize) -> (r: usize)
    ensures
        r == at_least_one(n),
{
    if n == 0 {
        1
    } else {
        n
    }
}

/// The number of entries that a table may hold: 256 unless the variable gives another number.
pub open spec fn max_entries_value(v: Option<String>) -> usize {
    match v {
        Some(s) => match parsed_unsigned(s@, usize::MAX as nat) {
            Some(n) => at_least_one(n as usize),
            None => 256,
        },
        None => 256,
    }
}

fn read_max_entries(v: &Option<String>) -> (r: usize)
    ensures
        r == max_entries_value(*v),
{
    match v {
        Some(s) => match parse_unsigned(&chars_of(s.as_str()), usize::MAX as u64) {
            Some(n) => one_or_more(n as usize),
            None => 256,
        },
        None => 256,
    }
}

/// The eviction rule by its name; low buckets are kept unless another rule is named.
pub open spec fn eviction_value(v: Option<String>) -> TuneCacheEviction {
    match v {
        Some(s) => if s@ == "keep-high"@ || s@ == "keep_high"@ || s@ == "high"@ {
            TuneCacheEviction::KeepHighBuckets
        } else if s@ == "lru"@ {
            TuneCacheEviction::Lru
        } else {
            TuneCacheEviction::KeepLowBuckets
        },
        None => TuneCacheEviction::KeepLowBuckets,
    }
}

pub fn parse_sdpa_cache_eviction(v: Option<String>) -> (r: TuneCacheEviction)
    ensures
        r == eviction_value(v),
{
    match v {
        Some(s) => {
            let name: Vec<char> = chars_of(s.as_str());
            if same_chars(&name, &chars_of("keep-high")) || same_chars(&name, &chars_of("keep_high"))
                || same_chars(&name, &chars_of("high")) {
                TuneCacheEviction::KeepHighBuckets
            } else if same_chars(&name, &chars_of("lru")) {
                TuneCacheEviction::Lru
            } else {
                TuneCacheEviction::KeepLowBuckets
            }
        },
        None => TuneCacheEviction::KeepLowBuckets,
    }
}

impl MetalRuntimeConfig {
    /// The options that an environment asks for.
    pub open spec fn of_env(env: RuntimeEnv) -> Self {
        MetalRuntimeConfig {
            disable_mpsgraph: env.disable_mpsgraph,
            disable_mpsgraph_executable: env.disable_mpsgraph_executable,
            disable_mpsgraph_hybrid: env.disable_mpsgraph_hybrid_set,
            mpsgraph_force: env.mpsgraph_force,
            mpsgraph_min_flops: env.mpsgraph_min_flops,
            mpsgraph_trace: env.mpsgraph_trace,
            mpsgraph_param_const: env.mpsgraph_param_const,
            mps_fp16: env.mps_fp16,
            dequant_gpu_disable: env.dequant_gpu_disable,
            dequant_matmul_legacy: env.dequant_matmul_legacy,
            metal_debug: env.metal_debug,
            metal_trace: env.metal_trace,
            host_fallback: env.host_fallback,
            gdn_host_fallback: env.gdn_host_fallback || env.gdn_cpu,
            fft_host_fallback: env.fft_host_fallback,
            lstm_cpu: env.lstm_host_fallback || env.lstm_cpu,
            rnn_host_fallback: env.rnn_host_fallback,
            ssm_cpu: env.ssm_host_fallback || env.ssm_cpu,
            sample_host: env.sample_host,
            concat_host: env.concat_host,
            fuse_decode: switch_on(env.fuse_decode),
            fuse_decode_log: env.fuse_decode_log,
            sdpa_flash_decode: switch_value(env.sdpa_flash_decode),
            sdpa_flash_partitions: partitions_value(env.sdpa_flash_p),
            sdpa_tune_cache_path: env.sdpa_tune_cache,
            sdpa_tune_cache_load: switch_on(env.sdpa_tune_cache_load),
            sdpa_tune_cache_persist: switch_on(env.sdpa_tune_cache_persist),
            sdpa_tune_cache_max_entries: max_entries_value(env.sdpa_tune_cache_max_entries),
            sdpa_tune_cache_eviction: eviction_value(env.sdpa_tune_cache_eviction),
        }
    }

    pub fn from_env(env: RuntimeEnv) -> (r: Self)
        ensures
            r == Self::of_env(env),
    {
        MetalRuntimeConfig {
            disable_mpsgraph: env.disable_mpsgraph,
            disable_mpsgraph_executable: env.disable_mpsgraph_executable,
            disable_mpsgraph_hybrid: env.disable_mpsgraph_hybrid_set,
            mpsgraph_force: env.mpsgraph_force,
            mpsgraph_min_flops: env.mpsgraph_min_flops,
            mpsgraph_trace: env.mpsgraph_trace,
            mpsgraph_param_const: env.mpsgraph_param_const,
            mps_fp16: env.mps_fp16,
            dequant_gpu_disable: env.dequant_gpu_disable,
            dequant_matmul_legacy: env.dequant_matmul_legacy,
            metal_debug: env.metal_debug,
            metal_trace: env.metal_trace,
            host_fallback: env.host_fallback,
            gdn_host_fallback: env.gdn_host_fallback || env.gdn_cpu,
            fft_host_fallback: env.fft_host_fallback,
            lstm_cpu: env.lstm_host_fallback || env.lstm_cpu,
            rnn_host_fallback: env.rnn_host_fallback,
            ssm_cpu: env.ssm_host_fallback || env.ssm_cpu,
            sample_host: env.sample_host,
            concat_host: env.concat_host,
            fuse_decode: read_switch_on(&env.fuse_decode),
            fuse_decode_log: env.fuse_decode_log,
            sdpa_flash_decode: read_switch(&env.sdpa_flash_decode),
            sdpa_flash_partitions: read_partitions(&env.sdpa_flash_p),
            sdpa_tune_cache_load: read_switch_on(&env.sdpa_tune_cache_load),
            sdpa_tune_cache_persist: read_switch_on(&env.sdpa_tune_cache_persist),
            sdpa_tune_cache_max_entries: read_max_entries(&env.sdpa_tune_cache_max_entries),
            sdpa_tune_cache_eviction: parse_sdpa_cache_eviction(env.sdpa_tune_cache_eviction),
            sdpa_tune_cache_path: env.sdpa_tune_cache,
        }
    }

    /// What every way to set options keeps: a table may hold something, and no number of
    /// partitions is zero.
    pub open spec fn well_formed(&self) -> bool {
        &&& self.sdpa_tune_cache_max_entries >= 1
        &&& self.sdpa_flash_partitions != Some(0u32)
    }

    pub fn with_sdpa_flash(self, enabled: Option<bool>, partitions: Option<u32>) -> (r: Self)
        ensures
            r == (MetalRuntimeConfig {
                sdpa_flash_decode: enabled,
                sdpa_flash_partitions: positive(partitions),
                ..self
            }),
            self.well_formed() ==> r.well_formed(),
    {
        MetalRuntimeConfig {
            sdpa_flash_decode: enabled,
            sdpa_flash_partitions: only_positive(partitions),
            ..self
        }
    }

    pub fn with_sdpa_tune_cache(
        self,
        path: Option<String>,
        load: bool,
        persist: bool,
        max_entries: usize,
    ) -> (r: Self)
        ensures
            r == (MetalRuntimeConfig {
                sdpa_tune_cache_path: path,
                sdpa_tune_cache_load: load,
                sdpa_tune_cache_persist: persist,
                sdpa_tune_cache_max_entries: at_least_one(max_entries),
                ..self
            }),
            self.well_formed() ==> r.well_formed(),
    {
        MetalRuntimeConfig {
            sdpa_tune_cache_path: path,
            sdpa_tune_cache_load: load,
            sdpa_tune_cache_persist: persist,
            sdpa_tune_cache_max_entries: one_or_more(max_entries),
            ..self
        }
    }

    pub fn with_sdpa_tune_cache_eviction(self, eviction: TuneCacheEviction) -> (r: Self)
        ensures
            r == (MetalRuntimeConfig { sdpa_tune_cache_eviction: eviction, ..self }),
            self.well_formed() ==> r.well_formed(),
    {
        MetalRuntimeConfig { sdpa_tune_cache_eviction: eviction, ..self }
    }

    /// Equal in every option, the path compared by its text.
    pub open spec fn same_as(&self, other: Self) -> bool {
        &&& *self == (MetalRuntimeConfig { sdpa_tune_cache_path: self.sdpa_tune_cache_path, ..other
        })
        &&& match (self.sdpa_tune_cache_path, other.sdpa_tune_cache_path) {
            (Some(a), Some(b)) => a@ == b@,
            (None, None) => true,
            _ => false,
        }
    }
}

impl Clone for MetalRuntimeConfig {
    fn clone(&self) -> (r: Self)
        ensures
            r.same_as(*self),
    {
        MetalRuntimeConfig {
            disable_mpsgraph: self.disable_mpsgraph,
            disable_mpsgraph_executable: self.disable_mpsgraph_executable,
            disable_mpsgraph_hybrid: self.disable_mpsgraph_hybrid,
            mpsgraph_force: self.mpsgraph_force,
            mpsgraph_min_flops: self.mpsgraph_min_flops,
            mpsgraph_trace: self.mpsgraph_trace,
            mpsgraph_param_const: self.mpsgraph_param_const,
            mps_fp16: self.mps_fp16,
            dequant_gpu_disable: self.dequant_gpu_disable,
            dequant_matmul_legacy: self.dequant_matmul_legacy,
            metal_debug: self.metal_debug,
            metal_trace: self.metal_trace,
            host_fallback: self.host_fallback,
            gdn_host_fallback: self.gdn_host_fallback,
            fft_host_fallback: self.fft_host_fallback,
            lstm_cpu: self.lstm_cpu,
            rnn_host_fallback: self.rnn_host_fallback,
            ssm_cpu: self.ssm_cpu,
            sample_host: self.sample_host,
            concat_host: self.concat_host,
            fuse_decode: self.fuse_decode,
            fuse_decode_log: self.fuse_decode_log,
            sdpa_flash_decode: self.sdpa_flash_decode,
            sdpa_flash_partitions: self.sdpa_flash_partitions,
            sdpa_tune_cache_path: match &self.sdpa_tune_cache_path {
                Some(path) => Some(path.clone()),
                None => None,
            },
            sdpa_tune_cache_load: self.sdpa_tune_cache_load,
            sdpa_tune_cache_persist: self.sdpa_tune_cache_persist,
            sdpa_tune_cache_max_entries: self.sdpa_tune_cache_max_entries,
            sdpa_tune_cache_eviction: self.sdpa_tune_cache_eviction,
        }
    }
}

/// Options from an environment are well formed.
pub proof fn lemma_env_options_well_formed(env: RuntimeEnv)
    ensures
        MetalRuntimeConfig::of_env(env).well_formed(),
{
    assert(positive(Some(0u32)) is None);
}

/// The options in force. They come from the environment on first use, and stay until they are
/// replaced.
pub struct ConfigCell {
    pub current: Option<MetalRuntimeConfig>,
}

impl ConfigCell {
    /// The options in force, given what the environment would say.
    pub open spec fn in_force(&self, env: RuntimeEnv) -> MetalRuntimeConfig {
        match self.current {
            Some(cfg) => cfg,
            None => MetalRuntimeConfig::of_env(env),
        }
    }

    pub fn new() -> (r: Self)
        ensures
            r.current is None,
    {
        ConfigCell { current: None }
    }
}

/// Puts options in force, unless some are. The environment is used only then.
pub fn map(cell: &mut ConfigCell, env: RuntimeEnv)
    ensures
        final(cell).current == Some(old(cell).in_force(env)),
{
    if cell.current.is_none() {
        cell.current = Some(MetalRuntimeConfig::from_env(env));
    }
}

/// The options in force.
pub fn runtime_config(cell: &mut ConfigCell, env: RuntimeEnv) -> (r: MetalRuntimeConfig)
    ensures
        r.same_as(old(cell).in_force(env)),
        final(cell).current == Some(old(cell).in_force(env)),
{
    let cfg: MetalRuntimeConfig = match cell.current.take() {
        Some(cfg) => cfg,
        None => MetalRuntimeConfig::from_env(env),
    };
    let copy: MetalRuntimeConfig = cfg.clone();
    cell.current = Some(cfg);
    copy
}

/// Takes the options from the environment anew.
pub fn reload_runtime_config(cell: &mut ConfigCell, env: RuntimeEnv)
    ensures
        final(cell).current == Some(MetalRuntimeConfig::of_env(env)),
{
    cell.current = Some(MetalRuntimeConfig::from_env(env));
}

pub fn install_runtime_config(cell: &mut ConfigCell, cfg: MetalRuntimeConfig)
    ensures
        final(cell).current == Some(cfg),
{
    cell.current = Some(cfg);
}

} // verus!
