//! Planning and encoding logic of a Metal tensor backend.

pub mod blas;
pub mod calibrate;
pub mod command;
pub mod config;
pub mod cost;
pub mod double_single;
pub mod encode;
pub mod estimate;
pub mod executable;
pub mod fft_dispatch;
pub mod float_bits;
pub mod gpu_span;
pub mod graph;
pub mod graph_rewrite;
pub mod hc_sinkhorn_gate;
pub mod icb;
pub mod kernel_plan;
pub mod launch;
pub mod laws;
pub mod mps_plan;
pub mod name_map;
pub mod run;
pub mod scratch;
pub mod sdpa;
pub mod text;
pub mod tune_cache;

