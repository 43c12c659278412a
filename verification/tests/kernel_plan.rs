use rlx_metal::kernel_plan::{
    bucket_pow2, tune_cache_key, KernelFamily, KernelPlanBuilder, LaunchBuilder, LaunchError,
    ObjectiveWeights, PlanError, SdpaDecodeCandidate, SdpaDecodeVariant, ThreadPolicy,
    TokenBucketStrategy, TuneCacheEviction, TunePolicy,
};

#[test]
fn plan_builder_works_with_defaults() {
    let plan = KernelPlanBuilder::new(KernelFamily::SdpaDecode)
        .autotune(TunePolicy::balanced_defaults())
        .build_plan()
        .expect("plan should build");
    assert_eq!(plan.family, KernelFamily::SdpaDecode);
    assert!(!plan.candidates.is_empty());
}

#[test]
fn launch_builder_validates_fields() {
    let plan = KernelPlanBuilder::new(KernelFamily::SdpaDecode)
        .build_plan()
        .expect("plan should build");

    let err = LaunchBuilder::from_plan(&plan)
        .m(1)
        .tokens(32)
        .batch(1)
        .num_heads(16)
        .head_dim(128)
        .seq_q(1)
        .build()
        .expect_err("missing seq_kv should fail");
    assert!(matches!(err, LaunchError::MissingField("seq_kv")));
}

#[test]
fn tune_cache_key_has_shape_and_token_bucket() {
    let plan = KernelPlanBuilder::new(KernelFamily::SdpaDecode)
        .build_plan()
        .expect("plan should build");
    let launch = LaunchBuilder::from_plan(&plan)
        .m(1)
        .tokens(192)
        .batch(2)
        .num_heads(32)
        .head_dim(128)
        .seq_q(1)
        .seq_kv(192)
        .build()
        .expect("launch should build");

    let key = tune_cache_key(&plan, &launch, "m4pro-gpu", 0x10);
    assert_eq!(key.family, KernelFamily::SdpaDecode);
    assert_eq!(key.device_fingerprint, "m4pro-gpu");
    assert_eq!(key.env_mask, 0x10);
    assert_eq!(key.token_bucket, plan.token_buckets.bucket_of(192));
    assert!(launch.kernel_name.contains("sdpa_decode_m1_tok192"));
    assert!(launch.kernel_name.contains("_skp"));
    assert!(launch.kernel_name.contains("_tm"));
}

#[test]
fn launches_that_differ_get_different_labels() {
    let plan = KernelPlanBuilder::new(KernelFamily::SdpaDecode)
        .build_plan()
        .expect("plan should build");
    let label = |m: u32, tokens: u32, batch: u32| {
        LaunchBuilder::from_plan(&plan)
            .m(m)
            .tokens(tokens)
            .batch(batch)
            .num_heads(32)
            .head_dim(128)
            .seq_q(1)
            .seq_kv(192)
            .build()
            .expect("launch should build")
            .kernel_name
    };
    let labels = [label(1, 11, 1), label(11, 1, 1), label(1, 1, 11), label(1, 1, 1)];
    for i in 0..labels.len() {
        for j in 0..i {
            assert_ne!(labels[i], labels[j]);
        }
    }
    assert_eq!(label(1, 11, 1), labels[0]);
}

#[test]
fn custom_tile_sizes_apply_to_candidates() {
    let plan = KernelPlanBuilder::new(KernelFamily::SdpaDecode)
        .tile_sizes(2, 96, 192)
        .build_plan()
        .expect("plan should build");
    assert!(plan
        .candidates
        .iter()
        .all(|c| c.tile_m == 2 && c.tile_n == 96 && c.tile_k == 192));
}

#[test]
fn custom_padding_applies_to_candidates() {
    let plan = KernelPlanBuilder::new(KernelFamily::SdpaDecode)
        .padding(2, 64)
        .build_plan()
        .expect("plan should build");
    assert!(plan
        .candidates
        .iter()
        .all(|c| c.pad_q == 2 && c.pad_kv == 64));
}

#[test]
fn tune_cache_config_applies_to_plan() {
    let plan = KernelPlanBuilder::new(KernelFamily::SdpaDecode)
        .tune_cache(true, false, 32)
        .tune_cache_eviction(TuneCacheEviction::Lru)
        .build_plan()
        .expect("plan should build");
    assert!(plan.tune_policy.cache_load);
    assert!(!plan.tune_policy.persist_cache);
    assert_eq!(plan.tune_policy.cache_max_entries, 32);
    assert_eq!(plan.tune_policy.cache_eviction, TuneCacheEviction::Lru);
}

#[test]
fn tags_read_back_as_their_candidates() {
    for v in SdpaDecodeVariant::all() {
        let c = v.candidate();
        assert_eq!(SdpaDecodeCandidate::from_tag(&c.tag()), Some(c));
    }
    let odd = SdpaDecodeCandidate {
        split_k: 4294967295,
        tg_size: 0,
        tile_m: 10,
        tile_n: 205,
        tile_k: 7,
        pad_q: 1,
        pad_kv: 99,
        use_f16_kv: true,
        partial_reduce: false,
    };
    assert_eq!(
        odd.tag(),
        "skp4294967295_tg0_tm10_tn205_tk7_pq1_pk99_f16kv_full"
    );
    assert_eq!(SdpaDecodeCandidate::from_tag(&odd.tag()), Some(odd));
}

#[test]
fn broken_tags_are_refused() {
    for tag in [
        "",
        "skp1",
        "skp1_tg32_tm1_tn1_tk1_pq1_pk1_f16kv",
        "skpx_tg32_tm1_tn1_tk1_pq1_pk1_f16kv_full",
        "skp4294967296_tg32_tm1_tn1_tk1_pq1_pk1_f16kv_full",
    ] {
        assert_eq!(SdpaDecodeCandidate::from_tag(tag), None, "{tag}");
    }
}

#[test]
fn buckets_grow_with_the_tokens() {
    let b = TokenBucketStrategy::decode_default();
    let mut last = 0;
    for tokens in [0u32, 1, 31, 32, 33, 128, 129, 5000, 1_000_000] {
        let bucket = b.bucket_of(tokens);
        assert!(bucket >= last, "bucket fell at {tokens}");
        last = bucket;
    }
}

#[test]
fn powers_of_two_are_rounded_up() {
    for (v, want) in [(0, 0), (1, 0), (2, 1), (3, 2), (4, 2), (5, 3), (1024, 10), (1025, 11)] {
        assert_eq!(bucket_pow2(v), want, "{v}");
    }
    assert_eq!(bucket_pow2(u32::MAX), 32);
}

#[test]
fn plans_without_candidates_are_refused() {
    let err = KernelPlanBuilder::new(KernelFamily::SdpaDecode)
        .candidates(Vec::new())
        .build_plan()
        .expect_err("no candidates");
    assert_eq!(err, PlanError::EmptyCandidates);
    assert_eq!(err.message(), "kernel plan needs at least one candidate");
}

#[test]
fn weights_that_do_not_sum_to_one_are_refused() {
    let err = KernelPlanBuilder::new(KernelFamily::SdpaDecode)
        .objective_weights(ObjectiveWeights {
            latency: 1.0f32.to_bits(),
            error: 1.0f32.to_bits(),
            memory: 0,
            sums_to_one: false,
        })
        .build_plan()
        .expect_err("weights");
    assert_eq!(err, PlanError::InvalidObjectiveWeights);
    assert_eq!(
        err.message(),
        "objective weights must be finite, non-negative, and sum to 1.0 (+/- 1e-3)"
    );
    let negative = KernelPlanBuilder::new(KernelFamily::SdpaDecode)
        .objective_weights(ObjectiveWeights {
            latency: (-1.0f32).to_bits(),
            error: 1.0f32.to_bits(),
            memory: 1.0f32.to_bits(),
            sums_to_one: true,
        })
        .build_plan();
    assert!(matches!(negative, Err(PlanError::InvalidObjectiveWeights)));
    let default = ObjectiveWeights::default();
    assert_eq!(f32::from_bits(default.latency), 0.6);
    assert_eq!(f32::from_bits(default.error), 0.3);
    assert_eq!(f32::from_bits(default.memory), 0.1);
}

#[test]
fn candidates_with_too_many_threads_are_refused() {
    let plan = KernelPlanBuilder::new(KernelFamily::SdpaDecode)
        .threads(ThreadPolicy {
            max_threads_per_tg: 1,
            prefer_simdgroups: true,
        })
        .build_plan();
    assert!(matches!(plan, Err(PlanError::InvalidCandidate(_))));
    if let Err(e) = plan {
        assert!(e.message().starts_with("invalid candidate: "));
    }
}

#[test]
fn launches_ask_for_candidates_of_the_plan() {
    let plan = KernelPlanBuilder::new(KernelFamily::SdpaDecode)
        .build_plan()
        .expect("plan should build");
    let mut foreign = plan.candidates[0];
    foreign.pad_kv = foreign.pad_kv + 1000;
    let err = LaunchBuilder::from_plan(&plan)
        .m(1)
        .tokens(32)
        .batch(1)
        .num_heads(16)
        .head_dim(128)
        .seq_q(1)
        .seq_kv(32)
        .candidate(foreign)
        .build()
        .expect_err("not in the plan");
    assert_eq!(err, LaunchError::CandidateNotPresent);
    assert_eq!(err.message(), "selected candidate is not in the plan");
}

#[test]
fn every_launch_field_is_asked_for() {
    let plan = KernelPlanBuilder::new(KernelFamily::SdpaDecode)
        .build_plan()
        .expect("plan should build");
    let err = LaunchBuilder::from_plan(&plan).build().expect_err("empty");
    assert_eq!(err, LaunchError::MissingField("m"));
    assert_eq!(err.message(), "missing launch field: m");
    let err = LaunchBuilder::from_plan(&plan)
        .m(1)
        .tokens(32)
        .batch(1)
        .num_heads(0)
        .head_dim(128)
        .seq_q(1)
        .seq_kv(32)
        .build()
        .expect_err("no heads");
    assert!(matches!(err, LaunchError::InvalidField(_)));
}
