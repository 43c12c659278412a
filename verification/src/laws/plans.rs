//! Kernel plans: what a profile stands for, which candidate is chosen, and what is refused.

use vstd::prelude::*;

use crate::kernel_plan::{
    candidate_fault, candidates_fault, default_choice, finite_non_negative, first_where,
    is_emulated, kv_text, launch_choice, launch_fault, plan_hybrid, precision_fault, prefers_f16,
    prefers_partial, profile_tag, reduce_text, selected_candidate, staging_bytes, tag_text,
    tune_policy_fault, uses_emulation, weights_ok, ConvertPolicy, HybridPrecisionSpec,
    KernelFamily, KernelPlan, KernelPlanBuilder, LaunchBuilder, LaunchError, MemoryPolicy,
    ObjectiveWeights, PrecisionProfile, PrecisionProfileTag, RolePrecision, ScalarType,
    SdpaDecodeCandidate, SdpaDecodeVariant, ThreadPolicy, TunePolicy,
};

verus! {

/// Every profile accumulates in single precision without conversion and treats activations, weights
/// and cache alike. The fastest profile keeps and computes in half precision, the balanced one keeps
/// brain floats and computes in half precision, the faithful ones stay in single precision. Each is
/// accepted without emulation.
pub proof fn lemma_profiles(p: PrecisionProfile, family: KernelFamily)
    ensures
        ({
            let s = p.spec_default();
            &&& s.activations == s.weights && s.weights == s.kv_cache
            &&& s.accum.storage == ScalarType::F32 && s.accum.compute == ScalarType::F32
            &&& s.accum.convert == ConvertPolicy::Native
            &&& s.weights.convert == ConvertPolicy::Native
            &&& s.weights.compute == ScalarType::F16 <==> p == PrecisionProfile::UltraLowLatency || p
                == PrecisionProfile::Balanced
            &&& s.weights.storage == ScalarType::F16 <==> p == PrecisionProfile::UltraLowLatency
            &&& s.weights.storage == ScalarType::BF16 <==> p == PrecisionProfile::Balanced
            &&& s.weights.storage == ScalarType::F32 <==> s.weights.compute == ScalarType::F32
            &&& s.weights.storage == ScalarType::F32 <==> p == PrecisionProfile::HighFidelity || p
                == PrecisionProfile::Deterministic
            &&& !uses_emulation(s)
            &&& precision_fault(family, s, false) is None
        }),
{
}

/// Tags keep profiles apart.
pub proof fn lemma_profile_tags(p: PrecisionProfile, q: PrecisionProfile)
    ensures
        profile_tag(p) == profile_tag(q) ==> p == q,
        profile_tag(PrecisionProfile::Deterministic) == PrecisionProfileTag::Deterministic,
        profile_tag(PrecisionProfile::Balanced) == PrecisionProfileTag::Balanced,
        profile_tag(PrecisionProfile::HighFidelity) == PrecisionProfileTag::HighFidelity,
        prefers_f16(p) <==> p.spec_default().kv_cache.compute == ScalarType::F16,
        prefers_partial(p) <==> p.spec_default().kv_cache.storage == ScalarType::F16,
{
}

/// Tuning that is off measures nothing, keeps nothing, and is accepted.
pub proof fn lemma_tuning_off()
    ensures
        ({
            let t = TunePolicy::disabled_spec();
            &&& !t.enabled && !t.persist_cache && t.deterministic_mode && t.cache_load
            &&& t.warmup_iters == 0 && t.measure_iters == 0
            &&& tune_policy_fault(t) is None
        }),
{
}

/// A tuning policy is refused exactly where its cache may hold nothing.
pub proof fn lemma_tuning_refused(t: TunePolicy)
    ensures
        tune_policy_fault(t) is None <==> t.cache_max_entries >= 1,
{
}

/// The built-in variants are all there are, each once. One reads the cache in single precision; one
/// reduces partially; the two that split do so four ways with twice the threads and tiles of the
/// others.
pub proof fn lemma_variants(v: SdpaDecodeVariant)
    ensures
        SdpaDecodeVariant::all_spec().contains(v),
        SdpaDecodeVariant::all_spec().no_duplicates(),
        ({
            let c = v.spec_candidate();
            let b = SdpaDecodeVariant::BaseF32.spec_candidate();
            let split = v == SdpaDecodeVariant::SplitK4F16Kv || v == SdpaDecodeVariant::PartialF16Kv;
            &&& c.use_f16_kv <==> v != SdpaDecodeVariant::BaseF32
            &&& c.partial_reduce <==> v == SdpaDecodeVariant::PartialF16Kv
            &&& b.split_k == 1 && b.tg_size == 128 && b.tile_n == 64 && b.tile_k == 64
            &&& split ==> c.split_k == 4 && c.tg_size == 2 * b.tg_size && c.tile_n == 2 * b.tile_n
                && c.tile_k == 2 * b.tile_k
            &&& !split ==> c.split_k == b.split_k && c.tg_size == b.tg_size && c.tile_n == b.tile_n
                && c.tile_k == b.tile_k
            &&& c.tile_m == 1 && c.pad_q == 1 && c.pad_kv == 1
        }),
{
    let s = SdpaDecodeVariant::all_spec();
    match v {
        SdpaDecodeVariant::BaseF32 => {
            assert(s[0] == v);
        },
        SdpaDecodeVariant::BaseF16Kv => {
            assert(s[1] == v);
        },
        SdpaDecodeVariant::SplitK4F16Kv => {
            assert(s[2] == v);
        },
        SdpaDecodeVariant::PartialF16Kv => {
            assert(s[3] == v);
        },
    }
}

/// A float's bits are accepted as a weight exactly where its exponent is not all ones and it is not
/// below zero; minus zero is not below zero.
pub proof fn lemma_weight_bits(bits: u32)
    ensures
        finite_non_negative(bits) <==> (bits < 0x8000_0000 && bits / 0x80_0000 != 255) || bits
            == 0x8000_0000,
{
}

/// Weights are accepted exactly where each is and they sum to one; the built-in ones are.
pub proof fn lemma_weights(w: ObjectiveWeights)
    ensures
        weights_ok(w) <==> w.sums_to_one && finite_non_negative(w.latency) && finite_non_negative(
            w.error,
        ) && finite_non_negative(w.memory),
        weights_ok(ObjectiveWeights::spec_default()),
{
}

/// The first of a list that has a property: it is in the list, has it, and none before it has.
pub proof fn lemma_first_where(
    s: Seq<SdpaDecodeCandidate>,
    p: spec_fn(SdpaDecodeCandidate) -> bool,
)
    ensures
        match first_where(s, p) {
            Some(c) => exists|i: int|
                0 <= i < s.len() && #[trigger] s[i] == c && p(s[i]) && forall|j: int|
                    0 <= j < i ==> !p(#[trigger] s[j]),
            None => forall|j: int| 0 <= j < s.len() ==> !p(#[trigger] s[j]),
        },
    decreases s.len(),
{
    if s.len() > 0 {
        let t = s.drop_last();
        lemma_first_where(t, p);
        if first_where(t, p) is Some {
            let c = first_where(t, p)->0;
            let i = choose|i: int|
                0 <= i < t.len() && #[trigger] t[i] == c && p(t[i]) && forall|j: int|
                    0 <= j < i ==> !p(#[trigger] t[j]);
            assert(s[i] == c);
            assert forall|j: int| 0 <= j < i implies !p(#[trigger] s[j]) by {
                assert(t[j] == s[j]);
            }
        } else {
            assert forall|j: int| 0 <= j < t.len() implies !p(#[trigger] s[j]) by {
                assert(t[j] == s[j]);
            }
            if p(s.last()) {
                assert(s[s.len() - 1] == s.last());
            }
        }
    }
}

/// A candidate that suits the profile and the threads is chosen before one that only has the
/// profile's cache precision, and that before any other; the choice is always one of the list.
pub proof fn lemma_default_choice(
    profile: PrecisionProfile,
    threads: ThreadPolicy,
    s: Seq<SdpaDecodeCandidate>,
    i: int,
)
    requires
        0 <= i < s.len(),
    ensures
        ({
            let c = default_choice(profile, threads, s);
            let half = profile == PrecisionProfile::UltraLowLatency || profile
                == PrecisionProfile::Balanced;
            let partial = profile == PrecisionProfile::UltraLowLatency;
            &&& s.contains(c)
            &&& s[i].use_f16_kv == half ==> c.use_f16_kv == half
            &&& s[i].use_f16_kv == half && s[i].partial_reduce == partial && s[i].tg_size
                <= threads.max_threads_per_tg ==> c.partial_reduce == partial && c.tg_size
                <= threads.max_threads_per_tg
        }),
{
    let best = |c: SdpaDecodeCandidate|
        c.tg_size <= threads.max_threads_per_tg && c.use_f16_kv == prefers_f16(profile)
            && c.partial_reduce == prefers_partial(profile);
    let second = |c: SdpaDecodeCandidate| c.use_f16_kv == prefers_f16(profile);
    lemma_first_where(s, best);
    lemma_first_where(s, second);
    assert(s[0] == s[0]);
    assert(!best(s[i]) || first_where(s, best) is Some);
    assert(!second(s[i]) || first_where(s, second) is Some);
    let c = default_choice(profile, threads, s);
    if first_where(s, best) is Some {
        assert(best(c));
    } else if first_where(s, second) is Some {
        assert(second(c));
    }
}

/// Few tokens or many keys are launched with a partial reduction where the plan has one, everything
/// else with the plan's default.
pub proof fn lemma_launch_choice(plan: KernelPlan, tokens: u32, seq_kv: u32, i: int)
    requires
        0 <= i < plan.candidates@.len(),
    ensures
        ({
            let c = launch_choice(plan, tokens, seq_kv);
            &&& (tokens <= 8 || seq_kv > 1024) && plan.candidates@[i].partial_reduce
                ==> c.partial_reduce && plan.candidates@.contains(c)
            &&& tokens > 8 && seq_kv <= 1024 ==> c == plan.default_candidate
            &&& c == plan.default_candidate || (c.partial_reduce && plan.candidates@.contains(c))
        }),
{
    let p = |c: SdpaDecodeCandidate| c.partial_reduce;
    lemma_first_where(plan.candidates@, p);
    assert(p(plan.candidates@[i]) == plan.candidates@[i].partial_reduce);
    let f = first_where(plan.candidates@, p);
    if f is Some {
        assert(p(f->0));
    }
}

/// A candidate that was named is taken; otherwise the plan's choice for the launch is.
pub proof fn lemma_selected_candidate(b: LaunchBuilder, c: SdpaDecodeCandidate)
    ensures
        b.candidate_override == Some(c) ==> selected_candidate(b) == c,
        b.candidate_override is None ==> selected_candidate(b) == launch_choice(
            *b.plan,
            b.tokens_field->0,
            b.seq_kv_field->0,
        ),
{
}

/// Taking a value as it is stored and casting it are no emulation; every other conversion is.
pub proof fn lemma_emulated(r: RolePrecision, h: HybridPrecisionSpec)
    ensures
        !is_emulated(r) <==> r.convert == ConvertPolicy::Native || r.convert == ConvertPolicy::Cast,
        uses_emulation(h) <==> is_emulated(h.activations) || is_emulated(h.weights) || is_emulated(
            h.accum,
        ) || is_emulated(h.kv_cache),
{
}

/// Precisions are accepted exactly where the accumulator computes in more than half precision, no
/// role is emulated unless that is allowed, and the cache is stored as floats of 16 or 32 bits.
pub proof fn lemma_precisions(family: KernelFamily, h: HybridPrecisionSpec, allow: bool)
    ensures
        precision_fault(family, h, allow) is None <==> {
            &&& h.accum.compute != ScalarType::F16
            &&& h.accum.compute != ScalarType::F8E4M3
            &&& h.accum.compute != ScalarType::F8E5M2
            &&& allow || !uses_emulation(h)
            &&& h.kv_cache.storage == ScalarType::F16 || h.kv_cache.storage == ScalarType::BF16
                || h.kv_cache.storage == ScalarType::F32
        },
        precision_fault(family, h, false) is None ==> precision_fault(family, h, true) is None,
{
}

/// A candidate is accepted exactly where its split is a power of two up to 32, its threads are one of
/// four sizes and within the policy, its tiles and paddings are within bounds, and what it stages
/// fits the memory policy.
pub proof fn lemma_candidates(c: SdpaDecodeCandidate, t: ThreadPolicy, m: MemoryPolicy)
    ensures
        candidate_fault(c, t, m) is None <==> {
            &&& c.split_k == 1 || c.split_k == 2 || c.split_k == 4 || c.split_k == 8 || c.split_k == 16
                || c.split_k == 32
            &&& c.tg_size == 64 || c.tg_size == 128 || c.tg_size == 256 || c.tg_size == 512
            &&& 1 <= c.tile_m <= 1024 && 1 <= c.tile_n <= 1024 && 1 <= c.tile_k <= 4096
            &&& 1 <= c.pad_q <= 4096 && 1 <= c.pad_kv <= 4096
            &&& c.tg_size <= t.max_threads_per_tg
            &&& match m {
                MemoryPolicy::ArenaOnly => !c.partial_reduce,
                MemoryPolicy::SharedIfFits { max_tg_bytes } => staging_bytes(c) <= max_tg_bytes,
                MemoryPolicy::ForceShared => true,
            }
        },
        staging_bytes(SdpaDecodeCandidate { partial_reduce: true, ..c }) == 4 * staging_bytes(
            SdpaDecodeCandidate { partial_reduce: false, ..c },
        ),
        staging_bytes(SdpaDecodeCandidate { partial_reduce: false, ..c }) == 4096,
{
}

/// A list is refused exactly where one of it is, for the reason of the first that is.
pub proof fn lemma_candidate_lists(cs: Seq<SdpaDecodeCandidate>, t: ThreadPolicy, m: MemoryPolicy)
    ensures
        match candidates_fault(cs, t, m) {
            None => forall|i: int|
                0 <= i < cs.len() ==> candidate_fault(#[trigger] cs[i], t, m) is None,
            Some(f) => exists|i: int|
                0 <= i < cs.len() && candidate_fault(#[trigger] cs[i], t, m) == Some(f) && forall|
                    j: int,
                |
                    0 <= j < i ==> candidate_fault(#[trigger] cs[j], t, m) is None,
        },
    decreases cs.len(),
{
    if cs.len() > 0 {
        let d = cs.drop_last();
        lemma_candidate_lists(d, t, m);
        if candidates_fault(d, t, m) is Some {
            let f = candidates_fault(d, t, m)->0;
            let i = choose|i: int|
                0 <= i < d.len() && candidate_fault(#[trigger] d[i], t, m) == Some(f) && forall|
                    j: int,
                |
                    0 <= j < i ==> candidate_fault(#[trigger] d[j], t, m) is None;
            assert(cs[i] == d[i]);
            assert forall|j: int| 0 <= j < i implies candidate_fault(#[trigger] cs[j], t, m) is None by {
                assert(cs[j] == d[j]);
            }
        } else {
            assert forall|j: int| 0 <= j < d.len() implies candidate_fault(
                #[trigger] cs[j],
                t,
                m,
            ) is None by {
                assert(cs[j] == d[j]);
            }
            if candidate_fault(cs.last(), t, m) is Some {
                assert(cs[cs.len() - 1] == cs.last());
            }
        }
    }
}

/// A precision that was given is taken in place of the profile's.
pub proof fn lemma_plan_hybrid(b: KernelPlanBuilder, h: HybridPrecisionSpec)
    ensures
        b.hybrid_override == Some(h) ==> plan_hybrid(b) == h,
        b.hybrid_override is None ==> plan_hybrid(b) == b.precision.spec_default(),
{
}

/// A launch is accepted exactly where every extent is given and none is zero, heads are no wider than
/// 512, and the candidate is one of the plan's.
pub proof fn lemma_launches_accepted(b: LaunchBuilder)
    ensures
        launch_fault(b) is None <==> {
            &&& b.m_field is Some && b.m_field->0 > 0
            &&& b.tokens_field is Some && b.tokens_field->0 > 0
            &&& b.batch_field is Some && b.batch_field->0 > 0
            &&& b.heads_field is Some && b.heads_field->0 > 0
            &&& b.head_dim_field is Some && 0 < b.head_dim_field->0 <= 512
            &&& b.seq_q_field is Some && b.seq_q_field->0 > 0
            &&& b.seq_kv_field is Some && b.seq_kv_field->0 > 0
            &&& b.plan.candidates@.contains(selected_candidate(b))
        },
        launch_fault(b) matches Some(LaunchError::MissingField(name)) ==> b.m_field is None
            || b.tokens_field is None || b.batch_field is None || b.heads_field is None
            || b.head_dim_field is None || b.seq_q_field is None || b.seq_kv_field is None,
        launch_fault(b) == Some(LaunchError::CandidateNotPresent) ==> !b.plan.candidates@.contains(
            selected_candidate(b),
        ),
{
}

/// A tag says in words how the cache is read and how the result is reduced.
pub proof fn lemma_tag_words(c: SdpaDecodeCandidate)
    ensures
        ({
            let words = if c.use_f16_kv && c.partial_reduce {
                "_f16kv_partial"@
            } else if c.use_f16_kv {
                "_f16kv_full"@
            } else if c.partial_reduce {
                "_f32kv_partial"@
            } else {
                "_f32kv_full"@
            };
            let t = tag_text(c);
            &&& t.len() >= words.len()
            &&& t.subrange(t.len() - words.len(), t.len() as int) =~= words
        }),
{
    reveal_strlit("_f16kv_partial");
    reveal_strlit("_f16kv_full");
    reveal_strlit("_f32kv_partial");
    reveal_strlit("_f32kv_full");
    reveal_strlit("f16kv");
    reveal_strlit("f32kv");
    reveal_strlit("partial");
    reveal_strlit("full");
    reveal_strlit("_");
    let w = "_"@ + kv_text(c.use_f16_kv) + "_"@ + reduce_text(c.partial_reduce);
    let t = tag_text(c);
    let head = crate::kernel_plan::numbers_text(c);
    assert(t =~= head + w);
    assert(t.subrange(head.len() as int, t.len() as int) =~= w);
}

} // verus!
