//! Typed kernel planning and launch configuration for kernel families.

use vstd::arithmetic::power2::{lemma_pow2_pos, lemma_pow2_unfold, pow2};
use vstd::prelude::*;

use crate::text::{
    chars_of, decimal, free_of, has_prefix, is_digit, lemma_decimal_digits, lemma_decimal_ends,
    lemma_decimal_round_trip, lemma_split_single, lemma_split_snoc, parse_unsigned,
    parsed_unsigned, pieces, push_decimal, same_chars, split_chars, split_on, strip_prefix_chars,
};

verus! {

#[derive(Clone, Copy, Debug, PartialEq, Eq, Hash, Structural)]
pub enum KernelFamily {
    SdpaDecode,
}

#[derive(Clone, Copy, Debug, PartialEq, Eq, Hash, Structural)]
pub enum ScalarType {
    F64,
    F32,
    BF16,
    F16,
    F8E4M3,
    F8E5M2,
    I8,
    I4,
    Q8,
    Q4,
}

#[derive(Clone, Copy, Debug, PartialEq, Eq, Hash, Structural)]
pub enum ConvertPolicy {
    Native,
    Cast,
    DequantOnLoad,
    StochasticRound,
    DoubleSingleEmu,
}

#[derive(Clone, Copy, Debug, PartialEq, Eq, Hash, Structural)]
pub struct RolePrecision {
    pub storage: ScalarType,
    pub compute: ScalarType,
    pub convert: ConvertPolicy,
}

impl RolePrecision {
    pub open spec fn native_spec(storage: ScalarType, compute: ScalarType) -> Self {
        RolePrecision { storage, compute, convert: ConvertPolicy::Native }
    }

    pub fn native(storage: ScalarType, compute: ScalarType) -> (r: Self)
        ensures
            r == Self::native_spec(storage, compute),
    {
        RolePrecision { storage, compute, convert: ConvertPolicy::Native }
    }
}

#[derive(Clone, Copy, Debug, PartialEq, Eq, Hash, Structural)]
pub struct HybridPrecisionSpec {
    pub activations: RolePrecision,
    pub weights: RolePrecision,
    pub accum: RolePrecision,
    pub kv_cache: RolePrecision,
}

#[derive(Clone, Copy, Debug, PartialEq, Eq, Structural)]
pub enum PrecisionProfile {
    UltraLowLatency,
    Balanced,
    HighFidelity,
    Deterministic,
}

impl PrecisionProfile {
    /// What activations, weights and the KV cache are stored in and computed with.
    pub open spec fn data_precision(self) -> RolePrecision {
        match self {
            PrecisionProfile::UltraLowLatency => RolePrecision::native_spec(
                ScalarType::F16,
                ScalarType::F16,
            ),
            PrecisionProfile::Balanced => RolePrecision::native_spec(
                ScalarType::BF16,
                ScalarType::F16,
            ),
            _ => RolePrecision::native_spec(ScalarType::F32, ScalarType::F32),
        }
    }

    /// Every profile accumulates in `F32`.
    pub open spec fn spec_default(self) -> HybridPrecisionSpec {
        HybridPrecisionSpec {
            activations: self.data_precision(),
            weights: self.data_precision(),
            accum: RolePrecision::native_spec(ScalarType::F32, ScalarType::F32),
            kv_cache: self.data_precision(),
        }
    }

    pub fn default_spec(self) -> (r: HybridPrecisionSpec)
        ensures
            r == self.spec_default(),
    {
        let data: RolePrecision = match self {
            PrecisionProfile::UltraLowLatency => RolePrecision::native(
                ScalarType::F16,
                ScalarType::F16,
            ),
            PrecisionProfile::Balanced => RolePrecision::native(ScalarType::BF16, ScalarType::F16),
            PrecisionProfile::HighFidelity => RolePrecision::native(
                ScalarType::F32,
                ScalarType::F32,
            ),
            PrecisionProfile::Deterministic => RolePrecision::native(
                ScalarType::F32,
                ScalarType::F32,
            ),
        };
        HybridPrecisionSpec {
            activations: data,
            weights: data,
            accum: RolePrecision::native(ScalarType::F32, ScalarType::F32),
            kv_cache: data,
        }
    }
}

#[derive(Clone, Copy, Debug, PartialEq, Eq, Structural)]
pub struct ThreadPolicy {
    pub max_threads_per_tg: u32,
    pub prefer_simdgroups: bool,
}

impl Default for ThreadPolicy {
    fn default() -> (r: Self)
        ensures
            r == (ThreadPolicy { max_threads_per_tg: 256, prefer_simdgroups: true }),
    {
        ThreadPolicy { max_threads_per_tg: 256, prefer_simdgroups: true }
    }
}

#[derive(Clone, Copy, Debug, PartialEq, Eq, Structural)]
pub enum MemoryPolicy {
    ArenaOnly,
    SharedIfFits { max_tg_bytes: u32 },
    ForceShared,
}

impl Default for MemoryPolicy {
    fn default() -> (r: Self)
        ensures
            r == (MemoryPolicy::SharedIfFits { max_tg_bytes: 32768 }),
    {
        MemoryPolicy::SharedIfFits { max_tg_bytes: 32 * 1024 }
    }
}

#[derive(Clone, Copy, Debug, PartialEq, Eq, Structural)]
pub enum TuneCacheEviction {
    KeepLowBuckets,
    KeepHighBuckets,
    Lru,
}

#[derive(Clone, Copy, Debug, PartialEq, Eq, Structural)]
pub struct TunePolicy {
    pub enabled: bool,
    pub warmup_iters: u32,
    pub measure_iters: u32,
    pub cache_load: bool,
    pub persist_cache: bool,
    pub cache_max_entries: usize,
    pub cache_eviction: TuneCacheEviction,
    pub deterministic_mode: bool,
}

impl TunePolicy {
    pub open spec fn disabled_spec() -> Self {
        TunePolicy {
            enabled: false,
            warmup_iters: 0,
            measure_iters: 0,
            cache_load: true,
            persist_cache: false,
            cache_max_entries: 256,
            cache_eviction: TuneCacheEviction::KeepLowBuckets,
            deterministic_mode: true,
        }
    }

    pub fn disabled() -> (r: Self)
        ensures
            r == Self::disabled_spec(),
    {
        TunePolicy {
            enabled: false,
            warmup_iters: 0,
            measure_iters: 0,
            cache_load: true,
            persist_cache: false,
            cache_max_entries: 256,
            cache_eviction: TuneCacheEviction::KeepLowBuckets,
            deterministic_mode: true,
        }
    }

    pub fn balanced_defaults() -> (r: Self)
        ensures
            r == (TunePolicy {
                enabled: true,
                warmup_iters: 2,
                measure_iters: 8,
                persist_cache: true,
                deterministic_mode: false,
                ..Self::disabled_spec()
            }),
    {
        TunePolicy {
            enabled: true,
            warmup_iters: 2,
            measure_iters: 8,
            cache_load: true,
            persist_cache: true,
            cache_max_entries: 256,
            cache_eviction: TuneCacheEviction::KeepLowBuckets,
            deterministic_mode: false,
        }
    }
}

impl Default for TunePolicy {
    fn default() -> (r: Self)
        ensures
            r == TunePolicy::disabled_spec(),
    {
        TunePolicy::disabled()
    }
}

/// The number of leading edges below `tokens`: the index of the first edge that `tokens` does
/// not exceed, or the number of edges.
pub open spec fn bucket_index(edges: Seq<u32>, tokens: u32) -> nat
    decreases edges.len(),
{
    if edges.len() == 0 {
        0
    } else {
        let before = bucket_index(edges.drop_last(), tokens);
        if before < edges.len() - 1 || tokens <= edges.last() {
            before
        } else {
            edges.len()
        }
    }
}

/// A sequence of upper edges that sort a token count into a bucket.
#[derive(Clone, Debug, PartialEq, Eq)]
pub struct TokenBucketStrategy {
    pub edges: Vec<u32>,
}

impl TokenBucketStrategy {
    pub open spec fn decode_edges() -> Seq<u32> {
        seq![1u32, 2, 4, 8, 16, 32, 64, 128, 256, 512]
    }

    pub fn decode_default() -> (r: Self)
        ensures
            r.edges@ == Self::decode_edges(),
    {
        let edges: Vec<u32> = vec![1u32, 2, 4, 8, 16, 32, 64, 128, 256, 512];
        assert(edges@ =~= Self::decode_edges());
        TokenBucketStrategy { edges }
    }

    pub fn bucket_of(&self, tokens: u32) -> (r: u16)
        ensures
            r as int == bucket_index(self.edges@, tokens) as int % 0x1_0000,
    {
        let mut i: usize = 0;
        assert(self.edges@.take(0) =~= Seq::<u32>::empty());
        while i < self.edges.len()
            invariant
                i <= self.edges.len(),
                bucket_index(self.edges@.take(i as int), tokens) == i,
            decreases self.edges.len() - i,
        {
            assert(self.edges@.take(i + 1).drop_last() =~= self.edges@.take(i as int));
            if tokens <= self.edges[i] {
                proof {
                    lemma_bucket_found(self.edges@, tokens, i as int);
                }
                return truncate_u16(i);
            }
            i = i + 1;
        }
        assert(self.edges@.take(i as int) =~= self.edges@);
        truncate_u16(i)
    }
}

fn truncate_u16(i: usize) -> (r: u16)
    ensures
        r as int == i as int % 0x1_0000,
{
    let r: u16 = (i & 0xffff) as u16;
    assert((i & 0xffff) == i % 0x1_0000) by (bit_vector);
    r
}

proof fn lemma_bucket_found(edges: Seq<u32>, tokens: u32, i: int)
    requires
        0 <= i < edges.len(),
        bucket_index(edges.take(i), tokens) == i,
        tokens <= edges[i],
    ensures
        bucket_index(edges, tokens) == i,
    decreases edges.len() - i,
{
    lemma_bucket_stays(edges, tokens, i, i + 1);
}

proof fn lemma_bucket_stays(edges: Seq<u32>, tokens: u32, i: int, n: int)
    requires
        0 <= i < n <= edges.len(),
        bucket_index(edges.take(i), tokens) == i,
        tokens <= edges[i],
        n == i + 1 || bucket_index(edges.take(n - 1), tokens) == i,
    ensures
        bucket_index(edges, tokens) == i,
    decreases edges.len() - n,
{
    assert(edges.take(n).drop_last() =~= edges.take(n - 1));
    assert(bucket_index(edges.take(n), tokens) == i);
    if n < edges.len() {
        lemma_bucket_stays(edges, tokens, i, n + 1);
    } else {
        assert(edges.take(n) =~= edges);
    }
}

/// Every edge before the bucket's is below `tokens`, and the bucket's own edge, where there is
/// one, is not.
pub proof fn lemma_bucket_index_is_first(edges: Seq<u32>, tokens: u32)
    ensures
        bucket_index(edges, tokens) <= edges.len(),
        forall|k: int| 0 <= k < bucket_index(edges, tokens) ==> #[trigger] edges[k] < tokens,
        bucket_index(edges, tokens) < edges.len() ==> tokens <= edges[bucket_index(
            edges,
            tokens,
        ) as int],
    decreases edges.len(),
{
    if edges.len() > 0 {
        let shorter = edges.drop_last();
        lemma_bucket_index_is_first(shorter, tokens);
        assert forall|k: int| 0 <= k < bucket_index(edges, tokens) implies #[trigger] edges[k]
            < tokens by {
            if k < shorter.len() {
                assert(shorter[k] == edges[k]);
            }
        }
    }
}

/// More tokens never land in a lower bucket.
pub proof fn lemma_bucket_index_monotone(edges: Seq<u32>, a: u32, b: u32)
    requires
        a <= b,
    ensures
        bucket_index(edges, a) <= bucket_index(edges, b),
{
    lemma_bucket_index_is_first(edges, a);
    lemma_bucket_index_is_first(edges, b);
    if bucket_index(edges, b) < bucket_index(edges, a) {
        assert(edges[bucket_index(edges, b) as int] < a);
    }
}

impl Default for TokenBucketStrategy {
    fn default() -> (r: Self)
        ensures
            r.edges@ == TokenBucketStrategy::decode_edges(),
    {
        TokenBucketStrategy::decode_default()
    }
}

#[derive(Clone, Copy, Debug, PartialEq, Eq, Hash, Structural)]
pub struct SdpaDecodeCandidate {
    pub split_k: u32,
    pub tg_size: u32,
    pub tile_m: u32,
    pub tile_n: u32,
    pub tile_k: u32,
    pub pad_q: u32,
    pub pad_kv: u32,
    pub use_f16_kv: bool,
    pub partial_reduce: bool,
}

pub open spec fn kv_text(use_f16_kv: bool) -> Seq<char> {
    if use_f16_kv {
        "f16kv"@
    } else {
        "f32kv"@
    }
}

pub open spec fn reduce_text(partial_reduce: bool) -> Seq<char> {
    if partial_reduce {
        "partial"@
    } else {
        "full"@
    }
}

/// The seven numbers of a candidate, each behind its name, joined by underscores.
pub open spec fn numbers_text(c: SdpaDecodeCandidate) -> Seq<char> {
    "skp"@ + decimal(c.split_k as nat) + "_tg"@ + decimal(c.tg_size as nat) + "_tm"@ + decimal(
        c.tile_m as nat,
    ) + "_tn"@ + decimal(c.tile_n as nat) + "_tk"@ + decimal(c.tile_k as nat) + "_pq"@ + decimal(
        c.pad_q as nat,
    ) + "_pk"@ + decimal(c.pad_kv as nat)
}

pub open spec fn tag_text(c: SdpaDecodeCandidate) -> Seq<char> {
    numbers_text(c) + "_"@ + kv_text(c.use_f16_kv) + "_"@ + reduce_text(c.partial_reduce)
}

/// What has been read from the parts of a tag so far.
#[derive(Clone, Copy, Debug)]
pub struct TagFields {
    pub split_k: Option<u32>,
    pub tg_size: Option<u32>,
    pub tile_m: Option<u32>,
    pub tile_n: Option<u32>,
    pub tile_k: Option<u32>,
    pub pad_q: Option<u32>,
    pub pad_kv: Option<u32>,
    pub use_f16_kv: Option<bool>,
    pub partial_reduce: Option<bool>,
}

pub open spec fn no_fields() -> TagFields {
    TagFields {
        split_k: None,
        tg_size: None,
        tile_m: None,
        tile_n: None,
        tile_k: None,
        pad_q: None,
        pad_kv: None,
        use_f16_kv: None,
        partial_reduce: None,
    }
}

/// The 32-bit number behind the first `skip` characters of a part.
pub open spec fn number_behind(part: Seq<char>, skip: int) -> Option<u32> {
    match parsed_unsigned(part.subrange(skip, part.len() as int), u32::MAX as nat) {
        Some(n) => Some(n as u32),
        None => None,
    }
}

/// One part of a tag sets the field that it names; a part that names none changes nothing.
pub open spec fn with_part(f: TagFields, part: Seq<char>) -> TagFields {
    if has_prefix(part, "skp"@) {
        TagFields { split_k: number_behind(part, 3), ..f }
    } else if has_prefix(part, "tg"@) {
        TagFields { tg_size: number_behind(part, 2), ..f }
    } else if has_prefix(part, "tm"@) {
        TagFields { tile_m: number_behind(part, 2), ..f }
    } else if has_prefix(part, "tn"@) {
        TagFields { tile_n: number_behind(part, 2), ..f }
    } else if has_prefix(part, "tk"@) {
        TagFields { tile_k: number_behind(part, 2), ..f }
    } else if has_prefix(part, "pq"@) {
        TagFields { pad_q: number_behind(part, 2), ..f }
    } else if has_prefix(part, "pk"@) {
        TagFields { pad_kv: number_behind(part, 2), ..f }
    } else if part == "f16kv"@ {
        TagFields { use_f16_kv: Some(true), ..f }
    } else if part == "f32kv"@ {
        TagFields { use_f16_kv: Some(false), ..f }
    } else if part == "partial"@ {
        TagFields { partial_reduce: Some(true), ..f }
    } else if part == "full"@ {
        TagFields { partial_reduce: Some(false), ..f }
    } else {
        f
    }
}

/// The fields after all parts, the later part winning.
pub open spec fn fields_of(parts: Seq<Seq<char>>) -> TagFields
    decreases parts.len(),
{
    if parts.len() == 0 {
        no_fields()
    } else {
        with_part(fields_of(parts.drop_last()), parts.last())
    }
}

pub open spec fn or_one(v: Option<u32>) -> u32 {
    match v {
        Some(n) => n,
        None => 1,
    }
}

/// A candidate needs its split, its threadgroup size, its KV type and its reduction; tiles and
/// paddings that are absent are one.
pub open spec fn candidate_from_fields(f: TagFields) -> Option<SdpaDecodeCandidate> {
    match (f.split_k, f.tg_size, f.use_f16_kv, f.partial_reduce) {
        (Some(split_k), Some(tg_size), Some(use_f16_kv), Some(partial_reduce)) => Some(
            SdpaDecodeCandidate {
                split_k,
                tg_size,
                tile_m: or_one(f.tile_m),
                tile_n: or_one(f.tile_n),
                tile_k: or_one(f.tile_k),
                pad_q: or_one(f.pad_q),
                pad_kv: or_one(f.pad_kv),
                use_f16_kv,
                partial_reduce,
            },
        ),
        _ => None,
    }
}

pub open spec fn candidate_from_tag(tag: Seq<char>) -> Option<SdpaDecodeCandidate> {
    candidate_from_fields(fields_of(split_on(tag, '_')))
}

fn push_numbers(out: &mut String, c: SdpaDecodeCandidate)
    ensures
        final(out)@ == old(out)@ + numbers_text(c),
{
    let ghost start = out@;
    out.append("skp");
    push_decimal(out, c.split_k as u64);
    out.append("_tg");
    push_decimal(out, c.tg_size as u64);
    out.append("_tm");
    push_decimal(out, c.tile_m as u64);
    out.append("_tn");
    push_decimal(out, c.tile_n as u64);
    out.append("_tk");
    push_decimal(out, c.tile_k as u64);
    out.append("_pq");
    push_decimal(out, c.pad_q as u64);
    out.append("_pk");
    push_decimal(out, c.pad_kv as u64);
    assert(out@ =~= start + numbers_text(c));
}

fn push_kv_and_reduce(out: &mut String, c: SdpaDecodeCandidate)
    ensures
        final(out)@ == old(out)@ + "_"@ + kv_text(c.use_f16_kv) + "_"@ + reduce_text(
            c.partial_reduce,
        ),
{
    out.append("_");
    out.append(
        if c.use_f16_kv {
            "f16kv"
        } else {
            "f32kv"
        },
    );
    out.append("_");
    out.append(
        if c.partial_reduce {
            "partial"
        } else {
            "full"
        },
    );
}

fn number_part(v: &[char]) -> (r: Option<u32>)
    ensures
        r == (match parsed_unsigned(v@, u32::MAX as nat) {
            Some(n) => Some(n as u32),
            None => None,
        }),
{
    match parse_unsigned(v, u32::MAX as u64) {
        Some(n) => Some(n as u32),
        None => None,
    }
}

fn apply_part(f: TagFields, part: &[char]) -> (r: TagFields)
    ensures
        r == with_part(f, part@),
{
    proof {
        reveal_strlit("skp");
        reveal_strlit("tg");
        reveal_strlit("tm");
        reveal_strlit("tn");
        reveal_strlit("tk");
        reveal_strlit("pq");
        reveal_strlit("pk");
    }
    if let Some(v) = strip_prefix_chars(part, "skp") {
        TagFields { split_k: number_part(&v), ..f }
    } else if let Some(v) = strip_prefix_chars(part, "tg") {
        TagFields { tg_size: number_part(&v), ..f }
    } else if let Some(v) = strip_prefix_chars(part, "tm") {
        TagFields { tile_m: number_part(&v), ..f }
    } else if let Some(v) = strip_prefix_chars(part, "tn") {
        TagFields { tile_n: number_part(&v), ..f }
    } else if let Some(v) = strip_prefix_chars(part, "tk") {
        TagFields { tile_k: number_part(&v), ..f }
    } else if let Some(v) = strip_prefix_chars(part, "pq") {
        TagFields { pad_q: number_part(&v), ..f }
    } else if let Some(v) = strip_prefix_chars(part, "pk") {
        TagFields { pad_kv: number_part(&v), ..f }
    } else if same_chars(part, &chars_of("f16kv")) {
        TagFields { use_f16_kv: Some(true), ..f }
    } else if same_chars(part, &chars_of("f32kv")) {
        TagFields { use_f16_kv: Some(false), ..f }
    } else if same_chars(part, &chars_of("partial")) {
        TagFields { partial_reduce: Some(true), ..f }
    } else if same_chars(part, &chars_of("full")) {
        TagFields { partial_reduce: Some(false), ..f }
    } else {
        f
    }
}

impl SdpaDecodeCandidate {
    /// Stable text form for persistence and logs.
    pub fn tag(self) -> (r: String)
        ensures
            r@ == tag_text(self),
    {
        let mut out: String = String::new();
        push_numbers(&mut out, self);
        assert(out@ =~= numbers_text(self));
        push_kv_and_reduce(&mut out, self);
        out
    }

    /// Reads the text form back.
    pub fn from_tag(tag: &str) -> (r: Option<Self>)
        ensures
            r == candidate_from_tag(tag@),
    {
        let text: Vec<char> = chars_of(tag);
        Self::from_tag_chars(&text)
    }

    pub fn from_tag_chars(text: &[char]) -> (r: Option<Self>)
        ensures
            r == candidate_from_tag(text@),
    {
        let parts: Vec<Vec<char>> = split_chars(text, '_');
        let mut f: TagFields = TagFields {
            split_k: None,
            tg_size: None,
            tile_m: None,
            tile_n: None,
            tile_k: None,
            pad_q: None,
            pad_kv: None,
            use_f16_kv: None,
            partial_reduce: None,
        };
        let mut i: usize = 0;
        while i < parts.len()
            invariant
                i <= parts.len(),
                f == fields_of(pieces(parts@).take(i as int)),
            decreases parts.len() - i,
        {
            let ghost all = pieces(parts@);
            assert(all.take(i + 1).drop_last() =~= all.take(i as int));
            assert(all.take(i + 1).last() == parts@[i as int]@);
            f = apply_part(f, &parts[i]);
            i = i + 1;
        }
        assert(pieces(parts@).take(i as int) =~= pieces(parts@));
        match (f.split_k, f.tg_size, f.use_f16_kv, f.partial_reduce) {
            (Some(split_k), Some(tg_size), Some(use_f16_kv), Some(partial_reduce)) => Some(
                SdpaDecodeCandidate {
                    split_k,
                    tg_size,
                    tile_m: f.tile_m.unwrap_or(1),
                    tile_n: f.tile_n.unwrap_or(1),
                    tile_k: f.tile_k.unwrap_or(1),
                    pad_q: f.pad_q.unwrap_or(1),
                    pad_kv: f.pad_kv.unwrap_or(1),
                    use_f16_kv,
                    partial_reduce,
                },
            ),
            _ => None,
        }
    }
}

proof fn lemma_no_prefix(s: Seq<char>, p: Seq<char>, i: int)
    requires
        0 <= i < p.len(),
        i < s.len() ==> s[i] != p[i],
    ensures
        !has_prefix(s, p),
{
    if has_prefix(s, p) {
        assert(s.subrange(0, p.len() as int)[i] == s[i]);
    }
}

/// A number behind its two-letter name is read back.
proof fn lemma_two_letter_number(name: Seq<char>, n: u32)
    requires
        name.len() == 2,
    ensures
        has_prefix(name + decimal(n as nat), name),
        number_behind(name + decimal(n as nat), 2) == Some(n),
{
    let part = name + decimal(n as nat);
    assert(part.subrange(0, 2) =~= name);
    assert(part.subrange(2, part.len() as int) =~= decimal(n as nat));
    lemma_decimal_round_trip(n as nat, u32::MAX as nat);
}

proof fn lemma_field_split(a: Seq<char>, lit: Seq<char>, name: Seq<char>, tail: Seq<char>)
    requires
        lit == seq!['_'] + name,
        free_of(name + tail, '_'),
    ensures
        split_on(a + lit + tail, '_') == split_on(a, '_').push(name + tail),
{
    lemma_split_snoc(a, '_', name + tail);
    assert(a + lit + tail =~= a.push('_') + (name + tail));
}

proof fn lemma_name_number_free(name: Seq<char>, n: nat)
    requires
        free_of(name, '_'),
    ensures
        free_of(name + decimal(n), '_'),
{
    lemma_decimal_digits(n);
    let s = name + decimal(n);
    assert forall|i: int| 0 <= i < s.len() implies #[trigger] s[i] != '_' by {
        if i < name.len() {
            assert(s[i] == name[i]);
        } else {
            assert(s[i] == decimal(n)[i - name.len()]);
            assert(is_digit(decimal(n)[i - name.len()]));
        }
    }
}

proof fn lemma_reveal_names()
    ensures
        "skp"@ == seq!['s', 'k', 'p'],
        "tg"@ == seq!['t', 'g'],
        "tm"@ == seq!['t', 'm'],
        "tn"@ == seq!['t', 'n'],
        "tk"@ == seq!['t', 'k'],
        "pq"@ == seq!['p', 'q'],
        "pk"@ == seq!['p', 'k'],
        "_tg"@ == seq!['_'] + "tg"@,
        "_tm"@ == seq!['_'] + "tm"@,
        "_tn"@ == seq!['_'] + "tn"@,
        "_tk"@ == seq!['_'] + "tk"@,
        "_pq"@ == seq!['_'] + "pq"@,
        "_pk"@ == seq!['_'] + "pk"@,
        "_"@ == seq!['_'],
        "f16kv"@ == seq!['f', '1', '6', 'k', 'v'],
        "f32kv"@ == seq!['f', '3', '2', 'k', 'v'],
        "partial"@ == seq!['p', 'a', 'r', 't', 'i', 'a', 'l'],
        "full"@ == seq!['f', 'u', 'l', 'l'],
{
    reveal_strlit("skp");
    reveal_strlit("tg");
    reveal_strlit("tm");
    reveal_strlit("tn");
    reveal_strlit("tk");
    reveal_strlit("pq");
    reveal_strlit("pk");
    reveal_strlit("_tg");
    reveal_strlit("_tm");
    reveal_strlit("_tn");
    reveal_strlit("_tk");
    reveal_strlit("_pq");
    reveal_strlit("_pk");
    reveal_strlit("_");
    reveal_strlit("f16kv");
    reveal_strlit("f32kv");
    reveal_strlit("partial");
    reveal_strlit("full");
}

/// The effect of one two-letter part, given the letters that rule the earlier names out.
proof fn lemma_two_letter_part(f: TagFields, name: Seq<char>, n: u32)
    requires
        name == "tg"@ || name == "tm"@ || name == "tn"@ || name == "tk"@ || name == "pq"@ || name
            == "pk"@,
    ensures
        name == "tg"@ ==> with_part(f, name + decimal(n as nat)) == (TagFields {
            tg_size: Some(n),
            ..f
        }),
        name == "tm"@ ==> with_part(f, name + decimal(n as nat)) == (TagFields {
            tile_m: Some(n),
            ..f
        }),
        name == "tn"@ ==> with_part(f, name + decimal(n as nat)) == (TagFields {
            tile_n: Some(n),
            ..f
        }),
        name == "tk"@ ==> with_part(f, name + decimal(n as nat)) == (TagFields {
            tile_k: Some(n),
            ..f
        }),
        name == "pq"@ ==> with_part(f, name + decimal(n as nat)) == (TagFields {
            pad_q: Some(n),
            ..f
        }),
        name == "pk"@ ==> with_part(f, name + decimal(n as nat)) == (TagFields {
            pad_kv: Some(n),
            ..f
        }),
{
    lemma_reveal_names();
    lemma_two_letter_number(name, n);
    let part = name + decimal(n as nat);
    assert(part[0] == name[0] && part[1] == name[1]);
    lemma_no_prefix(part, "skp"@, 0);
    if name[1] != 'g' || name[0] != 't' {
        lemma_no_prefix(
            part,
            "tg"@,
            if name[0] != 't' {
                0
            } else {
                1
            },
        );
    }
    if name[1] != 'm' || name[0] != 't' {
        lemma_no_prefix(
            part,
            "tm"@,
            if name[0] != 't' {
                0
            } else {
                1
            },
        );
    }
    if name[1] != 'n' || name[0] != 't' {
        lemma_no_prefix(
            part,
            "tn"@,
            if name[0] != 't' {
                0
            } else {
                1
            },
        );
    }
    if name[1] != 'k' || name[0] != 't' {
        lemma_no_prefix(
            part,
            "tk"@,
            if name[0] != 't' {
                0
            } else {
                1
            },
        );
    }
    if name[1] != 'q' {
        lemma_no_prefix(part, "pq"@, 1);
    }
}

proof fn lemma_flag_parts(f: TagFields)
    ensures
        with_part(f, "f16kv"@) == (TagFields { use_f16_kv: Some(true), ..f }),
        with_part(f, "f32kv"@) == (TagFields { use_f16_kv: Some(false), ..f }),
        with_part(f, "partial"@) == (TagFields { partial_reduce: Some(true), ..f }),
        with_part(f, "full"@) == (TagFields { partial_reduce: Some(false), ..f }),
{
    lemma_reveal_names();
    assert("f32kv"@[1] != "f16kv"@[1]);
    assert("partial"@[0] != "f16kv"@[0]);
    assert("full"@[1] != "f16kv"@[1]);
    assert("full"@[1] != "f32kv"@[1]);
    assert("full"@[0] != "partial"@[0]);
    lemma_no_prefix("f16kv"@, "skp"@, 0);
    lemma_no_prefix("f32kv"@, "skp"@, 0);
    lemma_no_prefix("partial"@, "skp"@, 0);
    lemma_no_prefix("full"@, "skp"@, 0);
    lemma_no_prefix("f16kv"@, "tg"@, 0);
    lemma_no_prefix("f16kv"@, "tm"@, 0);
    lemma_no_prefix("f16kv"@, "tn"@, 0);
    lemma_no_prefix("f16kv"@, "tk"@, 0);
    lemma_no_prefix("f16kv"@, "pq"@, 0);
    lemma_no_prefix("f16kv"@, "pk"@, 0);
    lemma_no_prefix("f32kv"@, "tg"@, 0);
    lemma_no_prefix("f32kv"@, "tm"@, 0);
    lemma_no_prefix("f32kv"@, "tn"@, 0);
    lemma_no_prefix("f32kv"@, "tk"@, 0);
    lemma_no_prefix("f32kv"@, "pq"@, 0);
    lemma_no_prefix("f32kv"@, "pk"@, 0);
    lemma_no_prefix("partial"@, "tg"@, 0);
    lemma_no_prefix("partial"@, "tm"@, 0);
    lemma_no_prefix("partial"@, "tn"@, 0);
    lemma_no_prefix("partial"@, "tk"@, 0);
    lemma_no_prefix("partial"@, "pq"@, 1);
    lemma_no_prefix("partial"@, "pk"@, 1);
    lemma_no_prefix("full"@, "tg"@, 0);
    lemma_no_prefix("full"@, "tm"@, 0);
    lemma_no_prefix("full"@, "tn"@, 0);
    lemma_no_prefix("full"@, "tk"@, 0);
    lemma_no_prefix("full"@, "pq"@, 0);
    lemma_no_prefix("full"@, "pk"@, 0);
}

proof fn lemma_fields_push(parts: Seq<Seq<char>>, part: Seq<char>)
    ensures
        fields_of(parts.push(part)) == with_part(fields_of(parts), part),
{
    assert(parts.push(part).drop_last() =~= parts);
}

proof fn lemma_numbers_fields(c: SdpaDecodeCandidate)
    ensures
        fields_of(split_on(numbers_text(c), '_')) == (TagFields {
            split_k: Some(c.split_k),
            tg_size: Some(c.tg_size),
            tile_m: Some(c.tile_m),
            tile_n: Some(c.tile_n),
            tile_k: Some(c.tile_k),
            pad_q: Some(c.pad_q),
            pad_kv: Some(c.pad_kv),
            use_f16_kv: None,
            partial_reduce: None,
        }),
{
    lemma_reveal_names();
    let s0 = "skp"@ + decimal(c.split_k as nat);
    let s1 = s0 + "_tg"@ + decimal(c.tg_size as nat);
    let s2 = s1 + "_tm"@ + decimal(c.tile_m as nat);
    let s3 = s2 + "_tn"@ + decimal(c.tile_n as nat);
    let s4 = s3 + "_tk"@ + decimal(c.tile_k as nat);
    let s5 = s4 + "_pq"@ + decimal(c.pad_q as nat);
    let s6 = s5 + "_pk"@ + decimal(c.pad_kv as nat);
    assert(numbers_text(c) == s6);
    lemma_name_number_free("skp"@, c.split_k as nat);
    lemma_name_number_free("tg"@, c.tg_size as nat);
    lemma_name_number_free("tm"@, c.tile_m as nat);
    lemma_name_number_free("tn"@, c.tile_n as nat);
    lemma_name_number_free("tk"@, c.tile_k as nat);
    lemma_name_number_free("pq"@, c.pad_q as nat);
    lemma_name_number_free("pk"@, c.pad_kv as nat);
    lemma_split_single(s0, '_');
    lemma_field_split(s0, "_tg"@, "tg"@, decimal(c.tg_size as nat));
    lemma_field_split(s1, "_tm"@, "tm"@, decimal(c.tile_m as nat));
    lemma_field_split(s2, "_tn"@, "tn"@, decimal(c.tile_n as nat));
    lemma_field_split(s3, "_tk"@, "tk"@, decimal(c.tile_k as nat));
    lemma_field_split(s4, "_pq"@, "pq"@, decimal(c.pad_q as nat));
    lemma_field_split(s5, "_pk"@, "pk"@, decimal(c.pad_kv as nat));
    // The first part.
    assert(s0.subrange(0, 3) =~= "skp"@);
    assert(s0.subrange(3, s0.len() as int) =~= decimal(c.split_k as nat));
    lemma_decimal_round_trip(c.split_k as nat, u32::MAX as nat);
    let f0 = TagFields { split_k: Some(c.split_k), ..no_fields() };
    assert(seq![s0] =~= Seq::<Seq<char>>::empty().push(s0));
    lemma_fields_push(Seq::<Seq<char>>::empty(), s0);
    assert(fields_of(split_on(s0, '_')) == f0);
    // The others, one after another.
    lemma_fields_push(split_on(s0, '_'), "tg"@ + decimal(c.tg_size as nat));
    lemma_two_letter_part(f0, "tg"@, c.tg_size);
    let f1 = TagFields { tg_size: Some(c.tg_size), ..f0 };
    lemma_fields_push(split_on(s1, '_'), "tm"@ + decimal(c.tile_m as nat));
    lemma_two_letter_part(f1, "tm"@, c.tile_m);
    let f2 = TagFields { tile_m: Some(c.tile_m), ..f1 };
    lemma_fields_push(split_on(s2, '_'), "tn"@ + decimal(c.tile_n as nat));
    lemma_two_letter_part(f2, "tn"@, c.tile_n);
    let f3 = TagFields { tile_n: Some(c.tile_n), ..f2 };
    lemma_fields_push(split_on(s3, '_'), "tk"@ + decimal(c.tile_k as nat));
    lemma_two_letter_part(f3, "tk"@, c.tile_k);
    let f4 = TagFields { tile_k: Some(c.tile_k), ..f3 };
    lemma_fields_push(split_on(s4, '_'), "pq"@ + decimal(c.pad_q as nat));
    lemma_two_letter_part(f4, "pq"@, c.pad_q);
    let f5 = TagFields { pad_q: Some(c.pad_q), ..f4 };
    lemma_fields_push(split_on(s5, '_'), "pk"@ + decimal(c.pad_kv as nat));
    lemma_two_letter_part(f5, "pk"@, c.pad_kv);
}

/// Reading the tag of a candidate gives that candidate back.
pub proof fn lemma_tag_round_trip(c: SdpaDecodeCandidate)
    ensures
        candidate_from_tag(tag_text(c)) == Some(c),
{
    lemma_reveal_names();
    lemma_numbers_fields(c);
    let s = numbers_text(c);
    let kv = kv_text(c.use_f16_kv);
    let red = reduce_text(c.partial_reduce);
    let none = Seq::<char>::empty();
    assert(none + kv =~= kv);
    assert(none + red =~= red);
    assert("_"@ =~= seq!['_'] + none);
    lemma_field_split(s, "_"@, none, kv);
    lemma_field_split(s + "_"@ + kv, "_"@, none, red);
    let f = fields_of(split_on(s, '_'));
    lemma_fields_push(split_on(s, '_'), kv);
    lemma_flag_parts(f);
    lemma_fields_push(split_on(s + "_"@ + kv, '_'), red);
    lemma_flag_parts(TagFields { use_f16_kv: Some(c.use_f16_kv), ..f });
}

#[derive(Clone, Copy, Debug, PartialEq, Eq, Hash, Structural)]
pub enum SdpaDecodeVariant {
    BaseF32,
    BaseF16Kv,
    SplitK4F16Kv,
    PartialF16Kv,
}

impl SdpaDecodeVariant {
    /// The two base variants share one geometry, the two split variants another.
    pub open spec fn spec_candidate(self) -> SdpaDecodeCandidate {
        let split = self == SdpaDecodeVariant::SplitK4F16Kv || self
            == SdpaDecodeVariant::PartialF16Kv;
        SdpaDecodeCandidate {
            split_k: if split { 4 } else { 1 },
            tg_size: if split { 256 } else { 128 },
            tile_m: 1,
            tile_n: if split { 128 } else { 64 },
            tile_k: if split { 128 } else { 64 },
            pad_q: 1,
            pad_kv: 1,
            use_f16_kv: self != SdpaDecodeVariant::BaseF32,
            partial_reduce: self == SdpaDecodeVariant::PartialF16Kv,
        }
    }

    pub open spec fn all_spec() -> Seq<SdpaDecodeVariant> {
        seq![
            SdpaDecodeVariant::BaseF32,
            SdpaDecodeVariant::BaseF16Kv,
            SdpaDecodeVariant::SplitK4F16Kv,
            SdpaDecodeVariant::PartialF16Kv,
        ]
    }

    /// Every variant, in declaration order.
    pub fn all() -> (r: Vec<SdpaDecodeVariant>)
        ensures
            r@ == Self::all_spec(),
    {
        let v: Vec<SdpaDecodeVariant> = vec![
            SdpaDecodeVariant::BaseF32,
            SdpaDecodeVariant::BaseF16Kv,
            SdpaDecodeVariant::SplitK4F16Kv,
            SdpaDecodeVariant::PartialF16Kv,
        ];
        assert(v@ =~= Self::all_spec());
        v
    }

    pub fn candidate(self) -> (r: SdpaDecodeCandidate)
        ensures
            r == self.spec_candidate(),
    {
        match self {
            SdpaDecodeVariant::BaseF32 => SdpaDecodeCandidate {
                split_k: 1,
                tg_size: 128,
                tile_m: 1,
                tile_n: 64,
                tile_k: 64,
                pad_q: 1,
                pad_kv: 1,
                use_f16_kv: false,
                partial_reduce: false,
            },
            SdpaDecodeVariant::BaseF16Kv => SdpaDecodeCandidate {
                split_k: 1,
                tg_size: 128,
                tile_m: 1,
                tile_n: 64,
                tile_k: 64,
                pad_q: 1,
                pad_kv: 1,
                use_f16_kv: true,
                partial_reduce: false,
            },
            SdpaDecodeVariant::SplitK4F16Kv => SdpaDecodeCandidate {
                split_k: 4,
                tg_size: 256,
                tile_m: 1,
                tile_n: 128,
                tile_k: 128,
                pad_q: 1,
                pad_kv: 1,
                use_f16_kv: true,
                partial_reduce: false,
            },
            SdpaDecodeVariant::PartialF16Kv => SdpaDecodeCandidate {
                split_k: 4,
                tg_size: 256,
                tile_m: 1,
                tile_n: 128,
                tile_k: 128,
                pad_q: 1,
                pad_kv: 1,
                use_f16_kv: true,
                partial_reduce: true,
            },
        }
    }
}

/// The weights of a tuning objective: the bit patterns of three 32-bit floats, and whether
/// they, added in field order, come within a thousandth of one.
#[derive(Clone, Copy, Debug, PartialEq, Eq, Structural)]
pub struct ObjectiveWeights {
    pub latency: u32,
    pub error: u32,
    pub memory: u32,
    pub sums_to_one: bool,
}

impl ObjectiveWeights {
    pub open spec fn spec_default() -> Self {
        ObjectiveWeights {
            latency: 0x3f19_999a,
            error: 0x3e99_999a,
            memory: 0x3dcc_cccd,
            sums_to_one: true,
        }
    }
}

impl Default for ObjectiveWeights {
    /// Latency 0.6, error 0.3, memory 0.1.
    fn default() -> (r: Self)
        ensures
            r == ObjectiveWeights::spec_default(),
    {
        ObjectiveWeights {
            latency: 0x3f19_999a,
            error: 0x3e99_999a,
            memory: 0x3dcc_cccd,
            sums_to_one: true,
        }
    }
}

/// Whether a bit pattern is that of a finite float that is not below zero. The pattern with
/// only the sign bit set is negative zero.
pub open spec fn finite_non_negative(bits: u32) -> bool {
    bits < 0x7f80_0000 || bits == 0x8000_0000
}

pub open spec fn weights_ok(w: ObjectiveWeights) -> bool {
    &&& finite_non_negative(w.latency)
    &&& finite_non_negative(w.error)
    &&& finite_non_negative(w.memory)
    &&& w.sums_to_one
}

#[derive(Clone, Debug, PartialEq)]
pub struct KernelPlan {
    pub family: KernelFamily,
    pub precision_profile: PrecisionProfile,
    pub hybrid: HybridPrecisionSpec,
    pub thread_policy: ThreadPolicy,
    pub memory_policy: MemoryPolicy,
    pub tune_policy: TunePolicy,
    pub objective_weights: ObjectiveWeights,
    pub token_buckets: TokenBucketStrategy,
    pub candidates: Vec<SdpaDecodeCandidate>,
    pub default_candidate: SdpaDecodeCandidate,
    pub schema_version: u16,
}

#[derive(Clone, Debug, PartialEq)]
pub struct LaunchConfig {
    pub family: KernelFamily,
    pub m: u32,
    pub tokens: u32,
    pub token_bucket: u16,
    pub batch: u32,
    pub num_heads: u32,
    pub head_dim: u32,
    pub seq_q: u32,
    pub seq_kv: u32,
    pub candidate: SdpaDecodeCandidate,
    /// Deterministic, human-readable kernel label that reflects the generated launch
    /// configuration and selected candidate.
    pub kernel_name: String,
}

#[derive(Clone, Copy, Debug, PartialEq, Eq, Hash, Structural)]
pub struct ShapeBucket {
    pub m_bucket: u16,
    pub batch_bucket: u16,
    pub heads_bucket: u16,
    pub head_dim_bucket: u16,
    pub seq_q_bucket: u16,
    pub seq_kv_bucket: u16,
}

#[derive(Clone, Debug, PartialEq, Eq, Hash)]
pub struct TuneCacheKey {
    pub schema_version: u16,
    pub family: KernelFamily,
    pub precision_profile: PrecisionProfileTag,
    pub token_bucket: u16,
    pub shape_bucket: ShapeBucket,
    pub device_fingerprint: String,
    pub env_mask: u64,
}

#[derive(Clone, Copy, Debug, PartialEq, Eq, Hash, Structural)]
pub enum PrecisionProfileTag {
    UltraLowLatency,
    Balanced,
    HighFidelity,
    Deterministic,
    Custom,
}

pub open spec fn profile_tag(p: PrecisionProfile) -> PrecisionProfileTag {
    match p {
        PrecisionProfile::UltraLowLatency => PrecisionProfileTag::UltraLowLatency,
        PrecisionProfile::Balanced => PrecisionProfileTag::Balanced,
        PrecisionProfile::HighFidelity => PrecisionProfileTag::HighFidelity,
        PrecisionProfile::Deterministic => PrecisionProfileTag::Deterministic,
    }
}

impl From<PrecisionProfile> for PrecisionProfileTag {
    fn from(value: PrecisionProfile) -> Self {
        match value {
            PrecisionProfile::UltraLowLatency => PrecisionProfileTag::UltraLowLatency,
            PrecisionProfile::Balanced => PrecisionProfileTag::Balanced,
            PrecisionProfile::HighFidelity => PrecisionProfileTag::HighFidelity,
            PrecisionProfile::Deterministic => PrecisionProfileTag::Deterministic,
        }
    }
}

impl vstd::std_specs::convert::FromSpecImpl<PrecisionProfile> for PrecisionProfileTag {
    open spec fn obeys_from_spec() -> bool {
        true
    }

    open spec fn from_spec(value: PrecisionProfile) -> Self {
        profile_tag(value)
    }
}

#[derive(Debug, Clone, PartialEq, Eq)]
pub enum PlanError {
    EmptyCandidates,
    UnsupportedFamily(KernelFamily),
    InvalidCandidate(&'static str),
    InvalidPrecision(&'static str),
    InvalidObjectiveWeights,
}

impl PlanError {
    pub open spec fn text(self) -> Seq<char> {
        match self {
            PlanError::EmptyCandidates => "kernel plan needs at least one candidate"@,
            PlanError::UnsupportedFamily(family) => "unsupported kernel family in plan: "@
                + "SdpaDecode"@,
            PlanError::InvalidCandidate(msg) => "invalid candidate: "@ + msg@,
            PlanError::InvalidPrecision(msg) => "invalid precision configuration: "@ + msg@,
            PlanError::InvalidObjectiveWeights =>
                "objective weights must be finite, non-negative, and sum to 1.0 (+/- 1e-3)"@,
        }
    }

    /// The message shown to a user.
    pub fn message(&self) -> (r: String)
        ensures
            r@ == self.text(),
    {
        match self {
            PlanError::EmptyCandidates => "kernel plan needs at least one candidate".to_owned(),
            PlanError::UnsupportedFamily(family) => {
                let name: &str = match family {
                    KernelFamily::SdpaDecode => "SdpaDecode",
                };
                "unsupported kernel family in plan: ".to_owned().concat(name)
            },
            PlanError::InvalidCandidate(msg) => "invalid candidate: ".to_owned().concat(msg),
            PlanError::InvalidPrecision(msg) => "invalid precision configuration: ".to_owned().concat(
                msg,
            ),
            PlanError::InvalidObjectiveWeights =>
                "objective weights must be finite, non-negative, and sum to 1.0 (+/- 1e-3)".to_owned(),
        }
    }
}

#[derive(Debug, Clone, PartialEq, Eq)]
pub enum LaunchError {
    MissingField(&'static str),
    InvalidField(&'static str),
    CandidateNotPresent,
}

impl LaunchError {
    pub open spec fn text(self) -> Seq<char> {
        match self {
            LaunchError::MissingField(name) => "missing launch field: "@ + name@,
            LaunchError::InvalidField(name) => "invalid launch field: "@ + name@,
            LaunchError::CandidateNotPresent => "selected candidate is not in the plan"@,
        }
    }

    /// The message shown to a user.
    pub fn message(&self) -> (r: String)
        ensures
            r@ == self.text(),
    {
        match self {
            LaunchError::MissingField(name) => "missing launch field: ".to_owned().concat(name),
            LaunchError::InvalidField(name) => "invalid launch field: ".to_owned().concat(name),
            LaunchError::CandidateNotPresent => "selected candidate is not in the plan".to_owned(),
        }
    }
}

/// The first candidate that satisfies `p`.
pub open spec fn first_where(
    s: Seq<SdpaDecodeCandidate>,
    p: spec_fn(SdpaDecodeCandidate) -> bool,
) -> Option<SdpaDecodeCandidate>
    decreases s.len(),
{
    if s.len() == 0 {
        None
    } else {
        let before = first_where(s.drop_last(), p);
        if before is Some {
            before
        } else if p(s.last()) {
            Some(s.last())
        } else {
            None
        }
    }
}

proof fn lemma_first_where_extends(
    s: Seq<SdpaDecodeCandidate>,
    p: spec_fn(SdpaDecodeCandidate) -> bool,
    n: int,
)
    requires
        0 <= n <= s.len(),
        first_where(s.take(n), p) is Some,
    ensures
        first_where(s, p) == first_where(s.take(n), p),
    decreases s.len() - n,
{
    if n < s.len() {
        assert(s.take(n + 1).drop_last() =~= s.take(n));
        lemma_first_where_extends(s, p, n + 1);
    } else {
        assert(s.take(n) =~= s);
    }
}

proof fn lemma_first_where_member(
    s: Seq<SdpaDecodeCandidate>,
    p: spec_fn(SdpaDecodeCandidate) -> bool,
)
    ensures
        first_where(s, p) matches Some(c) ==> s.contains(c) && p(c),
    decreases s.len(),
{
    if s.len() > 0 {
        lemma_first_where_member(s.drop_last(), p);
        if let Some(c) = first_where(s.drop_last(), p) {
            let i = choose|i: int| 0 <= i < s.len() - 1 && s.drop_last()[i] == c;
            assert(s[i] == c);
        } else {
            assert(s[s.len() - 1] == s.last());
        }
    }
}

pub open spec fn prefers_f16(profile: PrecisionProfile) -> bool {
    profile == PrecisionProfile::UltraLowLatency || profile == PrecisionProfile::Balanced
}

pub open spec fn prefers_partial(profile: PrecisionProfile) -> bool {
    profile == PrecisionProfile::UltraLowLatency
}

/// A candidate that fits the thread policy and matches the profile in both respects; failing
/// that one with the profile's KV type; failing that the first of all.
pub open spec fn default_choice(
    profile: PrecisionProfile,
    thread_policy: ThreadPolicy,
    candidates: Seq<SdpaDecodeCandidate>,
) -> SdpaDecodeCandidate {
    let best = first_where(
        candidates,
        |c: SdpaDecodeCandidate|
            c.tg_size <= thread_policy.max_threads_per_tg && c.use_f16_kv == prefers_f16(profile)
                && c.partial_reduce == prefers_partial(profile),
    );
    let second = first_where(
        candidates,
        |c: SdpaDecodeCandidate| c.use_f16_kv == prefers_f16(profile),
    );
    if best is Some {
        best->0
    } else if second is Some {
        second->0
    } else {
        candidates[0]
    }
}

pub fn choose_default_candidate(
    profile: PrecisionProfile,
    thread_policy: ThreadPolicy,
    candidates: &[SdpaDecodeCandidate],
) -> (r: SdpaDecodeCandidate)
    requires
        candidates@.len() > 0,
    ensures
        r == default_choice(profile, thread_policy, candidates@),
        candidates@.contains(r),
{
    let preferred_f16: bool = matches!(
        profile,
        PrecisionProfile::UltraLowLatency | PrecisionProfile::Balanced
    );
    let preferred_partial: bool = matches!(profile, PrecisionProfile::UltraLowLatency);
    let ghost s = candidates@;
    let ghost best = |c: SdpaDecodeCandidate|
        c.tg_size <= thread_policy.max_threads_per_tg && c.use_f16_kv == prefers_f16(profile)
            && c.partial_reduce == prefers_partial(profile);
    let ghost second = |c: SdpaDecodeCandidate| c.use_f16_kv == prefers_f16(profile);
    proof {
        lemma_first_where_member(s, best);
        lemma_first_where_member(s, second);
        assert(s[0] == candidates@[0]);
    }
    let mut i: usize = 0;
    while i < candidates.len()
        invariant
            i <= candidates@.len(),
            s == candidates@,
            preferred_f16 == prefers_f16(profile),
            preferred_partial == prefers_partial(profile),
            best == (|c: SdpaDecodeCandidate|
                c.tg_size <= thread_policy.max_threads_per_tg && c.use_f16_kv == prefers_f16(
                    profile,
                ) && c.partial_reduce == prefers_partial(profile)),
            first_where(s.take(i as int), best) is None,
            first_where(s, best) matches Some(c) ==> s.contains(c),
        decreases candidates@.len() - i,
    {
        let c: SdpaDecodeCandidate = candidates[i];
        assert(s.take(i + 1).drop_last() =~= s.take(i as int));
        if c.tg_size <= thread_policy.max_threads_per_tg && c.use_f16_kv == preferred_f16
            && c.partial_reduce == preferred_partial {
            proof {
                lemma_first_where_extends(s, best, i + 1);
            }
            return c;
        }
        i = i + 1;
    }
    assert(s.take(i as int) =~= s);
    let mut j: usize = 0;
    while j < candidates.len()
        invariant
            j <= candidates@.len(),
            s == candidates@,
            preferred_f16 == prefers_f16(profile),
            best == (|c: SdpaDecodeCandidate|
                c.tg_size <= thread_policy.max_threads_per_tg && c.use_f16_kv == prefers_f16(
                    profile,
                ) && c.partial_reduce == prefers_partial(profile)),
            second == (|c: SdpaDecodeCandidate| c.use_f16_kv == prefers_f16(profile)),
            first_where(s, best) is None,
            first_where(s.take(j as int), second) is None,
            first_where(s, second) matches Some(c) ==> s.contains(c),
        decreases candidates@.len() - j,
    {
        let c: SdpaDecodeCandidate = candidates[j];
        assert(s.take(j + 1).drop_last() =~= s.take(j as int));
        if c.use_f16_kv == preferred_f16 {
            proof {
                lemma_first_where_extends(s, second, j + 1);
            }
            return c;
        }
        j = j + 1;
    }
    assert(s.take(j as int) =~= s);
    candidates[0]
}

/// Short sequences of tokens and long caches go to the first candidate that reduces
/// partially, where there is one.
pub open spec fn launch_choice(plan: KernelPlan, tokens: u32, seq_kv: u32) -> SdpaDecodeCandidate {
    let partial = first_where(plan.candidates@, |c: SdpaDecodeCandidate| c.partial_reduce);
    if (tokens <= 8 || seq_kv > 1024) && partial is Some {
        partial->0
    } else {
        plan.default_candidate
    }
}

pub fn choose_launch_candidate(plan: &KernelPlan, tokens: u32, seq_kv: u32) -> (r:
    SdpaDecodeCandidate)
    ensures
        r == launch_choice(*plan, tokens, seq_kv),
{
    if tokens <= 8 || seq_kv > 1024 {
        let ghost s = plan.candidates@;
        let ghost p = |c: SdpaDecodeCandidate| c.partial_reduce;
        let mut i: usize = 0;
        while i < plan.candidates.len()
            invariant
                i <= plan.candidates@.len(),
                s == plan.candidates@,
                p == (|c: SdpaDecodeCandidate| c.partial_reduce),
                first_where(s.take(i as int), p) is None,
                tokens <= 8 || seq_kv > 1024,
            decreases plan.candidates@.len() - i,
        {
            let c: SdpaDecodeCandidate = plan.candidates[i];
            assert(s.take(i + 1).drop_last() =~= s.take(i as int));
            if c.partial_reduce {
                proof {
                    lemma_first_where_extends(s, p, i + 1);
                }
                return c;
            }
            i = i + 1;
        }
        assert(s.take(i as int) =~= s);
    }
    plan.default_candidate
}

pub fn validate_objective_weights(weights: ObjectiveWeights) -> (r: Result<(), PlanError>)
    ensures
        r == (if weights_ok(weights) {
            Ok(())
        } else {
            Err(PlanError::InvalidObjectiveWeights)
        }),
{
    if !is_finite_non_negative(weights.latency) || !is_finite_non_negative(weights.error)
        || !is_finite_non_negative(weights.memory) || !weights.sums_to_one {
        return Err(PlanError::InvalidObjectiveWeights);
    }
    Ok(())
}

fn is_finite_non_negative(bits: u32) -> (r: bool)
    ensures
        r == finite_non_negative(bits),
{
    bits < 0x7f80_0000 || bits == 0x8000_0000
}

pub open spec fn tune_policy_fault(policy: TunePolicy) -> Option<PlanError> {
    if policy.cache_max_entries == 0 {
        Some(PlanError::InvalidCandidate("cache_max_entries must be at least 1"))
    } else {
        None
    }
}

pub fn validate_tune_policy(policy: TunePolicy) -> (r: Result<(), PlanError>)
    ensures
        r == (match tune_policy_fault(policy) {
            Some(e) => Err(e),
            None => Ok(()),
        }),
{
    if policy.cache_max_entries == 0 {
        return Err(PlanError::InvalidCandidate("cache_max_entries must be at least 1"));
    }
    Ok(())
}

pub open spec fn is_emulated(r: RolePrecision) -> bool {
    r.convert == ConvertPolicy::StochasticRound || r.convert == ConvertPolicy::DoubleSingleEmu
        || r.convert == ConvertPolicy::DequantOnLoad
}

pub open spec fn uses_emulation(h: HybridPrecisionSpec) -> bool {
    is_emulated(h.activations) || is_emulated(h.weights) || is_emulated(h.accum) || is_emulated(
        h.kv_cache,
    )
}

pub open spec fn precision_fault(
    family: KernelFamily,
    hybrid: HybridPrecisionSpec,
    allow_emulation: bool,
) -> Option<PlanError> {
    if hybrid.accum.compute == ScalarType::F16 || hybrid.accum.compute == ScalarType::F8E4M3
        || hybrid.accum.compute == ScalarType::F8E5M2 {
        Some(
            PlanError::InvalidPrecision(
                "accumulator compute precision too low for stable reductions",
            ),
        )
    } else if !allow_emulation && uses_emulation(hybrid) {
        Some(PlanError::InvalidPrecision("emulation policies are disabled in this plan"))
    } else if !(hybrid.kv_cache.storage == ScalarType::F16 || hybrid.kv_cache.storage
        == ScalarType::BF16 || hybrid.kv_cache.storage == ScalarType::F32) {
        Some(
            PlanError::InvalidPrecision("sdpa decode requires kv-cache storage in F16/BF16/F32"),
        )
    } else {
        None
    }
}

fn role_is_emulated(r: RolePrecision) -> (b: bool)
    ensures
        b == is_emulated(r),
{
    matches!(
        r.convert,
        ConvertPolicy::StochasticRound | ConvertPolicy::DoubleSingleEmu
            | ConvertPolicy::DequantOnLoad
    )
}

pub fn validate_precision(
    family: KernelFamily,
    hybrid: HybridPrecisionSpec,
    allow_emulation: bool,
) -> (r: Result<(), PlanError>)
    ensures
        r == (match precision_fault(family, hybrid, allow_emulation) {
            Some(e) => Err(e),
            None => Ok(()),
        }),
{
    if matches!(
        hybrid.accum.compute,
        ScalarType::F16 | ScalarType::F8E4M3 | ScalarType::F8E5M2
    ) {
        return Err(
            PlanError::InvalidPrecision(
                "accumulator compute precision too low for stable reductions",
            ),
        );
    }
    if !allow_emulation {
        let emulated: bool = role_is_emulated(hybrid.activations) || role_is_emulated(
            hybrid.weights,
        ) || role_is_emulated(hybrid.accum) || role_is_emulated(hybrid.kv_cache);
        if emulated {
            return Err(
                PlanError::InvalidPrecision("emulation policies are disabled in this plan"),
            );
        }
    }
    match family {
        KernelFamily::SdpaDecode => {
            let kv_ok: bool = matches!(
                hybrid.kv_cache.storage,
                ScalarType::F16 | ScalarType::BF16 | ScalarType::F32
            );
            if !kv_ok {
                return Err(
                    PlanError::InvalidPrecision(
                        "sdpa decode requires kv-cache storage in F16/BF16/F32",
                    ),
                );
            }
            Ok(())
        },
    }
}

/// The threadgroup memory that a candidate stages through, in bytes.
pub open spec fn staging_bytes(c: SdpaDecodeCandidate) -> u32 {
    if c.partial_reduce {
        0x4000
    } else {
        0x1000
    }
}

/// The first rule that a candidate breaks.
pub open spec fn candidate_fault(
    c: SdpaDecodeCandidate,
    thread_policy: ThreadPolicy,
    memory_policy: MemoryPolicy,
) -> Option<&'static str> {
    if !(c.split_k == 1 || c.split_k == 2 || c.split_k == 4 || c.split_k == 8 || c.split_k == 16
        || c.split_k == 32) {
        Some("split_k must be a power-of-two in [1, 32]")
    } else if !(c.tg_size == 64 || c.tg_size == 128 || c.tg_size == 256 || c.tg_size == 512) {
        Some("tg_size must be one of 64, 128, 256, 512")
    } else if c.tile_m == 0 || c.tile_n == 0 || c.tile_k == 0 {
        Some("tile sizes must be non-zero")
    } else if c.pad_q == 0 || c.pad_kv == 0 {
        Some("padding factors must be non-zero")
    } else if c.tile_m > 1024 || c.tile_n > 1024 || c.tile_k > 4096 {
        Some("tile sizes exceed supported planner bounds")
    } else if c.pad_q > 4096 || c.pad_kv > 4096 {
        Some("padding factors exceed supported planner bounds")
    } else if c.tg_size > thread_policy.max_threads_per_tg {
        Some("tg_size exceeds thread policy max_threads_per_tg")
    } else if memory_policy == MemoryPolicy::ArenaOnly && c.partial_reduce {
        Some("partial_reduce requires shared memory staging")
    } else if memory_policy matches MemoryPolicy::SharedIfFits { max_tg_bytes } && staging_bytes(c)
        > max_tg_bytes {
        Some("candidate staging bytes exceed memory policy limit")
    } else {
        None
    }
}

pub fn validate_sdpa_candidate(
    c: SdpaDecodeCandidate,
    thread_policy: ThreadPolicy,
    memory_policy: MemoryPolicy,
) -> (r: Result<(), PlanError>)
    ensures
        r == (match candidate_fault(c, thread_policy, memory_policy) {
            Some(m) => Err(PlanError::InvalidCandidate(m)),
            None => Ok(()),
        }),
{
    if !matches!(c.split_k, 1 | 2 | 4 | 8 | 16 | 32) {
        return Err(PlanError::InvalidCandidate("split_k must be a power-of-two in [1, 32]"));
    }
    if !matches!(c.tg_size, 64 | 128 | 256 | 512) {
        return Err(PlanError::InvalidCandidate("tg_size must be one of 64, 128, 256, 512"));
    }
    if c.tile_m == 0 || c.tile_n == 0 || c.tile_k == 0 {
        return Err(PlanError::InvalidCandidate("tile sizes must be non-zero"));
    }
    if c.pad_q == 0 || c.pad_kv == 0 {
        return Err(PlanError::InvalidCandidate("padding factors must be non-zero"));
    }
    if c.tile_m > 1024 || c.tile_n > 1024 || c.tile_k > 4096 {
        return Err(PlanError::InvalidCandidate("tile sizes exceed supported planner bounds"));
    }
    if c.pad_q > 4096 || c.pad_kv > 4096 {
        return Err(PlanError::InvalidCandidate("padding factors exceed supported planner bounds"));
    }
    if c.tg_size > thread_policy.max_threads_per_tg {
        return Err(
            PlanError::InvalidCandidate("tg_size exceeds thread policy max_threads_per_tg"),
        );
    }
    if matches!(memory_policy, MemoryPolicy::ArenaOnly) && c.partial_reduce {
        return Err(PlanError::InvalidCandidate("partial_reduce requires shared memory staging"));
    }
    if let MemoryPolicy::SharedIfFits { max_tg_bytes } = memory_policy {
        let staging: u32 = if c.partial_reduce {
            16 * 1024
        } else {
            4 * 1024
        };
        if staging > max_tg_bytes {
            return Err(
                PlanError::InvalidCandidate("candidate staging bytes exceed memory policy limit"),
            );
        }
    }
    Ok(())
}

/// The fault of the first faulty candidate.
pub open spec fn candidates_fault(
    cs: Seq<SdpaDecodeCandidate>,
    thread_policy: ThreadPolicy,
    memory_policy: MemoryPolicy,
) -> Option<&'static str>
    decreases cs.len(),
{
    if cs.len() == 0 {
        None
    } else {
        let before = candidates_fault(cs.drop_last(), thread_policy, memory_policy);
        if before is Some {
            before
        } else {
            candidate_fault(cs.last(), thread_policy, memory_policy)
        }
    }
}

proof fn lemma_candidates_fault_extends(
    cs: Seq<SdpaDecodeCandidate>,
    tp: ThreadPolicy,
    mp: MemoryPolicy,
    n: int,
)
    requires
        0 <= n <= cs.len(),
        candidates_fault(cs.take(n), tp, mp) is Some,
    ensures
        candidates_fault(cs, tp, mp) == candidates_fault(cs.take(n), tp, mp),
    decreases cs.len() - n,
{
    if n < cs.len() {
        assert(cs.take(n + 1).drop_last() =~= cs.take(n));
        lemma_candidates_fault_extends(cs, tp, mp, n + 1);
    } else {
        assert(cs.take(n) =~= cs);
    }
}

proof fn lemma_no_fault_anywhere(cs: Seq<SdpaDecodeCandidate>, tp: ThreadPolicy, mp: MemoryPolicy)
    requires
        candidates_fault(cs, tp, mp) is None,
    ensures
        forall|i: int| 0 <= i < cs.len() ==> candidate_fault(#[trigger] cs[i], tp, mp) is None,
    decreases cs.len(),
{
    if cs.len() > 0 {
        lemma_no_fault_anywhere(cs.drop_last(), tp, mp);
        assert forall|i: int| 0 <= i < cs.len() implies candidate_fault(
            #[trigger] cs[i],
            tp,
            mp,
        ) is None by {
            if i < cs.len() - 1 {
                assert(cs.drop_last()[i] == cs[i]);
            }
        }
    }
}

#[derive(Clone, Debug)]
pub struct KernelPlanBuilder {
    pub family: KernelFamily,
    pub precision: PrecisionProfile,
    pub hybrid_override: Option<HybridPrecisionSpec>,
    pub emulation: bool,
    pub thread_policy: ThreadPolicy,
    pub memory_policy: MemoryPolicy,
    pub tune_policy: TunePolicy,
    pub weights: ObjectiveWeights,
    pub buckets: TokenBucketStrategy,
    pub candidate_list: Vec<SdpaDecodeCandidate>,
    pub schema: u16,
}

/// A builder as `KernelPlanBuilder::new` leaves it.
pub open spec fn is_fresh_builder(b: KernelPlanBuilder, family: KernelFamily) -> bool {
    &&& b.family == family
    &&& b.precision == PrecisionProfile::Balanced
    &&& b.hybrid_override is None
    &&& !b.emulation
    &&& b.thread_policy == (ThreadPolicy { max_threads_per_tg: 256, prefer_simdgroups: true })
    &&& b.memory_policy == (MemoryPolicy::SharedIfFits { max_tg_bytes: 32768 })
    &&& b.tune_policy == TunePolicy::disabled_spec()
    &&& b.weights == ObjectiveWeights::spec_default()
    &&& b.buckets.edges@ == TokenBucketStrategy::decode_edges()
    &&& b.candidate_list@ == SdpaDecodeVariant::all_spec().map_values(
        |v: SdpaDecodeVariant| v.spec_candidate(),
    )
    &&& b.schema == 1
}

pub open spec fn plan_hybrid(b: KernelPlanBuilder) -> HybridPrecisionSpec {
    match b.hybrid_override {
        Some(h) => h,
        None => b.precision.spec_default(),
    }
}

/// Why a builder yields no plan; the checks in the order in which they are made.
pub open spec fn plan_fault(b: KernelPlanBuilder) -> Option<PlanError> {
    if !weights_ok(b.weights) {
        Some(PlanError::InvalidObjectiveWeights)
    } else if tune_policy_fault(b.tune_policy) is Some {
        tune_policy_fault(b.tune_policy)
    } else if precision_fault(b.family, plan_hybrid(b), b.emulation) is Some {
        precision_fault(b.family, plan_hybrid(b), b.emulation)
    } else if b.candidate_list@.len() == 0 {
        Some(PlanError::EmptyCandidates)
    } else if candidates_fault(b.candidate_list@, b.thread_policy, b.memory_policy) is Some {
        Some(
            PlanError::InvalidCandidate(
                candidates_fault(b.candidate_list@, b.thread_policy, b.memory_policy)->0,
            ),
        )
    } else {
        None
    }
}

/// The plan of a builder without faults.
pub open spec fn planned(b: KernelPlanBuilder) -> KernelPlan {
    KernelPlan {
        family: b.family,
        precision_profile: b.precision,
        hybrid: plan_hybrid(b),
        thread_policy: b.thread_policy,
        memory_policy: b.memory_policy,
        tune_policy: b.tune_policy,
        objective_weights: b.weights,
        token_buckets: b.buckets,
        candidates: b.candidate_list,
        default_candidate: default_choice(b.precision, b.thread_policy, b.candidate_list@),
        schema_version: b.schema,
    }
}

impl KernelPlanBuilder {
    pub fn new(family: KernelFamily) -> (r: Self)
        ensures
            is_fresh_builder(r, family),
    {
        let variants: Vec<SdpaDecodeVariant> = SdpaDecodeVariant::all();
        let mut candidates: Vec<SdpaDecodeCandidate> = Vec::new();
        let mut i: usize = 0;
        while i < variants.len()
            invariant
                i <= variants@.len(),
                candidates@.len() == i,
                forall|k: int|
                    0 <= k < i ==> candidates@[k] == (#[trigger] variants@[k]).spec_candidate(),
            decreases variants@.len() - i,
        {
            candidates.push(variants[i].candidate());
            i = i + 1;
        }
        assert(candidates@ =~= SdpaDecodeVariant::all_spec().map_values(
            |v: SdpaDecodeVariant| v.spec_candidate(),
        ));
        KernelPlanBuilder {
            family,
            precision: PrecisionProfile::Balanced,
            hybrid_override: None,
            emulation: false,
            thread_policy: ThreadPolicy::default(),
            memory_policy: MemoryPolicy::default(),
            tune_policy: TunePolicy::default(),
            weights: ObjectiveWeights::default(),
            buckets: TokenBucketStrategy::default(),
            candidate_list: candidates,
            schema: 1,
        }
    }

    pub fn precision_profile(self, profile: PrecisionProfile) -> (r: Self)
        ensures
            r == (KernelPlanBuilder { precision: profile, ..self }),
    {
        KernelPlanBuilder { precision: profile, ..self }
    }

    pub fn hybrid_profile(self, profile: HybridPrecisionSpec) -> (r: Self)
        ensures
            r == (KernelPlanBuilder { hybrid_override: Some(profile), ..self }),
    {
        KernelPlanBuilder { hybrid_override: Some(profile), ..self }
    }

    pub fn allow_emulation(self, enable: bool) -> (r: Self)
        ensures
            r == (KernelPlanBuilder { emulation: enable, ..self }),
    {
        KernelPlanBuilder { emulation: enable, ..self }
    }

    pub fn threads(self, policy: ThreadPolicy) -> (r: Self)
        ensures
            r == (KernelPlanBuilder { thread_policy: policy, ..self }),
    {
        KernelPlanBuilder { thread_policy: policy, ..self }
    }

    pub fn memory(self, policy: MemoryPolicy) -> (r: Self)
        ensures
            r == (KernelPlanBuilder { memory_policy: policy, ..self }),
    {
        KernelPlanBuilder { memory_policy: policy, ..self }
    }

    pub fn autotune(self, policy: TunePolicy) -> (r: Self)
        ensures
            r == (KernelPlanBuilder { tune_policy: policy, ..self }),
    {
        KernelPlanBuilder { tune_policy: policy, ..self }
    }

    /// Configure persisted winner-table behavior for the tune cache.
    pub fn tune_cache(self, load: bool, persist: bool, max_entries: usize) -> (r: Self)
        ensures
            r == (KernelPlanBuilder {
                tune_policy: TunePolicy {
                    cache_load: load,
                    persist_cache: persist,
                    cache_max_entries: if max_entries == 0 {
                        1
                    } else {
                        max_entries
                    },
                    ..self.tune_policy
                },
                ..self
            }),
    {
        let entries: usize = if max_entries == 0 {
            1
        } else {
            max_entries
        };
        let policy: TunePolicy = TunePolicy {
            cache_load: load,
            persist_cache: persist,
            cache_max_entries: entries,
            ..self.tune_policy
        };
        KernelPlanBuilder { tune_policy: policy, ..self }
    }

    pub fn tune_cache_eviction(self, eviction: TuneCacheEviction) -> (r: Self)
        ensures
            r == (KernelPlanBuilder {
                tune_policy: TunePolicy { cache_eviction: eviction, ..self.tune_policy },
                ..self
            }),
    {
        let policy: TunePolicy = TunePolicy { cache_eviction: eviction, ..self.tune_policy };
        KernelPlanBuilder { tune_policy: policy, ..self }
    }

    pub fn objective_weights(self, weights: ObjectiveWeights) -> (r: Self)
        ensures
            r == (KernelPlanBuilder { weights, ..self }),
    {
        KernelPlanBuilder { weights, ..self }
    }

    pub fn token_buckets(self, strategy: TokenBucketStrategy) -> (r: Self)
        ensures
            r == (KernelPlanBuilder { buckets: strategy, ..self }),
    {
        KernelPlanBuilder { buckets: strategy, ..self }
    }

    pub fn candidates(self, candidates: Vec<SdpaDecodeCandidate>) -> (r: Self)
        ensures
            r == (KernelPlanBuilder { candidate_list: candidates, ..self }),
    {
        KernelPlanBuilder { candidate_list: candidates, ..self }
    }

    /// Override tile sizes across all current candidates in this plan.
    pub fn tile_sizes(self, tile_m: u32, tile_n: u32, tile_k: u32) -> (r: Self)
        ensures
            r == (KernelPlanBuilder { candidate_list: r.candidate_list, ..self }),
            r.candidate_list@ == self.candidate_list@.map_values(
                |c: SdpaDecodeCandidate| SdpaDecodeCandidate { tile_m, tile_n, tile_k, ..c },
            ),
    {
        let mut list: Vec<SdpaDecodeCandidate> = Vec::new();
        let mut i: usize = 0;
        while i < self.candidate_list.len()
            invariant
                i <= self.candidate_list@.len(),
                list@.len() == i,
                forall|k: int|
                    0 <= k < i ==> list@[k] == (SdpaDecodeCandidate {
                        tile_m,
                        tile_n,
                        tile_k,
                        ..#[trigger] self.candidate_list@[k]
                    }),
            decreases self.candidate_list@.len() - i,
        {
            let c: SdpaDecodeCandidate = self.candidate_list[i];
            list.push(SdpaDecodeCandidate { tile_m, tile_n, tile_k, ..c });
            i = i + 1;
        }
        assert(list@ =~= self.candidate_list@.map_values(
            |c: SdpaDecodeCandidate| SdpaDecodeCandidate { tile_m, tile_n, tile_k, ..c },
        ));
        KernelPlanBuilder { candidate_list: list, ..self }
    }

    /// Override sequence padding factors across all current candidates.
    pub fn padding(self, pad_q: u32, pad_kv: u32) -> (r: Self)
        ensures
            r == (KernelPlanBuilder { candidate_list: r.candidate_list, ..self }),
            r.candidate_list@ == self.candidate_list@.map_values(
                |c: SdpaDecodeCandidate| SdpaDecodeCandidate { pad_q, pad_kv, ..c },
            ),
    {
        let mut list: Vec<SdpaDecodeCandidate> = Vec::new();
        let mut i: usize = 0;
        while i < self.candidate_list.len()
            invariant
                i <= self.candidate_list@.len(),
                list@.len() == i,
                forall|k: int|
                    0 <= k < i ==> list@[k] == (SdpaDecodeCandidate {
                        pad_q,
                        pad_kv,
                        ..#[trigger] self.candidate_list@[k]
                    }),
            decreases self.candidate_list@.len() - i,
        {
            let c: SdpaDecodeCandidate = self.candidate_list[i];
            list.push(SdpaDecodeCandidate { pad_q, pad_kv, ..c });
            i = i + 1;
        }
        assert(list@ =~= self.candidate_list@.map_values(
            |c: SdpaDecodeCandidate| SdpaDecodeCandidate { pad_q, pad_kv, ..c },
        ));
        KernelPlanBuilder { candidate_list: list, ..self }
    }

    pub fn schema_version(self, schema_version: u16) -> (r: Self)
        ensures
            r == (KernelPlanBuilder { schema: schema_version, ..self }),
    {
        KernelPlanBuilder { schema: schema_version, ..self }
    }

    pub fn build_plan(self) -> (r: Result<KernelPlan, PlanError>)
        ensures
            r == (match plan_fault(self) {
                Some(e) => Err(e),
                None => Ok(planned(self)),
            }),
    {
        let hybrid: HybridPrecisionSpec = match self.hybrid_override {
            Some(h) => h,
            None => self.precision.default_spec(),
        };
        if let Err(e) = validate_objective_weights(self.weights) {
            return Err(e);
        }
        if let Err(e) = validate_tune_policy(self.tune_policy) {
            return Err(e);
        }
        if let Err(e) = validate_precision(self.family, hybrid, self.emulation) {
            return Err(e);
        }
        if self.candidate_list.len() == 0 {
            return Err(PlanError::EmptyCandidates);
        }
        let ghost cs = self.candidate_list@;
        let mut i: usize = 0;
        while i < self.candidate_list.len()
            invariant
                i <= self.candidate_list@.len(),
                cs == self.candidate_list@,
                cs.len() > 0,
                candidates_fault(cs.take(i as int), self.thread_policy, self.memory_policy) is None,
                weights_ok(self.weights),
                tune_policy_fault(self.tune_policy) is None,
                precision_fault(self.family, plan_hybrid(self), self.emulation) is None,
            decreases self.candidate_list@.len() - i,
        {
            assert(cs.take(i + 1).drop_last() =~= cs.take(i as int));
            if let Err(e) = validate_sdpa_candidate(
                self.candidate_list[i],
                self.thread_policy,
                self.memory_policy,
            ) {
                proof {
                    lemma_candidates_fault_extends(
                        cs,
                        self.thread_policy,
                        self.memory_policy,
                        i + 1,
                    );
                }
                return Err(e);
            }
            i = i + 1;
        }
        assert(cs.take(i as int) =~= cs);
        let default_candidate: SdpaDecodeCandidate = choose_default_candidate(
            self.precision,
            self.thread_policy,
            &self.candidate_list,
        );
        Ok(
            KernelPlan {
                family: self.family,
                precision_profile: self.precision,
                hybrid,
                thread_policy: self.thread_policy,
                memory_policy: self.memory_policy,
                tune_policy: self.tune_policy,
                objective_weights: self.weights,
                token_buckets: self.buckets,
                candidates: self.candidate_list,
                default_candidate,
                schema_version: self.schema,
            },
        )
    }
}

/// What holds of every built plan: no candidate breaks a rule, and the default is among them.
pub open spec fn plan_well_formed(p: KernelPlan) -> bool {
    &&& p.candidates@.contains(p.default_candidate)
    &&& forall|i: int|
        0 <= i < p.candidates@.len() ==> candidate_fault(
            #[trigger] p.candidates@[i],
            p.thread_policy,
            p.memory_policy,
        ) is None
    &&& weights_ok(p.objective_weights)
    &&& p.tune_policy.cache_max_entries > 0
}

/// A builder without faults yields a well-formed plan.
pub proof fn lemma_built_plan_well_formed(b: KernelPlanBuilder)
    requires
        plan_fault(b) is None,
    ensures
        plan_well_formed(planned(b)),
{
    let cs = b.candidate_list@;
    lemma_no_fault_anywhere(cs, b.thread_policy, b.memory_policy);
    lemma_first_where_member(
        cs,
        |c: SdpaDecodeCandidate|
            c.tg_size <= b.thread_policy.max_threads_per_tg && c.use_f16_kv == prefers_f16(
                b.precision,
            ) && c.partial_reduce == prefers_partial(b.precision),
    );
    lemma_first_where_member(
        cs,
        |c: SdpaDecodeCandidate| c.use_f16_kv == prefers_f16(b.precision),
    );
    assert(cs.contains(cs[0]));
}

/// The default candidate of a well-formed plan fits its thread policy.
pub proof fn lemma_default_fits_threads(p: KernelPlan)
    requires
        plan_well_formed(p),
    ensures
        p.default_candidate.tg_size <= p.thread_policy.max_threads_per_tg,
{
    let i = choose|i: int| 0 <= i < p.candidates@.len() && p.candidates@[i] == p.default_candidate;
    assert(candidate_fault(p.candidates@[i], p.thread_policy, p.memory_policy) is None);
}

/// A builder that is left with its defaults builds.
pub proof fn lemma_fresh_builder_builds(b: KernelPlanBuilder, family: KernelFamily)
    requires
        is_fresh_builder(b, family),
    ensures
        plan_fault(b) is None,
{
    let cs = b.candidate_list@;
    reveal_with_fuel(candidates_fault, 5);
    assert(cs.len() == 4);
    assert(cs[0] == SdpaDecodeVariant::BaseF32.spec_candidate());
    assert(cs[1] == SdpaDecodeVariant::BaseF16Kv.spec_candidate());
    assert(cs[2] == SdpaDecodeVariant::SplitK4F16Kv.spec_candidate());
    assert(cs[3] == SdpaDecodeVariant::PartialF16Kv.spec_candidate());
    assert(candidates_fault(cs, b.thread_policy, b.memory_policy) is None);
}

#[derive(Clone, Debug)]
pub struct LaunchBuilder<'a> {
    pub plan: &'a KernelPlan,
    pub m_field: Option<u32>,
    pub tokens_field: Option<u32>,
    pub batch_field: Option<u32>,
    pub heads_field: Option<u32>,
    pub head_dim_field: Option<u32>,
    pub seq_q_field: Option<u32>,
    pub seq_kv_field: Option<u32>,
    pub candidate_override: Option<SdpaDecodeCandidate>,
}

/// The candidate that a launch would run.
pub open spec fn selected_candidate(b: LaunchBuilder) -> SdpaDecodeCandidate {
    match b.candidate_override {
        Some(c) => c,
        None => launch_choice(*b.plan, b.tokens_field->0, b.seq_kv_field->0),
    }
}

/// Why a builder yields no launch; the checks in the order in which they are made.
pub open spec fn launch_fault(b: LaunchBuilder) -> Option<LaunchError> {
    if b.m_field is None {
        Some(LaunchError::MissingField("m"))
    } else if b.tokens_field is None {
        Some(LaunchError::MissingField("tokens"))
    } else if b.batch_field is None {
        Some(LaunchError::MissingField("batch"))
    } else if b.heads_field is None {
        Some(LaunchError::MissingField("num_heads"))
    } else if b.head_dim_field is None {
        Some(LaunchError::MissingField("head_dim"))
    } else if b.seq_q_field is None {
        Some(LaunchError::MissingField("seq_q"))
    } else if b.seq_kv_field is None {
        Some(LaunchError::MissingField("seq_kv"))
    } else if b.m_field == Some(0u32) {
        Some(LaunchError::InvalidField("m"))
    } else if b.tokens_field == Some(0u32) {
        Some(LaunchError::InvalidField("tokens"))
    } else if b.batch_field == Some(0u32) {
        Some(LaunchError::InvalidField("batch"))
    } else if b.heads_field == Some(0u32) {
        Some(LaunchError::InvalidField("num_heads"))
    } else if b.head_dim_field == Some(0u32) || b.head_dim_field->0 > 512 {
        Some(LaunchError::InvalidField("head_dim"))
    } else if b.seq_q_field == Some(0u32) || b.seq_kv_field == Some(0u32) {
        Some(LaunchError::InvalidField("seq_q/seq_kv"))
    } else if !b.plan.candidates@.contains(selected_candidate(b)) {
        Some(LaunchError::CandidateNotPresent)
    } else {
        None
    }
}

pub open spec fn profile_text(p: PrecisionProfile) -> Seq<char> {
    match p {
        PrecisionProfile::UltraLowLatency => "ull"@,
        PrecisionProfile::Balanced => "bal"@,
        PrecisionProfile::HighFidelity => "hf"@,
        PrecisionProfile::Deterministic => "det"@,
    }
}

/// The label of a launch: the family, the shape, the candidate's tag and the profile.
pub open spec fn kernel_name_text(
    profile: PrecisionProfile,
    m: u32,
    tokens: u32,
    batch: u32,
    num_heads: u32,
    head_dim: u32,
    seq_q: u32,
    seq_kv: u32,
    c: SdpaDecodeCandidate,
) -> Seq<char> {
    "sdpa_decode_m"@ + decimal(m as nat) + "_tok"@ + decimal(tokens as nat) + "_b"@ + decimal(
        batch as nat,
    ) + "_h"@ + decimal(num_heads as nat) + "_d"@ + decimal(head_dim as nat) + "_sq"@ + decimal(
        seq_q as nat,
    ) + "_sk"@ + decimal(seq_kv as nat) + "_"@ + tag_text(c) + "_"@ + profile_text(profile)
}

/// The launch of a builder without faults.
pub open spec fn is_launch_of(l: LaunchConfig, b: LaunchBuilder) -> bool {
    &&& l.family == b.plan.family
    &&& Some(l.m) == b.m_field
    &&& Some(l.tokens) == b.tokens_field
    &&& l.token_bucket as int == bucket_index(b.plan.token_buckets.edges@, l.tokens) as int
        % 0x1_0000
    &&& Some(l.batch) == b.batch_field
    &&& Some(l.num_heads) == b.heads_field
    &&& Some(l.head_dim) == b.head_dim_field
    &&& Some(l.seq_q) == b.seq_q_field
    &&& Some(l.seq_kv) == b.seq_kv_field
    &&& l.candidate == selected_candidate(b)
    &&& l.kernel_name@ == kernel_name_text(
        b.plan.precision_profile,
        l.m,
        l.tokens,
        l.batch,
        l.num_heads,
        l.head_dim,
        l.seq_q,
        l.seq_kv,
        l.candidate,
    )
}

impl<'a> LaunchBuilder<'a> {
    pub fn from_plan(plan: &'a KernelPlan) -> (r: Self)
        ensures
            r == (LaunchBuilder {
                plan,
                m_field: None,
                tokens_field: None,
                batch_field: None,
                heads_field: None,
                head_dim_field: None,
                seq_q_field: None,
                seq_kv_field: None,
                candidate_override: None,
            }),
    {
        LaunchBuilder {
            plan,
            m_field: None,
            tokens_field: None,
            batch_field: None,
            heads_field: None,
            head_dim_field: None,
            seq_q_field: None,
            seq_kv_field: None,
            candidate_override: None,
        }
    }

    pub fn m(self, m: u32) -> (r: Self)
        ensures
            r == (LaunchBuilder { m_field: Some(m), ..self }),
    {
        LaunchBuilder { m_field: Some(m), ..self }
    }

    pub fn tokens(self, tokens: u32) -> (r: Self)
        ensures
            r == (LaunchBuilder { tokens_field: Some(tokens), ..self }),
    {
        LaunchBuilder { tokens_field: Some(tokens), ..self }
    }

    pub fn batch(self, batch: u32) -> (r: Self)
        ensures
            r == (LaunchBuilder { batch_field: Some(batch), ..self }),
    {
        LaunchBuilder { batch_field: Some(batch), ..self }
    }

    pub fn num_heads(self, num_heads: u32) -> (r: Self)
        ensures
            r == (LaunchBuilder { heads_field: Some(num_heads), ..self }),
    {
        LaunchBuilder { heads_field: Some(num_heads), ..self }
    }

    pub fn head_dim(self, head_dim: u32) -> (r: Self)
        ensures
            r == (LaunchBuilder { head_dim_field: Some(head_dim), ..self }),
    {
        LaunchBuilder { head_dim_field: Some(head_dim), ..self }
    }

    pub fn seq_q(self, seq_q: u32) -> (r: Self)
        ensures
            r == (LaunchBuilder { seq_q_field: Some(seq_q), ..self }),
    {
        LaunchBuilder { seq_q_field: Some(seq_q), ..self }
    }

    pub fn seq_kv(self, seq_kv: u32) -> (r: Self)
        ensures
            r == (LaunchBuilder { seq_kv_field: Some(seq_kv), ..self }),
    {
        LaunchBuilder { seq_kv_field: Some(seq_kv), ..self }
    }

    pub fn candidate(self, candidate: SdpaDecodeCandidate) -> (r: Self)
        ensures
            r == (LaunchBuilder { candidate_override: Some(candidate), ..self }),
    {
        LaunchBuilder { candidate_override: Some(candidate), ..self }
    }

    pub fn build(self) -> (r: Result<LaunchConfig, LaunchError>)
        ensures
            match launch_fault(self) {
                Some(e) => r == Err::<LaunchConfig, LaunchError>(e),
                None => r matches Ok(l) && is_launch_of(l, self),
            },
    {
        let m: u32 = match self.m_field {
            Some(v) => v,
            None => return Err(LaunchError::MissingField("m")),
        };
        let tokens: u32 = match self.tokens_field {
            Some(v) => v,
            None => return Err(LaunchError::MissingField("tokens")),
        };
        let batch: u32 = match self.batch_field {
            Some(v) => v,
            None => return Err(LaunchError::MissingField("batch")),
        };
        let num_heads: u32 = match self.heads_field {
            Some(v) => v,
            None => return Err(LaunchError::MissingField("num_heads")),
        };
        let head_dim: u32 = match self.head_dim_field {
            Some(v) => v,
            None => return Err(LaunchError::MissingField("head_dim")),
        };
        let seq_q: u32 = match self.seq_q_field {
            Some(v) => v,
            None => return Err(LaunchError::MissingField("seq_q")),
        };
        let seq_kv: u32 = match self.seq_kv_field {
            Some(v) => v,
            None => return Err(LaunchError::MissingField("seq_kv")),
        };
        if m == 0 {
            return Err(LaunchError::InvalidField("m"));
        }
        if tokens == 0 {
            return Err(LaunchError::InvalidField("tokens"));
        }
        if batch == 0 {
            return Err(LaunchError::InvalidField("batch"));
        }
        if num_heads == 0 {
            return Err(LaunchError::InvalidField("num_heads"));
        }
        if head_dim == 0 || head_dim > 512 {
            return Err(LaunchError::InvalidField("head_dim"));
        }
        if seq_q == 0 || seq_kv == 0 {
            return Err(LaunchError::InvalidField("seq_q/seq_kv"));
        }
        let selected: SdpaDecodeCandidate = match self.candidate_override {
            Some(c) => c,
            None => choose_launch_candidate(self.plan, tokens, seq_kv),
        };
        if !holds_candidate(&self.plan.candidates, selected) {
            return Err(LaunchError::CandidateNotPresent);
        }
        Ok(
            LaunchConfig {
                family: self.plan.family,
                m,
                tokens,
                token_bucket: self.plan.token_buckets.bucket_of(tokens),
                batch,
                num_heads,
                head_dim,
                seq_q,
                seq_kv,
                candidate: selected,
                kernel_name: render_kernel_name(
                    self.plan,
                    m,
                    tokens,
                    batch,
                    num_heads,
                    head_dim,
                    seq_q,
                    seq_kv,
                    selected,
                ),
            },
        )
    }
}

fn holds_candidate(list: &[SdpaDecodeCandidate], c: SdpaDecodeCandidate) -> (r: bool)
    ensures
        r == list@.contains(c),
{
    let mut i: usize = 0;
    while i < list.len()
        invariant
            i <= list@.len(),
            forall|k: int| 0 <= k < i ==> list@[k] != c,
        decreases list@.len() - i,
    {
        if list[i] == c {
            assert(list@[i as int] == c);
            return true;
        }
        i = i + 1;
    }
    false
}

/// Numbers behind their names, from the `i`th on, and what follows them.
spec fn named_numbers(names: Seq<Seq<char>>, numbers: Seq<u32>, i: int, end: Seq<char>) -> Seq<char>
    decreases names.len() - i,
{
    if 0 <= i < names.len() {
        names[i] + (decimal(numbers[i] as nat) + named_numbers(names, numbers, i + 1, end))
    } else {
        end
    }
}

/// Every name but the first, and what follows the numbers, starts with something that is no digit.
spec fn apart(names: Seq<Seq<char>>, end: Seq<char>) -> bool {
    &&& forall|i: int|
        0 < i < names.len() ==> (#[trigger] names[i]).len() > 0 && !is_digit(names[i][0])
    &&& end.len() > 0 && !is_digit(end[0])
}

proof fn lemma_named_numbers_start(
    names: Seq<Seq<char>>,
    numbers: Seq<u32>,
    i: int,
    end: Seq<char>,
)
    requires
        0 < i <= names.len(),
        apart(names, end),
    ensures
        named_numbers(names, numbers, i, end).len() > 0,
        !is_digit(named_numbers(names, numbers, i, end)[0]),
{
    if i < names.len() {
        assert(names[i].len() > 0);
    }
}

proof fn lemma_named_numbers_differ(
    names: Seq<Seq<char>>,
    a: Seq<u32>,
    end_a: Seq<char>,
    b: Seq<u32>,
    end_b: Seq<char>,
    i: int,
)
    requires
        0 <= i <= names.len(),
        a.len() == names.len(),
        b.len() == names.len(),
        apart(names, end_a),
        apart(names, end_b),
        named_numbers(names, a, i, end_a) == named_numbers(names, b, i, end_b),
    ensures
        end_a == end_b,
        forall|k: int| i <= k < names.len() ==> #[trigger] a[k] == b[k],
    decreases names.len() - i,
{
    if i < names.len() {
        let rest_a = named_numbers(names, a, i + 1, end_a);
        let rest_b = named_numbers(names, b, i + 1, end_b);
        let whole = named_numbers(names, a, i, end_a);
        let from = names[i].len() as int;
        assert(decimal(a[i] as nat) + rest_a =~= whole.skip(from));
        assert(decimal(b[i] as nat) + rest_b =~= whole.skip(from));
        lemma_named_numbers_start(names, a, i + 1, end_a);
        lemma_named_numbers_start(names, b, i + 1, end_b);
        lemma_decimal_ends(a[i] as nat, rest_a, b[i] as nat, rest_b);
        lemma_named_numbers_differ(names, a, end_a, b, end_b, i + 1);
    }
}

spec fn label_names() -> Seq<Seq<char>> {
    seq!["sdpa_decode_m"@, "_tok"@, "_b"@, "_h"@, "_d"@, "_sq"@, "_sk"@]
}

spec fn label_numbers(l: LaunchConfig) -> Seq<u32> {
    seq![l.m, l.tokens, l.batch, l.num_heads, l.head_dim, l.seq_q, l.seq_kv]
}

spec fn label_end(c: SdpaDecodeCandidate, profile: PrecisionProfile) -> Seq<char> {
    "_"@ + tag_text(c) + "_"@ + profile_text(profile)
}

proof fn lemma_field_moves(before: Seq<char>, name: Seq<char>, number: u32, rest: Seq<char>)
    ensures
        before + name + decimal(number as nat) + rest == before + (name + (decimal(number as nat)
            + rest)),
{
    assert(before + name + decimal(number as nat) + rest =~= before + (name + (decimal(
        number as nat,
    ) + rest)));
}

proof fn lemma_end_moves(before: Seq<char>, bar: Seq<char>, tag: Seq<char>, profile: Seq<char>)
    ensures
        before + bar + tag + bar + profile == before + (bar + tag + bar + profile),
{
    assert(before + bar + tag + bar + profile =~= before + (bar + tag + bar + profile));
}

proof fn lemma_nothing_before(s: Seq<char>)
    ensures
        Seq::<char>::empty() + s == s,
{
    assert(Seq::<char>::empty() + s =~= s);
}

proof fn lemma_label_parts(l: LaunchConfig, profile: PrecisionProfile)
    ensures
        kernel_name_text(
            profile,
            l.m,
            l.tokens,
            l.batch,
            l.num_heads,
            l.head_dim,
            l.seq_q,
            l.seq_kv,
            l.candidate,
        ) == named_numbers(label_names(), label_numbers(l), 0, label_end(l.candidate, profile)),
{
    let (n, v) = (label_names(), label_numbers(l));
    let end = label_end(l.candidate, profile);
    let none = Seq::<char>::empty();
    let p1 = n[0] + decimal(l.m as nat);
    let p2 = p1 + n[1] + decimal(l.tokens as nat);
    let p3 = p2 + n[2] + decimal(l.batch as nat);
    let p4 = p3 + n[3] + decimal(l.num_heads as nat);
    let p5 = p4 + n[4] + decimal(l.head_dim as nat);
    let p6 = p5 + n[5] + decimal(l.seq_q as nat);
    let p7 = p6 + n[6] + decimal(l.seq_kv as nat);
    lemma_end_moves(p7, "_"@, tag_text(l.candidate), profile_text(profile));
    lemma_field_moves(p6, n[6], v[6], named_numbers(n, v, 7, end));
    lemma_field_moves(p5, n[5], v[5], named_numbers(n, v, 6, end));
    lemma_field_moves(p4, n[4], v[4], named_numbers(n, v, 5, end));
    lemma_field_moves(p3, n[3], v[3], named_numbers(n, v, 4, end));
    lemma_field_moves(p2, n[2], v[2], named_numbers(n, v, 3, end));
    lemma_field_moves(p1, n[1], v[1], named_numbers(n, v, 2, end));
    lemma_field_moves(none, n[0], v[0], named_numbers(n, v, 1, end));
    lemma_nothing_before(n[0]);
    lemma_nothing_before(named_numbers(n, v, 0, end));
}

proof fn lemma_label_apart(c: SdpaDecodeCandidate, profile: PrecisionProfile)
    ensures
        apart(label_names(), label_end(c, profile)),
{
    reveal_strlit("_");
    reveal_strlit("_tok");
    reveal_strlit("_b");
    reveal_strlit("_h");
    reveal_strlit("_d");
    reveal_strlit("_sq");
    reveal_strlit("_sk");
    assert(label_end(c, profile)[0] == '_');
}

/// The profiles differ in their last character but one.
proof fn lemma_profiles_differ(p: PrecisionProfile, q: PrecisionProfile)
    ensures
        profile_text(p).len() >= 2,
        p != q ==> profile_text(p)[profile_text(p).len() - 2] != profile_text(
            q,
        )[profile_text(q).len() - 2],
{
    reveal_strlit("ull");
    reveal_strlit("bal");
    reveal_strlit("hf");
    reveal_strlit("det");
}

proof fn lemma_ends_match(
    bar: Seq<char>,
    a: Seq<char>,
    x: Seq<char>,
    b: Seq<char>,
    y: Seq<char>,
)
    requires
        bar + a + bar + x == bar + b + bar + y,
        x.len() >= 2,
        y.len() >= 2,
    ensures
        x[x.len() - 2] == y[y.len() - 2],
        x == y ==> a == b,
{
    let s = bar + a + bar + x;
    assert(s[s.len() - 2] == x[x.len() - 2] && s[s.len() - 2] == y[y.len() - 2]);
    if x == y {
        let (from, to) = (bar.len() as int, s.len() - x.len() - bar.len());
        assert(a =~= s.subrange(from, to));
        assert(b =~= s.subrange(from, to));
    }
}

proof fn lemma_label_end_differs(
    a: SdpaDecodeCandidate,
    p: PrecisionProfile,
    b: SdpaDecodeCandidate,
    q: PrecisionProfile,
)
    requires
        label_end(a, p) == label_end(b, q),
    ensures
        a == b,
        p == q,
{
    lemma_profiles_differ(p, q);
    lemma_profiles_differ(q, p);
    lemma_ends_match("_"@, tag_text(a), profile_text(p), tag_text(b), profile_text(q));
    lemma_tag_round_trip(a);
    lemma_tag_round_trip(b);
}

/// Two launches that differ get different labels: the label tells their shapes, their candidates
/// and the profiles of their plans.
pub proof fn lemma_labels_tell_launches_apart(
    a: LaunchConfig,
    of_a: LaunchBuilder,
    b: LaunchConfig,
    of_b: LaunchBuilder,
)
    requires
        is_launch_of(a, of_a),
        is_launch_of(b, of_b),
        a.kernel_name@ == b.kernel_name@,
    ensures
        a.family == b.family,
        a.m == b.m,
        a.tokens == b.tokens,
        a.batch == b.batch,
        a.num_heads == b.num_heads,
        a.head_dim == b.head_dim,
        a.seq_q == b.seq_q,
        a.seq_kv == b.seq_kv,
        a.candidate == b.candidate,
        of_a.plan.precision_profile == of_b.plan.precision_profile,
        of_a.plan == of_b.plan ==> a.token_bucket == b.token_bucket,
{
    let (p, q) = (of_a.plan.precision_profile, of_b.plan.precision_profile);
    let (x, y) = (label_numbers(a), label_numbers(b));
    lemma_label_parts(a, p);
    lemma_label_parts(b, q);
    lemma_label_apart(a.candidate, p);
    lemma_label_apart(b.candidate, q);
    lemma_named_numbers_differ(
        label_names(),
        x,
        label_end(a.candidate, p),
        y,
        label_end(b.candidate, q),
        0,
    );
    lemma_label_end_differs(a.candidate, p, b.candidate, q);
    assert(x[0] == y[0] && x[1] == y[1] && x[2] == y[2] && x[3] == y[3] && x[4] == y[4] && x[5]
        == y[5] && x[6] == y[6]);
}

/// Without an override, a launch on a well-formed plan never misses its candidate.
pub proof fn lemma_launch_finds_candidate(b: LaunchBuilder)
    requires
        plan_well_formed(*b.plan),
        b.candidate_override is None,
    ensures
        launch_fault(b) != Some(LaunchError::CandidateNotPresent),
{
    lemma_first_where_member(b.plan.candidates@, |c: SdpaDecodeCandidate| c.partial_reduce);
}

/// The exponent of the smallest power of two that is not below `v`; zero for zero and one.
pub open spec fn ceil_log2(v: nat) -> nat
    decreases v,
{
    if v <= 1 {
        0
    } else {
        1 + ceil_log2((v + 1) / 2)
    }
}

proof fn lemma_ceil_log2_at_most(v: nat, n: nat)
    requires
        v <= pow2(n),
    ensures
        ceil_log2(v) <= n,
    decreases n,
{
    if v > 1 {
        if n == 0 {
            vstd::arithmetic::power2::lemma2_to64();
        } else {
            lemma_pow2_unfold(n);
            lemma_ceil_log2_at_most((v + 1) / 2, (n - 1) as nat);
        }
    }
}

/// A value is at most two to its bucket, and more than two to the bucket below.
pub proof fn lemma_ceil_log2_bounds(v: nat)
    ensures
        v <= pow2(ceil_log2(v)),
        ceil_log2(v) > 0 ==> pow2((ceil_log2(v) - 1) as nat) < v,
    decreases v,
{
    if v <= 1 {
        lemma_pow2_pos(0);
    } else {
        let h = (v + 1) / 2;
        lemma_ceil_log2_bounds(h);
        lemma_pow2_unfold(ceil_log2(v));
        if h > 1 {
            lemma_pow2_unfold(ceil_log2(h));
        } else {
            vstd::arithmetic::power2::lemma2_to64();
        }
    }
}

/// A larger value never has a smaller bucket.
pub proof fn lemma_ceil_log2_monotone(a: nat, b: nat)
    requires
        a <= b,
    ensures
        ceil_log2(a) <= ceil_log2(b),
{
    lemma_ceil_log2_bounds(b);
    lemma_ceil_log2_at_most(a, ceil_log2(b));
}

pub fn bucket_pow2(v: u32) -> (r: u16)
    ensures
        r as nat == ceil_log2(v as nat),
{
    proof {
        vstd::arithmetic::power2::lemma2_to64();
        lemma_ceil_log2_at_most(v as nat, 32);
    }
    let mut x: u32 = v;
    let mut b: u16 = 0;
    while x > 1
        invariant
            b + ceil_log2(x as nat) == ceil_log2(v as nat),
            ceil_log2(v as nat) <= 32,
        decreases x,
    {
        x = x / 2 + x % 2;
        b = b + 1;
    }
    b
}

pub fn shape_bucket(launch: &LaunchConfig) -> (r: ShapeBucket)
    ensures
        r.m_bucket as nat == ceil_log2(launch.m as nat),
        r.batch_bucket as nat == ceil_log2(launch.batch as nat),
        r.heads_bucket as nat == ceil_log2(launch.num_heads as nat),
        r.head_dim_bucket as nat == ceil_log2(launch.head_dim as nat),
        r.seq_q_bucket as nat == ceil_log2(launch.seq_q as nat),
        r.seq_kv_bucket as nat == ceil_log2(launch.seq_kv as nat),
{
    ShapeBucket {
        m_bucket: bucket_pow2(launch.m),
        batch_bucket: bucket_pow2(launch.batch),
        heads_bucket: bucket_pow2(launch.num_heads),
        head_dim_bucket: bucket_pow2(launch.head_dim),
        seq_q_bucket: bucket_pow2(launch.seq_q),
        seq_kv_bucket: bucket_pow2(launch.seq_kv),
    }
}

pub fn tune_cache_key(
    plan: &KernelPlan,
    launch: &LaunchConfig,
    device_fingerprint: &str,
    env_mask: u64,
) -> (r: TuneCacheKey)
    ensures
        r.schema_version == plan.schema_version,
        r.family == plan.family,
        r.precision_profile == profile_tag(plan.precision_profile),
        r.token_bucket == launch.token_bucket,
        r.shape_bucket.m_bucket as nat == ceil_log2(launch.m as nat),
        r.shape_bucket.batch_bucket as nat == ceil_log2(launch.batch as nat),
        r.shape_bucket.heads_bucket as nat == ceil_log2(launch.num_heads as nat),
        r.shape_bucket.head_dim_bucket as nat == ceil_log2(launch.head_dim as nat),
        r.shape_bucket.seq_q_bucket as nat == ceil_log2(launch.seq_q as nat),
        r.shape_bucket.seq_kv_bucket as nat == ceil_log2(launch.seq_kv as nat),
        r.device_fingerprint@ == device_fingerprint@,
        r.env_mask == env_mask,
{
    TuneCacheKey {
        schema_version: plan.schema_version,
        family: plan.family,
        precision_profile: PrecisionProfileTag::from(plan.precision_profile),
        token_bucket: launch.token_bucket,
        shape_bucket: shape_bucket(launch),
        device_fingerprint: device_fingerprint.to_owned(),
        env_mask,
    }
}

pub fn render_kernel_name(
    plan: &KernelPlan,
    m: u32,
    tokens: u32,
    batch: u32,
    num_heads: u32,
    head_dim: u32,
    seq_q: u32,
    seq_kv: u32,
    candidate: SdpaDecodeCandidate,
) -> (r: String)
    ensures
        r@ == kernel_name_text(
            plan.precision_profile,
            m,
            tokens,
            batch,
            num_heads,
            head_dim,
            seq_q,
            seq_kv,
            candidate,
        ),
{
    let family: &str = match plan.family {
        KernelFamily::SdpaDecode => "sdpa_decode_m",
    };
    let profile: &str = match plan.precision_profile {
        PrecisionProfile::UltraLowLatency => "ull",
        PrecisionProfile::Balanced => "bal",
        PrecisionProfile::HighFidelity => "hf",
        PrecisionProfile::Deterministic => "det",
    };
    let mut out: String = family.to_owned();
    push_decimal(&mut out, m as u64);
    out.append("_tok");
    push_decimal(&mut out, tokens as u64);
    out.append("_b");
    push_decimal(&mut out, batch as u64);
    out.append("_h");
    push_decimal(&mut out, num_heads as u64);
    out.append("_d");
    push_decimal(&mut out, head_dim as u64);
    out.append("_sq");
    push_decimal(&mut out, seq_q as u64);
    out.append("_sk");
    push_decimal(&mut out, seq_kv as u64);
    out.append("_");
    let tag: String = candidate.tag();
    out.append(tag.as_str());
    out.append("_");
    out.append(profile);
    out
}

} // verus!
