//! The table of tuned candidates: what is dropped first, what a line says, and when a bucket counts as
//! used.

use vstd::prelude::*;

use crate::config::MetalRuntimeConfig;
use crate::kernel_plan::{SdpaDecodeCandidate, TuneCacheEviction, TunePolicy};
use crate::tune_cache::{
    accessed, dropped, empty_table, entry_limit, goes_before, holds, load_enabled, next_tick,
    persist_enabled, recorded, row_of, table_of_lines, tick_of, tuned, with_row, TableModel,
};

verus! {

/// The order of dropping is strict and total: of two buckets exactly one goes first.
pub proof fn lemma_drop_order(e: TuneCacheEviction, t: Map<u16, u64>, a: u16, b: u16, c: u16)
    ensures
        !goes_before(e, t, a, a),
        a != b ==> (goes_before(e, t, a, b) <==> !goes_before(e, t, b, a)),
        goes_before(e, t, a, b) && goes_before(e, t, b, c) ==> goes_before(e, t, a, c),
{
}

/// What is kept is what the policy keeps: low buckets, high buckets, or those used last.
pub proof fn lemma_kept(
    table: Map<u16, SdpaDecodeCandidate>,
    t: Map<u16, u64>,
    max: usize,
    e: TuneCacheEviction,
    keys: Seq<u16>,
    i: int,
    k: u16,
)
    requires
        dropped(table, t, max, e, keys),
        0 <= i < keys.len(),
        table.contains_key(k),
        !keys.contains(k),
    ensures
        e == TuneCacheEviction::KeepLowBuckets ==> k < keys[i],
        e == TuneCacheEviction::KeepHighBuckets ==> k > keys[i],
        e == TuneCacheEviction::Lru ==> tick_of(t, k) >= tick_of(t, keys[i]),
        table.contains_key(keys[i]),
        table.len() > max,
{
}

/// A bucket that was never used counts as used at zero.
pub proof fn lemma_tick_of(t: Map<u16, u64>, bucket: u16, tick: u64)
    ensures
        !t.contains_key(bucket) ==> tick_of(t, bucket) == 0,
        tick_of(t.insert(bucket, tick), bucket) == tick,
        forall|other: u16|
            other != bucket ==> #[trigger] tick_of(t.insert(bucket, tick), other) == tick_of(t, other),
{
}

/// Lines are taken in order: a line that holds a row replaces an earlier row of its bucket and leaves
/// all others, a line that holds none changes nothing, and the latest tick is the largest.
pub proof fn lemma_lines(lines: Seq<Seq<char>>, line: Seq<char>, other: u16)
    ensures
        table_of_lines(Seq::empty()) == empty_table(),
        empty_table().table.len() == 0 && empty_table().max_tick == 0,
        ({
            let before = table_of_lines(lines);
            let after = table_of_lines(lines.push(line));
            match row_of(line) {
                None => after == before,
                Some((bucket, candidate, tick)) => {
                    &&& after.table.contains_key(bucket) && after.table[bucket] == candidate
                    &&& tick_of(after.last_used, bucket) == tick
                    &&& other != bucket ==> after.table.contains_key(other)
                        == before.table.contains_key(other)
                    &&& other != bucket && before.table.contains_key(other) ==> after.table[other]
                        == before.table[other]
                    &&& other != bucket ==> tick_of(after.last_used, other) == tick_of(
                        before.last_used,
                        other,
                    )
                    &&& after.max_tick >= before.max_tick && after.max_tick >= tick
                    &&& after.max_tick == before.max_tick || after.max_tick == tick
                },
            }
        }),
{
    assert(lines.push(line).drop_last() =~= lines);
}

/// The table is read or kept only where both the configuration and the policy say so, and it holds no
/// more entries than either allows, but one at least.
pub proof fn lemma_table_policy(cfg: &MetalRuntimeConfig, policy: &TunePolicy)
    ensures
        load_enabled(cfg, policy) <==> cfg.sdpa_tune_cache_load && policy.cache_load,
        persist_enabled(cfg, policy) <==> cfg.sdpa_tune_cache_persist && policy.persist_cache,
        entry_limit(cfg, policy) >= 1,
        cfg.sdpa_tune_cache_max_entries >= 1 ==> entry_limit(cfg, policy)
            <= cfg.sdpa_tune_cache_max_entries,
        policy.cache_max_entries >= 1 ==> entry_limit(cfg, policy) <= policy.cache_max_entries,
        cfg.sdpa_tune_cache_max_entries >= 1 && policy.cache_max_entries >= 1 ==> entry_limit(
            cfg,
            policy,
        ) == cfg.sdpa_tune_cache_max_entries || entry_limit(cfg, policy) == policy.cache_max_entries,
{
}

/// Using a bucket gives it a later tick than any before and changes no candidate; at the last tick the
/// clock stands still.
pub proof fn lemma_accessed(t: TableModel, bucket: u16, other: u16)
    ensures
        next_tick(u64::MAX) == u64::MAX,
        t.max_tick < u64::MAX ==> next_tick(t.max_tick) == t.max_tick + 1,
        accessed(t, bucket).table == t.table,
        tick_of(accessed(t, bucket).last_used, bucket) == accessed(t, bucket).max_tick,
        accessed(t, bucket).max_tick == next_tick(t.max_tick),
        other != bucket ==> tick_of(accessed(t, bucket).last_used, other) == tick_of(
            t.last_used,
            other,
        ),
{
}

/// Looking a bucket up finds its candidate and counts as a use; where there is none nothing changes.
pub proof fn lemma_tuned(
    t: TableModel,
    bucket: u16,
    r: Option<SdpaDecodeCandidate>,
    after: TableModel,
)
    requires
        tuned(t, bucket, r, after),
    ensures
        r is Some <==> t.table.contains_key(bucket),
        r matches Some(c) ==> c == t.table[bucket],
        after.table == t.table,
        r is Some ==> tick_of(after.last_used, bucket) == next_tick(t.max_tick),
        r is None ==> after == t,
{
}

/// What is recorded is in the table afterwards, or the table was full and something else was kept; what
/// it held already is only marked as used.
pub proof fn lemma_recorded(
    t: TableModel,
    cfg: &MetalRuntimeConfig,
    policy: &TunePolicy,
    bucket: u16,
    candidate: SdpaDecodeCandidate,
    after: TableModel,
)
    requires
        recorded(t, cfg, policy, bucket, candidate, after),
    ensures
        holds(t, bucket, candidate) <==> t.table.contains_key(bucket) && t.table[bucket] == candidate,
        holds(t, bucket, candidate) ==> after.table == t.table,
        after.table.contains_key(bucket) ==> after.table[bucket] == candidate,
        after.max_tick == next_tick(t.max_tick),
{
}

} // verus!
