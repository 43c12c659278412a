//! The table of decode-attention candidates that won their measurements, one for each bucket of
//! token counts, with its text form and its eviction rules.

use std::collections::HashMap;

use vstd::prelude::*;
use vstd::std_specs::hash::group_hash_axioms;
use vstd::std_specs::iter::IteratorSpec;

use crate::config::{at_least_one, one_or_more, MetalRuntimeConfig};
use crate::kernel_plan::{
    candidate_from_tag, kv_text, lemma_tag_round_trip, numbers_text, reduce_text, tag_text,
    SdpaDecodeCandidate, TuneCacheEviction, TunePolicy,
};
use crate::text::{
    chars_of, decimal, free_of, lemma_decimal_digits, lemma_decimal_round_trip,
    lemma_split_single, lemma_split_snoc, lemma_trim_tight, parse_unsigned, parsed_unsigned, pieces,
    push_decimal, split_chars, split_on, trim_chars, trimmed,
};

verus! {

broadcast use group_hash_axioms;

/// When a bucket was last used, as far as that is known.
pub open spec fn tick_of(last_used: Map<u16, u64>, bucket: u16) -> u64 {
    if last_used.contains_key(bucket) {
        last_used[bucket]
    } else {
        0
    }
}

fn last_tick(last_used: &HashMap<u16, u64>, bucket: u16) -> (r: u64)
    ensures
        r == tick_of(last_used@, bucket),
{
    match last_used.get(&bucket) {
        Some(tick) => *tick,
        None => 0,
    }
}

/// Whether bucket `a` is dropped sooner than bucket `b`.
pub open spec fn goes_before(
    eviction: TuneCacheEviction,
    last_used: Map<u16, u64>,
    a: u16,
    b: u16,
) -> bool {
    match eviction {
        TuneCacheEviction::KeepLowBuckets => a > b,
        TuneCacheEviction::KeepHighBuckets => a < b,
        TuneCacheEviction::Lru => tick_of(last_used, a) < tick_of(last_used, b) || (tick_of(
            last_used,
            a,
        ) == tick_of(last_used, b) && a < b),
    }
}

fn precedes(eviction: TuneCacheEviction, last_used: &HashMap<u16, u64>, a: u16, b: u16) -> (r: bool)
    ensures
        r == goes_before(eviction, last_used@, a, b),
{
    match eviction {
        TuneCacheEviction::KeepLowBuckets => a > b,
        TuneCacheEviction::KeepHighBuckets => a < b,
        TuneCacheEviction::Lru => {
            let ta: u64 = last_tick(last_used, a);
            let tb: u64 = last_tick(last_used, b);
            ta < tb || (ta == tb && a < b)
        },
    }
}

/// The keys stand in the order in which they are dropped.
pub open spec fn in_drop_order(
    eviction: TuneCacheEviction,
    last_used: Map<u16, u64>,
    keys: Seq<u16>,
) -> bool {
    forall|i: int, j: int|
        #![trigger keys[i], keys[j]]
        0 <= i < j < keys.len() ==> goes_before(eviction, last_used, keys[i], keys[j])
}

/// Puts a new key into its place.
fn insert_in_order(
    keys: &mut Vec<u16>,
    key: u16,
    eviction: TuneCacheEviction,
    last_used: &HashMap<u16, u64>,
)
    requires
        in_drop_order(eviction, last_used@, old(keys)@),
        !old(keys)@.contains(key),
    ensures
        in_drop_order(eviction, last_used@, final(keys)@),
        final(keys)@.len() == old(keys)@.len() + 1,
        final(keys)@.to_set() == old(keys)@.to_set().insert(key),
{
    let ghost before = keys@;
    let mut at: usize = 0;
    while at < keys.len() && precedes(eviction, last_used, keys[at], key)
        invariant
            at <= keys@.len(),
            keys@ == before,
            forall|i: int|
                0 <= i < at ==> goes_before(eviction, last_used@, #[trigger] keys@[i], key),
        decreases keys@.len() - at,
    {
        at = at + 1;
    }
    keys.insert(at, key);
    proof {
        let after = keys@;
        assert(after == before.insert(at as int, key));
        assert forall|i: int, j: int|
            #![trigger after[i], after[j]]
            0 <= i < j < after.len() implies goes_before(eviction, last_used@, after[i], after[j]) by {
            if at < before.len() {
                assert(before[at as int] != key) by {
                    assert(before.contains(before[at as int]));
                }
            }
            if j < at {
                assert(after[i] == before[i] && after[j] == before[j]);
            } else if j == at {
                assert(after[i] == before[i]);
            } else {
                assert(after[j] == before[j - 1]);
                if i < at {
                    assert(after[i] == before[i]);
                } else if i == at {
                    if j - 1 > at {
                        assert(goes_before(eviction, last_used@, before[at as int], before[j - 1]));
                    }
                } else {
                    assert(after[i] == before[i - 1]);
                }
            }
        }
        assert forall|k: u16| after.to_set().contains(k) == before.to_set().insert(key).contains(
            k,
        ) by {
            if after.contains(k) && k != key {
                let i = choose|i: int| 0 <= i < after.len() && after[i] == k;
                if i < at {
                    assert(before[i] == k);
                } else {
                    assert(before[i - 1] == k);
                }
            }
            if before.contains(k) {
                let i = choose|i: int| 0 <= i < before.len() && before[i] == k;
                if i < at {
                    assert(after[i] == k);
                } else {
                    assert(after[i + 1] == k);
                }
            }
            assert(after[at as int] == key);
        }
        assert(after.to_set() =~= before.to_set().insert(key));
    }
}

/// The keys of a table in the order in which they are dropped.
fn ordered_keys(
    table: &HashMap<u16, SdpaDecodeCandidate>,
    last_used: &HashMap<u16, u64>,
    eviction: TuneCacheEviction,
) -> (keys: Vec<u16>)
    ensures
        in_drop_order(eviction, last_used@, keys@),
        keys@.to_set() == table@.dom(),
        keys@.len() == table@.len(),
{
    let mut keys: Vec<u16> = Vec::new();
    let listed = table.keys();
    let ghost all = listed.remaining();
    for k in it: listed
        invariant
            it.seq() == all,
            in_drop_order(eviction, last_used@, keys@),
            keys@.len() == it.index(),
            it.seq().no_duplicates(),
            it.seq().unref().to_set() == table@.dom(),
            forall|x: u16|
                #![trigger keys@.to_set().contains(x)]
                keys@.to_set().contains(x) <==> it.seq().take(it.index() as int).contains(&x),
    {
        let ghost seen = it.seq().take(it.index() as int);
        let ghost before = keys@;
        proof {
            if keys@.contains(*k) {
                assert(keys@.to_set().contains(*k));
                let i = choose|i: int| 0 <= i < seen.len() && seen[i] == k;
                assert(it.seq()[i] == k);
            }
        }
        insert_in_order(&mut keys, *k, eviction, last_used);
        proof {
            let next = it.seq().take(it.index() + 1);
            assert(next =~= seen.push(k));
            assert forall|x: u16| keys@.to_set().contains(x) <==> next.contains(&x) by {
                assert(keys@.to_set().contains(x) == (before.to_set().contains(x) || x == *k));
                if seen.contains(&x) {
                    let i = choose|i: int| 0 <= i < seen.len() && seen[i] == &x;
                    assert(next[i] == &x);
                }
                assert(next[seen.len() as int] == k);
            }
        }
    }
    proof {
        assert(all.take(all.len() as int) =~= all);
        assert forall|x: u16| keys@.to_set().contains(x) == table@.dom().contains(x) by {
            if all.contains(&x) {
                let i = choose|i: int| 0 <= i < all.len() && all[i] == &x;
                assert(all.unref()[i] == x);
            }
            if all.unref().to_set().contains(x) {
                let i = choose|i: int| 0 <= i < all.unref().len() && all.unref()[i] == x;
                assert(all[i] == &x);
            }
        }
        assert(keys@.to_set() =~= table@.dom());
    }
    keys
}

/// The keys that have to go: as many as exceed the limit, first those that are dropped first, and
/// each of them before every key that stays.
pub open spec fn dropped(
    table: Map<u16, SdpaDecodeCandidate>,
    last_used: Map<u16, u64>,
    max_entries: usize,
    eviction: TuneCacheEviction,
    keys: Seq<u16>,
) -> bool {
    &&& keys.len() == (if table.len() <= max_entries {
        0
    } else {
        table.len() - max_entries
    })
    &&& in_drop_order(eviction, last_used, keys)
    &&& forall|i: int| 0 <= i < keys.len() ==> table.contains_key(#[trigger] keys[i])
    &&& forall|i: int, k: u16|
        #![trigger keys[i], table.contains_key(k)]
        0 <= i < keys.len() && table.contains_key(k) && !keys.contains(k) ==> goes_before(
            eviction,
            last_used,
            keys[i],
            k,
        )
}

pub fn sdpa_tune_drop_keys(
    table: &HashMap<u16, SdpaDecodeCandidate>,
    last_used: &HashMap<u16, u64>,
    max_entries: usize,
    eviction: TuneCacheEviction,
) -> (keys: Vec<u16>)
    ensures
        dropped(table@, last_used@, max_entries, eviction, keys@),
{
    if table.len() <= max_entries {
        return Vec::new();
    }
    let drop_n: usize = table.len() - max_entries;
    let ranked: Vec<u16> = ordered_keys(table, last_used, eviction);
    let mut keys: Vec<u16> = Vec::new();
    let mut i: usize = 0;
    while i < drop_n
        invariant
            i <= drop_n <= ranked@.len(),
            keys@ == ranked@.take(i as int),
        decreases drop_n - i,
    {
        keys.push(ranked[i]);
        i = i + 1;
        assert(keys@ =~= ranked@.take(i as int));
    }
    proof {
        assert forall|j: int| 0 <= j < keys@.len() implies table@.contains_key(
            #[trigger] keys@[j],
        ) by {
            assert(ranked@.to_set().contains(ranked@[j]));
        }
        assert forall|j: int, k: u16|
            #![trigger keys@[j], table@.contains_key(k)]
            0 <= j < keys@.len() && table@.contains_key(k) && !keys@.contains(k) implies goes_before(
            eviction,
            last_used@,
            keys@[j],
            k,
        ) by {
            assert(ranked@.to_set().contains(k));
            let m = choose|m: int| 0 <= m < ranked@.len() && ranked@[m] == k;
            if m < drop_n {
                assert(keys@[m] == k);
            }
            assert(goes_before(eviction, last_used@, ranked@[j], ranked@[m]));
        }
    }
    keys
}

/// A table as it is stored: a candidate for each bucket, when each was last used, and the latest
/// of these times.
#[verifier::ext_equal]
pub struct TableModel {
    pub table: Map<u16, SdpaDecodeCandidate>,
    pub last_used: Map<u16, u64>,
    pub max_tick: u64,
}

pub open spec fn empty_table() -> TableModel {
    TableModel { table: Map::empty(), last_used: Map::empty(), max_tick: 0 }
}

/// What a line says: a bucket, a candidate and a tick, separated by tabs. The tick is zero where
/// it is missing or no number. Empty lines, comments and lines that do not read so say nothing.
pub open spec fn row_of(line: Seq<char>) -> Option<(u16, SdpaDecodeCandidate, u64)> {
    let s = trimmed(line);
    let cols = split_on(s, '\t');
    if s.len() == 0 || s[0] == '#' || cols.len() < 2 {
        None
    } else {
        let tick = if cols.len() > 2 {
            match parsed_unsigned(cols[2], u64::MAX as nat) {
                Some(n) => n as u64,
                None => 0,
            }
        } else {
            0
        };
        match (parsed_unsigned(cols[0], u16::MAX as nat), candidate_from_tag(cols[1])) {
            (Some(bucket), Some(candidate)) => Some((bucket as u16, candidate, tick)),
            _ => None,
        }
    }
}

/// Takes a row over; a later row for the same bucket replaces an earlier one.
pub open spec fn with_row(
    t: TableModel,
    row: Option<(u16, SdpaDecodeCandidate, u64)>,
) -> TableModel {
    match row {
        Some((bucket, candidate, tick)) => TableModel {
            table: t.table.insert(bucket, candidate),
            last_used: t.last_used.insert(bucket, tick),
            max_tick: if tick > t.max_tick {
                tick
            } else {
                t.max_tick
            },
        },
        None => t,
    }
}

pub open spec fn table_of_lines(lines: Seq<Seq<char>>) -> TableModel
    decreases lines.len(),
{
    if lines.len() == 0 {
        empty_table()
    } else {
        with_row(table_of_lines(lines.drop_last()), row_of(lines.last()))
    }
}

/// The table that a text describes.
pub open spec fn table_of_text(text: Seq<char>) -> TableModel {
    table_of_lines(split_on(text, '\n'))
}

fn parse_row(line: &[char]) -> (r: Option<(u16, SdpaDecodeCandidate, u64)>)
    ensures
        r == row_of(line@),
{
    let s: Vec<char> = trim_chars(line);
    if s.len() == 0 || s[0] == '#' {
        return None;
    }
    let cols: Vec<Vec<char>> = split_chars(&s, '\t');
    if cols.len() < 2 {
        return None;
    }
    let mut tick: u64 = 0;
    if cols.len() > 2 {
        if let Some(n) = parse_unsigned(&cols[2], u64::MAX) {
            tick = n;
        }
    }
    let bucket: Option<u64> = parse_unsigned(&cols[0], 0xffff);
    let candidate: Option<SdpaDecodeCandidate> = SdpaDecodeCandidate::from_tag_chars(&cols[1]);
    match (bucket, candidate) {
        (Some(bucket), Some(candidate)) => Some((bucket as u16, candidate, tick)),
        _ => None,
    }
}

pub fn parse_sdpa_tune_table_text(text: &str) -> (r: (
    HashMap<u16, SdpaDecodeCandidate>,
    HashMap<u16, u64>,
    u64,
))
    ensures
        (TableModel { table: r.0@, last_used: r.1@, max_tick: r.2 }) == table_of_text(text@),
{
    let mut table: HashMap<u16, SdpaDecodeCandidate> = HashMap::new();
    let mut last_used: HashMap<u16, u64> = HashMap::new();
    let mut max_tick: u64 = 0;
    let chars: Vec<char> = chars_of(text);
    let lines: Vec<Vec<char>> = split_chars(&chars, '\n');
    let mut i: usize = 0;
    while i < lines.len()
        invariant
            i <= lines@.len(),
            (TableModel { table: table@, last_used: last_used@, max_tick }) == table_of_lines(
                pieces(lines@).take(i as int),
            ),
        decreases lines@.len() - i,
    {
        proof {
            let next = pieces(lines@).take(i + 1);
            assert(next.drop_last() =~= pieces(lines@).take(i as int));
            assert(next.last() == lines@[i as int]@);
        }
        if let Some((bucket, candidate, tick)) = parse_row(&lines[i]) {
            table.insert(bucket, candidate);
            last_used.insert(bucket, tick);
            if tick > max_tick {
                max_tick = tick;
            }
        }
        i = i + 1;
    }
    assert(pieces(lines@).take(i as int) =~= pieces(lines@));
    (table, last_used, max_tick)
}

/// The line of a bucket.
pub open spec fn row_text(
    table: Map<u16, SdpaDecodeCandidate>,
    last_used: Map<u16, u64>,
    bucket: u16,
) -> Seq<char> {
    decimal(bucket as nat) + "\t"@ + tag_text(table[bucket]) + "\t"@ + decimal(
        tick_of(last_used, bucket) as nat,
    )
}

/// The lines of the buckets below a limit, in ascending order.
pub open spec fn rows_below(
    table: Map<u16, SdpaDecodeCandidate>,
    last_used: Map<u16, u64>,
    limit: nat,
) -> Seq<char>
    decreases limit,
{
    if limit == 0 {
        Seq::empty()
    } else {
        let k = (limit - 1) as u16;
        let rest = rows_below(table, last_used, (limit - 1) as nat);
        if table.contains_key(k) {
            rest + row_text(table, last_used, k) + "\n"@
        } else {
            rest
        }
    }
}

/// The text of a table: a comment that names the columns, and a line for each bucket.
pub open spec fn table_text(
    table: Map<u16, SdpaDecodeCandidate>,
    last_used: Map<u16, u64>,
) -> Seq<char> {
    "# token_bucket\tcandidate\tlast_used_tick\n"@ + rows_below(table, last_used, 0x1_0000)
}

/// Limits with no bucket between them give the same lines.
proof fn lemma_rows_skip(
    table: Map<u16, SdpaDecodeCandidate>,
    last_used: Map<u16, u64>,
    from: nat,
    to: nat,
)
    requires
        from <= to <= 0x1_0000,
        forall|k: u16| from <= k < to ==> !(#[trigger] table.contains_key(k)),
    ensures
        rows_below(table, last_used, to) == rows_below(table, last_used, from),
    decreases to,
{
    if from < to {
        lemma_rows_skip(table, last_used, from, (to - 1) as nat);
        assert(!table.contains_key((to - 1) as u16));
    }
}

/// One past the bucket before the `i`th of ascending keys.
spec fn limit_before(keys: Seq<u16>, i: int) -> nat {
    if i == 0 {
        0
    } else {
        (keys[i - 1] + 1) as nat
    }
}

/// No bucket lies between two neighbours of the ascending keys, nor behind the last.
proof fn lemma_no_bucket_between(
    table: Map<u16, SdpaDecodeCandidate>,
    last_used: Map<u16, u64>,
    keys: Seq<u16>,
    i: int,
)
    requires
        in_drop_order(TuneCacheEviction::KeepHighBuckets, last_used, keys),
        keys.to_set() == table.dom(),
        0 <= i <= keys.len(),
    ensures
        i < keys.len() ==> limit_before(keys, i) <= keys[i] && rows_below(
            table,
            last_used,
            keys[i] as nat,
        ) == rows_below(table, last_used, limit_before(keys, i)),
        i == keys.len() ==> rows_below(table, last_used, 0x1_0000) == rows_below(
            table,
            last_used,
            limit_before(keys, i),
        ),
{
    let limit = limit_before(keys, i);
    let to: nat = if i < keys.len() {
        keys[i] as nat
    } else {
        0x1_0000
    };
    assert(limit <= to) by {
        if 0 < i < keys.len() {
            assert(goes_before(
                TuneCacheEviction::KeepHighBuckets,
                last_used,
                keys[i - 1],
                keys[i],
            ));
        }
    }
    assert forall|k: u16| limit <= k < to implies !(#[trigger] table.contains_key(k)) by {
        if table.contains_key(k) {
            assert(keys.to_set().contains(k));
            let m = choose|m: int| 0 <= m < keys.len() && keys[m] == k;
            if m < i - 1 {
                assert(goes_before(
                    TuneCacheEviction::KeepHighBuckets,
                    last_used,
                    keys[m],
                    keys[i - 1],
                ));
            } else if m > i {
                assert(goes_before(
                    TuneCacheEviction::KeepHighBuckets,
                    last_used,
                    keys[i],
                    keys[m],
                ));
            }
        }
    }
    lemma_rows_skip(table, last_used, limit, to);
}

fn push_row(out: &mut String, bucket: u16, candidate: SdpaDecodeCandidate, tick: u64)
    ensures
        final(out)@ == old(out)@ + (decimal(bucket as nat) + "\t"@ + tag_text(candidate) + "\t"@
            + decimal(tick as nat)) + "\n"@,
{
    let ghost start = out@;
    let tag: String = candidate.tag();
    push_decimal(out, bucket as u64);
    out.append("\t");
    out.append(tag.as_str());
    out.append("\t");
    push_decimal(out, tick);
    out.append("\n");
    assert(out@ =~= start + (decimal(bucket as nat) + "\t"@ + tag_text(candidate) + "\t"@ + decimal(
        tick as nat,
    )) + "\n"@);
}

pub fn render_sdpa_tune_table_text(
    table: &HashMap<u16, SdpaDecodeCandidate>,
    last_used: &HashMap<u16, u64>,
) -> (out: String)
    ensures
        out@ == table_text(table@, last_used@),
{
    let keys: Vec<u16> = ordered_keys(table, last_used, TuneCacheEviction::KeepHighBuckets);
    let mut out: String = "# token_bucket\tcandidate\tlast_used_tick\n".to_owned();
    let ghost header = out@;
    let mut i: usize = 0;
    assert(header + rows_below(table@, last_used@, 0) =~= header);
    while i < keys.len()
        invariant
            i <= keys@.len(),
            in_drop_order(TuneCacheEviction::KeepHighBuckets, last_used@, keys@),
            keys@.to_set() == table@.dom(),
            out@ == header + rows_below(table@, last_used@, limit_before(keys@, i as int)),
        decreases keys@.len() - i,
    {
        let bucket: u16 = keys[i];
        proof {
            assert(keys@.to_set().contains(keys@[i as int]));
            lemma_no_bucket_between(table@, last_used@, keys@, i as int);
        }
        if let Some(candidate) = table.get(&bucket) {
            push_row(&mut out, bucket, *candidate, last_tick(last_used, bucket));
        }
        i = i + 1;
        proof {
            let limit = limit_before(keys@, i as int);
            assert((limit - 1) as u16 == bucket);
            assert(out@ =~= header + rows_below(table@, last_used@, limit));
        }
    }
    proof {
        lemma_no_bucket_between(table@, last_used@, keys@, i as int);
    }
    out
}

/// When the buckets of a table were last used.
pub open spec fn ticks_of(
    table: Map<u16, SdpaDecodeCandidate>,
    last_used: Map<u16, u64>,
) -> Map<u16, u64> {
    Map::new(|k: u16| table.contains_key(k), |k: u16| tick_of(last_used, k))
}

/// The latest use of a bucket below a limit.
pub open spec fn latest_below(
    table: Map<u16, SdpaDecodeCandidate>,
    last_used: Map<u16, u64>,
    limit: nat,
) -> u64
    decreases limit,
{
    if limit == 0 {
        0
    } else {
        let k = (limit - 1) as u16;
        let rest = latest_below(table, last_used, (limit - 1) as nat);
        if table.contains_key(k) && tick_of(last_used, k) > rest {
            tick_of(last_used, k)
        } else {
            rest
        }
    }
}

/// The part of a table below a limit, as it is stored.
spec fn stored_below(
    table: Map<u16, SdpaDecodeCandidate>,
    last_used: Map<u16, u64>,
    limit: nat,
) -> TableModel {
    TableModel {
        table: table.restrict(Set::new(|k: u16| k < limit)),
        last_used: ticks_of(table, last_used).restrict(Set::new(|k: u16| k < limit)),
        max_tick: latest_below(table, last_used, limit),
    }
}

proof fn lemma_free_of_sum(a: Seq<char>, b: Seq<char>, c: char)
    requires
        free_of(a, c),
        free_of(b, c),
    ensures
        free_of(a + b, c),
{
    assert forall|i: int| 0 <= i < (a + b).len() implies #[trigger] (a + b)[i] != c by {
        if i < a.len() {
            assert((a + b)[i] == a[i]);
        } else {
            assert((a + b)[i] == b[i - a.len()]);
        }
    }
}

proof fn lemma_decimal_free_of(n: nat, c: char)
    requires
        c == '\t' || c == '\n',
    ensures
        free_of(decimal(n), c),
{
    lemma_decimal_digits(n);
}

proof fn lemma_tag_free_of(cand: SdpaDecodeCandidate, c: char)
    requires
        c == '\t' || c == '\n',
    ensures
        free_of(tag_text(cand), c),
{
    reveal_strlit("skp");
    reveal_strlit("_tg");
    reveal_strlit("_tm");
    reveal_strlit("_tn");
    reveal_strlit("_tk");
    reveal_strlit("_pq");
    reveal_strlit("_pk");
    reveal_strlit("_");
    reveal_strlit("f16kv");
    reveal_strlit("f32kv");
    reveal_strlit("partial");
    reveal_strlit("full");
    assert forall|n: u32| #[trigger] free_of(decimal(n as nat), c) by {
        lemma_decimal_free_of(n as nat, c);
    }
    lemma_free_of_sum("skp"@, decimal(cand.split_k as nat), c);
    let s1 = "skp"@ + decimal(cand.split_k as nat);
    lemma_free_of_sum(s1, "_tg"@, c);
    lemma_free_of_sum(s1 + "_tg"@, decimal(cand.tg_size as nat), c);
    let s2 = s1 + "_tg"@ + decimal(cand.tg_size as nat);
    lemma_free_of_sum(s2, "_tm"@, c);
    lemma_free_of_sum(s2 + "_tm"@, decimal(cand.tile_m as nat), c);
    let s3 = s2 + "_tm"@ + decimal(cand.tile_m as nat);
    lemma_free_of_sum(s3, "_tn"@, c);
    lemma_free_of_sum(s3 + "_tn"@, decimal(cand.tile_n as nat), c);
    let s4 = s3 + "_tn"@ + decimal(cand.tile_n as nat);
    lemma_free_of_sum(s4, "_tk"@, c);
    lemma_free_of_sum(s4 + "_tk"@, decimal(cand.tile_k as nat), c);
    let s5 = s4 + "_tk"@ + decimal(cand.tile_k as nat);
    lemma_free_of_sum(s5, "_pq"@, c);
    lemma_free_of_sum(s5 + "_pq"@, decimal(cand.pad_q as nat), c);
    let s6 = s5 + "_pq"@ + decimal(cand.pad_q as nat);
    lemma_free_of_sum(s6, "_pk"@, c);
    lemma_free_of_sum(s6 + "_pk"@, decimal(cand.pad_kv as nat), c);
    let s7 = s6 + "_pk"@ + decimal(cand.pad_kv as nat);
    assert(s7 =~= numbers_text(cand));
    let kv = kv_text(cand.use_f16_kv);
    let red = reduce_text(cand.partial_reduce);
    lemma_free_of_sum(s7, "_"@, c);
    lemma_free_of_sum(s7 + "_"@, kv, c);
    lemma_free_of_sum(s7 + "_"@ + kv, "_"@, c);
    lemma_free_of_sum(s7 + "_"@ + kv + "_"@, red, c);
}

/// A line that was written reads as the row it was written from, and holds no line break.
proof fn lemma_row_round_trip(
    table: Map<u16, SdpaDecodeCandidate>,
    last_used: Map<u16, u64>,
    bucket: u16,
)
    ensures
        row_of(row_text(table, last_used, bucket)) == Some(
            (bucket, table[bucket], tick_of(last_used, bucket)),
        ),
        free_of(row_text(table, last_used, bucket), '\n'),
{
    reveal_strlit("\t");
    let key = decimal(bucket as nat);
    let tag = tag_text(table[bucket]);
    let tick = tick_of(last_used, bucket);
    let end = decimal(tick as nat);
    let row = row_text(table, last_used, bucket);
    lemma_decimal_digits(bucket as nat);
    lemma_decimal_digits(tick as nat);
    lemma_decimal_free_of(bucket as nat, '\t');
    lemma_decimal_free_of(bucket as nat, '\n');
    lemma_decimal_free_of(tick as nat, '\t');
    lemma_decimal_free_of(tick as nat, '\n');
    lemma_tag_free_of(table[bucket], '\t');
    lemma_tag_free_of(table[bucket], '\n');
    lemma_free_of_sum(key, "\t"@, '\n');
    lemma_free_of_sum(key + "\t"@, tag, '\n');
    lemma_free_of_sum(key + "\t"@ + tag, "\t"@, '\n');
    lemma_free_of_sum(key + "\t"@ + tag + "\t"@, end, '\n');
    assert(row[0] == key[0]);
    assert(row.last() == end.last());
    lemma_trim_tight(row);
    assert(row =~= (key.push('\t') + tag).push('\t') + end);
    lemma_split_snoc(key.push('\t') + tag, '\t', end);
    lemma_split_snoc(key, '\t', tag);
    lemma_split_single(key, '\t');
    assert(split_on(row, '\t') =~= seq![key, tag, end]);
    lemma_decimal_round_trip(bucket as nat, u16::MAX as nat);
    lemma_decimal_round_trip(tick as nat, u64::MAX as nat);
    lemma_tag_round_trip(table[bucket]);
}

/// The comment that names the columns, without its line break, says nothing.
proof fn lemma_header_is_comment()
    ensures
        "# token_bucket\tcandidate\tlast_used_tick\n"@.len() > 0,
        "# token_bucket\tcandidate\tlast_used_tick\n"@.last() == '\n',
        free_of("# token_bucket\tcandidate\tlast_used_tick\n"@.drop_last(), '\n'),
        row_of("# token_bucket\tcandidate\tlast_used_tick\n"@.drop_last()) is None,
{
    reveal_strlit("# token_bucket\tcandidate\tlast_used_tick\n");
    let first = "# token_bucket\tcandidate\tlast_used_tick\n"@.drop_last();
    assert(first[0] == '#');
    assert(first.last() == 'k');
    lemma_trim_tight(first);
}

proof fn lemma_stored_step(
    table: Map<u16, SdpaDecodeCandidate>,
    last_used: Map<u16, u64>,
    limit: nat,
)
    requires
        0 < limit <= 0x1_0000,
    ensures
        ({
            let k = (limit - 1) as u16;
            stored_below(table, last_used, limit) == with_row(
                stored_below(table, last_used, (limit - 1) as nat),
                if table.contains_key(k) {
                    Some((k, table[k], tick_of(last_used, k)))
                } else {
                    None
                },
            )
        }),
{
    let k = (limit - 1) as u16;
    let less = stored_below(table, last_used, (limit - 1) as nat);
    let row = if table.contains_key(k) {
        Some((k, table[k], tick_of(last_used, k)))
    } else {
        None
    };
    assert(stored_below(table, last_used, limit).table =~= with_row(less, row).table);
    assert(stored_below(table, last_used, limit).last_used =~= with_row(less, row).last_used);
}

/// The text up to a limit ends with a line break, and its lines give the table up to there.
proof fn lemma_text_below(
    table: Map<u16, SdpaDecodeCandidate>,
    last_used: Map<u16, u64>,
    header: Seq<char>,
    limit: nat,
)
    requires
        limit <= 0x1_0000,
        header.len() > 0,
        header.last() == '\n',
        free_of(header.drop_last(), '\n'),
        row_of(header.drop_last()) is None,
    ensures
        (header + rows_below(table, last_used, limit)).last() == '\n',
        table_of_lines(
            split_on((header + rows_below(table, last_used, limit)).drop_last(), '\n'),
        ) == stored_below(table, last_used, limit),
    decreases limit,
{
    let text = header + rows_below(table, last_used, limit);
    if limit == 0 {
        assert(text =~= header);
        let first = header.drop_last();
        lemma_split_single(first, '\n');
        let lines = seq![first];
        assert(lines.drop_last() =~= Seq::<Seq<char>>::empty());
        assert(lines.last() == first);
        assert(table_of_lines(lines.drop_last()) == empty_table());
        assert(table_of_lines(lines) == with_row(empty_table(), None));
        assert(stored_below(table, last_used, 0) =~= empty_table());
    } else {
        let k = (limit - 1) as u16;
        let less = (limit - 1) as nat;
        lemma_text_below(table, last_used, header, less);
        lemma_stored_step(table, last_used, limit);
        let before = header + rows_below(table, last_used, less);
        if table.contains_key(k) {
            reveal_strlit("\n");
            let row = row_text(table, last_used, k);
            lemma_row_round_trip(table, last_used, k);
            assert(text =~= before + row + "\n"@);
            let head = before.drop_last();
            assert(text.drop_last() =~= head.push('\n') + row);
            lemma_split_snoc(head, '\n', row);
            let lines = split_on(head, '\n').push(row);
            assert(lines.drop_last() =~= split_on(head, '\n'));
        } else {
            assert(text == before);
        }
    }
}

/// Reading the text of a table gives the table back, with the time of each bucket's last use
/// (zero where none was known) and the latest of these.
pub proof fn lemma_table_round_trip(
    table: Map<u16, SdpaDecodeCandidate>,
    last_used: Map<u16, u64>,
)
    ensures
        table_of_text(table_text(table, last_used)) == (TableModel {
            table,
            last_used: ticks_of(table, last_used),
            max_tick: latest_below(table, last_used, 0x1_0000),
        }),
        last_used.dom() == table.dom() ==> ticks_of(table, last_used) == last_used,
{
    lemma_header_is_comment();
    let header = "# token_bucket\tcandidate\tlast_used_tick\n"@;
    lemma_text_below(table, last_used, header, 0x1_0000);
    let text = table_text(table, last_used);
    let body = text.drop_last();
    assert(text =~= body.push('\n') + Seq::<char>::empty());
    lemma_split_snoc(body, '\n', Seq::<char>::empty());
    let lines = split_on(text, '\n');
    assert(lines.drop_last() =~= split_on(body, '\n'));
    assert(trimmed(Seq::<char>::empty()) =~= Seq::<char>::empty());
    assert(row_of(lines.last()) is None);
    let all = Set::new(|k: u16| k < 0x1_0000nat);
    assert(table.restrict(all) =~= table);
    assert(ticks_of(table, last_used).restrict(all) =~= ticks_of(table, last_used));
    if last_used.dom() == table.dom() {
        assert(ticks_of(table, last_used) =~= last_used);
    }
}

/// The latest use is no earlier than that of any bucket.
pub proof fn lemma_latest_is_upper_bound(
    table: Map<u16, SdpaDecodeCandidate>,
    last_used: Map<u16, u64>,
    limit: nat,
    bucket: u16,
)
    requires
        limit <= 0x1_0000,
        bucket < limit,
        table.contains_key(bucket),
    ensures
        tick_of(last_used, bucket) <= latest_below(table, last_used, limit),
    decreases limit,
{
    if bucket < limit - 1 {
        lemma_latest_is_upper_bound(table, last_used, (limit - 1) as nat, bucket);
    }
}

/// A table without some of its keys.
pub open spec fn without<V>(m: Map<u16, V>, keys: Seq<u16>) -> Map<u16, V> {
    m.remove_keys(keys.to_set())
}

fn remove_all(
    table: &mut HashMap<u16, SdpaDecodeCandidate>,
    last_used: &mut HashMap<u16, u64>,
    keys: &[u16],
)
    ensures
        final(table)@ == without(old(table)@, keys@),
        final(last_used)@ == without(old(last_used)@, keys@),
{
    let ghost table0 = table@;
    let ghost used0 = last_used@;
    let mut i: usize = 0;
    assert(without(table0, keys@.take(0)) =~= table0);
    assert(without(used0, keys@.take(0)) =~= used0);
    while i < keys.len()
        invariant
            i <= keys@.len(),
            table@ == without(table0, keys@.take(i as int)),
            last_used@ == without(used0, keys@.take(i as int)),
        decreases keys@.len() - i,
    {
        table.remove(&keys[i]);
        last_used.remove(&keys[i]);
        proof {
            let done = keys@.take(i as int);
            let next = keys@.take(i + 1);
            let k = keys@[i as int];
            assert(next =~= done.push(k));
            assert forall|x: u16| next.to_set().contains(x) == (done.to_set().contains(x) || x
                == k) by {
                if done.contains(x) {
                    let j = choose|j: int| 0 <= j < done.len() && done[j] == x;
                    assert(next[j] == x);
                }
                assert(next[done.len() as int] == k);
            }
            assert(without(table0, next) =~= without(table0, done).remove(k));
            assert(without(used0, next) =~= without(used0, done).remove(k));
        }
        i = i + 1;
    }
    assert(keys@.take(i as int) =~= keys@);
}

/// Removing the keys that have to go leaves as many entries as the limit allows, and the ones
/// that stay keep their candidates.
pub proof fn lemma_trimmed_table_fits(
    table: Map<u16, SdpaDecodeCandidate>,
    last_used: Map<u16, u64>,
    max_entries: usize,
    eviction: TuneCacheEviction,
    keys: Seq<u16>,
)
    requires
        table.dom().finite(),
        dropped(table, last_used, max_entries, eviction, keys),
    ensures
        table.len() > max_entries ==> without(table, keys).len() == max_entries,
        table.len() <= max_entries ==> without(table, keys) == table,
        without(table, keys).submap_of(table),
{
    if table.len() <= max_entries {
        assert(without(table, keys) =~= table);
    } else {
        assert forall|i: int, j: int| 0 <= i < j < keys.len() implies keys[i] != keys[j] by {
            assert(goes_before(eviction, last_used, keys[i], keys[j]));
        }
        assert(keys.no_duplicates());
        keys.unique_seq_to_set();
        assert(keys.to_set().subset_of(table.dom()));
        assert(without(table, keys).dom() =~= table.dom().difference(keys.to_set()));
        vstd::set_lib::lemma_len_difference(table.dom(), keys.to_set());
        vstd::set_lib::lemma_set_disjoint_lens(
            table.dom().difference(keys.to_set()),
            keys.to_set(),
        );
        assert(table.dom().difference(keys.to_set()) + keys.to_set() =~= table.dom());
    }
}

/// The order and the number of the keys that have to go are fixed by the table, the times and the
/// rule.
pub proof fn lemma_drop_is_determined(
    table: Map<u16, SdpaDecodeCandidate>,
    last_used: Map<u16, u64>,
    max_entries: usize,
    eviction: TuneCacheEviction,
    keys: Seq<u16>,
    others: Seq<u16>,
)
    requires
        dropped(table, last_used, max_entries, eviction, keys),
        dropped(table, last_used, max_entries, eviction, others),
    ensures
        keys == others,
{
    lemma_same_prefix(table, last_used, max_entries, eviction, keys, others, keys.len() as int);
    assert(keys =~= others);
}

proof fn lemma_same_prefix(
    table: Map<u16, SdpaDecodeCandidate>,
    last_used: Map<u16, u64>,
    max_entries: usize,
    eviction: TuneCacheEviction,
    keys: Seq<u16>,
    others: Seq<u16>,
    n: int,
)
    requires
        dropped(table, last_used, max_entries, eviction, keys),
        dropped(table, last_used, max_entries, eviction, others),
        0 <= n <= keys.len(),
    ensures
        forall|i: int| 0 <= i < n ==> keys[i] == others[i],
    decreases n,
{
    if n > 0 {
        lemma_same_prefix(table, last_used, max_entries, eviction, keys, others, n - 1);
        let a = keys[n - 1];
        let b = others[n - 1];
        if goes_before(eviction, last_used, a, b) {
            lemma_not_later(table, last_used, max_entries, eviction, keys, others, n - 1);
        } else if goes_before(eviction, last_used, b, a) {
            lemma_not_later(table, last_used, max_entries, eviction, others, keys, n - 1);
        }
        assert(a == b);
    }
}

proof fn lemma_not_later(
    table: Map<u16, SdpaDecodeCandidate>,
    last_used: Map<u16, u64>,
    max_entries: usize,
    eviction: TuneCacheEviction,
    keys: Seq<u16>,
    others: Seq<u16>,
    i: int,
)
    requires
        dropped(table, last_used, max_entries, eviction, keys),
        dropped(table, last_used, max_entries, eviction, others),
        0 <= i < keys.len(),
        forall|j: int| 0 <= j < i ==> keys[j] == others[j],
    ensures
        !goes_before(eviction, last_used, keys[i], others[i]),
{
    if goes_before(eviction, last_used, keys[i], others[i]) {
        assert(table.contains_key(keys[i]));
        if !others.contains(keys[i]) {
            assert(goes_before(eviction, last_used, others[i], keys[i]));
        } else {
            let m = choose|m: int| 0 <= m < others.len() && others[m] == keys[i];
            if m < i {
                assert(goes_before(eviction, last_used, keys[m], keys[i]));
            } else if m > i {
                assert(goes_before(eviction, last_used, others[i], others[m]));
            }
        }
    }
}

/// The bucket used last of all outlives every other under the least-recently-used rule.
pub proof fn lemma_lru_keeps_the_newest(
    table: Map<u16, SdpaDecodeCandidate>,
    last_used: Map<u16, u64>,
    max_entries: usize,
    keys: Seq<u16>,
    newest: u16,
)
    requires
        max_entries >= 1,
        table.dom().finite(),
        table.contains_key(newest),
        forall|k: u16| #[trigger]
            table.contains_key(k) && k != newest ==> tick_of(last_used, k) < tick_of(
                last_used,
                newest,
            ),
        dropped(table, last_used, max_entries, TuneCacheEviction::Lru, keys),
    ensures
        !keys.contains(newest),
{
    if keys.contains(newest) {
        let i = choose|i: int| 0 <= i < keys.len() && keys[i] == newest;
        assert forall|k: u16| #[trigger] table.contains_key(k) implies keys.contains(k) by {
            if !keys.contains(k) {
                assert(goes_before(TuneCacheEviction::Lru, last_used, keys[i], k));
            }
        }
        assert forall|x: int, y: int| 0 <= x < y < keys.len() implies keys[x] != keys[y] by {
            assert(goes_before(TuneCacheEviction::Lru, last_used, keys[x], keys[y]));
        }
        keys.unique_seq_to_set();
        assert(keys.to_set() =~= table.dom());
    }
}

/// What a stored text leaves in the table once it is cut to the limit. A file that could not be
/// read leaves nothing.
pub open spec fn loads(
    text: Option<&str>,
    max_entries: usize,
    eviction: TuneCacheEviction,
    r: TableModel,
) -> bool {
    match text {
        None => r == empty_table(),
        Some(s) => {
            let stored = table_of_text(s@);
            exists|keys: Seq<u16>|
                #[trigger] dropped(
                    stored.table,
                    stored.last_used,
                    at_least_one(max_entries),
                    eviction,
                    keys,
                ) && r == (TableModel {
                    table: without(stored.table, keys),
                    last_used: without(stored.last_used, keys),
                    max_tick: stored.max_tick,
                })
        },
    }
}

/// Reads a stored table and cuts it to the limit. `text` is what its file holds, where it could
/// be read.
pub fn load_sdpa_tune_table_file(
    text: Option<&str>,
    max_entries: usize,
    eviction: TuneCacheEviction,
) -> (r: (HashMap<u16, SdpaDecodeCandidate>, HashMap<u16, u64>, u64))
    ensures
        loads(
            text,
            max_entries,
            eviction,
            (TableModel { table: r.0@, last_used: r.1@, max_tick: r.2 }),
        ),
{
    match text {
        None => (HashMap::new(), HashMap::new(), 0),
        Some(s) => {
            let (table, last_used, max_tick) = parse_sdpa_tune_table_text(s);
            let mut table: HashMap<u16, SdpaDecodeCandidate> = table;
            let mut last_used: HashMap<u16, u64> = last_used;
            let keys: Vec<u16> = sdpa_tune_drop_keys(
                &table,
                &last_used,
                one_or_more(max_entries),
                eviction,
            );
            let ghost stored = table_of_text(s@);
            assert(stored.table == table@ && stored.last_used == last_used@);
            assert(dropped(
                stored.table,
                stored.last_used,
                at_least_one(max_entries),
                eviction,
                keys@,
            ));
            remove_all(&mut table, &mut last_used, &keys);
            (table, last_used, max_tick)
        },
    }
}

/// Loading is on where both the options and the plan allow it.
pub open spec fn load_enabled(cfg: &MetalRuntimeConfig, policy: &TunePolicy) -> bool {
    cfg.sdpa_tune_cache_load && policy.cache_load
}

pub fn sdpa_tune_cache_load_enabled(cfg: &MetalRuntimeConfig, policy: &TunePolicy) -> (r: bool)
    ensures
        r == load_enabled(cfg, policy),
{
    cfg.sdpa_tune_cache_load && policy.cache_load
}

pub open spec fn persist_enabled(cfg: &MetalRuntimeConfig, policy: &TunePolicy) -> bool {
    cfg.sdpa_tune_cache_persist && policy.persist_cache
}

pub fn sdpa_tune_cache_persist_enabled(cfg: &MetalRuntimeConfig, policy: &TunePolicy) -> (r: bool)
    ensures
        r == persist_enabled(cfg, policy),
{
    cfg.sdpa_tune_cache_persist && policy.persist_cache
}

/// The smaller of the two limits, each counted as at least one.
pub open spec fn entry_limit(cfg: &MetalRuntimeConfig, policy: &TunePolicy) -> usize {
    let a = at_least_one(cfg.sdpa_tune_cache_max_entries);
    let b = at_least_one(policy.cache_max_entries);
    if a <= b {
        a
    } else {
        b
    }
}

pub fn sdpa_tune_cache_max_entries(cfg: &MetalRuntimeConfig, policy: &TunePolicy) -> (r: usize)
    ensures
        r == entry_limit(cfg, policy),
{
    let a: usize = one_or_more(cfg.sdpa_tune_cache_max_entries);
    let b: usize = one_or_more(policy.cache_max_entries);
    if a <= b {
        a
    } else {
        b
    }
}

/// The winners of one executable, with a clock that counts accesses.
#[derive(Debug)]
pub struct SdpaTuneCache {
    pub winners: HashMap<u16, SdpaDecodeCandidate>,
    pub last_used: HashMap<u16, u64>,
    pub tick: u64,
    /// Whether the stored table has been asked for, be it found or not.
    pub loaded: bool,
}

impl SdpaTuneCache {
    pub open spec fn model(&self) -> TableModel {
        TableModel { table: self.winners@, last_used: self.last_used@, max_tick: self.tick }
    }

    pub fn new() -> (r: Self)
        ensures
            r.model() == empty_table(),
            !r.loaded,
    {
        SdpaTuneCache {
            winners: HashMap::new(),
            last_used: HashMap::new(),
            tick: 0,
            loaded: false,
        }
    }
}

/// The clock one access later.
pub open spec fn next_tick(tick: u64) -> u64 {
    if tick == u64::MAX {
        tick
    } else {
        (tick + 1) as u64
    }
}

/// A table after an access to a bucket.
pub open spec fn accessed(t: TableModel, bucket: u16) -> TableModel {
    TableModel {
        last_used: t.last_used.insert(bucket, next_tick(t.max_tick)),
        max_tick: next_tick(t.max_tick),
        ..t
    }
}

/// What a load leaves: the table that the file holds, where loading is on; otherwise everything
/// as it was.
pub open spec fn after_load(
    t: TableModel,
    cfg: &MetalRuntimeConfig,
    policy: &TunePolicy,
    text: Option<&str>,
    r: TableModel,
) -> bool {
    if load_enabled(cfg, policy) {
        loads(text, entry_limit(cfg, policy), cfg.sdpa_tune_cache_eviction, r)
    } else {
        r == t
    }
}

/// A table cut to its limit.
pub open spec fn after_trim(
    t: TableModel,
    cfg: &MetalRuntimeConfig,
    policy: &TunePolicy,
    r: TableModel,
) -> bool {
    exists|keys: Seq<u16>|
        #[trigger] dropped(
            t.table,
            t.last_used,
            entry_limit(cfg, policy),
            cfg.sdpa_tune_cache_eviction,
            keys,
        ) && r == (TableModel {
            table: without(t.table, keys),
            last_used: without(t.last_used, keys),
            ..t
        })
}

impl SdpaTuneCache {
    pub fn next_sdpa_tune_tick(&mut self) -> (r: u64)
        ensures
            r == next_tick(old(self).tick),
            final(self).model() == (TableModel { max_tick: r, ..old(self).model() }),
            final(self).loaded == old(self).loaded,
    {
        let next: u64 = if self.tick == u64::MAX {
            self.tick
        } else {
            self.tick + 1
        };
        self.tick = next;
        next
    }

    pub fn mark_sdpa_tune_used(&mut self, token_bucket: u16)
        ensures
            final(self).model() == accessed(old(self).model(), token_bucket),
            final(self).loaded == old(self).loaded,
    {
        let tick: u64 = self.next_sdpa_tune_tick();
        self.last_used.insert(token_bucket, tick);
    }

    pub fn trim_sdpa_tune_table(&mut self, cfg: &MetalRuntimeConfig, policy: &TunePolicy)
        ensures
            after_trim(old(self).model(), cfg, policy, final(self).model()),
            final(self).loaded == old(self).loaded,
    {
        let max_entries: usize = sdpa_tune_cache_max_entries(cfg, policy);
        let to_drop: Vec<u16> = sdpa_tune_drop_keys(
            &self.winners,
            &self.last_used,
            max_entries,
            cfg.sdpa_tune_cache_eviction,
        );
        let ghost before = self.model();
        assert(dropped(
            before.table,
            before.last_used,
            entry_limit(cfg, policy),
            cfg.sdpa_tune_cache_eviction,
            to_drop@,
        ));
        remove_all(&mut self.winners, &mut self.last_used, &to_drop);
    }

    /// Takes the stored table over. `text` is what its file holds, where it could be read; it is
    /// used only where loading is on.
    pub fn load_sdpa_tune_table(
        &mut self,
        cfg: &MetalRuntimeConfig,
        policy: &TunePolicy,
        text: Option<&str>,
    )
        ensures
            after_load(old(self).model(), cfg, policy, text, final(self).model()),
            final(self).loaded,
    {
        self.loaded = true;
        if !sdpa_tune_cache_load_enabled(cfg, policy) {
            return ;
        }
        let (table, last_used, max_tick) = load_sdpa_tune_table_file(
            text,
            sdpa_tune_cache_max_entries(cfg, policy),
            cfg.sdpa_tune_cache_eviction,
        );
        self.winners = table;
        self.last_used = last_used;
        self.tick = max_tick;
    }

    /// The text to store, where storing is on.
    pub fn persist_sdpa_tune_table(&self, cfg: &MetalRuntimeConfig, policy: &TunePolicy) -> (r:
        Option<String>)
        ensures
            r is Some <==> persist_enabled(cfg, policy),
            r matches Some(s) ==> s@ == table_text(self.winners@, self.last_used@),
    {
        if !sdpa_tune_cache_persist_enabled(cfg, policy) {
            return None;
        }
        Some(render_sdpa_tune_table_text(&self.winners, &self.last_used))
    }

    /// The winner for a bucket, which counts as an access. Where loading is on, the stored table
    /// is taken over first, unless it has been before.
    pub fn sdpa_tuned_candidate(
        &mut self,
        cfg: &MetalRuntimeConfig,
        policy: &TunePolicy,
        text: Option<&str>,
        token_bucket: u16,
    ) -> (r: Option<SdpaDecodeCandidate>)
        ensures
            !load_enabled(cfg, policy) ==> r is None && *final(self) == *old(self),
            load_enabled(cfg, policy) ==> final(self).loaded && exists|t: TableModel|
                #[trigger] tuned(t, token_bucket, r, final(self).model()) && if old(self).loaded {
                    t == old(self).model()
                } else {
                    after_load(old(self).model(), cfg, policy, text, t)
                },
    {
        if !sdpa_tune_cache_load_enabled(cfg, policy) {
            return None;
        }
        if !self.loaded {
            self.load_sdpa_tune_table(cfg, policy, text);
        }
        let ghost before = self.model();
        let candidate: Option<SdpaDecodeCandidate> = match self.winners.get(&token_bucket) {
            Some(c) => Some(*c),
            None => None,
        };
        if candidate.is_some() {
            self.mark_sdpa_tune_used(token_bucket);
        }
        assert(tuned(before, token_bucket, candidate, self.model()));
        candidate
    }

    /// Takes a winner over, which counts as an access, and cuts the table to its limit. Gives
    /// the text to store, where the winner is new and storing is on.
    pub fn sdpa_record_candidate(
        &mut self,
        cfg: &MetalRuntimeConfig,
        policy: &TunePolicy,
        text: Option<&str>,
        token_bucket: u16,
        candidate: SdpaDecodeCandidate,
    ) -> (r: Option<String>)
        ensures
            final(self).loaded,
            exists|t: TableModel|
                #[trigger] recorded(t, cfg, policy, token_bucket, candidate, final(self).model())
                    && (r is Some <==> persist_enabled(cfg, policy) && !holds(
                    t,
                    token_bucket,
                    candidate,
                )) && if old(self).loaded {
                    t == old(self).model()
                } else {
                    after_load(old(self).model(), cfg, policy, text, t)
                },
            r matches Some(s) ==> s@ == table_text(final(self).winners@, final(self).last_used@),
    {
        if !self.loaded {
            self.load_sdpa_tune_table(cfg, policy, text);
        }
        let ghost before = self.model();
        let changed: bool = match self.winners.get(&token_bucket) {
            Some(c) => *c != candidate,
            None => true,
        };
        if changed {
            self.winners.insert(token_bucket, candidate);
            self.mark_sdpa_tune_used(token_bucket);
            self.trim_sdpa_tune_table(cfg, policy);
            assert(recorded(before, cfg, policy, token_bucket, candidate, self.model()));
            if sdpa_tune_cache_persist_enabled(cfg, policy) {
                return self.persist_sdpa_tune_table(cfg, policy);
            }
        } else {
            self.mark_sdpa_tune_used(token_bucket);
            assert(recorded(before, cfg, policy, token_bucket, candidate, self.model()));
        }
        None
    }
}

/// The outcome of a look-up: the candidate of the bucket, if it has one, and an access.
pub open spec fn tuned(
    t: TableModel,
    bucket: u16,
    r: Option<SdpaDecodeCandidate>,
    after: TableModel,
) -> bool {
    if t.table.contains_key(bucket) {
        r == Some(t.table[bucket]) && after == accessed(t, bucket)
    } else {
        r is None && after == t
    }
}

/// The table gives this candidate for the bucket.
pub open spec fn holds(t: TableModel, bucket: u16, candidate: SdpaDecodeCandidate) -> bool {
    t.table.contains_key(bucket) && t.table[bucket] == candidate
}

/// The outcome of recording a winner.
pub open spec fn recorded(
    t: TableModel,
    cfg: &MetalRuntimeConfig,
    policy: &TunePolicy,
    bucket: u16,
    candidate: SdpaDecodeCandidate,
    after: TableModel,
) -> bool {
    if holds(t, bucket, candidate) {
        after == accessed(t, bucket)
    } else {
        after_trim(
            accessed(TableModel { table: t.table.insert(bucket, candidate), ..t }, bucket),
            cfg,
            policy,
            after,
        )
    }
}

} // verus!
