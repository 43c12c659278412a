//! Gathers, slices, joins and transpositions.

use vstd::prelude::*;

use crate::command::{
    array_steps, ceil_div, div_up, emit, emit_array, least, low32, low_word, max_u64, min_u64, most,
    one_row, plane, plane_of, row, sat_mul, saturating_product, Buf, Cmd, Group, HalfFlag, Kernel,
    Size,
};
use crate::encode::broadcast::{size_in_32_bits, size_of};
use crate::encode::elementwise::in_fours;

verus! {

/// The most segments that one kernel splits or joins.
pub const NARROW_BATCH_MAX: usize = 64;

/// The steps of `encode_gather`.
pub open spec fn gather_steps(
    table_buf: Buf,
    table: usize,
    idx_buf: Buf,
    idx: usize,
    dst_buf: Buf,
    dst: usize,
    num_idx: u32,
    trailing: u32,
    dt: HalfFlag,
) -> Seq<Cmd> {
    seq![
        Cmd::Pipeline(
            if dt == HalfFlag::F32 { Kernel::GatherAxis0 } else { Kernel::GatherAxis0H },
        ),
        Cmd::Buffer(0, table_buf, table as u64),
        Cmd::Buffer(1, idx_buf, idx as u64),
        Cmd::Buffer(2, dst_buf, dst as u64),
        Cmd::U32(3, num_idx),
        Cmd::U32(4, trailing),
        Cmd::Threads(
            plane(trailing as u64, num_idx as u64),
            Group::Fixed(plane(min_u64(16, trailing as u64), min_u64(16, num_idx as u64))),
        ),
    ]
}

/// Rows of a table by index.
pub fn encode_gather(
    enc: &mut Vec<Cmd>,
    table_buf: Buf,
    table: usize,
    idx_buf: Buf,
    idx: usize,
    dst_buf: Buf,
    dst: usize,
    num_idx: u32,
    trailing: u32,
    dt: HalfFlag,
)
    ensures
        final(enc)@ == old(enc)@ + gather_steps(
            table_buf,
            table,
            idx_buf,
            idx,
            dst_buf,
            dst,
            num_idx,
            trailing,
            dt,
        ),
{
    emit(
        enc,
        vec![
            Cmd::Pipeline(
                if dt == HalfFlag::F32 { Kernel::GatherAxis0 } else { Kernel::GatherAxis0H },
            ),
            Cmd::Buffer(0, table_buf, table as u64),
            Cmd::Buffer(1, idx_buf, idx as u64),
            Cmd::Buffer(2, dst_buf, dst as u64),
            Cmd::U32(3, num_idx),
            Cmd::U32(4, trailing),
            Cmd::Threads(
                plane_of(trailing as u64, num_idx as u64),
                Group::Fixed(plane_of(least(16, trailing as u64), least(16, num_idx as u64))),
            ),
        ],
    );
}

/// The steps of `encode_gather_axis`.
pub open spec fn gather_axis_steps(
    table: usize,
    idx: usize,
    dst: usize,
    outer: u32,
    axis_dim: u32,
    num_idx: u32,
    trailing: u32,
) -> Seq<Cmd> {
    seq![
        Cmd::Pipeline(Kernel::GatherAxis),
        Cmd::Buffer(0, Buf::Arena, table as u64),
        Cmd::Buffer(1, Buf::Arena, idx as u64),
        Cmd::Buffer(2, Buf::Arena, dst as u64),
        Cmd::U32(3, outer),
        Cmd::U32(4, axis_dim),
        Cmd::U32(5, num_idx),
        Cmd::U32(6, trailing),
        Cmd::Threads(
            Size { width: trailing as u64, height: num_idx as u64, depth: outer as u64 },
            Group::Fixed(
                plane(
                    max_u64(min_u64(32, trailing as u64), 1),
                    min_u64(
                        max_u64(32u64 / max_u64(min_u64(32, trailing as u64), 1), 1),
                        num_idx as u64,
                    ),
                ),
            ),
        ),
    ]
}

/// Slices along a middle axis by index. A threadgroup holds 32 threads, along the trailing axis
/// first.
pub fn encode_gather_axis(
    enc: &mut Vec<Cmd>,
    table: usize,
    idx: usize,
    dst: usize,
    outer: u32,
    axis_dim: u32,
    num_idx: u32,
    trailing: u32,
)
    requires
        num_idx >= 1,
    ensures
        final(enc)@ == old(enc)@ + gather_axis_steps(
            table,
            idx,
            dst,
            outer,
            axis_dim,
            num_idx,
            trailing,
        ),
{
    emit(
        enc,
        vec![
            Cmd::Pipeline(Kernel::GatherAxis),
            Cmd::Buffer(0, Buf::Arena, table as u64),
            Cmd::Buffer(1, Buf::Arena, idx as u64),
            Cmd::Buffer(2, Buf::Arena, dst as u64),
            Cmd::U32(3, outer),
            Cmd::U32(4, axis_dim),
            Cmd::U32(5, num_idx),
            Cmd::U32(6, trailing),
            Cmd::Threads(
                Size { width: trailing as u64, height: num_idx as u64, depth: outer as u64 },
                Group::Fixed(
                    plane_of(
                        most(least(32, trailing as u64), 1),
                        least(most(32u64 / most(least(32, trailing as u64), 1), 1), num_idx as u64),
                    ),
                ),
            ),
        ],
    );
}

/// The steps of `encode_transpose_swap12_batched_trailing`.
pub open spec fn transpose_swap12_batched_trailing_steps(
    src: usize,
    dst: usize,
    batch: u32,
    rows: u32,
    cols: u32,
    trail: u32,
) -> Seq<Cmd> {
    seq![
        Cmd::Buffer(0, Buf::Arena, src as u64),
        Cmd::Buffer(1, Buf::Arena, dst as u64),
        Cmd::U32(2, batch),
        Cmd::U32(3, rows),
        Cmd::U32(4, cols),
        Cmd::U32(5, trail),
    ] + (if rows >= 32 && cols >= 32 {
        seq![
            Cmd::Pipeline(Kernel::TransposeSwap12BatchedTrailTiledF32),
            Cmd::Groups(
                Size {
                    width: div_up(rows as u64, 32),
                    height: div_up(cols as u64, 32),
                    depth: (batch * trail) as u64,
                },
                plane(32, 8),
            ),
        ]
    } else {
        seq![
            Cmd::Pipeline(Kernel::TransposeSwap12BatchedTrailF32),
            Cmd::Threads(
                Size { width: rows as u64, height: cols as u64, depth: (batch * trail) as u64 },
                Group::Fixed(plane(min_u64(16, rows as u64), min_u64(16, cols as u64))),
            ),
        ]
    })
}

/// Swaps the two middle axes of four, in 32 by 32 tiles where both are long enough.
pub fn encode_transpose_swap12_batched_trailing(
    enc: &mut Vec<Cmd>,
    src: usize,
    dst: usize,
    batch: u32,
    rows: u32,
    cols: u32,
    trail: u32,
)
    ensures
        final(enc)@ == old(enc)@ + transpose_swap12_batched_trailing_steps(
            src,
            dst,
            batch,
            rows,
            cols,
            trail,
        ),
{
    assert(batch * trail <= 0xffff_ffff * 0xffff_ffff) by (nonlinear_arith);
    emit(
        enc,
        vec![
            Cmd::Buffer(0, Buf::Arena, src as u64),
            Cmd::Buffer(1, Buf::Arena, dst as u64),
            Cmd::U32(2, batch),
            Cmd::U32(3, rows),
            Cmd::U32(4, cols),
            Cmd::U32(5, trail),
        ],
    );
    if rows >= 32 && cols >= 32 {
        emit(
            enc,
            vec![
                Cmd::Pipeline(Kernel::TransposeSwap12BatchedTrailTiledF32),
                Cmd::Groups(
                    Size {
                        width: ceil_div(rows as u64, 32),
                        height: ceil_div(cols as u64, 32),
                        depth: (batch as u64) * (trail as u64),
                    },
                    plane_of(32, 8),
                ),
            ],
        );
    } else {
        emit(
            enc,
            vec![
                Cmd::Pipeline(Kernel::TransposeSwap12BatchedTrailF32),
                Cmd::Threads(
                    Size {
                        width: rows as u64,
                        height: cols as u64,
                        depth: (batch as u64) * (trail as u64),
                    },
                    Group::Fixed(plane_of(least(16, rows as u64), least(16, cols as u64))),
                ),
            ],
        );
    }
}

/// The steps of `encode_transpose_2d`.
pub open spec fn transpose_2d_steps(src: usize, dst: usize, rows: u32, cols: u32) -> Seq<Cmd> {
    seq![
        Cmd::Pipeline(
            if rows >= 32 && cols >= 32 {
                Kernel::Transpose2dTiledF32
            } else {
                Kernel::Transpose2dF32
            },
        ),
        Cmd::Buffer(0, Buf::Arena, src as u64),
        Cmd::Buffer(1, Buf::Arena, dst as u64),
        Cmd::U32(2, rows),
        Cmd::U32(3, cols),
    ] + (if rows >= 32 && cols >= 32 {
        seq![
            Cmd::Groups(plane(div_up(rows as u64, 32), div_up(cols as u64, 32)), plane(32, 8)),
        ]
    } else {
        seq![
            Cmd::Threads(
                plane(rows as u64, cols as u64),
                Group::ExecTile(Kernel::Transpose2dF32, cols as u64, rows as u64),
            ),
        ]
    })
}

/// Transposes a matrix, in 32 by 32 tiles where both sides are long enough.
pub fn encode_transpose_2d(enc: &mut Vec<Cmd>, src: usize, dst: usize, rows: u32, cols: u32)
    ensures
        final(enc)@ == old(enc)@ + transpose_2d_steps(src, dst, rows, cols),
{
    emit(
        enc,
        vec![
            Cmd::Pipeline(
                if rows >= 32 && cols >= 32 {
                    Kernel::Transpose2dTiledF32
                } else {
                    Kernel::Transpose2dF32
                },
            ),
            Cmd::Buffer(0, Buf::Arena, src as u64),
            Cmd::Buffer(1, Buf::Arena, dst as u64),
            Cmd::U32(2, rows),
            Cmd::U32(3, cols),
        ],
    );
    if rows >= 32 && cols >= 32 {
        emit(
            enc,
            vec![
                Cmd::Groups(
                    plane_of(ceil_div(rows as u64, 32), ceil_div(cols as u64, 32)),
                    plane_of(32, 8),
                ),
            ],
        );
    } else {
        emit(
            enc,
            vec![
                Cmd::Threads(
                    plane_of(rows as u64, cols as u64),
                    Group::ExecTile(Kernel::Transpose2dF32, cols as u64, rows as u64),
                ),
            ],
        );
    }
}

/// The steps of `encode_transpose_last2_batched`.
pub open spec fn transpose_last2_batched_steps(
    src: usize,
    dst: usize,
    batch: u32,
    rows: u32,
    cols: u32,
) -> Seq<Cmd> {
    seq![
        Cmd::Pipeline(
            if rows >= 32 && cols >= 32 {
                Kernel::TransposeLast2BatchedTiledF32
            } else {
                Kernel::TransposeLast2BatchedF32
            },
        ),
        Cmd::Buffer(0, Buf::Arena, src as u64),
        Cmd::Buffer(1, Buf::Arena, dst as u64),
        Cmd::U32(2, batch),
        Cmd::U32(3, rows),
        Cmd::U32(4, cols),
    ] + (if rows >= 32 && cols >= 32 {
        seq![
            Cmd::Groups(
                Size {
                    width: div_up(rows as u64, 32),
                    height: div_up(cols as u64, 32),
                    depth: batch as u64,
                },
                plane(32, 8),
            ),
        ]
    } else {
        seq![
            Cmd::Threads(
                Size { width: rows as u64, height: cols as u64, depth: batch as u64 },
                Group::ExecTile(Kernel::TransposeLast2BatchedF32, rows as u64, cols as u64),
            ),
        ]
    })
}

/// Transposes every matrix of a batch.
pub fn encode_transpose_last2_batched(
    enc: &mut Vec<Cmd>,
    src: usize,
    dst: usize,
    batch: u32,
    rows: u32,
    cols: u32,
)
    ensures
        final(enc)@ == old(enc)@ + transpose_last2_batched_steps(src, dst, batch, rows, cols),
{
    emit(
        enc,
        vec![
            Cmd::Pipeline(
                if rows >= 32 && cols >= 32 {
                    Kernel::TransposeLast2BatchedTiledF32
                } else {
                    Kernel::TransposeLast2BatchedF32
                },
            ),
            Cmd::Buffer(0, Buf::Arena, src as u64),
            Cmd::Buffer(1, Buf::Arena, dst as u64),
            Cmd::U32(2, batch),
            Cmd::U32(3, rows),
            Cmd::U32(4, cols),
        ],
    );
    if rows >= 32 && cols >= 32 {
        emit(
            enc,
            vec![
                Cmd::Groups(
                    Size {
                        width: ceil_div(rows as u64, 32),
                        height: ceil_div(cols as u64, 32),
                        depth: batch as u64,
                    },
                    plane_of(32, 8),
                ),
            ],
        );
    } else {
        emit(
            enc,
            vec![
                Cmd::Threads(
                    Size { width: rows as u64, height: cols as u64, depth: batch as u64 },
                    Group::ExecTile(Kernel::TransposeLast2BatchedF32, rows as u64, cols as u64),
                ),
            ],
        );
    }
}

/// One slice along the last axis: groups of four where everything divides.
pub open spec fn narrow_steps(
    src: usize,
    dst: usize,
    outer: u32,
    src_axis: u32,
    start: u32,
    len: u32,
    dt: HalfFlag,
) -> Seq<Cmd> {
    let fours = dt == HalfFlag::F32 && start % 4 == 0 && src_axis % 4 == 0 && in_fours(len);
    let unit = if fours {
        4u32
    } else {
        1u32
    };
    let kernel = if fours {
        Kernel::NarrowLastax4
    } else if dt == HalfFlag::F32 {
        Kernel::NarrowLastax
    } else {
        Kernel::NarrowLastaxH
    };
    let wide = if dt == HalfFlag::F32 {
        64u64
    } else {
        32u64
    };
    let high = if fours {
        4u64
    } else {
        8u64
    };
    seq![
        Cmd::Pipeline(kernel),
        Cmd::Buffer(0, Buf::Arena, 0),
        Cmd::Buffer(1, Buf::Arena, 0),
        Cmd::U32(2, outer),
        Cmd::U32(3, src_axis / unit),
        Cmd::U32(4, start / unit),
        Cmd::U32(5, len / unit),
        Cmd::U64(6, src as u64),
        Cmd::U64(7, dst as u64),
        Cmd::Threads(
            plane((len / unit) as u64, outer as u64),
            Group::Fixed(
                plane(min_u64(wide, (len / unit) as u64), min_u64(high, outer as u64)),
            ),
        ),
    ]
}

/// Encodes one slice along the last axis.
pub fn encode_narrow(
    enc: &mut Vec<Cmd>,
    src: usize,
    dst: usize,
    outer: u32,
    src_axis: u32,
    start: u32,
    len: u32,
    dt: HalfFlag,
)
    ensures
        final(enc)@ == old(enc)@ + narrow_steps(src, dst, outer, src_axis, start, len, dt),
{
    let fours: bool = dt == HalfFlag::F32 && start % 4 == 0 && src_axis % 4 == 0 && len % 4 == 0
        && len >= 4;
    let unit: u32 = if fours {
        4
    } else {
        1
    };
    let kernel: Kernel = if fours {
        Kernel::NarrowLastax4
    } else if dt == HalfFlag::F32 {
        Kernel::NarrowLastax
    } else {
        Kernel::NarrowLastaxH
    };
    let wide: u64 = if dt == HalfFlag::F32 {
        64
    } else {
        32
    };
    let high: u64 = if fours {
        4
    } else {
        8
    };
    emit(
        enc,
        vec![
            Cmd::Pipeline(kernel),
            Cmd::Buffer(0, Buf::Arena, 0),
            Cmd::Buffer(1, Buf::Arena, 0),
            Cmd::U32(2, outer),
            Cmd::U32(3, src_axis / unit),
            Cmd::U32(4, start / unit),
            Cmd::U32(5, len / unit),
            Cmd::U64(6, src as u64),
            Cmd::U64(7, dst as u64),
            Cmd::Threads(
                plane_of((len / unit) as u64, outer as u64),
                Group::Fixed(
                    plane_of(least(wide, (len / unit) as u64), least(high, outer as u64)),
                ),
            ),
        ],
    );
}

/// Inserts behind every segment that starts no later.
pub open spec fn insert_by_start(sorted: Seq<(u32, u32)>, x: (u32, u32)) -> Seq<(u32, u32)>
    decreases sorted.len(),
{
    if sorted.len() == 0 || sorted.last().0 <= x.0 {
        sorted.push(x)
    } else {
        insert_by_start(sorted.drop_last(), x).push(sorted.last())
    }
}

/// Segments in the order of their starts; those with one start keep their order.
pub open spec fn by_start(s: Seq<(u32, u32)>) -> Seq<(u32, u32)>
    decreases s.len(),
{
    if s.len() == 0 {
        s
    } else {
        insert_by_start(by_start(s.drop_last()), s.last())
    }
}

/// The sum, or the largest number where it does not fit.
pub open spec fn sat_add(a: u32, b: u32) -> u32 {
    if a + b > u32::MAX {
        u32::MAX
    } else {
        (a + b) as u32
    }
}

/// The end of segments that follow one another without a gap from zero on.
pub open spec fn chained_end(s: Seq<(u32, u32)>) -> Option<u32>
    decreases s.len(),
{
    if s.len() == 0 {
        Some(0)
    } else {
        match chained_end(s.drop_last()) {
            Some(end) => if s.last().0 == end {
                Some(sat_add(end, s.last().1))
            } else {
                None
            },
            None => None,
        }
    }
}

/// Whether segments, in the order of their starts, fill an axis without gap or overlap.
pub open spec fn partitions(src_axis: u32, segments: Seq<(u32, u32)>) -> bool {
    chained_end(by_start(segments)) == Some(src_axis)
}

fn insert_segment(sorted: &mut Vec<(u32, u32)>, x: (u32, u32))
    ensures
        final(sorted)@ == insert_by_start(old(sorted)@, x),
{
    let ghost all = sorted@;
    let mut tail: Vec<(u32, u32)> = Vec::new();
    while sorted.len() > 0 && sorted[sorted.len() - 1].0 > x.0
        invariant
            insert_by_start(all, x) == insert_by_start(sorted@, x) + tail@.reverse(),
        decreases sorted@.len(),
    {
        let ghost before = sorted@;
        let ghost back = tail@;
        let last: (u32, u32) = sorted[sorted.len() - 1];
        sorted.pop();
        tail.push(last);
        proof {
            assert(sorted@ =~= before.drop_last());
            assert(tail@.reverse() =~= seq![last] + back.reverse());
            assert(insert_by_start(before, x) =~= insert_by_start(sorted@, x).push(last));
            assert(insert_by_start(sorted@, x).push(last) + back.reverse() =~= insert_by_start(
                sorted@,
                x,
            ) + tail@.reverse());
        }
    }
    assert(insert_by_start(sorted@, x) =~= sorted@.push(x));
    sorted.push(x);
    let ghost front = sorted@;
    let ghost rest = tail@;
    while tail.len() > 0
        invariant
            sorted@ + tail@.reverse() == front + rest.reverse(),
        decreases tail@.len(),
    {
        let ghost back = tail@;
        let ghost so_far = sorted@;
        let last: (u32, u32) = tail[tail.len() - 1];
        tail.pop();
        sorted.push(last);
        proof {
            assert(tail@ =~= back.drop_last());
            assert(back.reverse() =~= seq![last] + tail@.reverse());
            assert(so_far + back.reverse() =~= sorted@ + tail@.reverse());
        }
    }
    assert(tail@.reverse() =~= Seq::<(u32, u32)>::empty());
    assert(sorted@ + tail@.reverse() =~= sorted@);
}

pub fn narrow_segments_partition(src_axis: u32, segments: &[(u32, u32)]) -> (r: bool)
    ensures
        r == partitions(src_axis, segments@),
{
    let mut sorted: Vec<(u32, u32)> = Vec::new();
    let mut i: usize = 0;
    while i < segments.len()
        invariant
            i <= segments@.len(),
            sorted@ == by_start(segments@.take(i as int)),
        decreases segments@.len() - i,
    {
        assert(segments@.take(i + 1).drop_last() =~= segments@.take(i as int));
        let x: (u32, u32) = segments[i];
        insert_segment(&mut sorted, x);
        i = i + 1;
    }
    assert(segments@.take(i as int) =~= segments@);
    let mut end: u32 = 0;
    let mut j: usize = 0;
    while j < sorted.len()
        invariant
            j <= sorted@.len(),
            sorted@ == by_start(segments@),
            chained_end(sorted@.take(j as int)) == Some(end),
        decreases sorted@.len() - j,
    {
        let (start, len) = sorted[j];
        assert(sorted@.take(j + 1).drop_last() =~= sorted@.take(j as int));
        if start != end {
            proof {
                lemma_unchained_stays(sorted@, j + 1);
            }
            return false;
        }
        end = end.saturating_add(len);
        j = j + 1;
    }
    assert(sorted@.take(j as int) =~= sorted@);
    end == src_axis
}

proof fn lemma_unchained_stays(s: Seq<(u32, u32)>, n: int)
    requires
        0 <= n <= s.len(),
        chained_end(s.take(n)) is None,
    ensures
        chained_end(s) is None,
    decreases s.len() - n,
{
    if n < s.len() {
        assert(s.take(n + 1).drop_last() =~= s.take(n));
        lemma_unchained_stays(s, n + 1);
    } else {
        assert(s.take(n) =~= s);
    }
}

/// Whether a column lies in a segment.
pub open spec fn holds_column(segment: (u32, u32), column: int) -> bool {
    segment.0 <= column < segment.0 + segment.1
}

proof fn lemma_chain_covers(s: Seq<(u32, u32)>, column: int)
    requires
        chained_end(s) is Some,
        0 <= column < chained_end(s)->0,
    ensures
        exists|i: int| 0 <= i < s.len() && holds_column(#[trigger] s[i], column),
    decreases s.len(),
{
    let shorter = s.drop_last();
    let end = chained_end(shorter)->0;
    if column < end {
        lemma_chain_covers(shorter, column);
        let i = choose|i: int| 0 <= i < shorter.len() && holds_column(
            #[trigger] shorter[i],
            column,
        );
        assert(s[i] == shorter[i]);
    } else {
        assert(holds_column(s[s.len() - 1], column));
    }
}

proof fn lemma_chain_bounds(s: Seq<(u32, u32)>, i: int)
    requires
        chained_end(s) is Some,
        0 <= i < s.len(),
    ensures
        s[i].0 <= chained_end(s)->0,
        chained_end(s)->0 < u32::MAX ==> s[i].0 + s[i].1 <= chained_end(s)->0,
    decreases s.len(),
{
    if i < s.len() - 1 {
        assert(s.drop_last()[i] == s[i]);
        lemma_chain_bounds(s.drop_last(), i);
    }
}

proof fn lemma_chain_disjoint(s: Seq<(u32, u32)>, i: int, j: int)
    requires
        chained_end(s) is Some,
        chained_end(s)->0 < u32::MAX,
        0 <= i < j < s.len(),
    ensures
        s[i].0 + s[i].1 <= s[j].0,
    decreases s.len(),
{
    let shorter = s.drop_last();
    if j < s.len() - 1 {
        assert(shorter[i] == s[i] && shorter[j] == s[j]);
        lemma_chain_disjoint(shorter, i, j);
    } else {
        assert(shorter[i] == s[i]);
        lemma_chain_bounds(shorter, i);
    }
}

proof fn lemma_insert_members(sorted: Seq<(u32, u32)>, x: (u32, u32))
    ensures
        insert_by_start(sorted, x).to_multiset() == sorted.to_multiset().insert(x),
    decreases sorted.len(),
{
    broadcast use vstd::seq_lib::group_to_multiset_ensures;

    if sorted.len() == 0 || sorted.last().0 <= x.0 {
    } else {
        let shorter = sorted.drop_last();
        lemma_insert_members(shorter, x);
        assert(shorter.push(sorted.last()) =~= sorted);
        assert(sorted.to_multiset() =~= shorter.to_multiset().insert(sorted.last()));
        assert(insert_by_start(sorted, x).to_multiset() =~= sorted.to_multiset().insert(x));
    }
}

proof fn lemma_by_start_members(s: Seq<(u32, u32)>)
    ensures
        by_start(s).to_multiset() == s.to_multiset(),
    decreases s.len(),
{
    broadcast use vstd::seq_lib::group_to_multiset_ensures;

    if s.len() > 0 {
        lemma_by_start_members(s.drop_last());
        lemma_insert_members(by_start(s.drop_last()), s.last());
        assert(s.drop_last().push(s.last()) =~= s);
    }
}

/// Segments that partition an axis cover every column of it.
pub proof fn lemma_partition_covers(src_axis: u32, segments: Seq<(u32, u32)>, column: int)
    requires
        partitions(src_axis, segments),
        0 <= column < src_axis,
    ensures
        exists|i: int| 0 <= i < segments.len() && holds_column(#[trigger] segments[i], column),
{
    broadcast use vstd::seq_lib::group_to_multiset_ensures;

    let sorted = by_start(segments);
    lemma_chain_covers(sorted, column);
    let i = choose|i: int| 0 <= i < sorted.len() && holds_column(#[trigger] sorted[i], column);
    lemma_by_start_members(segments);
    let x = sorted[i];
    assert(sorted.contains(x));
    assert(sorted.to_multiset().count(x) > 0);
    assert(segments.contains(x));
    let k = choose|k: int| 0 <= k < segments.len() && segments[k] == x;
    assert(holds_column(segments[k], column));
}

/// In the order of their starts, segments that partition an axis do not overlap.
pub proof fn lemma_partition_disjoint(
    src_axis: u32,
    segments: Seq<(u32, u32)>,
    i: int,
    j: int,
)
    requires
        partitions(src_axis, segments),
        src_axis < u32::MAX,
        0 <= i < j < by_start(segments).len(),
    ensures
        by_start(segments)[i].0 + by_start(segments)[i].1 <= by_start(segments)[j].0,
{
    lemma_chain_disjoint(by_start(segments), i, j);
}

/// How many segments hold a column.
pub open spec fn times_covered(s: Seq<(u32, u32)>, column: int) -> nat
    decreases s.len(),
{
    if s.len() == 0 {
        0
    } else {
        times_covered(s.drop_last(), column) + if holds_column(s.last(), column) {
            1nat
        } else {
            0
        }
    }
}

proof fn lemma_insert_covered(sorted: Seq<(u32, u32)>, x: (u32, u32), column: int)
    ensures
        times_covered(insert_by_start(sorted, x), column) == times_covered(sorted.push(x), column),
    decreases sorted.len(),
{
    assert(sorted.push(x).drop_last() =~= sorted);
    if sorted.len() > 0 && sorted.last().0 > x.0 {
        let shorter = sorted.drop_last();
        lemma_insert_covered(shorter, x, column);
        assert(shorter.push(x).drop_last() =~= shorter);
        assert(insert_by_start(sorted, x) == insert_by_start(shorter, x).push(sorted.last()));
        assert(insert_by_start(sorted, x).drop_last() =~= insert_by_start(shorter, x));
        assert(times_covered(sorted.push(x), column) == times_covered(sorted, column)
            + times_covered(shorter.push(x), column) - times_covered(shorter, column));
    }
}

proof fn lemma_by_start_covered(s: Seq<(u32, u32)>, column: int)
    ensures
        times_covered(by_start(s), column) == times_covered(s, column),
    decreases s.len(),
{
    if s.len() > 0 {
        let front = by_start(s.drop_last());
        lemma_by_start_covered(s.drop_last(), column);
        lemma_insert_covered(front, s.last(), column);
        assert(front.push(s.last()).drop_last() =~= front);
    }
}

proof fn lemma_chain_covers_once(s: Seq<(u32, u32)>, column: int)
    requires
        chained_end(s) is Some,
        0 <= column < u32::MAX,
    ensures
        times_covered(s, column) == if column < chained_end(s)->0 {
            1nat
        } else {
            0
        },
    decreases s.len(),
{
    if s.len() > 0 {
        lemma_chain_covers_once(s.drop_last(), column);
    }
}

proof fn lemma_covered_twice(s: Seq<(u32, u32)>, column: int, i: int, j: int)
    requires
        0 <= i <= j < s.len(),
        holds_column(s[i], column),
        holds_column(s[j], column),
    ensures
        times_covered(s, column) >= 1,
        i < j ==> times_covered(s, column) >= 2,
    decreases s.len(),
{
    let shorter = s.drop_last();
    if j < s.len() - 1 {
        assert(shorter[i] == s[i] && shorter[j] == s[j]);
        lemma_covered_twice(shorter, column, i, j);
    } else if i < j {
        assert(shorter[i] == s[i]);
        lemma_covered_twice(shorter, column, i, i);
    }
}

/// Segments that partition an axis hold each of its columns exactly once, whatever their order.
pub proof fn lemma_partition_covers_once(src_axis: u32, segments: Seq<(u32, u32)>, column: int)
    requires
        partitions(src_axis, segments),
        0 <= column < src_axis,
    ensures
        times_covered(segments, column) == 1,
        exists|i: int| 0 <= i < segments.len() && holds_column(#[trigger] segments[i], column),
        forall|i: int, j: int|
            0 <= i < segments.len() && 0 <= j < segments.len() && holds_column(
                #[trigger] segments[i],
                column,
            ) && holds_column(#[trigger] segments[j], column) ==> i == j,
{
    lemma_chain_covers_once(by_start(segments), column);
    lemma_by_start_covered(segments, column);
    lemma_partition_covers(src_axis, segments, column);
    assert forall|i: int, j: int|
        0 <= i < segments.len() && 0 <= j < segments.len() && holds_column(
            #[trigger] segments[i],
            column,
        ) && holds_column(#[trigger] segments[j], column) implies i == j by {
        if i < j {
            lemma_covered_twice(segments, column, i, j);
        } else if j < i {
            lemma_covered_twice(segments, column, j, i);
        }
    }
}

/// Segments in the order of their starts.
spec fn ordered(s: Seq<(u32, u32)>) -> bool {
    forall|i: int, j: int| 0 <= i <= j < s.len() ==> (#[trigger] s[i]).0 <= (#[trigger] s[j]).0
}

proof fn lemma_insert_ordered(sorted: Seq<(u32, u32)>, x: (u32, u32))
    requires
        ordered(sorted),
    ensures
        ordered(insert_by_start(sorted, x)),
        insert_by_start(sorted, x).len() == sorted.len() + 1,
        forall|i: int|
            0 <= i <= sorted.len() ==> (#[trigger] insert_by_start(sorted, x)[i]).0 <= x.0 || (
            sorted.len() > 0 && insert_by_start(sorted, x)[i].0 <= sorted.last().0),
    decreases sorted.len(),
{
    if sorted.len() > 0 && sorted.last().0 > x.0 {
        let shorter = sorted.drop_last();
        lemma_insert_ordered(shorter, x);
        let all = insert_by_start(sorted, x);
        assert(all == insert_by_start(shorter, x).push(sorted.last()));
        assert forall|i: int| 0 <= i <= sorted.len() implies (#[trigger] all[i]).0
            <= sorted.last().0 by {
            if i < sorted.len() {
                assert(all[i] == insert_by_start(shorter, x)[i]);
                if shorter.len() > 0 {
                    assert(shorter.last() == sorted[sorted.len() - 2]);
                }
            }
        }
        assert forall|i: int, j: int| 0 <= i <= j < all.len() implies (#[trigger] all[i]).0 <= (
        #[trigger] all[j]).0 by {
            if j < sorted.len() {
                assert(all[i] == insert_by_start(shorter, x)[i]);
                assert(all[j] == insert_by_start(shorter, x)[j]);
            }
        }
    }
}

proof fn lemma_by_start_ordered(s: Seq<(u32, u32)>)
    ensures
        ordered(by_start(s)),
    decreases s.len(),
{
    if s.len() > 0 {
        lemma_by_start_ordered(s.drop_last());
        lemma_insert_ordered(by_start(s.drop_last()), s.last());
    }
}

/// A longer front holds a column at least as often, and as often where the rest does not hold it.
proof fn lemma_front_covered(s: Seq<(u32, u32)>, k: int, column: int)
    requires
        0 <= k <= s.len(),
    ensures
        times_covered(s.take(k), column) <= times_covered(s, column),
        (forall|i: int| k <= i < s.len() ==> !holds_column(#[trigger] s[i], column))
            ==> times_covered(s.take(k), column) == times_covered(s, column),
    decreases s.len(),
{
    if k < s.len() {
        let shorter = s.drop_last();
        lemma_front_covered(shorter, k, column);
        assert(shorter.take(k) =~= s.take(k));
        if forall|i: int| k <= i < s.len() ==> !holds_column(#[trigger] s[i], column) {
            assert(!holds_column(s[s.len() - 1], column));
            assert forall|i: int| k <= i < shorter.len() implies !holds_column(
                #[trigger] shorter[i],
                column,
            ) by {
                assert(shorter[i] == s[i]);
            }
        }
    } else {
        assert(s.take(k) =~= s);
    }
}

/// Segments that are not empty, lie on an axis and hold each of its columns once.
pub open spec fn exact_cover(src_axis: u32, segments: Seq<(u32, u32)>) -> bool {
    &&& forall|i: int|
        0 <= i < segments.len() ==> (#[trigger] segments[i]).1 > 0 && segments[i].0 + segments[i].1
            <= src_axis
    &&& forall|column: int|
        0 <= column < src_axis ==> #[trigger] times_covered(segments, column) == 1
}

proof fn lemma_cover_chains(src_axis: u32, sorted: Seq<(u32, u32)>, k: int)
    requires
        exact_cover(src_axis, sorted),
        ordered(sorted),
        0 <= k <= sorted.len(),
    ensures
        chained_end(sorted.take(k)) is Some,
        chained_end(sorted.take(k))->0 <= src_axis,
    decreases k,
{
    if k > 0 {
        lemma_cover_chains(src_axis, sorted, k - 1);
        let front = sorted.take(k - 1);
        let more = sorted.take(k);
        let x = sorted[k - 1];
        let end = chained_end(front)->0;
        assert(more.drop_last() =~= front);
        assert(x.1 > 0 && x.0 + x.1 <= src_axis);
        if x.0 < end {
            lemma_chain_covers_once(front, x.0 as int);
            lemma_front_covered(sorted, k, x.0 as int);
            assert(times_covered(more, x.0 as int) == 2);
            assert(times_covered(sorted, x.0 as int) == 1);
        } else if x.0 > end {
            lemma_chain_covers_once(front, end as int);
            assert forall|i: int| k - 1 <= i < sorted.len() implies !holds_column(
                #[trigger] sorted[i],
                end as int,
            ) by {
                assert(sorted[k - 1].0 <= sorted[i].0);
            }
            lemma_front_covered(sorted, k - 1, end as int);
            assert(times_covered(sorted, end as int) == 1);
        }
    }
}

/// Segments that hold each column of an axis exactly once, and nothing beyond it, partition the
/// axis, whatever their order. An empty segment holds no column, so it is left out here.
pub proof fn lemma_exact_cover_partitions(src_axis: u32, segments: Seq<(u32, u32)>)
    requires
        exact_cover(src_axis, segments),
    ensures
        partitions(src_axis, segments),
{
    broadcast use vstd::seq_lib::group_to_multiset_ensures;

    let sorted = by_start(segments);
    lemma_by_start_ordered(segments);
    lemma_by_start_members(segments);
    assert forall|i: int| 0 <= i < sorted.len() implies (#[trigger] sorted[i]).1 > 0 && sorted[i].0
        + sorted[i].1 <= src_axis by {
        let x = sorted[i];
        assert(sorted.contains(x));
        assert(sorted.to_multiset().count(x) > 0);
        assert(segments.contains(x));
        let k = choose|k: int| 0 <= k < segments.len() && segments[k] == x;
        assert(segments[k].1 > 0);
    }
    assert forall|column: int| 0 <= column < src_axis implies #[trigger] times_covered(
        sorted,
        column,
    ) == 1 by {
        lemma_by_start_covered(segments, column);
        assert(times_covered(segments, column) == 1);
    }
    lemma_cover_chains(src_axis, sorted, sorted.len() as int);
    assert(sorted.take(sorted.len() as int) =~= sorted);
    let end = chained_end(sorted)->0;
    if end < src_axis {
        lemma_chain_covers_once(sorted, end as int);
        assert(times_covered(sorted, end as int) == 1);
    }
}

/// Slices of one tensor that wait to be taken together: destination, start and length of each.
#[derive(Debug)]
pub struct PendingNarrowBatch {
    pub src: usize,
    pub outer: u32,
    pub src_axis: u32,
    pub dt: HalfFlag,
    pub segments: Vec<(usize, u32, u32)>,
}

/// Starts and lengths of segments.
pub open spec fn extents(segments: Seq<(usize, u32, u32)>) -> Seq<(u32, u32)> {
    Seq::new(segments.len(), |i: int| (segments[i].1, segments[i].2))
}

fn extents_of(segments: &[(usize, u32, u32)]) -> (r: Vec<(u32, u32)>)
    ensures
        r@ == extents(segments@),
{
    let mut meta: Vec<(u32, u32)> = Vec::new();
    let mut i: usize = 0;
    while i < segments.len()
        invariant
            i <= segments@.len(),
            meta@ == extents(segments@).take(i as int),
        decreases segments@.len() - i,
    {
        meta.push((segments[i].1, segments[i].2));
        i = i + 1;
        assert(meta@ =~= extents(segments@).take(i as int));
    }
    assert(extents(segments@).take(i as int) =~= extents(segments@));
    meta
}

/// Whether a slice can join a batch: it is of the same tensor, there is room, and with it the
/// segments partition the axis.
pub open spec fn joins(
    b: PendingNarrowBatch,
    src: usize,
    outer: u32,
    src_axis: u32,
    start: u32,
    len: u32,
    dt: HalfFlag,
) -> bool {
    &&& b.src == src && b.outer == outer && b.src_axis == src_axis && b.dt == dt
    &&& b.segments@.len() < NARROW_BATCH_MAX
    &&& partitions(b.src_axis, extents(b.segments@).push((start, len)))
}

/// Queues a slice: as the first of a batch, or into a batch that it completes. Returns whether it
/// was queued; where not, the batch is as before.
pub fn try_queue_narrow_batch(
    batch: &mut Option<PendingNarrowBatch>,
    enabled: bool,
    src: usize,
    dst: usize,
    outer: u32,
    src_axis: u32,
    start: u32,
    len: u32,
    dt: HalfFlag,
) -> (queued: bool)
    ensures
        queued == (enabled && outer != 0 && dt == HalfFlag::F32 && match *old(batch) {
            None => true,
            Some(b) => joins(b, src, outer, src_axis, start, len, dt),
        }),
        !queued ==> *final(batch) == *old(batch),
        queued ==> *final(batch) is Some && ({
            let b = (*final(batch))->0;
            &&& b.src == src && b.outer == outer && b.src_axis == src_axis && b.dt == dt
            &&& match *old(batch) {
                None => b.segments@ == seq![(dst, start, len)],
                Some(o) => b.segments@ == o.segments@.push((dst, start, len)),
            }
        }),
{
    if !enabled || outer == 0 {
        return false;
    }
    if dt != HalfFlag::F32 {
        return false;
    }
    match batch.take() {
        None => {
            *batch = Some(
                PendingNarrowBatch {
                    src,
                    outer,
                    src_axis,
                    dt,
                    segments: vec![(dst, start, len)],
                },
            );
            true
        },
        Some(b) => {
            let mut b: PendingNarrowBatch = b;
            if !(b.src == src && b.outer == outer && b.src_axis == src_axis && b.dt == dt) {
                *batch = Some(b);
                return false;
            }
            if b.segments.len() >= NARROW_BATCH_MAX {
                *batch = Some(b);
                return false;
            }
            let mut meta: Vec<(u32, u32)> = extents_of(&b.segments);
            meta.push((start, len));
            if !narrow_segments_partition(b.src_axis, &meta) {
                *batch = Some(b);
                return false;
            }
            b.segments.push((dst, start, len));
            *batch = Some(b);
            true
        },
    }
}

/// A segment as the kernels read it: a 64-bit offset, low word first, and two words.
pub open spec fn segment_words(off: usize, a: u32, b: u32) -> Seq<u32> {
    seq![low_word(off as u64), low_word(off as u64 / 0x1_0000_0000), a, b]
}

pub open spec fn segments_words(s: Seq<(usize, u32, u32)>) -> Seq<u32>
    decreases s.len(),
{
    if s.len() == 0 {
        Seq::<u32>::empty()
    } else {
        segments_words(s.drop_last()) + segment_words(s.last().0, s.last().1, s.last().2)
    }
}

/// The longest segment.
pub open spec fn longest(s: Seq<(usize, u32, u32)>) -> u32
    decreases s.len(),
{
    if s.len() == 0 {
        0
    } else if longest(s.drop_last()) >= s.last().2 {
        longest(s.drop_last())
    } else {
        s.last().2
    }
}

/// Whether every segment starts and ends on a multiple of four and is not empty.
pub open spec fn segments_in_fours(s: Seq<(usize, u32, u32)>) -> bool {
    forall|i: int| 0 <= i < s.len() ==> (#[trigger] s[i]).1 % 4 == 0 && in_fours(s[i].2)
}

fn words_for(s: &[(usize, u32, u32)]) -> (r: Vec<u32>)
    ensures
        r@ == segments_words(s@),
{
    let mut out: Vec<u32> = Vec::new();
    let mut i: usize = 0;
    while i < s.len()
        invariant
            i <= s@.len(),
            out@ == segments_words(s@.take(i as int)),
        decreases s@.len() - i,
    {
        let (off, a, b) = s[i];
        let ghost before = out@;
        assert(s@.take(i + 1).drop_last() =~= s@.take(i as int));
        out.push(low32(off as u64));
        out.push(low32(off as u64 / 0x1_0000_0000));
        out.push(a);
        out.push(b);
        assert(out@ =~= before + segment_words(off, a, b));
        i = i + 1;
    }
    assert(s@.take(i as int) =~= s@);
    out
}

fn longest_of(s: &[(usize, u32, u32)]) -> (r: u32)
    ensures
        r == longest(s@),
{
    let mut most_len: u32 = 0;
    let mut i: usize = 0;
    while i < s.len()
        invariant
            i <= s@.len(),
            most_len == longest(s@.take(i as int)),
        decreases s@.len() - i,
    {
        assert(s@.take(i + 1).drop_last() =~= s@.take(i as int));
        if s[i].2 > most_len {
            most_len = s[i].2;
        }
        i = i + 1;
    }
    assert(s@.take(i as int) =~= s@);
    most_len
}

fn all_in_fours(s: &[(usize, u32, u32)]) -> (r: bool)
    ensures
        r == segments_in_fours(s@),
{
    let mut i: usize = 0;
    while i < s.len()
        invariant
            i <= s@.len(),
            forall|k: int| 0 <= k < i ==> (#[trigger] s@[k]).1 % 4 == 0 && in_fours(s@[k].2),
        decreases s@.len() - i,
    {
        if !(s[i].1 % 4 == 0 && s[i].2 % 4 == 0 && s[i].2 >= 4) {
            assert(!(s@[i as int].1 % 4 == 0 && in_fours(s@[i as int].2)));
            return false;
        }
        i = i + 1;
    }
    true
}

/// The launch over segments: one layer per segment, at most 1024 threads in a threadgroup.
pub open spec fn segments_launch(max_len: u32, outer: u32, count: u64, fours: bool) -> Cmd {
    let (len, wide, high) = if fours {
        ((max_len / 4) as u64, 64u64, 4u64)
    } else {
        (max_len as u64, 32u64, 8u64)
    };
    Cmd::Threads(
        Size { width: len, height: outer as u64, depth: count },
        Group::Fixed(
            Size {
                width: min_u64(wide, len),
                height: min_u64(high, outer as u64),
                depth: max_u64(min_u64(4, count), 1),
            },
        ),
    )
}

fn launch_segments(max_len: u32, outer: u32, count: u64, fours: bool) -> (r: Cmd)
    ensures
        r == segments_launch(max_len, outer, count, fours),
{
    let len: u64 = if fours {
        (max_len / 4) as u64
    } else {
        max_len as u64
    };
    let wide: u64 = if fours {
        64
    } else {
        32
    };
    let high: u64 = if fours {
        4
    } else {
        8
    };
    Cmd::Threads(
        Size { width: len, height: outer as u64, depth: count },
        Group::Fixed(
            Size {
                width: least(wide, len),
                height: least(high, outer as u64),
                depth: most(least(4, count), 1),
            },
        ),
    )
}

/// A threadgroup over segments never exceeds the 1024 threads that the hardware allows.
pub proof fn lemma_segment_groups_fit(max_len: u32, outer: u32, count: u64, fours: bool)
    ensures
        segments_launch(max_len, outer, count, fours) matches Cmd::Threads(
            _,
            Group::Fixed(size),
        ) && size.width * size.height * size.depth <= 1024,
{
    if let Cmd::Threads(_, Group::Fixed(size)) = segments_launch(max_len, outer, count, fours) {
        let w = size.width as int;
        let h = size.height as int;
        let d = size.depth as int;
        assert(w * h <= 256) by (nonlinear_arith)
            requires
                0 <= w,
                0 <= h,
                (w <= 64 && h <= 4) || (w <= 32 && h <= 8),
        ;
        let wh = w * h;
        assert(wh * d <= 1024) by (nonlinear_arith)
            requires
                wh <= 256,
                1 <= d <= 4,
        ;
    }
}

/// Taking a whole batch in one pass.
pub open spec fn split_steps(b: PendingNarrowBatch) -> Seq<Cmd> {
    let s = b.segments@;
    let fours = b.src_axis % 4 == 0 && segments_in_fours(s);
    seq![
        Cmd::Pipeline(
            if fours {
                Kernel::SplitLastax4
            } else {
                Kernel::SplitLastax
            },
        ),
        Cmd::Buffer(0, Buf::Arena, 0),
        Cmd::Buffer(1, Buf::Arena, 0),
        Cmd::U32(2, b.outer),
        Cmd::U32(
            3,
            if fours {
                b.src_axis / 4
            } else {
                b.src_axis
            },
        ),
        Cmd::U32(4, low_word(s.len() as u64)),
    ] + array_steps(5, segments_words(s)) + seq![
        Cmd::U64(6, b.src as u64),
        segments_launch(longest(s), b.outer, low_word(s.len() as u64) as u64, fours),
    ]
}

pub fn encode_split_lastax(enc: &mut Vec<Cmd>, batch: &PendingNarrowBatch)
    ensures
        final(enc)@ == old(enc)@ + split_steps(*batch),
{
    let fours: bool = batch.src_axis % 4 == 0 && all_in_fours(&batch.segments);
    let words: Vec<u32> = words_for(&batch.segments);
    let max_len: u32 = longest_of(&batch.segments);
    let num_seg: u32 = low32(batch.segments.len() as u64);
    let kernel: Kernel = if fours {
        Kernel::SplitLastax4
    } else {
        Kernel::SplitLastax
    };
    let axis: u32 = if fours {
        batch.src_axis / 4
    } else {
        batch.src_axis
    };
    emit(
        enc,
        vec![
            Cmd::Pipeline(kernel),
            Cmd::Buffer(0, Buf::Arena, 0),
            Cmd::Buffer(1, Buf::Arena, 0),
            Cmd::U32(2, batch.outer),
            Cmd::U32(3, axis),
            Cmd::U32(4, num_seg),
        ],
    );
    emit_array(enc, 5, &words);
    emit(
        enc,
        vec![
            Cmd::U64(6, batch.src as u64),
            launch_segments(max_len, batch.outer, num_seg as u64, fours),
        ],
    );
}

/// Slices of a batch one by one.
pub open spec fn separate_steps(b: PendingNarrowBatch, n: int) -> Seq<Cmd>
    decreases n,
{
    if n <= 0 {
        Seq::<Cmd>::empty()
    } else {
        let (dst, start, len) = b.segments@[n - 1];
        separate_steps(b, n - 1) + narrow_steps(
            b.src,
            dst,
            b.outer,
            b.src_axis,
            start,
            len,
            b.dt,
        )
    }
}

/// What a waiting batch turns into: one pass where its segments partition the axis, otherwise
/// slice by slice.
pub open spec fn flush_steps(batch: Option<PendingNarrowBatch>) -> Seq<Cmd> {
    match batch {
        None => Seq::<Cmd>::empty(),
        Some(b) => if b.segments@.len() >= 2 && partitions(b.src_axis, extents(b.segments@)) {
            split_steps(b)
        } else {
            separate_steps(b, b.segments@.len() as int)
        },
    }
}

/// Takes what waits and encodes it; nothing waits afterwards.
pub fn flush_pending_narrow_batch(enc: &mut Vec<Cmd>, batch: &mut Option<PendingNarrowBatch>)
    ensures
        *final(batch) is None,
        final(enc)@ == old(enc)@ + flush_steps(*old(batch)),
{
    let b: PendingNarrowBatch = match batch.take() {
        None => return,
        Some(b) => b,
    };
    if b.segments.len() >= 2 {
        let meta: Vec<(u32, u32)> = extents_of(&b.segments);
        if narrow_segments_partition(b.src_axis, &meta) {
            encode_split_lastax(enc, &b);
            return;
        }
    }
    let ghost start_enc = enc@;
    let mut i: usize = 0;
    while i < b.segments.len()
        invariant
            i <= b.segments@.len(),
            enc@ == start_enc + separate_steps(b, i as int),
        decreases b.segments@.len() - i,
    {
        let (dst, start, len) = b.segments[i];
        encode_narrow(enc, b.src, dst, b.outer, b.src_axis, start, len, b.dt);
        i = i + 1;
        assert(enc@ =~= start_enc + separate_steps(b, i as int));
    }
}

/// The axes of the first `n` inputs together.
pub open spec fn axis_before(inputs: Seq<(usize, u32)>, n: int) -> int
    decreases n,
{
    if n <= 0 {
        0
    } else {
        axis_before(inputs, n - 1) + inputs[n - 1].1
    }
}

proof fn lemma_axis_monotone(inputs: Seq<(usize, u32)>, a: int, b: int)
    requires
        0 <= a <= b,
    ensures
        0 <= axis_before(inputs, a) <= axis_before(inputs, b),
    decreases b,
{
    if b > 0 {
        if a < b {
            lemma_axis_monotone(inputs, a, b - 1);
        } else {
            lemma_axis_monotone(inputs, a - 1, b - 1);
        }
    }
}

/// Input precision of a segment: its own where given, otherwise the output's.
pub open spec fn input_precision(input_dts: Seq<HalfFlag>, i: int, dt: HalfFlag) -> HalfFlag {
    if i < input_dts.len() {
        input_dts[i]
    } else {
        dt
    }
}

pub open spec fn midaxis_kernel(src_dt: HalfFlag, dt: HalfFlag) -> Kernel {
    match (src_dt, dt) {
        (HalfFlag::F32, HalfFlag::F16) => Kernel::ConcatMidaxisSegF32ToF16,
        (HalfFlag::F16, HalfFlag::F32) => Kernel::ConcatMidaxisSegF16ToF32,
        (HalfFlag::F16, HalfFlag::F16) => Kernel::ConcatMidaxisSegH,
        (HalfFlag::F32, HalfFlag::F32) => Kernel::ConcatMidaxisSeg,
    }
}

/// One input of a join along a middle axis; nothing where it is empty.
pub open spec fn midaxis_segment(
    dst: usize,
    outer: u32,
    dst_axis: u32,
    inner: u32,
    dt: HalfFlag,
    inputs: Seq<(usize, u32)>,
    input_dts: Seq<HalfFlag>,
    i: int,
) -> Seq<Cmd> {
    let (src, src_axis) = inputs[i];
    let total = (outer * src_axis * inner) as u64;
    if total == 0 {
        Seq::<Cmd>::empty()
    } else {
        seq![
            Cmd::Pipeline(midaxis_kernel(input_precision(input_dts, i, dt), dt)),
            Cmd::Buffer(0, Buf::Arena, 0),
            Cmd::U64(1, dst as u64),
            Cmd::U64(2, src as u64),
            Cmd::U32(3, outer),
            Cmd::U32(4, dst_axis),
            Cmd::U32(5, src_axis),
            Cmd::U32(6, inner),
            Cmd::U32(7, axis_before(inputs, i) as u32),
            Cmd::Threads(one_row(total), Group::Fixed(one_row(min_u64(256, total)))),
        ]
    }
}

pub open spec fn midaxis_steps(
    dst: usize,
    outer: u32,
    dst_axis: u32,
    inner: u32,
    dt: HalfFlag,
    inputs: Seq<(usize, u32)>,
    input_dts: Seq<HalfFlag>,
    n: int,
) -> Seq<Cmd>
    decreases n,
{
    if n <= 0 {
        Seq::<Cmd>::empty()
    } else {
        midaxis_steps(dst, outer, dst_axis, inner, dt, inputs, input_dts, n - 1) + midaxis_segment(
            dst,
            outer,
            dst_axis,
            inner,
            dt,
            inputs,
            input_dts,
            n - 1,
        )
    }
}

/// Joins tensors along a middle axis, one dispatch per input, converting precision where it
/// differs.
pub fn encode_concat_midaxis(
    enc: &mut Vec<Cmd>,
    dst: usize,
    outer: u32,
    dst_axis: u32,
    inner: u32,
    dt: HalfFlag,
    inputs: &[(usize, u32)],
    input_dts: &[HalfFlag],
)
    requires
        axis_before(inputs@, inputs@.len() as int) <= u32::MAX,
        forall|i: int|
            0 <= i < inputs@.len() ==> outer * (#[trigger] inputs@[i]).1 * inner <= u64::MAX,
    ensures
        final(enc)@ == old(enc)@ + midaxis_steps(
            dst,
            outer,
            dst_axis,
            inner,
            dt,
            inputs@,
            input_dts@,
            inputs@.len() as int,
        ),
{
    let ghost start = enc@;
    let mut axis_off: u32 = 0;
    let mut i: usize = 0;
    while i < inputs.len()
        invariant
            i <= inputs@.len(),
            axis_off == axis_before(inputs@, i as int),
            axis_before(inputs@, inputs@.len() as int) <= u32::MAX,
            forall|i: int|
                0 <= i < inputs@.len() ==> outer * (#[trigger] inputs@[i]).1 * inner <= u64::MAX,
            enc@ == start + midaxis_steps(
                dst,
                outer,
                dst_axis,
                inner,
                dt,
                inputs@,
                input_dts@,
                i as int,
            ),
        decreases inputs@.len() - i,
    {
        let (src_off, src_axis) = inputs[i];
        proof {
            lemma_axis_monotone(inputs@, i + 1, inputs@.len() as int);
            assert(outer * inputs@[i as int].1 * inner <= u64::MAX);
            assert(0 <= outer * src_axis <= 0xffff_ffff * 0xffff_ffff) by (nonlinear_arith);
            let p = outer * src_axis;
            assert(0 <= p * inner) by (nonlinear_arith)
                requires
                    0 <= p,
            ;
        }
        let total: u64 = (outer as u64) * (src_axis as u64) * (inner as u64);
        let ghost before = enc@;
        if total != 0 {
            let src_dt: HalfFlag = if i < input_dts.len() {
                input_dts[i]
            } else {
                dt
            };
            let pipeline: Kernel = match (src_dt, dt) {
                (HalfFlag::F32, HalfFlag::F16) => Kernel::ConcatMidaxisSegF32ToF16,
                (HalfFlag::F16, HalfFlag::F32) => Kernel::ConcatMidaxisSegF16ToF32,
                (HalfFlag::F16, HalfFlag::F16) => Kernel::ConcatMidaxisSegH,
                (HalfFlag::F32, HalfFlag::F32) => Kernel::ConcatMidaxisSeg,
            };
            emit(
                enc,
                vec![
                    Cmd::Pipeline(pipeline),
                    Cmd::Buffer(0, Buf::Arena, 0),
                    Cmd::U64(1, dst as u64),
                    Cmd::U64(2, src_off as u64),
                    Cmd::U32(3, outer),
                    Cmd::U32(4, dst_axis),
                    Cmd::U32(5, src_axis),
                    Cmd::U32(6, inner),
                    Cmd::U32(7, axis_off),
                    Cmd::Threads(row(total), Group::Fixed(row(least(256, total)))),
                ],
            );
        }
        assert(enc@ =~= before + midaxis_segment(
            dst,
            outer,
            dst_axis,
            inner,
            dt,
            inputs@,
            input_dts@,
            i as int,
        ));
        axis_off = axis_off + src_axis;
        i = i + 1;
        assert(enc@ =~= start + midaxis_steps(
            dst,
            outer,
            dst_axis,
            inner,
            dt,
            inputs@,
            input_dts@,
            i as int,
        ));
    }
}

/// The inputs with the columns at which they are placed.
pub open spec fn placed(inputs: Seq<(usize, u32)>) -> Seq<(usize, u32, u32)> {
    Seq::new(
        inputs.len(),
        |i: int| (inputs[i].0, axis_before(inputs, i) as u32, inputs[i].1),
    )
}

/// Whether a join along the last axis runs as one pass.
pub open spec fn joins_at_once(dt: HalfFlag, count: int, enabled: bool) -> bool {
    2 <= count <= NARROW_BATCH_MAX && dt == HalfFlag::F32 && enabled
}

/// A join in one pass: in groups of four where every column and length divides and the inputs
/// fill the axis.
pub open spec fn join_steps(
    dst: usize,
    outer: u32,
    dst_axis: u32,
    inputs: Seq<(usize, u32)>,
) -> Seq<Cmd> {
    let s = placed(inputs);
    let fours = dst_axis % 4 == 0 && axis_before(inputs, inputs.len() as int) == dst_axis
        && segments_in_fours(s);
    seq![
        Cmd::Pipeline(
            if fours {
                Kernel::ConcatLastaxMulti4
            } else {
                Kernel::ConcatLastaxMulti
            },
        ),
        Cmd::Buffer(0, Buf::Arena, 0),
        Cmd::U64(1, dst as u64),
        Cmd::U32(2, outer),
        Cmd::U32(
            3,
            if fours {
                dst_axis / 4
            } else {
                dst_axis
            },
        ),
        Cmd::U32(4, low_word(s.len() as u64)),
    ] + array_steps(5, segments_words(s)) + seq![
        segments_launch(longest(s), outer, low_word(s.len() as u64) as u64, fours),
    ]
}

/// One input of a join along the last axis, on its own.
pub open spec fn lastax_segment(
    dst: usize,
    outer: u32,
    dst_axis: u32,
    dt: HalfFlag,
    inputs: Seq<(usize, u32)>,
    i: int,
) -> Seq<Cmd> {
    let (src, src_axis) = inputs[i];
    let col = axis_before(inputs, i) as u32;
    let fours = dt == HalfFlag::F32 && in_fours(src_axis) && dst_axis % 4 == 0 && col % 4 == 0;
    let unit = if fours {
        4u32
    } else {
        1u32
    };
    let kernel = if fours {
        Kernel::ConcatSegmentLastax4
    } else if dt == HalfFlag::F32 {
        Kernel::ConcatSegmentLastax
    } else {
        Kernel::ConcatSegmentLastaxH
    };
    let (wide, high) = if fours {
        (64u64, 4u64)
    } else {
        (16u64, 16u64)
    };
    seq![
        Cmd::Pipeline(kernel),
        Cmd::Buffer(0, Buf::Arena, 0),
        Cmd::Buffer(1, Buf::Arena, 0),
        Cmd::U32(2, outer),
        Cmd::U32(3, src_axis / unit),
        Cmd::U32(4, dst_axis / unit),
        Cmd::U32(5, col / unit),
        Cmd::U64(6, src as u64),
        Cmd::U64(7, dst as u64),
        Cmd::Threads(
            plane((src_axis / unit) as u64, outer as u64),
            Group::Fixed(
                plane(min_u64(wide, (src_axis / unit) as u64), min_u64(high, outer as u64)),
            ),
        ),
    ]
}

pub open spec fn lastax_segments(
    dst: usize,
    outer: u32,
    dst_axis: u32,
    dt: HalfFlag,
    inputs: Seq<(usize, u32)>,
    n: int,
) -> Seq<Cmd>
    decreases n,
{
    if n <= 0 {
        Seq::<Cmd>::empty()
    } else {
        lastax_segments(dst, outer, dst_axis, dt, inputs, n - 1) + lastax_segment(
            dst,
            outer,
            dst_axis,
            dt,
            inputs,
            n - 1,
        )
    }
}

fn place_inputs(inputs: &[(usize, u32)]) -> (r: Vec<(usize, u32, u32)>)
    requires
        axis_before(inputs@, inputs@.len() as int) <= u32::MAX,
    ensures
        r@ == placed(inputs@),
{
    let mut out: Vec<(usize, u32, u32)> = Vec::new();
    let mut cum: u32 = 0;
    let mut i: usize = 0;
    while i < inputs.len()
        invariant
            i <= inputs@.len(),
            axis_before(inputs@, inputs@.len() as int) <= u32::MAX,
            cum == axis_before(inputs@, i as int),
            out@ == placed(inputs@).take(i as int),
        decreases inputs@.len() - i,
    {
        let (src, len) = inputs[i];
        proof {
            lemma_axis_monotone(inputs@, i + 1, inputs@.len() as int);
        }
        out.push((src, cum, len));
        cum = cum + len;
        i = i + 1;
        assert(out@ =~= placed(inputs@).take(i as int));
    }
    assert(placed(inputs@).take(i as int) =~= placed(inputs@));
    out
}

fn total_axis(inputs: &[(usize, u32)]) -> (r: u32)
    requires
        axis_before(inputs@, inputs@.len() as int) <= u32::MAX,
    ensures
        r == axis_before(inputs@, inputs@.len() as int),
{
    let mut cum: u32 = 0;
    let mut i: usize = 0;
    while i < inputs.len()
        invariant
            i <= inputs@.len(),
            axis_before(inputs@, inputs@.len() as int) <= u32::MAX,
            cum == axis_before(inputs@, i as int),
        decreases inputs@.len() - i,
    {
        proof {
            lemma_axis_monotone(inputs@, i + 1, inputs@.len() as int);
        }
        cum = cum + inputs[i].1;
        i = i + 1;
    }
    cum
}

fn encode_lastax_segment(
    enc: &mut Vec<Cmd>,
    dst: usize,
    outer: u32,
    dst_axis: u32,
    dt: HalfFlag,
    src: usize,
    src_axis: u32,
    col: u32,
    Ghost(inputs): Ghost<Seq<(usize, u32)>>,
    Ghost(i): Ghost<int>,
)
    requires
        inputs[i] == (src, src_axis),
        col == axis_before(inputs, i),
    ensures
        final(enc)@ == old(enc)@ + lastax_segment(dst, outer, dst_axis, dt, inputs, i),
{
    let fours: bool = dt == HalfFlag::F32 && src_axis % 4 == 0 && src_axis >= 4 && dst_axis % 4 == 0
        && col % 4 == 0;
    let unit: u32 = if fours {
        4
    } else {
        1
    };
    let kernel: Kernel = if fours {
        Kernel::ConcatSegmentLastax4
    } else if dt == HalfFlag::F32 {
        Kernel::ConcatSegmentLastax
    } else {
        Kernel::ConcatSegmentLastaxH
    };
    let wide: u64 = if fours {
        64
    } else {
        16
    };
    let high: u64 = if fours {
        4
    } else {
        16
    };
    emit(
        enc,
        vec![
            Cmd::Pipeline(kernel),
            Cmd::Buffer(0, Buf::Arena, 0),
            Cmd::Buffer(1, Buf::Arena, 0),
            Cmd::U32(2, outer),
            Cmd::U32(3, src_axis / unit),
            Cmd::U32(4, dst_axis / unit),
            Cmd::U32(5, col / unit),
            Cmd::U64(6, src as u64),
            Cmd::U64(7, dst as u64),
            Cmd::Threads(
                plane_of((src_axis / unit) as u64, outer as u64),
                Group::Fixed(
                    plane_of(least(wide, (src_axis / unit) as u64), least(high, outer as u64)),
                ),
            ),
        ],
    );
}

/// The steps of `encode_concat_lastax`.
pub open spec fn concat_lastax_steps(
    dst: usize,
    outer: u32,
    dst_axis: u32,
    dt: HalfFlag,
    inputs: Seq<(usize, u32)>,
    multi_enabled: bool,
) -> Seq<Cmd> {
    if joins_at_once(dt, inputs.len() as int, multi_enabled) {
        join_steps(dst, outer, dst_axis, inputs)
    } else {
        lastax_segments(dst, outer, dst_axis, dt, inputs, inputs.len() as int)
    }
}

/// Joins tensors along the last axis: in one pass where that is possible and enabled, otherwise
/// input by input.
pub fn encode_concat_lastax(
    enc: &mut Vec<Cmd>,
    dst: usize,
    outer: u32,
    dst_axis: u32,
    dt: HalfFlag,
    inputs: &[(usize, u32)],
    multi_enabled: bool,
)
    requires
        axis_before(inputs@, inputs@.len() as int) <= u32::MAX,
    ensures
        final(enc)@ == old(enc)@ + concat_lastax_steps(
            dst,
            outer,
            dst_axis,
            dt,
            inputs@,
            multi_enabled,
        ),
{
    if inputs.len() >= 2 && inputs.len() <= NARROW_BATCH_MAX && dt == HalfFlag::F32
        && multi_enabled {
        let segs: Vec<(usize, u32, u32)> = place_inputs(inputs);
        let cum: u32 = total_axis(inputs);
        let num_seg: u32 = low32(segs.len() as u64);
        let max_len: u32 = longest_of(&segs);
        let fours: bool = dst_axis % 4 == 0 && cum == dst_axis && all_in_fours(&segs);
        let words: Vec<u32> = words_for(&segs);
        let kernel: Kernel = if fours {
            Kernel::ConcatLastaxMulti4
        } else {
            Kernel::ConcatLastaxMulti
        };
        let axis: u32 = if fours {
            dst_axis / 4
        } else {
            dst_axis
        };
        emit(
            enc,
            vec![
                Cmd::Pipeline(kernel),
                Cmd::Buffer(0, Buf::Arena, 0),
                Cmd::U64(1, dst as u64),
                Cmd::U32(2, outer),
                Cmd::U32(3, axis),
                Cmd::U32(4, num_seg),
            ],
        );
        emit_array(enc, 5, &words);
        emit(enc, vec![launch_segments(max_len, outer, num_seg as u64, fours)]);
        return;
    }
    let ghost start = enc@;
    let mut cum: u32 = 0;
    let mut i: usize = 0;
    while i < inputs.len()
        invariant
            i <= inputs@.len(),
            axis_before(inputs@, inputs@.len() as int) <= u32::MAX,
            cum == axis_before(inputs@, i as int),
            enc@ == start + lastax_segments(dst, outer, dst_axis, dt, inputs@, i as int),
        decreases inputs@.len() - i,
    {
        let (src_off, src_axis) = inputs[i];
        proof {
            lemma_axis_monotone(inputs@, i + 1, inputs@.len() as int);
        }
        encode_lastax_segment(
            enc,
            dst,
            outer,
            dst_axis,
            dt,
            src_off,
            src_axis,
            cum,
            Ghost(inputs@),
            Ghost(i as int),
        );
        cum = cum + src_axis;
        i = i + 1;
        assert(enc@ =~= start + lastax_segments(dst, outer, dst_axis, dt, inputs@, i as int));
    }
}

/// The inputs of a join are placed side by side: each starts where the one before it ends.
pub proof fn lemma_join_places_side_by_side(inputs: Seq<(usize, u32)>, i: int)
    requires
        0 <= i,
        i + 1 < inputs.len(),
        axis_before(inputs, inputs.len() as int) <= u32::MAX,
    ensures
        placed(inputs)[0].1 == 0,
        placed(inputs)[i + 1].1 == placed(inputs)[i].1 + placed(inputs)[i].2,
{
    lemma_axis_monotone(inputs, i + 1, inputs.len() as int);
    lemma_axis_monotone(inputs, i, i + 1);
}

/// A general permutation of axes: the output's dimensions and the input's strides in its order.
pub open spec fn transpose_steps(
    src: usize,
    dst: usize,
    total: u32,
    out_dims: Seq<u32>,
    in_strides: Seq<u32>,
    half: bool,
) -> Seq<Cmd> {
    seq![
        Cmd::Pipeline(
            if half {
                Kernel::TransposeNdH
            } else {
                Kernel::TransposeNd
            },
        ),
        Cmd::Buffer(0, Buf::Arena, src as u64),
        Cmd::Buffer(1, Buf::Arena, dst as u64),
        Cmd::U32(2, low_word(out_dims.len() as u64)),
        Cmd::U32(3, total),
    ] + array_steps(4, out_dims + in_strides) + seq![
        Cmd::Threads(one_row(total as u64), Group::ExecWidth(Kernel::TransposeNd, total as u64)),
    ]
}

pub fn encode_transpose(
    enc: &mut Vec<Cmd>,
    src: usize,
    dst: usize,
    total: u32,
    out_dims: &[u32],
    in_strides: &[u32],
    half: bool,
)
    ensures
        final(enc)@ == old(enc)@ + transpose_steps(
            src,
            dst,
            total,
            out_dims@,
            in_strides@,
            half,
        ),
{
    let mut meta: Vec<u32> = Vec::new();
    meta.extend_from_slice(out_dims);
    assert(meta@ =~= out_dims@);
    meta.extend_from_slice(in_strides);
    assert(meta@ =~= out_dims@ + in_strides@);
    let kernel: Kernel = if half {
        Kernel::TransposeNdH
    } else {
        Kernel::TransposeNd
    };
    emit(
        enc,
        vec![
            Cmd::Pipeline(kernel),
            Cmd::Buffer(0, Buf::Arena, src as u64),
            Cmd::Buffer(1, Buf::Arena, dst as u64),
            Cmd::U32(2, low32(out_dims.len() as u64)),
            Cmd::U32(3, total),
        ],
    );
    emit_array(enc, 4, &meta);
    emit(
        enc,
        vec![
            Cmd::Threads(row(total as u64), Group::ExecWidth(Kernel::TransposeNd, total as u64)),
        ],
    );
}

/// The stride of a leading axis where the last two are swapped and all before them are dense.
pub open spec fn swapped_stride(dims: Seq<u32>, axis: int) -> u32
    decreases dims.len() - axis,
{
    let rank = dims.len();
    if axis >= rank - 3 {
        sat_mul(dims[rank - 2], dims[rank - 1])
    } else {
        sat_mul(
            swapped_stride(dims, axis + 1),
            if dims[axis + 1] == 0 {
                1
            } else {
                dims[axis + 1]
            },
        )
    }
}

/// Batch, rows and columns of a swap of the last two axes.
pub open spec fn last2_swap(dims: Seq<u32>, strides: Seq<u32>) -> Option<(u32, u32, u32)> {
    let rank = dims.len() as int;
    if rank < 3 || strides.len() < rank {
        None
    } else if strides[rank - 2] == 1 && strides[rank - 1] == dims[rank - 2] && (forall|i: int|
        0 <= i <= rank - 3 ==> #[trigger] strides[i] == swapped_stride(dims, i)) && size_of(
        dims,
        0,
        rank - 2,
    ) <= u32::MAX {
        Some((size_of(dims, 0, rank - 2) as u32, dims[rank - 1], dims[rank - 2]))
    } else {
        None
    }
}

pub fn detect_last2_batched_swap(out_dims: &[u32], in_strides: &[u32]) -> (r: Option<
    (u32, u32, u32),
>)
    ensures
        r == last2_swap(out_dims@, in_strides@),
{
    let rank: usize = out_dims.len();
    if rank < 3 || in_strides.len() < rank {
        return None;
    }
    let rows: u32 = out_dims[rank - 1];
    let cols: u32 = out_dims[rank - 2];
    if in_strides[rank - 2] != 1 || in_strides[rank - 1] != cols {
        return None;
    }
    let mut tail: u32 = saturating_product(cols, rows);
    if in_strides[rank - 3] != tail {
        assert(in_strides@[rank - 3] != swapped_stride(out_dims@, rank - 3));
        return None;
    }
    let mut i: usize = rank - 3;
    while i > 0
        invariant
            i <= rank - 3,
            3 <= rank <= in_strides@.len(),
            rank == out_dims@.len(),
            tail == swapped_stride(out_dims@, i as int),
            forall|k: int|
                i <= k <= rank - 3 ==> #[trigger] in_strides@[k] == swapped_stride(out_dims@, k),
        decreases i,
    {
        let d: u32 = if out_dims[i] == 0 {
            1
        } else {
            out_dims[i]
        };
        let expected: u32 = saturating_product(tail, d);
        i = i - 1;
        assert(expected == swapped_stride(out_dims@, i as int));
        if in_strides[i] != expected {
            assert(in_strides@[i as int] != swapped_stride(out_dims@, i as int));
            return None;
        }
        tail = expected;
    }
    match size_in_32_bits(out_dims, 0, rank - 2) {
        Some(batch) => Some((batch, rows, cols)),
        None => None,
    }
}

/// Batch, rows, columns and trailing size of a swap of the two middle axes of four.
pub open spec fn middle_swap(dims: Seq<u32>, strides: Seq<u32>) -> Option<(u32, u32, u32, u32)> {
    if dims.len() != 4 || strides.len() != 4 {
        None
    } else {
        let (batch, rows, cols, trail) = (dims[0], dims[1], dims[2], dims[3]);
        if batch != 0 && rows != 0 && cols != 0 && trail != 0 && strides[3] == 1 && strides[1]
            == trail && strides[2] == sat_mul(rows, trail) && strides[0] == sat_mul(
            sat_mul(cols, rows),
            trail,
        ) {
            Some((batch, rows, cols, trail))
        } else {
            None
        }
    }
}

pub fn detect_swap12_batched_trailing(out_dims: &[u32], in_strides: &[u32]) -> (r: Option<
    (u32, u32, u32, u32),
>)
    ensures
        r == middle_swap(out_dims@, in_strides@),
{
    if out_dims.len() != 4 || in_strides.len() != 4 {
        return None;
    }
    let batch: u32 = out_dims[0];
    let rows: u32 = out_dims[1];
    let cols: u32 = out_dims[2];
    let trail: u32 = out_dims[3];
    if batch == 0 || rows == 0 || cols == 0 || trail == 0 {
        return None;
    }
    if in_strides[3] != 1 {
        return None;
    }
    if in_strides[1] != trail {
        return None;
    }
    if in_strides[2] != saturating_product(rows, trail) {
        return None;
    }
    if in_strides[0] != saturating_product(saturating_product(cols, rows), trail) {
        return None;
    }
    Some((batch, rows, cols, trail))
}

/// The first arena offset that a buffer binding cannot reach reliably.
pub const ARENA_LARGE_OFF: u64 = 0x1_0000_0000;

/// Whether an activation lies so far into the arena that its offset has to travel as a constant.
/// Offsets into the weight buffer never do.
pub fn arena_off_large(is_weight: bool, raw: usize) -> (r: bool)
    ensures
        r == (!is_weight && raw as u64 >= ARENA_LARGE_OFF),
{
    !is_weight && raw as u64 >= ARENA_LARGE_OFF
}

} // verus!
