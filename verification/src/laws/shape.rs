//! Gathers, transposes and segments: what each kernel is handed and what its launch covers.

use vstd::prelude::*;

use crate::command::{
    Buf, Cmd, Group, HalfFlag, Kernel, Size, div_up, low_word, max_u64, min_u64, one_row, plane,
};
use crate::encode::elementwise::in_fours;
use crate::encode::shape::{
    NARROW_BATCH_MAX, PendingNarrowBatch, axis_before, concat_lastax_steps, extents, flush_steps,
    gather_axis_steps, gather_steps, join_steps, lastax_segment, lastax_segments, longest,
    midaxis_segment, midaxis_steps, narrow_steps, partitions, placed, segment_words,
    segments_in_fours, segments_words, separate_steps, split_steps, transpose_2d_steps,
    transpose_last2_batched_steps, transpose_steps, transpose_swap12_batched_trailing_steps,
};
use crate::launch::{
    Launch, behind, group_launches, launch, launches, launches_once, lemma_behind_keeps,
    lemma_behind_kernel, lemma_launches_append,
};

verus! {

/// Rows of a table by index. The kernel finds each operand and number of the call at its own slot.
pub proof fn lemma_gather(
    table_buf: Buf,
    table: usize,
    idx_buf: Buf,
    idx: usize,
    dst_buf: Buf,
    dst: usize,
    num_idx: u32,
    trailing: u32,
    dt: HalfFlag,
)
    ensures
        ({
            let s = gather_steps(
                table_buf,
                table,
                idx_buf,
                idx,
                dst_buf,
                dst,
                num_idx,
                trailing,
                dt,
            );
            &&& launches_once(s)
            &&& launch(s).kernel() == Some(
                if dt == HalfFlag::F32 { Kernel::GatherAxis0 } else { Kernel::GatherAxis0H },
            )
            &&& launch(s).place(0) == Some((table_buf, table as u64))
            &&& launch(s).place(1) == Some((idx_buf, idx as u64))
            &&& launch(s).place(2) == Some((dst_buf, dst as u64))
            &&& launch(s).word(3) == Some(num_idx)
            &&& launch(s).word(4) == Some(trailing)
            &&& launch(s).shape == Cmd::Threads(
                plane(trailing as u64, num_idx as u64),
                Group::Fixed(plane(min_u64(16, trailing as u64), min_u64(16, num_idx as u64))),
            )
        }),
{
    broadcast use group_launches;

    let s = gather_steps(table_buf, table, idx_buf, idx, dst_buf, dst, num_idx, trailing, dt);
    assert(launches(s).len() == 1);
}

/// Slices along a middle axis by index. The kernel finds each operand and number of the call at its
/// own slot.
pub proof fn lemma_gather_axis(
    table: usize,
    idx: usize,
    dst: usize,
    outer: u32,
    axis_dim: u32,
    num_idx: u32,
    trailing: u32,
)
    ensures
        ({
            let s = gather_axis_steps(table, idx, dst, outer, axis_dim, num_idx, trailing);
            &&& launches_once(s)
            &&& launch(s).kernel() == Some(Kernel::GatherAxis)
            &&& launch(s).place(0) == Some((Buf::Arena, table as u64))
            &&& launch(s).place(1) == Some((Buf::Arena, idx as u64))
            &&& launch(s).place(2) == Some((Buf::Arena, dst as u64))
            &&& launch(s).word(3) == Some(outer)
            &&& launch(s).word(4) == Some(axis_dim)
            &&& launch(s).word(5) == Some(num_idx)
            &&& launch(s).word(6) == Some(trailing)
            &&& launch(s).shape == Cmd::Threads(
                Size { width: trailing as u64, height: num_idx as u64, depth: outer as u64 },
                Group::Fixed(
                    plane(
                        max_u64(min_u64(32, trailing as u64), 1),
                        min_u64(
                            max_u64(32u64 / max_u64(min_u64(32, trailing as u64), 1), 1),
                            num_idx as u64,
                        ),
                    ),
                ),
            )
        }),
{
    broadcast use group_launches;

    let s = gather_axis_steps(table, idx, dst, outer, axis_dim, num_idx, trailing);
    assert(launches(s).len() == 1);
}

/// Swaps the two middle axes of four, in 32 by 32 tiles where both are long enough. The kernel
/// finds each operand and number of the call at its own slot.
pub proof fn lemma_transpose_swap12_batched_trailing(
    src: usize,
    dst: usize,
    batch: u32,
    rows: u32,
    cols: u32,
    trail: u32,
)
    ensures
        ({
            let s = transpose_swap12_batched_trailing_steps(src, dst, batch, rows, cols, trail);
            &&& launches_once(s)
            &&& launch(s).place(0) == Some((Buf::Arena, src as u64))
            &&& launch(s).place(1) == Some((Buf::Arena, dst as u64))
            &&& launch(s).word(2) == Some(batch)
            &&& launch(s).word(3) == Some(rows)
            &&& launch(s).word(4) == Some(cols)
            &&& launch(s).word(5) == Some(trail)
            &&& rows >= 32 && cols >= 32 ==> {
                &&& launch(s).kernel() == Some(Kernel::TransposeSwap12BatchedTrailTiledF32)
                &&& launch(s).shape == Cmd::Groups(
                    Size {
                        width: div_up(
                            rows as u64,
                            32,
                        ), height: div_up(cols as u64, 32), depth: (batch * trail) as u64,
                    },
                    plane(32, 8),
                )
            }
            &&& !(rows >= 32 && cols >= 32) ==> {
                &&& launch(s).kernel() == Some(Kernel::TransposeSwap12BatchedTrailF32)
                &&& launch(s).shape == Cmd::Threads(
                    Size { width: rows as u64, height: cols as u64, depth: (batch * trail) as u64 },
                    Group::Fixed(plane(min_u64(16, rows as u64), min_u64(16, cols as u64))),
                )
            }
        }),
{
    broadcast use group_launches;

    let s = transpose_swap12_batched_trailing_steps(src, dst, batch, rows, cols, trail);
    if rows >= 32 && cols >= 32 {
        assert(launches(s).len() == 1);
    } else if !(rows >= 32 && cols >= 32) {
        assert(launches(s).len() == 1);
    }
}

/// Transposes a matrix, in 32 by 32 tiles where both sides are long enough. The kernel finds each
/// operand and number of the call at its own slot.
pub proof fn lemma_transpose_2d(src: usize, dst: usize, rows: u32, cols: u32)
    ensures
        ({
            let s = transpose_2d_steps(src, dst, rows, cols);
            &&& launches_once(s)
            &&& launch(s).kernel() == Some(
                if rows >= 32 && cols >= 32 {
                    Kernel::Transpose2dTiledF32
                } else { Kernel::Transpose2dF32 },
            )
            &&& launch(s).place(0) == Some((Buf::Arena, src as u64))
            &&& launch(s).place(1) == Some((Buf::Arena, dst as u64))
            &&& launch(s).word(2) == Some(rows)
            &&& launch(s).word(3) == Some(cols)
            &&& rows >= 32 && cols >= 32 ==> {
                &&& launch(s).shape == Cmd::Groups(
                    plane(div_up(rows as u64, 32), div_up(cols as u64, 32)),
                    plane(32, 8),
                )
            }
            &&& !(rows >= 32 && cols >= 32) ==> {
                &&& launch(s).shape == Cmd::Threads(
                    plane(rows as u64, cols as u64),
                    Group::ExecTile(Kernel::Transpose2dF32, cols as u64, rows as u64),
                )
            }
        }),
{
    broadcast use group_launches;

    let s = transpose_2d_steps(src, dst, rows, cols);
    if rows >= 32 && cols >= 32 {
        assert(launches(s).len() == 1);
    } else if !(rows >= 32 && cols >= 32) {
        assert(launches(s).len() == 1);
    }
}

/// Transposes every matrix of a batch. The kernel finds each operand and number of the call at its
/// own slot.
pub proof fn lemma_transpose_last2_batched(src: usize, dst: usize, batch: u32, rows: u32, cols: u32)
    ensures
        ({
            let s = transpose_last2_batched_steps(src, dst, batch, rows, cols);
            &&& launches_once(s)
            &&& launch(s).kernel() == Some(
                if rows >= 32 && cols >= 32 {
                    Kernel::TransposeLast2BatchedTiledF32
                } else { Kernel::TransposeLast2BatchedF32 },
            )
            &&& launch(s).place(0) == Some((Buf::Arena, src as u64))
            &&& launch(s).place(1) == Some((Buf::Arena, dst as u64))
            &&& launch(s).word(2) == Some(batch)
            &&& launch(s).word(3) == Some(rows)
            &&& launch(s).word(4) == Some(cols)
            &&& rows >= 32 && cols >= 32 ==> {
                &&& launch(s).shape == Cmd::Groups(
                    Size {
                        width: div_up(
                            rows as u64,
                            32,
                        ), height: div_up(cols as u64, 32), depth: batch as u64,
                    },
                    plane(32, 8),
                )
            }
            &&& !(rows >= 32 && cols >= 32) ==> {
                &&& launch(s).shape == Cmd::Threads(
                    Size { width: rows as u64, height: cols as u64, depth: batch as u64 },
                    Group::ExecTile(Kernel::TransposeLast2BatchedF32, rows as u64, cols as u64),
                )
            }
        }),
{
    broadcast use group_launches;

    let s = transpose_last2_batched_steps(src, dst, batch, rows, cols);
    if rows >= 32 && cols >= 32 {
        assert(launches(s).len() == 1);
    } else if !(rows >= 32 && cols >= 32) {
        assert(launches(s).len() == 1);
    }
}

/// Encodes one slice along the last axis. The kernel finds each operand and number of the call at
/// its own slot.
pub proof fn lemma_narrow(
    src: usize,
    dst: usize,
    outer: u32,
    src_axis: u32,
    start: u32,
    len: u32,
    dt: HalfFlag,
)
    ensures
        ({
            let s = narrow_steps(src, dst, outer, src_axis, start, len, dt);
            let fours = dt == HalfFlag::F32 && start % 4 == 0 && src_axis % 4 == 0 && in_fours(len);
            let unit = if fours { 4u32 } else { 1u32 };
            let kernel = if fours {
                Kernel::NarrowLastax4
            } else if dt == HalfFlag::F32 { Kernel::NarrowLastax } else { Kernel::NarrowLastaxH };
            let wide = if dt == HalfFlag::F32 { 64u64 } else { 32u64 };
            let high = if fours { 4u64 } else { 8u64 };
            &&& launches_once(s)
            &&& launch(s).kernel() == Some(kernel)
            &&& launch(s).place(0) == Some((Buf::Arena, 0u64))
            &&& launch(s).place(1) == Some((Buf::Arena, 0u64))
            &&& launch(s).word(2) == Some(outer)
            &&& launch(s).word(3) == Some(src_axis / unit)
            &&& launch(s).word(4) == Some(start / unit)
            &&& launch(s).word(5) == Some(len / unit)
            &&& launch(s).long(6) == Some(src as u64)
            &&& launch(s).long(7) == Some(dst as u64)
            &&& launch(s).shape == Cmd::Threads(
                plane((len / unit) as u64, outer as u64),
                Group::Fixed(plane(min_u64(wide, (len / unit) as u64), min_u64(high, outer as u64))),
            )
        }),
{
    broadcast use group_launches;

    let s = narrow_steps(src, dst, outer, src_axis, start, len, dt);
    let fours = dt == HalfFlag::F32 && start % 4 == 0 && src_axis % 4 == 0 && in_fours(len);
    let unit = if fours { 4u32 } else { 1u32 };
    let kernel = if fours {
        Kernel::NarrowLastax4
    } else if dt == HalfFlag::F32 { Kernel::NarrowLastax } else { Kernel::NarrowLastaxH };
    let wide = if dt == HalfFlag::F32 { 64u64 } else { 32u64 };
    let high = if fours { 4u64 } else { 8u64 };
    assert(launches(s).len() == 1);
}

/// The kernel finds each operand and number of the call at its own slot.
pub proof fn lemma_transpose(
    src: usize,
    dst: usize,
    total: u32,
    out_dims: Seq<u32>,
    in_strides: Seq<u32>,
    half: bool,
)
    ensures
        ({
            let s = transpose_steps(src, dst, total, out_dims, in_strides, half);
            &&& launches_once(s)
            &&& launch(s).kernel() == Some(
                if half { Kernel::TransposeNdH } else { Kernel::TransposeNd },
            )
            &&& launch(s).place(0) == Some((Buf::Arena, src as u64))
            &&& launch(s).place(1) == Some((Buf::Arena, dst as u64))
            &&& launch(s).word(2) == Some(low_word(out_dims.len() as u64))
            &&& launch(s).word(3) == Some(total)
            &&& launch(s).words(4) == Some(out_dims + in_strides)
            &&& launch(s).shape == Cmd::Threads(
                one_row(total as u64),
                Group::ExecWidth(Kernel::TransposeNd, total as u64),
            )
        }),
{
    broadcast use group_launches;

    let s = transpose_steps(src, dst, total, out_dims, in_strides, half);
    assert(launches(s).len() == 1);
}

/// Values that one element of a kernel on segments or slices stands for.
pub open spec fn unit_of(kernel: Kernel) -> int {
    match kernel {
        Kernel::NarrowLastax4
        | Kernel::SplitLastax4
        | Kernel::ConcatLastaxMulti4
        | Kernel::ConcatSegmentLastax4 => 4,
        _ => 1,
    }
}

/// A slice is told of the source's axis, its start and its length in elements of the kernel; in
/// values these are the call's. Its threads are its elements.
pub proof fn lemma_narrow_in_values(
    src: usize,
    dst: usize,
    outer: u32,
    src_axis: u32,
    start: u32,
    len: u32,
    dt: HalfFlag,
)
    ensures
        narrows(
            launch(narrow_steps(src, dst, outer, src_axis, start, len, dt)),
            src,
            dst,
            outer,
            src_axis,
            start,
            len,
            dt,
        ),
        launches_once(narrow_steps(src, dst, outer, src_axis, start, len, dt)),
{
    broadcast use group_launches;

    assert(launches_once(narrow_steps(src, dst, outer, src_axis, start, len, dt)));
}

/// A launch that takes `len` values from `start` on out of each of `outer` rows of `src_axis` values.
pub open spec fn narrows(
    l: Launch,
    src: usize,
    dst: usize,
    outer: u32,
    src_axis: u32,
    start: u32,
    len: u32,
    dt: HalfFlag,
) -> bool {
    let unit = unit_of(l.kernel()->0);
    &&& l.kernel() is Some
    &&& l.kernel()->0 == Kernel::NarrowLastaxH <==> dt == HalfFlag::F16
    &&& l.kernel()->0 == Kernel::NarrowLastax || l.kernel()->0 == Kernel::NarrowLastax4
        || l.kernel()->0 == Kernel::NarrowLastaxH
    &&& l.place(0) == Some((Buf::Arena, 0u64))
    &&& l.place(1) == Some((Buf::Arena, 0u64))
    &&& l.word(2) == Some(outer)
    &&& l.word(3) is Some && l.word(3)->0 * unit == src_axis
    &&& l.word(4) is Some && l.word(4)->0 * unit == start
    &&& l.word(5) is Some && l.word(5)->0 * unit == len
    &&& l.long(6) == Some(src as u64)
    &&& l.long(7) == Some(dst as u64)
    &&& l.threads() == Some(plane(l.word(5)->0 as u64, outer as u64))
}

/// A segment takes four words: its byte offset, low half first, and its two numbers.
pub proof fn lemma_segment_words(s: Seq<(usize, u32, u32)>, i: int)
    requires
        0 <= i < s.len(),
    ensures
        segments_words(s).len() == 4 * s.len(),
        segments_words(s)[4 * i] + segments_words(s)[4 * i + 1] * 0x1_0000_0000 == s[i].0,
        segments_words(s)[4 * i + 2] == s[i].1,
        segments_words(s)[4 * i + 3] == s[i].2,
    decreases s.len(),
{
    lemma_segment_count(s);
    lemma_segment_count(s.drop_last());
    let last = s.last();
    let w = segment_words(last.0, last.1, last.2);
    if i < s.len() - 1 {
        lemma_segment_words(s.drop_last(), i);
    } else {
        assert(segments_words(s)[4 * i] == w[0]);
        assert(segments_words(s)[4 * i + 1] == w[1]);
        assert(segments_words(s)[4 * i + 2] == w[2]);
        assert(segments_words(s)[4 * i + 3] == w[3]);
    }
}

proof fn lemma_segment_count(s: Seq<(usize, u32, u32)>)
    ensures
        segments_words(s).len() == 4 * s.len(),
    decreases s.len(),
{
    if s.len() > 0 {
        lemma_segment_count(s.drop_last());
    }
}

/// No segment is longer than the longest, and one is as long.
pub proof fn lemma_longest(s: Seq<(usize, u32, u32)>)
    ensures
        forall|i: int| 0 <= i < s.len() ==> (#[trigger] s[i]).2 <= longest(s),
        s.len() > 0 ==> exists|i: int| 0 <= i < s.len() && (#[trigger] s[i]).2 == longest(s),
        s.len() == 0 ==> longest(s) == 0,
    decreases s.len(),
{
    if s.len() > 0 {
        let t = s.drop_last();
        lemma_longest(t);
        assert forall|i: int| 0 <= i < s.len() implies (#[trigger] s[i]).2 <= longest(s) by {
            if i < t.len() {
                assert(t[i] == s[i]);
            }
        }
        if longest(t) >= s.last().2 && t.len() > 0 {
            let i = choose|i: int| 0 <= i < t.len() && (#[trigger] t[i]).2 == longest(t);
            assert(s[i].2 == longest(s));
        } else {
            assert(s[s.len() - 1].2 == longest(s));
        }
    }
}

/// The threads of a launch over segments reach every value of every segment in every row.
pub open spec fn reaches_segments(l: Launch, s: Seq<(usize, u32, u32)>, outer: u32) -> bool {
    let unit = unit_of(l.kernel()->0);
    &&& l.kernel() is Some
    &&& l.threads() is Some
    &&& (l.threads()->0).height == outer
    &&& (l.threads()->0).depth == low_word(s.len() as u64)
    &&& forall|i: int|
        0 <= i < s.len() ==> (#[trigger] s[i]).2 <= (l.threads()->0).width * unit
    &&& unit == 4 ==> segments_in_fours(s)
}

/// A batch of slices in one pass: the source, its rows and axis, and where each slice goes.
pub proof fn lemma_split(b: PendingNarrowBatch)
    ensures
        ({
            let s = b.segments@;
            let l = launch(split_steps(b));
            &&& launches_once(split_steps(b))
            &&& l.kernel() == Some(Kernel::SplitLastax) || l.kernel() == Some(Kernel::SplitLastax4)
            &&& l.place(0) == Some((Buf::Arena, 0u64))
            &&& l.place(1) == Some((Buf::Arena, 0u64))
            &&& l.word(2) == Some(b.outer)
            &&& l.word(3) is Some && l.word(3)->0 * unit_of(l.kernel()->0) == b.src_axis
            &&& l.word(4) == Some(low_word(s.len() as u64))
            &&& l.words(5) == Some(segments_words(s))
            &&& l.long(6) == Some(b.src as u64)
            &&& reaches_segments(l, s, b.outer)
        }),
{
    broadcast use group_launches;

    let s = b.segments@;
    lemma_longest(s);
    assert(launches_once(split_steps(b)));
    if b.src_axis % 4 == 0 && segments_in_fours(s) {
        assert forall|i: int| 0 <= i < s.len() implies (#[trigger] s[i]).2 <= (longest(s) / 4) * 4 by {
            let j = choose|j: int| 0 <= j < s.len() && (#[trigger] s[j]).2 == longest(s);
            assert(s[j].2 % 4 == 0);
        }
    }
}

/// Slices one by one: the launch of each takes the values of its own segment.
pub proof fn lemma_separate(b: PendingNarrowBatch, n: int)
    requires
        0 <= n <= b.segments@.len(),
    ensures
        launches(separate_steps(b, n)).len() == n,
        forall|i: int|
            0 <= i < n ==> narrows(
                #[trigger] launches(separate_steps(b, n))[i],
                b.src,
                b.segments@[i].0,
                b.outer,
                b.src_axis,
                b.segments@[i].1,
                b.segments@[i].2,
                b.dt,
            ),
    decreases n,
{
    if n > 0 {
        let (dst, start, len) = b.segments@[n - 1];
        let a = separate_steps(b, n - 1);
        let c = narrow_steps(b.src, dst, b.outer, b.src_axis, start, len, b.dt);
        lemma_separate(b, n - 1);
        lemma_narrow_in_values(b.src, dst, b.outer, b.src_axis, start, len, b.dt);
        lemma_launches_append(a, c);
        assert(launches(c)[0] == launch(c));
        assert(launches(a + c)[n - 1] == behind(a, launch(c)));
        assert(narrows(
            behind(a, launch(c)),
            b.src,
            dst,
            b.outer,
            b.src_axis,
            start,
            len,
            b.dt,
        )) by {
            broadcast use {lemma_behind_keeps, lemma_behind_kernel};

        }
        assert forall|i: int| 0 <= i < n implies narrows(
            #[trigger] launches(separate_steps(b, n))[i],
            b.src,
            b.segments@[i].0,
            b.outer,
            b.src_axis,
            b.segments@[i].1,
            b.segments@[i].2,
            b.dt,
        ) by {
            if i < n - 1 {
                assert(launches(a + c)[i] == launches(a)[i]);
            }
        }
    }
}

/// A waiting batch runs as one pass exactly where it has two slices or more that partition the axis,
/// and otherwise slice by slice; where nothing waits nothing runs.
pub proof fn lemma_flush(b: PendingNarrowBatch)
    ensures
        flush_steps(None).len() == 0,
        b.segments@.len() >= 2 && partitions(b.src_axis, extents(b.segments@)) ==> flush_steps(Some(b))
            == split_steps(b),
        !(b.segments@.len() >= 2 && partitions(b.src_axis, extents(b.segments@))) ==> flush_steps(
            Some(b),
        ) == separate_steps(b, b.segments@.len() as int),
{
}

/// Each input of a join starts where the one before it ends.
pub proof fn lemma_columns_in_order(inputs: Seq<(usize, u32)>, i: int)
    requires
        0 <= i < inputs.len(),
    ensures
        axis_before(inputs, 0) == 0,
        axis_before(inputs, i + 1) == axis_before(inputs, i) + inputs[i].1,
{
}

/// A launch that writes one input of a join along a middle axis into its columns.
pub open spec fn joins_middle(
    l: Launch,
    dst: usize,
    outer: u32,
    dst_axis: u32,
    inner: u32,
    src: usize,
    src_axis: u32,
    column: int,
) -> bool {
    &&& l.place(0) == Some((Buf::Arena, 0u64))
    &&& l.long(1) == Some(dst as u64)
    &&& l.long(2) == Some(src as u64)
    &&& l.word(3) == Some(outer)
    &&& l.word(4) == Some(dst_axis)
    &&& l.word(5) == Some(src_axis)
    &&& l.word(6) == Some(inner)
    &&& l.word(7) is Some && l.word(7)->0 == column
    &&& l.threads() == Some(one_row((outer * src_axis * inner) as u64))
}

/// What a kernel of a join along a middle axis reads, and what it leaves.
pub open spec fn middle_from(kernel: Kernel) -> HalfFlag {
    if kernel == Kernel::ConcatMidaxisSegH || kernel == Kernel::ConcatMidaxisSegF16ToF32 {
        HalfFlag::F16
    } else {
        HalfFlag::F32
    }
}

pub open spec fn middle_to(kernel: Kernel) -> HalfFlag {
    if kernel == Kernel::ConcatMidaxisSegH || kernel == Kernel::ConcatMidaxisSegF32ToF16 {
        HalfFlag::F16
    } else {
        HalfFlag::F32
    }
}

/// One input of a join along a middle axis goes behind the inputs before it, and is read in its own
/// precision and left in that of the result.
pub proof fn lemma_middle_segment(
    dst: usize,
    outer: u32,
    dst_axis: u32,
    inner: u32,
    dt: HalfFlag,
    inputs: Seq<(usize, u32)>,
    input_dts: Seq<HalfFlag>,
    i: int,
)
    requires
        0 <= i < inputs.len(),
        0 <= axis_before(inputs, i) <= u32::MAX,
        0 <= outer * inputs[i].1 * inner <= u64::MAX,
    ensures
        ({
            let t = midaxis_segment(dst, outer, dst_axis, inner, dt, inputs, input_dts, i);
            let l = launch(t);
            &&& outer * inputs[i].1 * inner == 0 ==> t.len() == 0
            &&& outer * inputs[i].1 * inner > 0 ==> {
                &&& launches_once(t)
                &&& l.kernel() is Some
                &&& middle_to(l.kernel()->0) == dt
                &&& i < input_dts.len() ==> middle_from(l.kernel()->0) == input_dts[i]
                &&& i >= input_dts.len() ==> middle_from(l.kernel()->0) == dt
                &&& joins_middle(
                    l,
                    dst,
                    outer,
                    dst_axis,
                    inner,
                    inputs[i].0,
                    inputs[i].1,
                    axis_before(inputs, i),
                )
            }
        }),
{
    broadcast use group_launches;

    let t = midaxis_segment(dst, outer, dst_axis, inner, dt, inputs, input_dts, i);
    if outer * inputs[i].1 * inner > 0 {
        assert(launches_once(t));
    }
}

/// The parts of a join along a middle axis follow each other in the order of the inputs.
pub proof fn lemma_middle_in_order(
    dst: usize,
    outer: u32,
    dst_axis: u32,
    inner: u32,
    dt: HalfFlag,
    inputs: Seq<(usize, u32)>,
    input_dts: Seq<HalfFlag>,
    n: int,
)
    requires
        0 <= n,
    ensures
        midaxis_steps(dst, outer, dst_axis, inner, dt, inputs, input_dts, 0).len() == 0,
        midaxis_steps(dst, outer, dst_axis, inner, dt, inputs, input_dts, n + 1) == midaxis_steps(
            dst,
            outer,
            dst_axis,
            inner,
            dt,
            inputs,
            input_dts,
            n,
        ) + midaxis_segment(dst, outer, dst_axis, inner, dt, inputs, input_dts, n),
{
}

/// One input of a join along the last axis goes into the columns behind the inputs before it. All
/// counts are in elements of the kernel; in values they are the call's.
pub proof fn lemma_last_segment(
    dst: usize,
    outer: u32,
    dst_axis: u32,
    dt: HalfFlag,
    inputs: Seq<(usize, u32)>,
    i: int,
)
    requires
        0 <= i < inputs.len(),
        0 <= axis_before(inputs, i) <= u32::MAX,
    ensures
        ({
            let t = lastax_segment(dst, outer, dst_axis, dt, inputs, i);
            let l = launch(t);
            let unit = unit_of(l.kernel()->0);
            &&& launches_once(t)
            &&& l.kernel() is Some
            &&& l.kernel()->0 == Kernel::ConcatSegmentLastaxH <==> dt == HalfFlag::F16
            &&& l.kernel()->0 == Kernel::ConcatSegmentLastax || l.kernel()->0
                == Kernel::ConcatSegmentLastax4 || l.kernel()->0 == Kernel::ConcatSegmentLastaxH
            &&& l.place(0) == Some((Buf::Arena, 0u64))
            &&& l.place(1) == Some((Buf::Arena, 0u64))
            &&& l.word(2) == Some(outer)
            &&& l.word(3) is Some && l.word(3)->0 * unit == inputs[i].1
            &&& l.word(4) is Some && l.word(4)->0 * unit == dst_axis
            &&& l.word(5) is Some && l.word(5)->0 * unit == axis_before(inputs, i)
            &&& l.long(6) == Some(inputs[i].0 as u64)
            &&& l.long(7) == Some(dst as u64)
            &&& l.threads() == Some(plane(l.word(3)->0 as u64, outer as u64))
        }),
{
    broadcast use group_launches;

    assert(launches_once(lastax_segment(dst, outer, dst_axis, dt, inputs, i)));
}

/// A join along the last axis in one pass is handed the result, its rows and axis, and each input
/// with its column and length.
pub proof fn lemma_join(dst: usize, outer: u32, dst_axis: u32, inputs: Seq<(usize, u32)>)
    ensures
        ({
            let s = placed(inputs);
            let l = launch(join_steps(dst, outer, dst_axis, inputs));
            &&& launches_once(join_steps(dst, outer, dst_axis, inputs))
            &&& l.kernel() == Some(Kernel::ConcatLastaxMulti) || l.kernel() == Some(
                Kernel::ConcatLastaxMulti4,
            )
            &&& l.place(0) == Some((Buf::Arena, 0u64))
            &&& l.long(1) == Some(dst as u64)
            &&& l.word(2) == Some(outer)
            &&& l.word(3) is Some && l.word(3)->0 * unit_of(l.kernel()->0) == dst_axis
            &&& l.word(4) == Some(low_word(inputs.len() as u64))
            &&& l.words(5) == Some(segments_words(s))
            &&& reaches_segments(l, s, outer)
            &&& s.len() == inputs.len()
            &&& forall|i: int|
                0 <= i < s.len() ==> (#[trigger] s[i]).0 == inputs[i].0 && s[i].2 == inputs[i].1
                    && s[i].1 == axis_before(inputs, i) as u32
        }),
{
    broadcast use group_launches;

    let s = placed(inputs);
    lemma_longest(s);
    assert(launches_once(join_steps(dst, outer, dst_axis, inputs)));
    if dst_axis % 4 == 0 && segments_in_fours(s) {
        assert forall|i: int| 0 <= i < s.len() implies (#[trigger] s[i]).2 <= (longest(s) / 4) * 4 by {
            let j = choose|j: int| 0 <= j < s.len() && (#[trigger] s[j]).2 == longest(s);
            assert(s[j].2 % 4 == 0);
        }
    }
}

/// A join along the last axis runs at once for two or more single-precision inputs, as many as a
/// batch may have, where that is on; otherwise input by input in order.
pub proof fn lemma_join_parts(
    dst: usize,
    outer: u32,
    dst_axis: u32,
    dt: HalfFlag,
    inputs: Seq<(usize, u32)>,
    enabled: bool,
    n: int,
)
    requires
        0 <= n,
    ensures
        enabled && dt == HalfFlag::F32 && 2 <= inputs.len() <= NARROW_BATCH_MAX
            ==> concat_lastax_steps(dst, outer, dst_axis, dt, inputs, enabled) == join_steps(
            dst,
            outer,
            dst_axis,
            inputs,
        ),
        !(enabled && dt == HalfFlag::F32 && 2 <= inputs.len() <= NARROW_BATCH_MAX)
            ==> concat_lastax_steps(dst, outer, dst_axis, dt, inputs, enabled) == lastax_segments(
            dst,
            outer,
            dst_axis,
            dt,
            inputs,
            inputs.len() as int,
        ),
        lastax_segments(dst, outer, dst_axis, dt, inputs, 0).len() == 0,
        lastax_segments(dst, outer, dst_axis, dt, inputs, n + 1) == lastax_segments(
            dst,
            outer,
            dst_axis,
            dt,
            inputs,
            n,
        ) + lastax_segment(dst, outer, dst_axis, dt, inputs, n),
{
}

} // verus!
