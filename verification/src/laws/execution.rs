//! Parameters, handles and runs: data goes to the place of its name, in full and no further, and comes
//! back from there.

use vstd::prelude::*;

use crate::command::Buf;
use crate::executable::{
    arena_copies, capacity, encoding_of, fed_nodes, feed_copies, feeds_input, held_handles,
    nth_copy, param_copy, param_write, prefix_copies, prefix_elems, row_elems, same_layout,
    smaller, MetalExecutable, ParamCopy, ParamWrite, PrefixCopy, RowCopy, RowPlan, WeightEncoding,
    WeightParamSlot,
};
use crate::graph::DType;
use crate::name_map::{overlaid, NameMap};
use crate::run::{
    handle_source, handle_writes, input_place, mirrored_len, mirrored_outputs, named_writes,
    route_of, routed_writes, written_from_host, HandleSource, HostWrite, TypedRoute,
};

verus! {

/// Data of a parameter goes to the weight buffer where the parameter has a slot there, otherwise to
/// its place in the arena, and nowhere without a place. Of data that is longer than the slot, the
/// part that fits is written, and all of shorter data.
pub proof fn lemma_param_write(
    exe: MetalExecutable,
    name: Seq<char>,
    len: usize,
    room: spec_fn(WeightParamSlot) -> usize,
)
    ensures
        ({
            let id = exe.param_ids.value(name);
            match param_write(exe, name, len, room) {
                ParamWrite::Nowhere => !exe.param_ids.has(name) || (exe.weight_slots@[id as int] is None
                    && exe.arena@[id as int] is None),
                ParamWrite::Weights(slot, n) => {
                    &&& exe.param_ids.has(name)
                    &&& exe.weight_slots@[id as int] == Some(slot)
                    &&& n <= len && n <= room(slot)
                    &&& n == len || n == room(slot)
                },
                ParamWrite::Arena(node) => {
                    &&& exe.param_ids.has(name)
                    &&& exe.weight_slots@[id as int] is None
                    &&& exe.arena@[id as int] is Some
                    &&& node == id
                },
            }
        }),
{
}

/// A parameter is stored in the precision of its slot, and lies in the buffer that has the slot.
pub proof fn lemma_param_storage(exe: MetalExecutable, name: Seq<char>, id: int)
    ensures
        exe.storage_dtype(name) is Some <==> exe.param_ids.has(name) && (
        exe.weight_slots@[exe.param_ids.value(name) as int] is Some
            || exe.arena@[exe.param_ids.value(name) as int] is Some),
        exe.param_ids.has(name) && exe.weight_slots@[exe.param_ids.value(name) as int] is Some
            ==> exe.storage_dtype(name) == Some(
            exe.weight_slots@[exe.param_ids.value(name) as int]->0.dtype,
        ),
        exe.param_ids.has(name) && exe.weight_slots@[exe.param_ids.value(name) as int] is None
            && exe.arena@[exe.param_ids.value(name) as int] is Some ==> exe.storage_dtype(name)
            == Some(exe.arena@[exe.param_ids.value(name) as int]->0.dtype),
        exe.param_place(id).0 == Buf::Weights <==> exe.weight_slots@[id] is Some,
        exe.param_place(id).0 == Buf::Arena <==> exe.weight_slots@[id] is None,
        exe.weight_slots@[id] matches Some(slot) ==> exe.param_place(id).1 == slot.offset,
        exe.weight_slots@[id] is None && exe.arena@[id] is Some ==> exe.param_place(id).1
            == exe.arena@[id]->0.byte_offset,
{
}

/// A parameter can be copied between two executables exactly where it can be copied back, and the
/// copy back is the same with both ends exchanged. The two slots are equally large.
pub proof fn lemma_copies_go_both_ways(
    here: MetalExecutable,
    there: MetalExecutable,
    dst: usize,
    src: usize,
)
    ensures
        match param_copy(here, there, dst, src) {
            Some(ParamCopy::Weights { src: s, dst: d, nbytes }) => {
                &&& param_copy(there, here, src, dst) == Some(
                    ParamCopy::Weights { src: d, dst: s, nbytes },
                )
                &&& here.weight_slots@[dst as int]->0.offset == d
                &&& there.weight_slots@[src as int]->0.offset == s
                &&& here.weight_slots@[dst as int]->0.nbytes == nbytes
                &&& there.weight_slots@[src as int]->0.nbytes == nbytes
                &&& here.weight_slots@[dst as int]->0.dtype == there.weight_slots@[src as int]->0.dtype
            },
            Some(ParamCopy::Arena { src: s, dst: d }) => {
                &&& param_copy(there, here, src, dst) == Some(ParamCopy::Arena { src: d, dst: s })
                &&& d == dst && s == src
                &&& capacity(here, dst as int) == capacity(there, src as int)
                &&& here.arena@[dst as int] is Some && there.arena@[src as int] is Some
            },
            None => param_copy(there, here, src, dst) is None,
        },
        param_copy(here, here, dst, dst) is Some <==> here.weight_slots@[dst as int] is Some
            || here.arena@[dst as int] is Some,
{
}

/// Where a parameter of the weight buffer lies alike in both, its copy leaves it where it lies.
pub proof fn lemma_same_layout_needs_no_move(here: MetalExecutable, there: MetalExecutable, i: int)
    requires
        same_layout(here, there, i),
        here.weight_slots@[here.param_ids.items()[i] as int] is Some,
    ensures
        nth_copy(here, there, i) matches Some(ParamCopy::Weights { src, dst, nbytes }) && src == dst,
{
}

/// Only parameters outside the weight buffer are copied when weights are shared, in order.
pub proof fn lemma_arena_copies(here: MetalExecutable, there: MetalExecutable, n: nat)
    ensures
        arena_copies(here, there, 0).len() == 0,
        here.weight_slots@[here.param_ids.items()[n as int] as int] is Some ==> arena_copies(
            here,
            there,
            n + 1,
        ) == arena_copies(here, there, n),
        here.weight_slots@[here.param_ids.items()[n as int] as int] is None ==> arena_copies(
            here,
            there,
            n + 1,
        ) == arena_copies(here, there, n).push(nth_copy(here, there, n as int)->0),
{
}

/// The handles that are kept for a copy are those that hold something, in order.
pub proof fn lemma_held_handles(handles: NameMap<usize>, n: nat, i: int)
    requires
        0 <= i < n,
        n <= usize::MAX,
    ensures
        held_handles(handles, n).contains(i as usize) <==> handles.items()[i] > 0,
        forall|k: int|
            0 <= k < held_handles(handles, n).len() ==> (#[trigger] held_handles(handles, n)[k]) < n,
        forall|k: int, m: int|
            0 <= k < m < held_handles(handles, n).len() ==> (#[trigger] held_handles(handles, n)[k])
                < (#[trigger] held_handles(handles, n)[m]),
    decreases n,
{
    lemma_held_below(handles, n);
    let t = held_handles(handles, (n - 1) as nat);
    let s = held_handles(handles, n);
    lemma_held_below(handles, (n - 1) as nat);
    if i < n - 1 {
        lemma_held_handles(handles, (n - 1) as nat, i);
        if t.contains(i as usize) {
            let k = choose|k: int| 0 <= k < t.len() && t[k] == i as usize;
            assert(s[k] == i as usize);
        }
        if s.contains(i as usize) {
            let k = choose|k: int| 0 <= k < s.len() && s[k] == i as usize;
            assert(k < t.len());
            assert(t[k] == i as usize);
        }
    } else {
        if handles.items()[i] > 0 {
            assert(s[s.len() - 1] == i as usize);
        } else if s.contains(i as usize) {
            let k = choose|k: int| 0 <= k < s.len() && s[k] == i as usize;
            assert(t[k] < n - 1);
        }
    }
}

proof fn lemma_held_below(handles: NameMap<usize>, n: nat)
    requires
        n <= usize::MAX,
    ensures
        forall|k: int|
            0 <= k < held_handles(handles, n).len() ==> (#[trigger] held_handles(handles, n)[k]) < n,
        forall|k: int, m: int|
            0 <= k < m < held_handles(handles, n).len() ==> (#[trigger] held_handles(handles, n)[k])
                < (#[trigger] held_handles(handles, n)[m]),
    decreases n,
{
    if n > 0 {
        lemma_held_below(handles, (n - 1) as nat);
        let t = held_handles(handles, (n - 1) as nat);
        let s = held_handles(handles, n);
        assert forall|k: int| 0 <= k < s.len() implies (#[trigger] s[k]) < n by {
            if k < t.len() {
                assert(t[k] < n - 1);
            }
        }
        assert forall|k: int, m: int| 0 <= k < m < s.len() implies (#[trigger] s[k]) < (
        #[trigger] s[m]) by {
            assert(t[k] < n - 1);
            if m < t.len() {
                assert(t[k] < t[m]);
            }
        }
    }
}

/// Weights are written in the precision of their slot.
pub proof fn lemma_encoding(dtype: DType)
    ensures
        encoding_of(dtype) == WeightEncoding::Half <==> dtype == DType::F16,
        encoding_of(dtype) == WeightEncoding::Brain <==> dtype == DType::BF16,
        encoding_of(dtype) == WeightEncoding::Single <==> dtype != DType::F16 && dtype != DType::BF16,
{
}

/// The smaller of two.
pub proof fn lemma_smaller(a: usize, b: usize)
    ensures
        smaller(a, b) <= a && smaller(a, b) <= b,
        smaller(a, b) == a || smaller(a, b) == b,
{
}

/// Batch elements are a whole sequence apart on both sides; within one, the row that is read and the
/// row that is written are the rows asked for.
pub proof fn lemma_row_places(p: RowPlan, b: int)
    requires
        0 <= b,
    ensures
        p.src_elem(0) == p.src_row * p.row_elems,
        p.src_elem(b + 1) - p.src_elem(b) == p.src_cap * p.row_elems,
        p.dst_elem(0) == p.dst_rows[0] * p.row_elems,
        p.dst_rows[b + 1] == p.dst_rows[b] ==> p.dst_elem(b + 1) - p.dst_elem(b) == p.dst_cap
            * p.row_elems,
        p.dst_elem(b) == b * p.dst_cap * p.row_elems + p.dst_rows[b] * p.row_elems,
{
    let c = p.src_cap as int;
    let r = p.row_elems as int;
    let s = p.src_row as int;
    let d = p.dst_cap as int;
    let t = p.dst_rows[b] as int;
    assert(0 * c == 0 && 0 * d == 0) by (nonlinear_arith);
    assert(((b + 1) * c + s) * r - (b * c + s) * r == c * r) by (nonlinear_arith);
    assert(((b + 1) * d + t) * r - (b * d + t) * r == d * r) by (nonlinear_arith);
    let m = b * d;
    assert((m + t) * r == m * r + t * r) by (nonlinear_arith);
}

/// Each batch element is one copy of a whole row, from the node that is read to the node that is fed.
pub proof fn lemma_row_copies(p: RowPlan, dst: usize, src: usize, b: int)
    requires
        0 <= b < p.dst_rows.len(),
        0 <= p.src_elem(b) <= usize::MAX,
        0 <= p.dst_elem(b) <= usize::MAX,
        p.row_elems <= usize::MAX,
    ensures
        p.copies(dst, src).len() == p.dst_rows.len(),
        p.copies(dst, src)[b].dst == dst,
        p.copies(dst, src)[b].src == src,
        p.copies(dst, src)[b].len == p.row_elems,
        p.copies(dst, src)[b].src_elem == p.src_elem(b),
        p.copies(dst, src)[b].dst_elem == p.dst_elem(b),
{
}

/// Feed by feed, the rows of a feed that takes effect are copied from its output to its input; a feed
/// whose input is its output is left alone.
pub proof fn lemma_feed_copies(exe: MetalExecutable, feeds: NameMap<usize>, p: RowPlan, n: nat)
    ensures
        feed_copies(exe, feeds, p, 0).len() == 0,
        ({
            let input = exe.input_ids.value(feeds.keys()[n as int]);
            let output = exe.graph.outputs@[feeds.items()[n as int] as int];
            let active = feeds.items()[n as int] < exe.graph.outputs@.len() && exe.input_ids.has(
                feeds.keys()[n as int],
            ) && input != output;
            &&& active ==> feed_copies(exe, feeds, p, n + 1) == feed_copies(exe, feeds, p, n)
                + p.copies(input, output)
            &&& !active ==> feed_copies(exe, feeds, p, n + 1) == feed_copies(exe, feeds, p, n)
        }),
{
}

/// A prefix is the whole output where no extent is active, never more than the output, and otherwise
/// as many whole rows as the extent says.
pub proof fn lemma_prefix(actual: usize, upper: usize, out_elems: usize)
    ensures
        prefix_elems(None, out_elems) == out_elems,
        prefix_elems(Some((actual, 0)), out_elems) == out_elems,
        0 <= prefix_elems(Some((actual, upper)), out_elems) <= out_elems,
        upper > 0 && actual * row_elems(out_elems, upper) <= out_elems ==> prefix_elems(
            Some((actual, upper)),
            out_elems,
        ) == actual * row_elems(out_elems, upper),
        row_elems(out_elems, upper) >= 1,
        out_elems >= upper + 1 ==> row_elems(out_elems, upper) * (upper + 1) <= out_elems,
        out_elems >= upper + 1 ==> out_elems < (row_elems(out_elems, upper) + 1) * (upper + 1),
{
    let d = upper + 1;
    let q = out_elems as int / d;
    vstd::arithmetic::div_mod::lemma_fundamental_div_mod(out_elems as int, d);
    vstd::arithmetic::div_mod::lemma_mod_bound(out_elems as int, d);
    assert(q * d == d * q) by (nonlinear_arith);
    assert((q + 1) * d == q * d + d) by (nonlinear_arith);
    if out_elems >= d {
        assert(q >= 1) by (nonlinear_arith)
            requires
                out_elems < q * d + d,
                out_elems >= d,
                d > 0,
        ;
    }
    let r = row_elems(out_elems, upper);
    assert(actual * r >= 0) by (nonlinear_arith)
        requires
            actual >= 0,
            r >= 1,
    ;
}

/// Feed by feed, a feed that takes effect is one copy of the active prefix of its output.
pub proof fn lemma_prefix_copies(exe: MetalExecutable, n: nat)
    ensures
        prefix_copies(exe, 0).len() == 0,
        ({
            let feeds = exe.gpu_handle_feeds;
            let input = exe.input_ids.value(feeds.keys()[n as int]);
            let output = exe.graph.outputs@[feeds.items()[n as int] as int];
            let active = feeds.items()[n as int] < exe.graph.outputs@.len() && exe.input_ids.has(
                feeds.keys()[n as int],
            ) && input != output;
            &&& active ==> prefix_copies(exe, n + 1) == prefix_copies(exe, n).push(
                PrefixCopy {
                    dst: input,
                    src: output,
                    elems: prefix_elems(
                        exe.active_extent,
                        capacity(exe, output as int),
                    ) as usize,
                },
            )
            &&& !active ==> prefix_copies(exe, n + 1) == prefix_copies(exe, n)
        }),
        forall|id: int| #[trigger]
            exe.arena@[id] is Some ==> capacity(exe, id) == exe.arena@[id]->0.elements,
        forall|id: int| #[trigger] exe.arena@[id] is None ==> capacity(exe, id) == 0,
{
}

/// Every input with a place is written to the node of its name, once, in the order of the names, and
/// nothing else is.
pub proof fn lemma_named_writes(exe: MetalExecutable, names: Seq<Seq<char>>, n: nat, i: int)
    requires
        0 <= i < n <= names.len(),
        n <= usize::MAX,
    ensures
        exe.input_ids.has(names[i]) && exe.arena@[exe.input_ids.value(names[i]) as int] is Some
            ==> named_writes(exe, names, n).contains(
            HostWrite { from: i as usize, node: exe.input_ids.value(names[i]) },
        ),
        forall|k: int|
            0 <= k < named_writes(exe, names, n).len() ==> ({
                let w = #[trigger] named_writes(exe, names, n)[k];
                &&& w.from < n
                &&& input_place(exe, names[w.from as int]) == Some(w.node)
            }),
        forall|k: int, m: int|
            0 <= k < m < named_writes(exe, names, n).len() ==> (#[trigger] named_writes(
                exe,
                names,
                n,
            )[k]).from < (#[trigger] named_writes(exe, names, n)[m]).from,
    decreases n,
{
    lemma_writes_ordered(exe, names, n);
    let t = named_writes(exe, names, (n - 1) as nat);
    let s = named_writes(exe, names, n);
    if i < n - 1 {
        lemma_named_writes(exe, names, (n - 1) as nat, i);
        let w = HostWrite { from: i as usize, node: exe.input_ids.value(names[i]) };
        if t.contains(w) {
            let k = choose|k: int| 0 <= k < t.len() && t[k] == w;
            assert(s[k] == w);
        }
    } else if input_place(exe, names[i]) is Some {
        assert(s[s.len() - 1].from == i as usize);
    }
}

proof fn lemma_writes_ordered(exe: MetalExecutable, names: Seq<Seq<char>>, n: nat)
    requires
        n <= names.len(),
        n <= usize::MAX,
    ensures
        forall|k: int|
            0 <= k < named_writes(exe, names, n).len() ==> ({
                let w = #[trigger] named_writes(exe, names, n)[k];
                &&& w.from < n
                &&& input_place(exe, names[w.from as int]) == Some(w.node)
            }),
        forall|k: int, m: int|
            0 <= k < m < named_writes(exe, names, n).len() ==> (#[trigger] named_writes(
                exe,
                names,
                n,
            )[k]).from < (#[trigger] named_writes(exe, names, n)[m]).from,
    decreases n,
{
    if n > 0 {
        lemma_writes_ordered(exe, names, (n - 1) as nat);
    }
}

/// A handle is written from the host exactly where it has a place, is not on the device already, and
/// no input of that name is given.
pub proof fn lemma_handle_writes(exe: MetalExecutable, names: Seq<Seq<char>>, n: nat)
    requires
        n < usize::MAX,
    ensures
        handle_writes(exe, names, 0).len() == 0,
        ({
            let h = exe.gpu_handles.keys()[n as int];
            let needed = input_place(exe, h) is Some && !exe.gpu_handle_resident.has(h)
                && !names.contains(h);
            &&& needed ==> handle_writes(exe, names, n + 1) == handle_writes(exe, names, n).push(
                HostWrite { from: n as usize, node: exe.input_ids.value(h) },
            )
            &&& !needed ==> handle_writes(exe, names, n + 1) == handle_writes(exe, names, n)
        }),
{
}

/// Typed inputs are either widened or written as they are: together these are the named writes.
pub proof fn lemma_routed_writes(
    exe: MetalExecutable,
    names: Seq<Seq<char>>,
    dts: Seq<DType>,
    n: nat,
)
    ensures
        routed_writes(exe, names, dts, true, n).len() + routed_writes(exe, names, dts, false, n).len()
            == named_writes(exe, names, n).len(),
        forall|w: HostWrite| #[trigger]
            routed_writes(exe, names, dts, true, n + 1).contains(w) ==> named_writes(
                exe,
                names,
                n + 1,
            ).contains(w),
    decreases n,
{
    if n > 0 {
        lemma_routed_writes(exe, names, dts, (n - 1) as nat);
    }
    lemma_routed_within(exe, names, dts, true, n + 1);
}

proof fn lemma_routed_within(
    exe: MetalExecutable,
    names: Seq<Seq<char>>,
    dts: Seq<DType>,
    widened: bool,
    n: nat,
)
    ensures
        forall|w: HostWrite| #[trigger]
            routed_writes(exe, names, dts, widened, n).contains(w) ==> named_writes(
                exe,
                names,
                n,
            ).contains(w),
    decreases n,
{
    if n > 0 {
        lemma_routed_within(exe, names, dts, widened, (n - 1) as nat);
        let a = routed_writes(exe, names, dts, widened, (n - 1) as nat);
        let b = named_writes(exe, names, (n - 1) as nat);
        let c = routed_writes(exe, names, dts, widened, n);
        let d = named_writes(exe, names, n);
        assert forall|w: HostWrite| #[trigger] c.contains(w) implies d.contains(w) by {
            let k = choose|k: int| 0 <= k < c.len() && c[k] == w;
            if k < a.len() {
                assert(a[k] == w);
                assert(a.contains(w));
                let m = choose|m: int| 0 <= m < b.len() && b[m] == w;
                assert(d[m] == w);
            } else {
                assert(d[d.len() - 1] == w);
            }
        }
    }
}

/// Packed weights and double precision go as they are, single precision goes as floats, everything
/// else is widened.
pub proof fn lemma_routes(dt: DType)
    ensures
        route_of(dt) == TypedRoute::Floats <==> dt == DType::F32,
        route_of(dt) == TypedRoute::Raw <==> dt == DType::F64 || dt == DType::U8 || dt == DType::I8,
        route_of(dt) == TypedRoute::Widened <==> dt == DType::F16 || dt == DType::BF16 || dt
            == DType::I32 || dt == DType::I64 || dt == DType::U32 || dt == DType::Bool,
{
}

/// What is read of an output is its logical length where that is known and no longer than its place,
/// and the whole place otherwise.
pub proof fn lemma_read_len(exe: MetalExecutable, k: int)
    ensures
        ({
            let full = capacity(exe, exe.graph.outputs@[k] as int);
            let logical = exe.output_slots@[k].1;
            &&& exe.read_len(k) <= full
            &&& 0 < logical <= full ==> exe.read_len(k) == logical
            &&& logical == 0 || logical > full ==> exe.read_len(k) == full
        }),
        exe.kept_bytes(k) >= 4 && exe.kept_bytes(k) % 4 == 0,
        exe.output_slots@[k].1 > 0 ==> exe.kept_bytes(k) == 4 * exe.output_slots@[k].1,
        exe.kept_read(k).0 == exe.output_slots@[k].1,
        exe.kept_read(k).1 <==> exe.graph.nodes@[exe.graph.outputs@[k] as int].shape.dtype
            == DType::F16,
{
}

/// An output lies where its node lies, and is as long as its elements.
pub proof fn lemma_output_range(exe: MetalExecutable, k: int)
    ensures
        ({
            let id = exe.graph.outputs@[k] as int;
            let shape = exe.graph.nodes@[id].shape;
            &&& exe.arena@[id] is Some ==> exe.output_range(k).0 == exe.arena@[id]->0.byte_offset
            &&& shape.count() is Some ==> exe.output_range(k).1 == shape.count()->0
                * shape.dtype.width()
            &&& exe.arena@[id] is None ==> exe.output_range(k).0 == 0
        }),
        exe.output_reads(seq![k as usize]).len() == 1,
        0 <= k <= usize::MAX ==> exe.output_reads(seq![k as usize])[0] == (
            exe.graph.outputs@[k],
            exe.read_len(k),
        ),
{
}

/// A handle is read from the output that feeds it, otherwise from its place on the device, otherwise
/// from the host.
pub proof fn lemma_handle_source(exe: MetalExecutable, name: Seq<char>)
    ensures
        ({
            let fed = exe.gpu_handle_feeds.has(name) && exe.gpu_handle_feeds.value(name)
                < exe.graph.outputs@.len();
            let on_device = exe.gpu_handle_resident.has(name) && exe.input_ids.has(name);
            let s = handle_source(exe, name);
            &&& fed ==> s == HandleSource::Output(exe.gpu_handle_feeds.value(name))
            &&& !fed && on_device ==> s == HandleSource::Arena(exe.input_ids.value(name))
            &&& !fed && !on_device && exe.gpu_handles.has(name) ==> s == HandleSource::Host(
                exe.gpu_handles.value(name),
            )
            &&& !fed && !on_device && !exe.gpu_handles.has(name) ==> s == HandleSource::Missing
        }),
{
}

/// A mirrored handle holds as many floats as the place of its output; a handle that no output feeds
/// keeps what it holds. The last feed of a name counts.
pub proof fn lemma_mirrored(exe: MetalExecutable, name: Seq<char>, n: nat)
    requires
        n < usize::MAX,
    ensures
        mirrored_len(exe, name, 0) == exe.gpu_handles.lookup(name),
        ({
            let out = exe.gpu_handle_feeds.items()[n as int];
            let key = exe.gpu_handle_feeds.keys()[n as int];
            let feeds = out < exe.graph.outputs@.len();
            &&& feeds && key == name ==> mirrored_len(exe, name, n + 1) == Some(
                capacity(exe, exe.graph.outputs@[out as int] as int),
            )
            &&& !(feeds && key == name) ==> mirrored_len(exe, name, n + 1) == mirrored_len(
                exe,
                name,
                n,
            )
            &&& feeds ==> mirrored_outputs(exe, n + 1) == mirrored_outputs(exe, n).push(
                HostWrite { from: n as usize, node: exe.graph.outputs@[out as int] },
            )
            &&& !feeds ==> mirrored_outputs(exe, n + 1) == mirrored_outputs(exe, n)
        }),
        mirrored_outputs(exe, 0).len() == 0,
{
}

/// What is laid over wins, and what is not laid over stays.
pub proof fn lemma_overlaid(base: Option<usize>, over: Option<usize>)
    ensures
        over is Some ==> overlaid(base, over) == over,
        over is None ==> overlaid(base, over) == base,
{
}

} // verus!
