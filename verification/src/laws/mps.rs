//! Runs through the vendor's graphs: every staged tensor is copied in full to or from its own buffer,
//! names lead to their nodes, and constants hold the whole parameter.

use vstd::prelude::*;

use crate::executable::MetalExecutable;
use crate::graph::{DType, Graph};
use crate::mps_plan::{
    arena_offset, big, bound_offset, cap_setting, element_bytes, elements, extent_or_one, frozen,
    has_tile, input_node, is_staged, located_input, located_output, located_param, output_of,
    range_of, route, slot_at, staged_copies, staged_count, staged_from, staged_sizes, tile_of,
    tiles, unpacked_dims, within_cap, CustomInput, CustomOp, Frozen, Located, MpsGraphPlan,
    MpsRoute, PlanOutput, PlanTensor, Slot, WeightTile, DEFAULT_CONST_CAP, LIMIT, MPS_HALF, PAGE,
};
use crate::name_map::NameMap;
use crate::text::has_prefix;

verus! {

/// A tensor can be viewed without a copy exactly where the arena is small, or the tensor starts on a
/// page and ends within the window; an empty one always can.
pub proof fn lemma_staged_from(offset: usize, nbytes: usize, arena_len: u64)
    ensures
        !staged_from(offset, nbytes, big(arena_len)) <==> arena_len < LIMIT || nbytes == 0 || (offset
            as int % PAGE as int == 0 && offset + nbytes <= LIMIT),
{
}

/// The elements of a shape multiply: those of a joined shape are the product of both parts.
pub proof fn lemma_elements(a: Seq<usize>, b: Seq<usize>)
    ensures
        elements(a + b) == elements(a) * elements(b),
        elements(Seq::empty()) == 1,
        a.len() == 1 ==> elements(a) == a[0],
        element_bytes(MPS_HALF) * 2 == element_bytes(0),
        forall|dt: u32| dt != MPS_HALF ==> #[trigger] element_bytes(dt) == 4,
    decreases b.len(),
{
    if b.len() == 0 {
        assert(a + b =~= a);
        assert(elements(a) * 1 == elements(a)) by (nonlinear_arith);
    } else {
        assert((a + b).drop_last() =~= a + b.drop_last());
        lemma_elements(a, b.drop_last());
        let x = elements(a);
        let y = elements(b.drop_last());
        let z = b.last() as nat;
        assert((x * y) * z == x * (y * z)) by (nonlinear_arith);
    }
    if a.len() == 1 {
        reveal_with_fuel(elements, 2);
        assert(a.drop_last().len() == 0);
    }
}

/// The staging buffers are numbered in the order of the staged tensors. The copy of each is of its
/// own bytes, in full, and goes with the buffer that is bound for it, which is as large.
pub proof fn lemma_staged_copy(ts: Seq<Located>, big_arena: bool, first: int, i: int, n: nat)
    requires
        0 <= i < n <= ts.len(),
        is_staged(ts[i], big_arena),
        0 <= first,
        first + ts.len() <= usize::MAX,
    ensures
        ({
            let k = staged_count(ts, big_arena, i as nat) as int;
            let c = staged_copies(ts, big_arena, first, n)[k];
            &&& k < staged_copies(ts, big_arena, first, n).len()
            &&& slot_at(ts, big_arena, first, i) == (Slot::Staged { idx: c.idx })
            &&& c.idx == first + k
            &&& c.offset == ts[i].offset
            &&& c.nbytes == ts[i].nbytes
            &&& staged_sizes(ts, big_arena, n)[k] == c.nbytes
        }),
        staged_copies(ts, big_arena, first, n).len() == staged_count(ts, big_arena, n),
        staged_sizes(ts, big_arena, n).len() == staged_count(ts, big_arena, n),
        staged_count(ts, big_arena, n) <= n,
    decreases n,
{
    lemma_staged_lengths(ts, big_arena, first, n);
    lemma_staged_lengths(ts, big_arena, first, (n - 1) as nat);
    lemma_staged_lengths(ts, big_arena, first, i as nat);
    if i < n - 1 {
        lemma_staged_copy(ts, big_arena, first, i, (n - 1) as nat);
    }
}

proof fn lemma_staged_lengths(ts: Seq<Located>, big_arena: bool, first: int, n: nat)
    requires
        n <= ts.len(),
    ensures
        staged_copies(ts, big_arena, first, n).len() == staged_count(ts, big_arena, n),
        staged_sizes(ts, big_arena, n).len() == staged_count(ts, big_arena, n),
        staged_count(ts, big_arena, n) <= n,
    decreases n,
{
    if n > 0 {
        lemma_staged_lengths(ts, big_arena, first, (n - 1) as nat);
    }
}

/// A tensor that is not staged is bound where it lies, in the buffer that holds it.
pub proof fn lemma_bound_in_place(ts: Seq<Located>, big_arena: bool, first: int, i: int)
    requires
        0 <= i < ts.len(),
        !is_staged(ts[i], big_arena),
    ensures
        bound_offset(slot_at(ts, big_arena, first, i)) == ts[i].offset,
        slot_at(ts, big_arena, first, i) is Weight <==> ts[i].from_weight,
        slot_at(ts, big_arena, first, i) is Arena <==> !ts[i].from_weight,
        bound_offset(Slot::Staged { idx: 0 }) == 0,
{
}

/// Kept bindings are used only with a compiled executable that keeps them and with nothing staged;
/// without a compiled executable the graph runs as it is.
pub proof fn lemma_route(has_executable: bool, has_cached_binding: bool, staged: nat)
    ensures
        route(has_executable, has_cached_binding, staged) == MpsRoute::Jit <==> !has_executable,
        route(has_executable, has_cached_binding, staged) == MpsRoute::Cached <==> has_executable
            && has_cached_binding && staged == 0,
        route(has_executable, has_cached_binding, staged) == MpsRoute::Bound <==> has_executable && (
        !has_cached_binding || staged > 0),
{
}

/// A tensor is as long as its elements, and an input lies where its node lies: that of the parent for
/// a boundary name, that of the input of this name otherwise.
pub proof fn lemma_located_input(
    exe: MetalExecutable,
    boundary: Option<&NameMap<usize>>,
    t: PlanTensor,
)
    requires
        elements(t.shape@) * 4 <= usize::MAX,
    ensures
        ({
            let l = located_input(exe, boundary, t);
            let id = if has_prefix(t.name@, "__boundary_"@) {
                boundary->0.lookup(t.name@)
            } else {
                exe.input_ids.lookup(t.name@)
            };
            &&& boundary is Some || !has_prefix(t.name@, "__boundary_"@) ==> input_node(
                exe,
                boundary,
                t.name@,
            ) == id
            &&& boundary is None && has_prefix(t.name@, "__boundary_"@) ==> input_node(
                exe,
                boundary,
                t.name@,
            ) is None
            &&& !l.from_weight
            &&& t.dt == MPS_HALF ==> l.nbytes == elements(t.shape@) * 2
            &&& t.dt != MPS_HALF ==> l.nbytes == elements(t.shape@) * 4
            &&& l.offset == arena_offset(exe, input_node(exe, boundary, t.name@))
        }),
{
}

/// A parameter lies in the weight buffer exactly where it has a slot there, and a result in the
/// arena.
pub proof fn lemma_located_others(
    exe: MetalExecutable,
    t: PlanTensor,
    plan: MpsGraphPlan,
    id: usize,
    k: int,
)
    requires
        elements(t.shape@) * 4 <= usize::MAX,
        elements(plan.outputs@[k].shape@) * 4 <= usize::MAX,
    ensures
        ({
            let l = located_param(exe, t);
            let p = exe.param_ids.value(t.name@) as int;
            &&& l.from_weight <==> exe.weight_slots@[p] is Some
            &&& l.offset == exe.param_place(p).1
            &&& t.dt == MPS_HALF ==> l.nbytes == elements(t.shape@) * 2
            &&& t.dt != MPS_HALF ==> l.nbytes == elements(t.shape@) * 4
        }),
        ({
            let l = located_output(exe, plan, id, k);
            &&& !l.from_weight
            &&& l.offset == exe.arena@[id as int]->0.byte_offset
            &&& plan.outputs@[k].dt == MPS_HALF ==> l.nbytes == elements(plan.outputs@[k].shape@) * 2
            &&& plan.outputs@[k].dt != MPS_HALF ==> l.nbytes == elements(plan.outputs@[k].shape@) * 4
        }),
{
}

/// The output of a node is the first that gives it.
pub proof fn lemma_output_of(outs: Seq<PlanOutput>, id: usize)
    ensures
        match output_of(outs, id) {
            Some(i) => {
                &&& 0 <= i < outs.len()
                &&& outs[i].id == id
                &&& forall|j: int| 0 <= j < i ==> (#[trigger] outs[j]).id != id
            },
            None => forall|j: int| 0 <= j < outs.len() ==> (#[trigger] outs[j]).id != id,
        },
    decreases outs.len(),
{
    if outs.len() > 0 {
        let t = outs.drop_last();
        lemma_output_of(t, id);
        match output_of(t, id) {
            Some(i) => {
                assert(t[i] == outs[i]);
                assert forall|j: int| 0 <= j < i implies (#[trigger] outs[j]).id != id by {
                    assert(t[j] == outs[j]);
                }
            },
            None => {
                assert forall|j: int| 0 <= j < t.len() implies (#[trigger] outs[j]).id != id by {
                    assert(t[j] == outs[j]);
                }
            },
        }
    }
}

/// A parameter becomes a constant only where it has a place and its floats are within the cap, where
/// there is one. A float parameter is taken byte by byte, four bytes an element, from its place; a
/// packed one is unpacked to the shape of the product that uses it.
pub proof fn lemma_frozen(exe: MetalExecutable, id: usize, cap: usize)
    ensures
        ({
            let shape = exe.graph.nodes@[id as int].shape;
            let (at, from) = exe.param_place(id as int);
            let has_place = exe.weight_slots@[id as int] is Some || exe.arena@[id as int] is Some;
            match frozen(exe, id, cap) {
                Some(Frozen::Bytes { buf, offset, len }) => {
                    &&& shape.dtype == DType::F32
                    &&& has_place
                    &&& buf == at && offset == from
                    &&& shape.count() is Some
                    &&& shape.count()->0 * 4 <= usize::MAX ==> len == shape.count()->0 * 4
                    &&& cap == 0 || shape.count()->0 * 4 <= cap
                },
                Some(Frozen::Unpacked { buf, offset, len, k, n, scheme }) => {
                    &&& shape.dtype == DType::U8
                    &&& has_place
                    &&& buf == at && offset == from
                    &&& shape.count() is Some
                    &&& shape.count()->0 <= usize::MAX ==> len == shape.count()->0
                    &&& unpacked_dims(&exe.graph, id) is Some
                    &&& scheme == (unpacked_dims(&exe.graph, id)->0).2
                    &&& k == (unpacked_dims(&exe.graph, id)->0).0 as usize
                    &&& n == (unpacked_dims(&exe.graph, id)->0).1 as usize
                    &&& cap == 0 || (unpacked_dims(&exe.graph, id)->0).0 * (unpacked_dims(
                        &exe.graph,
                        id,
                    )->0).1 * 4 <= cap
                },
                None => true,
            }
        }),
        exe.graph.nodes@[id as int].shape.dtype == DType::F32
            && exe.graph.nodes@[id as int].shape.count() is Some && (exe.weight_slots@[id as int]
            is Some || exe.arena@[id as int] is Some) ==> frozen(exe, id, 0) is Some,
{
}

/// The cap is what the setting says where it is a number, and the default otherwise; zero is no cap.
pub proof fn lemma_cap(bytes: nat, cap: usize)
    ensures
        within_cap(bytes, 0),
        cap > 0 ==> (within_cap(bytes, cap) <==> bytes <= cap),
        cap_setting(None) == DEFAULT_CONST_CAP,
        DEFAULT_CONST_CAP == 4 * 1024 * 1024,
{
}

/// The weight, the scale and the zero point of a quantized product are its inputs three to five, each
/// in full, and its shape is that of the weight, where no extent counts as none.
pub proof fn lemma_tile(op: CustomOp, i: CustomInput, k: int)
    requires
        op.inputs@.len() >= 6,
    ensures
        tile_of(op).weight == range_of(op.inputs@[3]),
        tile_of(op).scale == range_of(op.inputs@[4]),
        tile_of(op).zero_point == range_of(op.inputs@[5]),
        tile_of(op).weight_dtype == op.inputs@[3].dtype,
        tile_of(op).zero_point_dtype == op.inputs@[5].dtype,
        op.inputs@[3].dims@[0]->0 > 0 ==> tile_of(op).k == op.inputs@[3].dims@[0]->0,
        op.inputs@[3].dims@[1]->0 > 0 ==> tile_of(op).n == op.inputs@[3].dims@[1]->0,
        tile_of(op).k > 0 && tile_of(op).n > 0,
        range_of(i).off == i.off,
        i.len * i.dtype.width() <= usize::MAX ==> range_of(i).nbytes == i.len * i.dtype.width(),
        extent_or_one(i, k) >= 1,
        has_tile(op) <==> op.is_qmatmul,
{
}

pub open spec fn tiles_before(ops: Seq<CustomOp>, n: nat) -> nat {
    tiles(ops, n).len()
}

/// The preloaded tiles are those of the quantized products, in their order, and no others.
pub proof fn lemma_tiles(ops: Seq<CustomOp>, i: int, n: nat)
    requires
        0 <= i < n <= ops.len(),
    ensures
        tiles(ops, 0).len() == 0,
        tiles_before(ops, (i + 1) as nat) == tiles_before(ops, i as nat) + if has_tile(ops[i]) {
            1nat
        } else {
            0nat
        },
        tiles_before(ops, (i + 1) as nat) <= tiles_before(ops, n),
        has_tile(ops[i]) ==> tiles(ops, n)[tiles_before(ops, i as nat) as int] == tile_of(ops[i]),
    decreases n,
{
    if i < n - 1 {
        lemma_tiles(ops, i, (n - 1) as nat);
    }
}

} // verus!
