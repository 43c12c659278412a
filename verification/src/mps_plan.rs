//! Handing tensors to MPSGraph: which parameters are frozen into a plan, which tensors are bound
//! in place and which are staged, and how a plan is run.

use vstd::prelude::*;

use crate::command::Buf;
use crate::executable::MetalExecutable;
use crate::graph::{
    dequant_shaped, gguf_dequant_dims_for_param, multiplies_with, product_dims, DType, Graph,
    QuantScheme,
};
use crate::name_map::NameMap;
use crate::text::{chars_of, has_prefix, parse_unsigned, parsed_unsigned, strip_prefix_chars};

verus! {

/// Page size of the unified memory.
pub const PAGE: usize = 16_384;

/// The window in which buffers can be viewed without a copy.
pub const LIMIT: u64 = 0x1_0000_0000;

/// MPSGraph's number for half floats.
pub const MPS_HALF: u32 = 0x1000_0010;

/// An arena is big once it is as long as the window.
pub open spec fn big(arena_len: u64) -> bool {
    arena_len >= LIMIT
}

/// On a big arena, a tensor is staged unless it lies within the window and starts on a page. An
/// empty one never is.
pub open spec fn staged_from(offset: usize, nbytes: usize, big_arena: bool) -> bool {
    big_arena && nbytes > 0 && (offset + nbytes > LIMIT || offset % PAGE != 0)
}

pub fn needs_staging(offset: usize, nbytes: usize, big_arena: bool) -> (r: bool)
    ensures
        r == staged_from(offset, nbytes, big_arena),
{
    if !big_arena || nbytes == 0 {
        return false;
    }
    let start: u64 = offset as u64;
    let size: u64 = nbytes as u64;
    start >= LIMIT || size > LIMIT - start || offset % PAGE != 0
}

/// The product of the extents of a tensor.
pub open spec fn elements(shape: Seq<usize>) -> nat
    decreases shape.len(),
{
    if shape.len() == 0 {
        1
    } else {
        elements(shape.drop_last()) * shape.last() as nat
    }
}

/// The bytes of an element: two for half floats, four for anything else.
pub open spec fn element_bytes(dt: u32) -> nat {
    if dt == MPS_HALF {
        2
    } else {
        4
    }
}

/// The leading extents multiply to what a machine word holds, and so does the size.
pub open spec fn tensor_fits(shape: Seq<usize>, dt: u32) -> bool {
    &&& forall|k: int|
        0 <= k <= shape.len() ==> (#[trigger] elements(shape.take(k))) <= usize::MAX
    &&& elements(shape) * element_bytes(dt) <= usize::MAX
}

pub fn tensor_nbytes(shape: &[usize], dt: u32) -> (r: usize)
    requires
        tensor_fits(shape@, dt),
    ensures
        r == elements(shape@) * element_bytes(dt),
{
    let mut n: usize = 1;
    let mut i: usize = 0;
    while i < shape.len()
        invariant
            i <= shape@.len(),
            tensor_fits(shape@, dt),
            n == elements(shape@.take(i as int)),
        decreases shape@.len() - i,
    {
        proof {
            let next = shape@.take(i + 1);
            assert(next.drop_last() =~= shape@.take(i as int));
            assert(next.last() == shape@[i as int]);
            assert(elements(next) <= usize::MAX);
        }
        n = n * shape[i];
        i = i + 1;
    }
    assert(shape@.take(i as int) =~= shape@);
    let w: usize = if dt == MPS_HALF {
        2
    } else {
        4
    };
    n * w
}

/// A tensor of a plan: its place, and its size in bytes.
#[derive(Clone, Copy, Debug, PartialEq, Eq, Structural)]
pub struct Located {
    pub offset: usize,
    pub nbytes: usize,
    /// It lies in the weight buffer, which stays within the window.
    pub from_weight: bool,
}

/// What is bound for a tensor.
#[derive(Clone, Copy, Debug, PartialEq, Eq, Structural)]
pub enum Slot {
    Arena { offset: usize },
    Weight { offset: usize },
    /// A buffer of its own, by its number.
    Staged { idx: usize },
}

pub open spec fn is_staged(t: Located, big_arena: bool) -> bool {
    !t.from_weight && staged_from(t.offset, t.nbytes, big_arena)
}

/// How many of the first `n` tensors are staged.
pub open spec fn staged_count(ts: Seq<Located>, big_arena: bool, n: nat) -> nat
    decreases n,
{
    if n == 0 {
        0
    } else if is_staged(ts[n - 1], big_arena) {
        staged_count(ts, big_arena, (n - 1) as nat) + 1
    } else {
        staged_count(ts, big_arena, (n - 1) as nat)
    }
}

/// The slot of the `i`th tensor. Staging buffers are numbered from `first` on.
pub open spec fn slot_at(ts: Seq<Located>, big_arena: bool, first: int, i: int) -> Slot {
    if is_staged(ts[i], big_arena) {
        Slot::Staged { idx: (first + staged_count(ts, big_arena, i as nat)) as usize }
    } else if ts[i].from_weight {
        Slot::Weight { offset: ts[i].offset }
    } else {
        Slot::Arena { offset: ts[i].offset }
    }
}

/// The sizes of the staging buffers of the first `n` tensors.
pub open spec fn staged_sizes(ts: Seq<Located>, big_arena: bool, n: nat) -> Seq<usize>
    decreases n,
{
    if n == 0 {
        Seq::empty()
    } else {
        let rest = staged_sizes(ts, big_arena, (n - 1) as nat);
        if is_staged(ts[n - 1], big_arena) {
            rest.push(ts[n - 1].nbytes)
        } else {
            rest
        }
    }
}

proof fn lemma_staged_len(ts: Seq<Located>, big_arena: bool, n: nat)
    ensures
        staged_sizes(ts, big_arena, n).len() == staged_count(ts, big_arena, n),
        staged_count(ts, big_arena, n) <= n,
    decreases n,
{
    if n > 0 {
        lemma_staged_len(ts, big_arena, (n - 1) as nat);
    }
}

/// Assigns slots to tensors, and adds the sizes of the buffers that stage them.
fn place(ts: &[Located], big_arena: bool, staged: &mut Vec<usize>) -> (slots: Vec<Slot>)
    requires
        old(staged)@.len() + ts@.len() <= usize::MAX,
    ensures
        slots@.len() == ts@.len(),
        forall|i: int|
            0 <= i < ts@.len() ==> #[trigger] slots@[i] == slot_at(
                ts@,
                big_arena,
                old(staged)@.len() as int,
                i,
            ),
        final(staged)@ == old(staged)@ + staged_sizes(ts@, big_arena, ts@.len()),
{
    let ghost before = staged@;
    let mut slots: Vec<Slot> = Vec::new();
    let mut i: usize = 0;
    assert(before + staged_sizes(ts@, big_arena, 0) =~= before);
    while i < ts.len()
        invariant
            i <= ts@.len(),
            before.len() + ts@.len() <= usize::MAX,
            slots@.len() == i,
            forall|k: int|
                0 <= k < i ==> #[trigger] slots@[k] == slot_at(
                    ts@,
                    big_arena,
                    before.len() as int,
                    k,
                ),
            staged@ == before + staged_sizes(ts@, big_arena, i as nat),
        decreases ts@.len() - i,
    {
        let t: Located = ts[i];
        proof {
            lemma_staged_len(ts@, big_arena, i as nat);
        }
        if !t.from_weight && needs_staging(t.offset, t.nbytes, big_arena) {
            let idx: usize = staged.len();
            staged.push(t.nbytes);
            slots.push(Slot::Staged { idx });
        } else if t.from_weight {
            slots.push(Slot::Weight { offset: t.offset });
        } else {
            slots.push(Slot::Arena { offset: t.offset });
        }
        i = i + 1;
        assert(staged@ =~= before + staged_sizes(ts@, big_arena, i as nat));
    }
    slots
}

/// The byte offset at which a slot is bound in its buffer.
pub open spec fn bound_offset(s: Slot) -> usize {
    match s {
        Slot::Arena { offset } => offset,
        Slot::Weight { offset } => offset,
        Slot::Staged { .. } => 0,
    }
}

pub fn slot_offset(s: &Slot) -> (r: usize)
    ensures
        r == bound_offset(*s),
{
    match s {
        Slot::Arena { offset } => *offset,
        Slot::Weight { offset } => *offset,
        Slot::Staged { .. } => 0,
    }
}

/// Bytes copied between the arena and a staging buffer.
#[derive(Clone, Copy, Debug, PartialEq, Eq, Structural)]
pub struct StagedCopy {
    pub idx: usize,
    pub offset: usize,
    pub nbytes: usize,
}

/// The copies of the staged tensors among the first `n`.
pub open spec fn staged_copies(ts: Seq<Located>, big_arena: bool, first: int, n: nat) -> Seq<
    StagedCopy,
>
    decreases n,
{
    if n == 0 {
        Seq::empty()
    } else {
        let rest = staged_copies(ts, big_arena, first, (n - 1) as nat);
        if is_staged(ts[n - 1], big_arena) {
            rest.push(
                StagedCopy {
                    idx: (first + staged_count(ts, big_arena, (n - 1) as nat)) as usize,
                    offset: ts[n - 1].offset,
                    nbytes: ts[n - 1].nbytes,
                },
            )
        } else {
            rest
        }
    }
}

fn copies_for(ts: &[Located], slots: &[Slot], Ghost(big_arena): Ghost<bool>, Ghost(first): Ghost<int>) -> (r:
    Vec<StagedCopy>)
    requires
        slots@.len() == ts@.len(),
        forall|i: int|
            0 <= i < ts@.len() ==> #[trigger] slots@[i] == slot_at(ts@, big_arena, first, i),
    ensures
        r@ == staged_copies(ts@, big_arena, first, ts@.len()),
{
    let mut r: Vec<StagedCopy> = Vec::new();
    let mut i: usize = 0;
    while i < ts.len()
        invariant
            i <= ts@.len(),
            slots@.len() == ts@.len(),
            forall|k: int|
                0 <= k < ts@.len() ==> #[trigger] slots@[k] == slot_at(ts@, big_arena, first, k),
            r@ == staged_copies(ts@, big_arena, first, i as nat),
        decreases ts@.len() - i,
    {
        assert(slots@[i as int] == slot_at(ts@, big_arena, first, i as int));
        if let Slot::Staged { idx } = slots[i] {
            r.push(StagedCopy { idx, offset: ts[i].offset, nbytes: ts[i].nbytes });
        }
        i = i + 1;
    }
    r
}

/// How a plan is run.
#[derive(Clone, Copy, Debug, PartialEq, Eq, Structural)]
pub enum MpsRoute {
    /// With the bindings that the executable keeps.
    Cached,
    /// With the bindings given here.
    Bound,
    /// Without a compiled executable: the graph is handed its own tensors, in the plan's order.
    Jit,
}

/// Kept bindings pin places in the arena, so they serve only where nothing is staged.
pub open spec fn route(has_executable: bool, has_cached_binding: bool, staged: nat) -> MpsRoute {
    if !has_executable {
        MpsRoute::Jit
    } else if has_cached_binding && staged == 0 {
        MpsRoute::Cached
    } else {
        MpsRoute::Bound
    }
}

/// Extents and precision of a tensor.
#[derive(Debug, PartialEq, Eq)]
pub struct TensorType {
    pub shape: Vec<usize>,
    pub dt: u32,
}

impl TensorType {
    pub open spec fn is(&self, shape: Seq<usize>, dt: u32) -> bool {
        self.shape@ == shape && self.dt == dt
    }
}

/// How the tensors of a plan are bound and the plan is run.
#[derive(Debug)]
pub struct MpsDispatch {
    pub feeds: Vec<Slot>,
    pub feed_types: Vec<TensorType>,
    pub outputs: Vec<Slot>,
    pub output_types: Vec<TensorType>,
    /// Which output of the plan each of them is.
    pub output_numbers: Vec<usize>,
    /// The sizes of the staging buffers, in bytes.
    pub staged: Vec<usize>,
    /// Copied into staging buffers before the run.
    pub stage_in: Vec<StagedCopy>,
    /// Copied back into the arena after it.
    pub write_back: Vec<StagedCopy>,
    pub route: MpsRoute,
}

impl MpsDispatch {
    /// The dispatch of these feeds and outputs.
    pub open spec fn dispatches(
        &self,
        feeds: Seq<Located>,
        outs: Seq<Located>,
        big_arena: bool,
        has_executable: bool,
        has_cached_binding: bool,
    ) -> bool {
        let first = staged_count(feeds, big_arena, feeds.len()) as int;
        &&& self.feeds@ == Seq::new(feeds.len(), |i: int| slot_at(feeds, big_arena, 0, i))
        &&& self.outputs@ == Seq::new(outs.len(), |i: int| slot_at(outs, big_arena, first, i))
        &&& self.staged@ == staged_sizes(feeds, big_arena, feeds.len()) + staged_sizes(
            outs,
            big_arena,
            outs.len(),
        )
        &&& self.stage_in@ == staged_copies(feeds, big_arena, 0, feeds.len())
        &&& self.write_back@ == staged_copies(outs, big_arena, first, outs.len())
        &&& self.route == route(has_executable, has_cached_binding, self.staged@.len())
    }
}

/// Binds located tensors.
fn bind(
    feeds: &[Located],
    outs: &[Located],
    big_arena: bool,
    has_executable: bool,
    has_cached_binding: bool,
    feed_types: Vec<TensorType>,
    output_types: Vec<TensorType>,
    output_numbers: Vec<usize>,
) -> (r: MpsDispatch)
    requires
        feeds@.len() + outs@.len() <= usize::MAX,
    ensures
        r.dispatches(feeds@, outs@, big_arena, has_executable, has_cached_binding),
        r.feed_types == feed_types,
        r.output_types == output_types,
        r.output_numbers == output_numbers,
{
    let mut staged: Vec<usize> = Vec::new();
    let feed_slots: Vec<Slot> = place(feeds, big_arena, &mut staged);
    proof {
        lemma_staged_len(feeds@, big_arena, feeds@.len());
        lemma_staged_len(outs@, big_arena, outs@.len());
        assert(staged@ =~= staged_sizes(feeds@, big_arena, feeds@.len()));
    }
    let ghost first = staged@.len() as int;
    let out_slots: Vec<Slot> = place(outs, big_arena, &mut staged);
    let stage_in: Vec<StagedCopy> = copies_for(feeds, &feed_slots, Ghost(big_arena), Ghost(0));
    let write_back: Vec<StagedCopy> = copies_for(outs, &out_slots, Ghost(big_arena), Ghost(first));
    let route: MpsRoute = if !has_executable {
        MpsRoute::Jit
    } else if has_cached_binding && staged.len() == 0 {
        MpsRoute::Cached
    } else {
        MpsRoute::Bound
    };
    proof {
        assert(feed_slots@ =~= Seq::new(
            feeds@.len(),
            |i: int| slot_at(feeds@, big_arena, 0, i),
        ));
        assert(out_slots@ =~= Seq::new(
            outs@.len(),
            |i: int| slot_at(outs@, big_arena, first, i),
        ));
    }
    MpsDispatch {
        feeds: feed_slots,
        feed_types,
        outputs: out_slots,
        output_types,
        output_numbers,
        staged,
        stage_in,
        write_back,
        route,
    }
}

/// An input or a parameter of a plan.
#[derive(Debug)]
pub struct PlanTensor {
    pub name: String,
    pub shape: Vec<usize>,
    pub dt: u32,
}

/// An output of a plan, by the node that it gives.
#[derive(Debug)]
pub struct PlanOutput {
    pub id: usize,
    pub shape: Vec<usize>,
    pub dt: u32,
}

#[derive(Debug)]
pub struct MpsGraphPlan {
    pub inputs: Vec<PlanTensor>,
    pub params: Vec<PlanTensor>,
    pub outputs: Vec<PlanOutput>,
    pub has_executable: bool,
    pub has_cached_binding: bool,
}

/// The node that an input of a plan reads. One with a boundary's name reads a node of the graph
/// around it.
pub open spec fn input_node(
    exe: MetalExecutable,
    boundary: Option<&NameMap<usize>>,
    name: Seq<char>,
) -> Option<usize> {
    if has_prefix(name, "__boundary_"@) {
        match boundary {
            Some(m) => m.lookup(name),
            None => None,
        }
    } else {
        exe.input_ids.lookup(name)
    }
}

/// A node with a place in the arena.
pub open spec fn in_arena(exe: MetalExecutable, id: Option<usize>) -> bool {
    id matches Some(i) && i < exe.arena@.len() && exe.arena@[i as int] is Some
}

pub open spec fn arena_offset(exe: MetalExecutable, id: Option<usize>) -> usize {
    exe.arena@[id->0 as int]->0.byte_offset
}

/// Every input of the plan has a place and a size.
pub open spec fn inputs_resolve(
    exe: MetalExecutable,
    boundary: Option<&NameMap<usize>>,
    ts: Seq<PlanTensor>,
) -> bool {
    forall|i: int|
        0 <= i < ts.len() ==> tensor_fits((#[trigger] ts[i]).shape@, ts[i].dt) && in_arena(
            exe,
            input_node(exe, boundary, ts[i].name@),
        )
}

pub open spec fn located_input(
    exe: MetalExecutable,
    boundary: Option<&NameMap<usize>>,
    t: PlanTensor,
) -> Located {
    Located {
        offset: arena_offset(exe, input_node(exe, boundary, t.name@)),
        nbytes: (elements(t.shape@) * element_bytes(t.dt)) as usize,
        from_weight: false,
    }
}

/// Every parameter of the plan has a place and a size.
pub open spec fn params_resolve(exe: MetalExecutable, ts: Seq<PlanTensor>) -> bool {
    forall|i: int|
        0 <= i < ts.len() ==> tensor_fits((#[trigger] ts[i]).shape@, ts[i].dt)
            && exe.param_ids.has(ts[i].name@) && ({
            let id = exe.param_ids.value(ts[i].name@) as int;
            exe.weight_slots@[id] is Some || exe.arena@[id] is Some
        })
}

pub open spec fn located_param(exe: MetalExecutable, t: PlanTensor) -> Located {
    let id = exe.param_ids.value(t.name@) as int;
    Located {
        offset: exe.param_place(id).1,
        nbytes: (elements(t.shape@) * element_bytes(t.dt)) as usize,
        from_weight: exe.weight_slots@[id] is Some,
    }
}

/// The feeds of a plan: its inputs, and behind them its parameters.
pub open spec fn located_feeds(
    exe: MetalExecutable,
    plan: MpsGraphPlan,
    boundary: Option<&NameMap<usize>>,
) -> Seq<Located> {
    Seq::new(
        plan.inputs@.len(),
        |i: int| located_input(exe, boundary, plan.inputs@[i]),
    ) + Seq::new(plan.params@.len(), |i: int| located_param(exe, plan.params@[i]))
}

/// The first output of a plan that gives a node.
pub open spec fn output_of(outs: Seq<PlanOutput>, id: usize) -> Option<int>
    decreases outs.len(),
{
    if outs.len() == 0 {
        None
    } else {
        match output_of(outs.drop_last(), id) {
            Some(i) => Some(i),
            None => if outs.last().id == id {
                Some(outs.len() - 1)
            } else {
                None
            },
        }
    }
}

pub open spec fn pairs_of(parents: Option<&[(usize, usize)]>) -> Option<Seq<(usize, usize)>> {
    match parents {
        Some(m) => Some(m@),
        None => None,
    }
}

/// Where an output goes: the node of the graph around it, and which output of the plan it is.
pub open spec fn output_targets(
    plan: MpsGraphPlan,
    parents: Option<Seq<(usize, usize)>>,
) -> Seq<(usize, Option<int>)> {
    match parents {
        Some(m) => Seq::new(
            m.len(),
            |i: int| (m[i].1, output_of(plan.outputs@, m[i].0)),
        ),
        None => Seq::new(plan.outputs@.len(), |i: int| (plan.outputs@[i].id, Some(i))),
    }
}

pub open spec fn outputs_resolve(
    exe: MetalExecutable,
    plan: MpsGraphPlan,
    parents: Option<Seq<(usize, usize)>>,
) -> bool {
    &&& forall|i: int|
        0 <= i < plan.outputs@.len() ==> tensor_fits(
            (#[trigger] plan.outputs@[i]).shape@,
            plan.outputs@[i].dt,
        )
    &&& forall|i: int|
        0 <= i < output_targets(plan, parents).len() ==> in_arena(
            exe,
            Some((#[trigger] output_targets(plan, parents)[i]).0),
        ) && output_targets(plan, parents)[i].1 is Some
}

pub open spec fn located_output(exe: MetalExecutable, plan: MpsGraphPlan, id: usize, k: int) -> Located {
    Located {
        offset: arena_offset(exe, Some(id)),
        nbytes: (elements(plan.outputs@[k].shape@) * element_bytes(plan.outputs@[k].dt)) as usize,
        from_weight: false,
    }
}

pub open spec fn located_outputs(
    exe: MetalExecutable,
    plan: MpsGraphPlan,
    parents: Option<Seq<(usize, usize)>>,
) -> Seq<Located> {
    Seq::new(
        output_targets(plan, parents).len(),
        |i: int|
            located_output(
                exe,
                plan,
                output_targets(plan, parents)[i].0,
                output_targets(plan, parents)[i].1->0,
            ),
    )
}

/// Every tensor of a plan has a place and a size.
pub open spec fn plan_resolves(
    exe: MetalExecutable,
    plan: MpsGraphPlan,
    boundary: Option<&NameMap<usize>>,
    parents: Option<Seq<(usize, usize)>>,
) -> bool {
    &&& boundary matches Some(m) ==> m.well_formed()
    &&& inputs_resolve(exe, boundary, plan.inputs@)
    &&& params_resolve(exe, plan.params@)
    &&& outputs_resolve(exe, plan, parents)
    &&& plan.inputs@.len() + plan.params@.len() + output_targets(plan, parents).len() <= usize::MAX
}

/// The tensors that a plan is fed: its inputs, and behind them its parameters.
pub open spec fn fed_tensors(plan: MpsGraphPlan) -> Seq<PlanTensor> {
    plan.inputs@ + plan.params@
}

/// Extents and precisions of the feeds.
pub open spec fn feed_types_ok(plan: MpsGraphPlan, types: Seq<TensorType>) -> bool {
    &&& types.len() == fed_tensors(plan).len()
    &&& forall|i: int|
        0 <= i < types.len() ==> (#[trigger] types[i]).is(
            fed_tensors(plan)[i].shape@,
            fed_tensors(plan)[i].dt,
        )
}

/// Which output of the plan goes to each place, with its extents and precision.
pub open spec fn output_types_ok(
    plan: MpsGraphPlan,
    parents: Option<Seq<(usize, usize)>>,
    numbers: Seq<usize>,
    types: Seq<TensorType>,
) -> bool {
    let targets = output_targets(plan, parents);
    &&& numbers.len() == targets.len()
    &&& types.len() == targets.len()
    &&& forall|i: int|
        0 <= i < numbers.len() ==> targets[i].1 == Some((#[trigger] numbers[i]) as int)
    &&& forall|i: int|
        0 <= i < types.len() ==> (#[trigger] types[i]).is(
            plan.outputs@[numbers[i] as int].shape@,
            plan.outputs@[numbers[i] as int].dt,
        )
}

/// The dispatch of a plan.
pub open spec fn plan_dispatched(
    exe: MetalExecutable,
    plan: MpsGraphPlan,
    arena_len: u64,
    boundary: Option<&NameMap<usize>>,
    parents: Option<Seq<(usize, usize)>>,
    r: MpsDispatch,
) -> bool {
    &&& r.dispatches(
        located_feeds(exe, plan, boundary),
        located_outputs(exe, plan, parents),
        big(arena_len),
        plan.has_executable,
        plan.has_cached_binding,
    )
    &&& feed_types_ok(plan, r.feed_types@)
    &&& output_types_ok(plan, parents, r.output_numbers@, r.output_types@)
}

/// One part of an interleaved plan.
pub enum HybridStep {
    /// The steps of the schedule from `start` up to `end`.
    Thunks { start: usize, end: usize },
    /// A piece of the graph that was compiled on its own.
    SubGraph {
        plan: MpsGraphPlan,
        boundary_parent_ids: NameMap<usize>,
        output_parent_ids: Vec<(usize, usize)>,
    },
}

/// What is done for one part of an interleaved plan.
pub enum HybridAction {
    Encode { start: usize, end: usize },
    Dispatch(MpsDispatch),
}

pub open spec fn step_resolves(exe: MetalExecutable, step: HybridStep) -> bool {
    match step {
        HybridStep::Thunks { .. } => true,
        HybridStep::SubGraph { plan, boundary_parent_ids, output_parent_ids } => plan_resolves(
            exe,
            plan,
            Some(&boundary_parent_ids),
            Some(output_parent_ids@),
        ),
    }
}

/// The action for a part: its steps are encoded, or its piece of the graph is dispatched between
/// the nodes that it names.
pub open spec fn carries_out(
    exe: MetalExecutable,
    arena_len: u64,
    step: HybridStep,
    action: HybridAction,
) -> bool {
    match (step, action) {
        (
            HybridStep::Thunks { start, end },
            HybridAction::Encode { start: first, end: last },
        ) => first == start && last == end,
        (
            HybridStep::SubGraph { plan, boundary_parent_ids, output_parent_ids },
            HybridAction::Dispatch(d),
        ) => plan_dispatched(
            exe,
            plan,
            arena_len,
            Some(&boundary_parent_ids),
            Some(output_parent_ids@),
            d,
        ),
        _ => false,
    }
}

proof fn lemma_output_of(outs: Seq<PlanOutput>, id: usize, n: int)
    requires
        0 <= n < outs.len(),
        outs[n].id == id,
        forall|i: int| 0 <= i < n ==> (#[trigger] outs[i]).id != id,
    ensures
        output_of(outs, id) == Some(n),
    decreases outs.len(),
{
    if n < outs.len() - 1 {
        assert(outs.drop_last()[n] == outs[n]);
        lemma_output_of(outs.drop_last(), id, n);
    } else {
        lemma_no_output(outs.drop_last(), id);
    }
}

proof fn lemma_no_output(outs: Seq<PlanOutput>, id: usize)
    requires
        forall|i: int| 0 <= i < outs.len() ==> (#[trigger] outs[i]).id != id,
    ensures
        output_of(outs, id) is None,
    decreases outs.len(),
{
    if outs.len() > 0 {
        assert forall|i: int| 0 <= i < outs.drop_last().len() implies (
        #[trigger] outs.drop_last()[i]).id != id by {
            assert(outs.drop_last()[i] == outs[i]);
        }
        lemma_no_output(outs.drop_last(), id);
    }
}

fn find_output(outs: &[PlanOutput], id: usize) -> (r: Option<usize>)
    ensures
        match r {
            Some(i) => output_of(outs@, id) == Some(i as int) && i < outs@.len(),
            None => output_of(outs@, id) is None,
        },
{
    let mut i: usize = 0;
    while i < outs.len()
        invariant
            i <= outs@.len(),
            forall|k: int| 0 <= k < i ==> (#[trigger] outs@[k]).id != id,
        decreases outs@.len() - i,
    {
        if outs[i].id == id {
            proof {
                lemma_output_of(outs@, id, i as int);
            }
            return Some(i);
        }
        i = i + 1;
    }
    proof {
        lemma_no_output(outs@, id);
    }
    None
}

fn offset_in_arena(exe: &MetalExecutable, id: usize) -> (r: usize)
    requires
        in_arena(*exe, Some(id)),
    ensures
        r == arena_offset(*exe, Some(id)),
{
    match exe.arena[id] {
        Some(slot) => slot.byte_offset,
        None => 0,
    }
}

fn type_of(shape: &[usize], dt: u32) -> (r: TensorType)
    ensures
        r.is(shape@, dt),
{
    let mut copy: Vec<usize> = Vec::new();
    copy.extend_from_slice(shape);
    assert(copy@ =~= shape@);
    TensorType { shape: copy, dt }
}

fn feed_types(plan: &MpsGraphPlan) -> (r: Vec<TensorType>)
    ensures
        feed_types_ok(*plan, r@),
{
    let mut r: Vec<TensorType> = Vec::new();
    let mut i: usize = 0;
    while i < plan.inputs.len()
        invariant
            i <= plan.inputs@.len(),
            r@.len() == i,
            forall|k: int|
                0 <= k < i ==> (#[trigger] r@[k]).is(
                    fed_tensors(*plan)[k].shape@,
                    fed_tensors(*plan)[k].dt,
                ),
        decreases plan.inputs@.len() - i,
    {
        let t: &PlanTensor = &plan.inputs[i];
        r.push(type_of(&t.shape, t.dt));
        i = i + 1;
    }
    let mut j: usize = 0;
    while j < plan.params.len()
        invariant
            j <= plan.params@.len(),
            r@.len() == plan.inputs@.len() + j,
            forall|k: int|
                0 <= k < r@.len() ==> (#[trigger] r@[k]).is(
                    fed_tensors(*plan)[k].shape@,
                    fed_tensors(*plan)[k].dt,
                ),
        decreases plan.params@.len() - j,
    {
        let t: &PlanTensor = &plan.params[j];
        r.push(type_of(&t.shape, t.dt));
        j = j + 1;
    }
    r
}

/// The first of the targets, by node and by output of the plan.
spec fn chosen(
    plan: MpsGraphPlan,
    parents: Option<Seq<(usize, usize)>>,
    ids: Seq<usize>,
    numbers: Seq<usize>,
) -> bool {
    let targets = output_targets(plan, parents);
    &&& ids.len() == numbers.len()
    &&& ids.len() <= targets.len()
    &&& forall|i: int|
        #![trigger ids[i]]
        #![trigger numbers[i]]
        0 <= i < ids.len() ==> targets[i] == (ids[i], Some(numbers[i] as int)) && numbers[i]
            < plan.outputs@.len()
}

impl MetalExecutable {
    fn locate_feeds(&self, plan: &MpsGraphPlan, boundary: Option<&NameMap<usize>>) -> (r: Vec<
        Located,
    >)
        requires
            self.well_formed(),
            boundary matches Some(m) ==> m.well_formed(),
            inputs_resolve(*self, boundary, plan.inputs@),
            params_resolve(*self, plan.params@),
        ensures
            r@ == located_feeds(*self, *plan, boundary),
    {
        let mut r: Vec<Located> = Vec::new();
        let mut i: usize = 0;
        while i < plan.inputs.len()
            invariant
                i <= plan.inputs@.len(),
                self.well_formed(),
                boundary matches Some(m) ==> m.well_formed(),
                inputs_resolve(*self, boundary, plan.inputs@),
                r@ == Seq::new(
                    i as nat,
                    |k: int| located_input(*self, boundary, plan.inputs@[k]),
                ),
            decreases plan.inputs@.len() - i,
        {
            let t: &PlanTensor = &plan.inputs[i];
            assert(in_arena(*self, input_node(*self, boundary, t.name@)));
            let name: Vec<char> = chars_of(t.name.as_str());
            let id: usize = if strip_prefix_chars(&name, "__boundary_").is_some() {
                match boundary {
                    Some(m) => match m.get_chars(&name) {
                        Some(id) => *id,
                        None => 0,
                    },
                    None => 0,
                }
            } else {
                match self.input_ids.get_chars(&name) {
                    Some(id) => *id,
                    None => 0,
                }
            };
            assert(input_node(*self, boundary, t.name@) == Some(id));
            let offset: usize = offset_in_arena(self, id);
            let nbytes: usize = tensor_nbytes(&t.shape, t.dt);
            r.push(Located { offset, nbytes, from_weight: false });
            i = i + 1;
            assert(r@ =~= Seq::new(
                i as nat,
                |k: int| located_input(*self, boundary, plan.inputs@[k]),
            ));
        }
        let ghost ins = r@;
        let mut j: usize = 0;
        while j < plan.params.len()
            invariant
                j <= plan.params@.len(),
                self.well_formed(),
                params_resolve(*self, plan.params@),
                r@ == ins + Seq::new(j as nat, |k: int| located_param(*self, plan.params@[k])),
            decreases plan.params@.len() - j,
        {
            let t: &PlanTensor = &plan.params[j];
            let id: usize = match self.param_ids.get(t.name.as_str()) {
                Some(id) => *id,
                None => 0,
            };
            proof {
                let at = self.param_ids.keys().index_of(t.name@);
                assert(self.param_ids.keys()[at] == t.name@);
                self.param_ids.lemma_parts();
            }
            let from_weight: bool = self.weight_slots[id].is_some();
            let offset: usize = self.param_byte_offset(id);
            let nbytes: usize = tensor_nbytes(&t.shape, t.dt);
            r.push(Located { offset, nbytes, from_weight });
            j = j + 1;
            assert(r@ =~= ins + Seq::new(
                j as nat,
                |k: int| located_param(*self, plan.params@[k]),
            ));
        }
        assert(r@ =~= located_feeds(*self, *plan, boundary));
        r
    }

    /// Where the outputs go, and which outputs they are.
    fn choose_outputs(&self, plan: &MpsGraphPlan, parents: Option<&[(usize, usize)]>) -> (r: (
        Vec<usize>,
        Vec<usize>,
    ))
        requires
            outputs_resolve(*self, *plan, pairs_of(parents)),
        ensures
            chosen(*plan, pairs_of(parents), r.0@, r.1@),
            r.0@.len() == output_targets(*plan, pairs_of(parents)).len(),
    {
        let mut ids: Vec<usize> = Vec::new();
        let mut numbers: Vec<usize> = Vec::new();
        let n: usize = match parents {
            Some(m) => m.len(),
            None => plan.outputs.len(),
        };
        let ghost targets = output_targets(*plan, pairs_of(parents));
        let mut i: usize = 0;
        while i < n
            invariant
                i <= n,
                targets == output_targets(*plan, pairs_of(parents)),
                n == targets.len(),
                n == (match parents {
                    Some(m) => m@.len(),
                    None => plan.outputs@.len(),
                }),
                outputs_resolve(*self, *plan, pairs_of(parents)),
                ids@.len() == i,
                chosen(*plan, pairs_of(parents), ids@, numbers@),
            decreases n - i,
        {
            assert(in_arena(*self, Some(targets[i as int].0)));
            let (id, k): (usize, usize) = match parents {
                Some(m) => {
                    let (sub_id, parent_id) = m[i];
                    match find_output(&plan.outputs, sub_id) {
                        Some(k) => (parent_id, k),
                        None => (parent_id, 0),
                    }
                },
                None => (plan.outputs[i].id, i),
            };
            assert(targets[i as int] == (id, Some(k as int)));
            ids.push(id);
            numbers.push(k);
            i = i + 1;
        }
        (ids, numbers)
    }

    fn locate_outputs(
        &self,
        plan: &MpsGraphPlan,
        parents: Ghost<Option<Seq<(usize, usize)>>>,
        ids: &[usize],
        numbers: &[usize],
    ) -> (r: (Vec<Located>, Vec<TensorType>))
        requires
            self.well_formed(),
            outputs_resolve(*self, *plan, parents@),
            chosen(*plan, parents@, ids@, numbers@),
            ids@.len() == output_targets(*plan, parents@).len(),
        ensures
            r.0@ == located_outputs(*self, *plan, parents@),
            output_types_ok(*plan, parents@, numbers@, r.1@),
    {
        let mut r: Vec<Located> = Vec::new();
        let mut types: Vec<TensorType> = Vec::new();
        let ghost targets = output_targets(*plan, parents@);
        let mut i: usize = 0;
        while i < ids.len()
            invariant
                i <= ids@.len(),
                targets == output_targets(*plan, parents@),
                ids@.len() == targets.len(),
                chosen(*plan, parents@, ids@, numbers@),
                self.well_formed(),
                outputs_resolve(*self, *plan, parents@),
                r@ == located_outputs(*self, *plan, parents@).take(i as int),
                types@.len() == i,
                forall|j: int|
                    0 <= j < i ==> (#[trigger] types@[j]).is(
                        plan.outputs@[numbers@[j] as int].shape@,
                        plan.outputs@[numbers@[j] as int].dt,
                    ),
            decreases ids@.len() - i,
        {
            assert(in_arena(*self, Some(targets[i as int].0)));
            assert(targets[i as int] == (ids@[i as int], Some(numbers@[i as int] as int)));
            let o: &PlanOutput = &plan.outputs[numbers[i]];
            let nbytes: usize = tensor_nbytes(&o.shape, o.dt);
            r.push(Located { offset: offset_in_arena(self, ids[i]), nbytes, from_weight: false });
            types.push(type_of(&o.shape, o.dt));
            i = i + 1;
            assert(r@ =~= located_outputs(*self, *plan, parents@).take(i as int));
        }
        assert(r@ =~= located_outputs(*self, *plan, parents@));
        (r, types)
    }

    /// Binds the tensors of a plan: in place where the arena allows it, and through staging
    /// buffers otherwise. A plan for a part of a graph reads its boundary from the nodes that
    /// `boundary_parent_ids` names, and gives the outputs that `output_parent_ids` lists.
    pub fn dispatch_mps_plan(
        &self,
        plan: &MpsGraphPlan,
        arena_len: u64,
        boundary_parent_ids: Option<&NameMap<usize>>,
        output_parent_ids: Option<&[(usize, usize)]>,
    ) -> (r: MpsDispatch)
        requires
            self.well_formed(),
            plan_resolves(*self, *plan, boundary_parent_ids, pairs_of(output_parent_ids)),
        ensures
            plan_dispatched(
                *self,
                *plan,
                arena_len,
                boundary_parent_ids,
                pairs_of(output_parent_ids),
                r,
            ),
    {
        let feeds: Vec<Located> = self.locate_feeds(plan, boundary_parent_ids);
        let (ids, numbers): (Vec<usize>, Vec<usize>) = self.choose_outputs(plan, output_parent_ids);
        let (outs, output_types): (Vec<Located>, Vec<TensorType>) = self.locate_outputs(
            plan,
            Ghost(pairs_of(output_parent_ids)),
            &ids,
            &numbers,
        );
        bind(
            &feeds,
            &outs,
            arena_len >= LIMIT,
            plan.has_executable,
            plan.has_cached_binding,
            feed_types(plan),
            output_types,
            numbers,
        )
    }

    /// Runs an interleaved plan: for each part in turn, encodes its steps of the schedule or
    /// dispatches its piece of the graph. Each action completes before the next one starts.
    pub fn run_via_mps_hybrid(&self, steps: &[HybridStep], arena_len: u64) -> (r: Vec<HybridAction>)
        requires
            self.well_formed(),
            forall|i: int| 0 <= i < steps@.len() ==> step_resolves(*self, #[trigger] steps@[i]),
        ensures
            r@.len() == steps@.len(),
            forall|i: int|
                0 <= i < steps@.len() ==> carries_out(
                    *self,
                    arena_len,
                    #[trigger] steps@[i],
                    r@[i],
                ),
    {
        let mut r: Vec<HybridAction> = Vec::new();
        let mut i: usize = 0;
        while i < steps.len()
            invariant
                i <= steps@.len(),
                r@.len() == i,
                self.well_formed(),
                forall|k: int| 0 <= k < steps@.len() ==> step_resolves(*self, #[trigger] steps@[k]),
                forall|k: int|
                    0 <= k < i ==> carries_out(*self, arena_len, #[trigger] steps@[k], r@[k]),
            decreases steps@.len() - i,
        {
            assert(step_resolves(*self, steps@[i as int]));
            let action: HybridAction = match &steps[i] {
                HybridStep::Thunks { start, end } => HybridAction::Encode {
                    start: *start,
                    end: *end,
                },
                HybridStep::SubGraph { plan, boundary_parent_ids, output_parent_ids } => {
                    HybridAction::Dispatch(
                        self.dispatch_mps_plan(
                            plan,
                            arena_len,
                            Some(boundary_parent_ids),
                            Some(output_parent_ids.as_slice()),
                        ),
                    )
                },
            };
            r.push(action);
            i = i + 1;
        }
        r
    }
}

/// An arena within the window is bound in place throughout, and weights always are.
pub proof fn lemma_nothing_staged_in_small_arenas(ts: Seq<Located>, first: int, i: int)
    requires
        0 <= i < ts.len(),
    ensures
        !(slot_at(ts, false, first, i) is Staged),
        bound_offset(slot_at(ts, false, first, i)) == ts[i].offset,
        forall|big_arena: bool| ts[i].from_weight ==> slot_at(ts, big_arena, first, i) == (Slot::Weight {
            offset: ts[i].offset,
        }),
{
}

/// What is bound in place on a big arena lies in the window and starts on a page, unless it is
/// empty.
pub proof fn lemma_views_stay_in_the_window(ts: Seq<Located>, first: int, i: int)
    requires
        0 <= i < ts.len(),
        slot_at(ts, true, first, i) is Arena,
        ts[i].nbytes > 0,
    ensures
        ts[i].offset + ts[i].nbytes <= LIMIT,
        ts[i].offset % PAGE == 0,
{
}

/// Each staged tensor has a buffer of its own, of its own size.
pub proof fn lemma_staging_buffers_distinct(
    ts: Seq<Located>,
    big_arena: bool,
    first: int,
    i: int,
    j: int,
)
    requires
        0 <= i < j < ts.len(),
        0 <= first,
        first + ts.len() <= usize::MAX,
        is_staged(ts[i], big_arena),
        is_staged(ts[j], big_arena),
    ensures
        slot_at(ts, big_arena, first, i) != slot_at(ts, big_arena, first, j),
        staged_sizes(ts, big_arena, ts.len())[slot_at(ts, big_arena, first, i)->idx - first]
            == ts[i].nbytes,
{
    lemma_count_grows(ts, big_arena, (i + 1) as nat, j as nat);
    lemma_staged_len(ts, big_arena, i as nat);
    lemma_staged_len(ts, big_arena, j as nat);
    lemma_size_at(ts, big_arena, i, ts.len());
}

proof fn lemma_count_grows(ts: Seq<Located>, big_arena: bool, a: nat, b: nat)
    requires
        a <= b,
    ensures
        staged_count(ts, big_arena, a) <= staged_count(ts, big_arena, b),
    decreases b,
{
    if a < b {
        lemma_count_grows(ts, big_arena, a, (b - 1) as nat);
    }
}

proof fn lemma_size_at(ts: Seq<Located>, big_arena: bool, i: int, n: nat)
    requires
        0 <= i < n <= ts.len(),
        is_staged(ts[i], big_arena),
    ensures
        staged_count(ts, big_arena, i as nat) < staged_sizes(ts, big_arena, n).len(),
        staged_sizes(ts, big_arena, n)[staged_count(ts, big_arena, i as nat) as int] == ts[i].nbytes,
    decreases n,
{
    lemma_staged_len(ts, big_arena, (n - 1) as nat);
    if i < n - 1 {
        lemma_size_at(ts, big_arena, i, (n - 1) as nat);
    }
}

/// Parameters of up to this many bytes are frozen unless a setting says otherwise.
pub const DEFAULT_CONST_CAP: usize = 4_194_304;

pub open spec fn cap_setting(raw: Option<&str>) -> usize {
    match raw {
        Some(s) => match parsed_unsigned(s@, usize::MAX as nat) {
            Some(n) => n as usize,
            None => DEFAULT_CONST_CAP,
        },
        None => DEFAULT_CONST_CAP,
    }
}

/// The largest size at which a parameter is frozen; zero means any size.
pub fn const_cap(raw: Option<&str>) -> (r: usize)
    ensures
        r == cap_setting(raw),
{
    match raw {
        Some(s) => match parse_unsigned(&chars_of(s), usize::MAX as u64) {
            Some(n) => n as usize,
            None => DEFAULT_CONST_CAP,
        },
        None => DEFAULT_CONST_CAP,
    }
}

/// How a parameter becomes a constant.
#[derive(Clone, Copy, Debug, PartialEq, Eq, Structural)]
pub enum Frozen {
    /// Its bytes as they are: where they lie, and how many there are.
    Bytes { buf: Buf, offset: usize, len: usize },
    /// Its packed bytes, unpacked to a matrix of `n` rows of `k` floats and transposed.
    Unpacked { buf: Buf, offset: usize, len: usize, k: usize, n: usize, scheme: QuantScheme },
}

/// The node has a place, in the weight buffer or in the arena.
pub open spec fn placed(exe: MetalExecutable, id: int) -> bool {
    exe.weight_slots@[id] is Some || exe.arena@[id] is Some
}

pub open spec fn within_cap(bytes: nat, cap: usize) -> bool {
    cap == 0 || bytes <= cap
}

/// The first node that multiplies with a quantized parameter.
pub open spec fn first_user(g: &Graph, id: usize, i: int) -> bool {
    &&& 0 <= i < g.nodes@.len()
    &&& multiplies_with(g, i, id)
    &&& forall|j: int| 0 <= j < i ==> !#[trigger] multiplies_with(g, j, id)
}

/// Depth, columns and scheme of a quantized parameter, from its first user.
pub open spec fn unpacked_dims(g: &Graph, id: usize) -> Option<(nat, nat, QuantScheme)> {
    if exists|i: int| #[trigger] first_user(g, id, i) {
        let i = choose|i: int| #[trigger] first_user(g, id, i);
        match product_dims(g.nodes@[i].shape, g.input_shape(i, 0)) {
            Some((m, k, n)) => Some((k, n, g.nodes@[i].op->DequantMatMul_scheme)),
            None => None,
        }
    } else {
        None
    }
}

/// How the parameter at a node is frozen, if it is: floats in single precision as they are, and
/// quantized weights unpacked, as far as their sizes are known and within the cap.
pub open spec fn frozen(exe: MetalExecutable, id: usize, cap: usize) -> Option<Frozen> {
    let shape = exe.graph.nodes@[id as int].shape;
    let (buf, offset) = exe.param_place(id as int);
    if shape.dtype == DType::F32 {
        match shape.count() {
            Some(n) => if within_cap(n * 4, cap) && placed(exe, id as int) {
                Some(Frozen::Bytes { buf, offset, len: (n * 4) as usize })
            } else {
                None
            },
            None => None,
        }
    } else if shape.dtype == DType::U8 {
        match (unpacked_dims(&exe.graph, id), shape.count()) {
            (Some((k, n, scheme)), Some(len)) => if within_cap(k * n * 4, cap) && placed(
                exe,
                id as int,
            ) {
                Some(
                    Frozen::Unpacked {
                        buf,
                        offset,
                        len: len as usize,
                        k: k as usize,
                        n: n as usize,
                        scheme,
                    },
                )
            } else {
                None
            },
            _ => None,
        }
    } else {
        None
    }
}

/// The sizes that freezing compares with the cap fit a machine word.
pub open spec fn freezable(exe: MetalExecutable, id: usize) -> bool {
    let shape = exe.graph.nodes@[id as int].shape;
    &&& shape.dtype == DType::F32 ==> (shape.count() matches Some(n) ==> n * 4 <= usize::MAX)
    &&& shape.dtype == DType::U8 ==> (unpacked_dims(&exe.graph, id) matches Some(d) ==> d.0 * d.1
        <= usize::MAX && d.0 * d.1 * 4 <= usize::MAX)
}

fn dims_of_unpacked(g: &Graph, id: usize) -> (r: Option<(usize, usize, QuantScheme)>)
    requires
        g.well_formed(),
        g.sizes_fit(),
        dequant_shaped(g),
    ensures
        r is Some <==> unpacked_dims(g, id) is Some,
        r matches Some(d) ==> unpacked_dims(g, id) == Some((d.0 as nat, d.1 as nat, d.2)),
{
    let r: Option<(usize, usize, QuantScheme)> = gguf_dequant_dims_for_param(g, id);
    proof {
        if exists|i: int| #[trigger] first_user(g, id, i) {
            let i = choose|i: int| #[trigger] first_user(g, id, i);
            assert(multiplies_with(g, i, id));
        } else {
            assert forall|i: int| 0 <= i < g.nodes@.len() implies !#[trigger] multiplies_with(
                g,
                i,
                id,
            ) by {
                lemma_no_user(g, id, i);
            }
        }
    }
    r
}

/// Where no node is the first user, none is a user.
proof fn lemma_no_user(g: &Graph, id: usize, i: int)
    requires
        !(exists|k: int| #[trigger] first_user(g, id, k)),
        0 <= i < g.nodes@.len(),
    ensures
        !multiplies_with(g, i, id),
        forall|j: int| 0 <= j < i ==> !#[trigger] multiplies_with(g, j, id),
    decreases i,
{
    assert forall|j: int| 0 <= j < i implies !#[trigger] multiplies_with(g, j, id) by {
        lemma_no_user(g, id, j);
    }
    if multiplies_with(g, i, id) {
        assert(first_user(g, id, i));
    }
}

fn freeze_one(exe: &MetalExecutable, id: usize, cap: usize) -> (r: Option<Frozen>)
    requires
        exe.well_formed(),
        exe.graph.sizes_fit(),
        dequant_shaped(&exe.graph),
        id < exe.graph.nodes@.len(),
        freezable(*exe, id),
    ensures
        r == frozen(*exe, id, cap),
{
    let dtype: DType = exe.graph.nodes[id].shape.dtype;
    if dtype == DType::F32 {
        let len: usize = match exe.graph.nodes[id].shape.num_elements() {
            Some(n) => n * 4,
            None => {
                return None;
            },
        };
        if cap != 0 && len > cap {
            return None;
        }
        if exe.weight_slots[id].is_none() && exe.arena[id].is_none() {
            return None;
        }
        return Some(
            Frozen::Bytes { buf: exe.param_buffer(id), offset: exe.param_byte_offset(id), len },
        );
    }
    if dtype != DType::U8 {
        return None;
    }
    let (k, n, scheme) = match dims_of_unpacked(&exe.graph, id) {
        Some(d) => d,
        None => {
            return None;
        },
    };
    let len: usize = match exe.graph.nodes[id].shape.num_elements() {
        Some(n) => n,
        None => {
            return None;
        },
    };
    if cap != 0 && k * n * 4 > cap {
        return None;
    }
    if exe.weight_slots[id].is_none() && exe.arena[id].is_none() {
        return None;
    }
    Some(
        Frozen::Unpacked {
            buf: exe.param_buffer(id),
            offset: exe.param_byte_offset(id),
            len,
            k,
            n,
            scheme,
        },
    )
}

impl MetalExecutable {
    /// How each parameter is frozen into a plan, in the order of the parameters. Without a plan
    /// nothing is.
    pub fn freeze_params_to_mps_constants(&self, has_plan: bool, cap: usize) -> (r: Vec<
        Option<Frozen>,
    >)
        requires
            self.well_formed(),
            self.graph.sizes_fit(),
            dequant_shaped(&self.graph),
            forall|i: int|
                0 <= i < self.param_ids.items().len() ==> freezable(
                    *self,
                    #[trigger] self.param_ids.items()[i],
                ),
        ensures
            !has_plan ==> r@.len() == 0,
            has_plan ==> r@.len() == self.param_ids.items().len() && forall|i: int|
                0 <= i < r@.len() ==> #[trigger] r@[i] == frozen(
                    *self,
                    self.param_ids.items()[i],
                    cap,
                ),
    {
        let mut r: Vec<Option<Frozen>> = Vec::new();
        if !has_plan {
            return r;
        }
        proof {
            self.param_ids.lemma_parts();
        }
        let mut i: usize = 0;
        while i < self.param_ids.len()
            invariant
                i <= self.param_ids.keys().len(),
                self.param_ids.keys().len() == self.param_ids.items().len(),
                self.well_formed(),
                self.graph.sizes_fit(),
                dequant_shaped(&self.graph),
                forall|k: int|
                    0 <= k < self.param_ids.items().len() ==> freezable(
                        *self,
                        #[trigger] self.param_ids.items()[k],
                    ),
                r@.len() == i,
                forall|k: int|
                    0 <= k < i ==> #[trigger] r@[k] == frozen(
                        *self,
                        self.param_ids.items()[k],
                        cap,
                    ),
            decreases self.param_ids.keys().len() - i,
        {
            let id: usize = *self.param_ids.value_at(i);
            r.push(freeze_one(self, id, cap));
            i = i + 1;
        }
        r
    }
}

/// An operand of a custom operation: its place in the arena, and its shape.
#[derive(Debug)]
pub struct CustomInput {
    pub off: usize,
    pub len: u32,
    pub dims: Vec<Option<usize>>,
    pub dtype: DType,
}

/// A custom operation of a schedule.
#[derive(Debug)]
pub struct CustomOp {
    /// Whether it is a quantized product.
    pub is_qmatmul: bool,
    pub inputs: Vec<CustomInput>,
}

/// Bytes of the arena.
#[derive(Clone, Copy, Debug, PartialEq, Eq, Structural)]
pub struct Range {
    pub off: usize,
    pub nbytes: usize,
}

/// A weight that is unpacked ahead of the runs: where it, its scale and its zero point lie, the
/// precisions of the weight and of the zero point, and the extents of the weight.
#[derive(Clone, Copy, Debug, PartialEq, Eq, Structural)]
pub struct WeightTile {
    pub weight: Range,
    pub scale: Range,
    pub zero_point: Range,
    pub weight_dtype: DType,
    pub zero_point_dtype: DType,
    pub k: usize,
    pub n: usize,
}

/// A quantized product has six operands; the last three are the weight, its scale and its zero
/// point.
pub open spec fn has_tile(op: CustomOp) -> bool {
    op.is_qmatmul && op.inputs@.len() >= 6
}

pub open spec fn range_of(i: CustomInput) -> Range {
    Range { off: i.off, nbytes: (i.len * i.dtype.width()) as usize }
}

pub open spec fn extent_or_one(i: CustomInput, k: int) -> usize {
    if i.dims@[k]->0 == 0 {
        1
    } else {
        i.dims@[k]->0
    }
}

pub open spec fn tile_of(op: CustomOp) -> WeightTile {
    WeightTile {
        weight: range_of(op.inputs@[3]),
        scale: range_of(op.inputs@[4]),
        zero_point: range_of(op.inputs@[5]),
        weight_dtype: op.inputs@[3].dtype,
        zero_point_dtype: op.inputs@[5].dtype,
        k: extent_or_one(op.inputs@[3], 0),
        n: extent_or_one(op.inputs@[3], 1),
    }
}

/// The operands of a quantized product can be read, and its weight is a matrix.
pub open spec fn tile_ok(op: CustomOp) -> bool {
    has_tile(op) ==> {
        &&& op.inputs@[3].dims@.len() >= 2
        &&& op.inputs@[3].dims@[0] is Some
        &&& op.inputs@[3].dims@[1] is Some
        &&& op.inputs@[3].len * op.inputs@[3].dtype.width() <= usize::MAX
        &&& op.inputs@[4].len * op.inputs@[4].dtype.width() <= usize::MAX
        &&& op.inputs@[5].len * op.inputs@[5].dtype.width() <= usize::MAX
    }
}

/// The tiles of the first `n` operations.
pub open spec fn tiles(ops: Seq<CustomOp>, n: nat) -> Seq<WeightTile>
    decreases n,
{
    if n == 0 {
        Seq::empty()
    } else if has_tile(ops[n - 1]) {
        tiles(ops, (n - 1) as nat).push(tile_of(ops[n - 1]))
    } else {
        tiles(ops, (n - 1) as nat)
    }
}

fn range_of_input(i: &CustomInput) -> (r: Range)
    requires
        i.len * i.dtype.width() <= usize::MAX,
    ensures
        r == range_of(*i),
{
    Range { off: i.off, nbytes: i.len as usize * i.dtype.size_bytes() }
}

fn extent_of_input(i: &CustomInput, k: usize) -> (r: usize)
    requires
        k < i.dims@.len(),
        i.dims@[k as int] is Some,
    ensures
        r == extent_or_one(*i, k as int),
{
    match i.dims[k] {
        Some(d) => if d == 0 {
            1
        } else {
            d
        },
        None => 1,
    }
}

/// The weights of quantized products that are unpacked ahead of the runs, where that is on.
pub fn preload_qmatmul_weights(enabled: bool, ops: &[CustomOp]) -> (r: Vec<WeightTile>)
    requires
        forall|i: int| 0 <= i < ops@.len() ==> tile_ok(#[trigger] ops@[i]),
    ensures
        !enabled ==> r@.len() == 0,
        enabled ==> r@ == tiles(ops@, ops@.len()),
{
    let mut r: Vec<WeightTile> = Vec::new();
    if !enabled {
        return r;
    }
    let mut i: usize = 0;
    while i < ops.len()
        invariant
            i <= ops@.len(),
            forall|k: int| 0 <= k < ops@.len() ==> tile_ok(#[trigger] ops@[k]),
            r@ == tiles(ops@, i as nat),
        decreases ops@.len() - i,
    {
        let op: &CustomOp = &ops[i];
        if op.is_qmatmul && op.inputs.len() >= 6 {
            r.push(
                WeightTile {
                    weight: range_of_input(&op.inputs[3]),
                    scale: range_of_input(&op.inputs[4]),
                    zero_point: range_of_input(&op.inputs[5]),
                    weight_dtype: op.inputs[3].dtype,
                    zero_point_dtype: op.inputs[5].dtype,
                    k: extent_of_input(&op.inputs[3], 0),
                    n: extent_of_input(&op.inputs[3], 1),
                },
            );
        }
        i = i + 1;
    }
    r
}

} // verus!
