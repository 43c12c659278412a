//! A compiled executable as far as the host decides about it: where parameters live, which handles
//! stay on the device, and what is copied between their places before and after a run.

use vstd::prelude::*;

use crate::command::Buf;
use crate::graph::{DType, Graph};
use crate::name_map::{overlaid, NameMap};

verus! {

/// Numeric precision that a graph is compiled at. Half precision falls back to single precision
/// where an operation has no kernel for it.
#[derive(Clone, Copy, Debug, PartialEq, Eq, Structural)]
pub enum MetalPrecision {
    F32,
    F16,
}

/// A parameter that lives in the weight buffer.
#[derive(Clone, Copy, Debug, PartialEq, Eq, Structural)]
pub struct WeightParamSlot {
    pub offset: usize,
    pub nbytes: usize,
    pub nelems: usize,
    pub dtype: DType,
}

/// The place of a node in the arena.
#[derive(Clone, Copy, Debug, PartialEq, Eq, Structural)]
pub struct ArenaSlot {
    pub byte_offset: usize,
    pub elements: usize,
    pub dtype: DType,
}

#[derive(Debug)]
pub struct MetalExecutable {
    pub graph: Graph,
    /// For each node, its place in the arena, if it has one.
    pub arena: Vec<Option<ArenaSlot>>,
    /// For each node, its place in the weight buffer, if it has one.
    pub weight_slots: Vec<Option<WeightParamSlot>>,
    pub has_weight_buffer: bool,
    pub input_ids: NameMap<usize>,
    pub param_ids: NameMap<usize>,
    /// Byte offset and capacity in floats, in the order of the inputs.
    pub input_slots: Vec<(usize, usize)>,
    /// Byte offset and length in floats, in the order of the outputs.
    pub output_slots: Vec<(usize, usize)>,
    pub precision: MetalPrecision,
    /// The rows that the next run processes, of those that the graph was compiled for.
    pub active_extent: Option<(usize, usize)>,
    /// Handles, with the number of floats that the host holds of each.
    pub gpu_handles: NameMap<usize>,
    /// Handles that take over an output after each run.
    pub gpu_handle_feeds: NameMap<usize>,
    /// Handles whose place in the arena is authoritative.
    pub gpu_handle_resident: NameMap<bool>,
    /// Handles that take over single rows of an output.
    pub kv_row_feeds: NameMap<usize>,
    /// Places of joined weights that are already computed.
    pub baked_weight_concats: Vec<usize>,
}

/// Every name stands for a node.
pub open spec fn names_nodes(ids: NameMap<usize>, nodes: nat) -> bool {
    ids.well_formed() && forall|i: int|
        0 <= i < ids.items().len() ==> (#[trigger] ids.items()[i]) < nodes
}

impl MetalExecutable {
    pub open spec fn well_formed(&self) -> bool {
        let n = self.graph.nodes@.len();
        &&& self.graph.well_formed()
        &&& self.arena@.len() == n
        &&& self.weight_slots@.len() == n
        &&& self.output_slots@.len() == self.graph.outputs@.len()
        &&& names_nodes(self.input_ids, n)
        &&& names_nodes(self.param_ids, n)
        &&& self.gpu_handles.well_formed()
        &&& self.gpu_handle_feeds.well_formed()
        &&& self.gpu_handle_resident.well_formed()
        &&& self.kv_row_feeds.well_formed()
    }
}

proof fn lemma_named_node(ids: NameMap<usize>, nodes: nat, name: Seq<char>)
    requires
        names_nodes(ids, nodes),
        ids.has(name),
    ensures
        ids.value(name) < nodes,
{
    let i = ids.keys().index_of(name);
    assert(ids.keys()[i] == name);
    ids.lemma_parts();
}

pub open spec fn smaller(a: usize, b: usize) -> usize {
    if a <= b {
        a
    } else {
        b
    }
}

fn smaller_of(a: usize, b: usize) -> (r: usize)
    ensures
        r == smaller(a, b),
{
    if a <= b {
        a
    } else {
        b
    }
}

/// Where the data of a parameter goes.
#[derive(Clone, Copy, Debug, PartialEq, Eq, Structural)]
pub enum ParamWrite {
    /// There is no such parameter, or it has no place.
    Nowhere,
    /// Into the weight buffer: the slot, and how much of the data fits it.
    Weights(WeightParamSlot, usize),
    /// Into the arena, at the place of the node.
    Arena(usize),
}

/// Bytes that go into the arena, from an offset into the place of a node on.
#[derive(Clone, Copy, Debug, PartialEq, Eq, Structural)]
pub struct PartWrite {
    pub node: usize,
    pub byte_offset: usize,
    pub len: usize,
}

/// Where data for a parameter goes, given how much of it the weight slot takes.
pub open spec fn param_write(
    exe: MetalExecutable,
    name: Seq<char>,
    len: usize,
    room: spec_fn(WeightParamSlot) -> usize,
) -> ParamWrite {
    if !exe.param_ids.has(name) {
        ParamWrite::Nowhere
    } else {
        let id = exe.param_ids.value(name);
        match exe.weight_slots@[id as int] {
            Some(slot) => ParamWrite::Weights(slot, smaller(len, room(slot))),
            None => if exe.arena@[id as int] is Some {
                ParamWrite::Arena(id)
            } else {
                ParamWrite::Nowhere
            },
        }
    }
}

impl MetalExecutable {
    /// Everything as it was, except that no joined weights count as computed any more: they are
    /// stale once a parameter under them changes.
    pub open spec fn with_stale_packs(&self, after: MetalExecutable) -> bool {
        &&& after.baked_weight_concats@ == Seq::<usize>::empty()
        &&& after == (MetalExecutable { baked_weight_concats: after.baked_weight_concats, ..*self })
    }

    fn invalidate_baked_weight_packs(&mut self)
        ensures
            old(self).with_stale_packs(*final(self)),
    {
        self.baked_weight_concats = Vec::new();
    }

    /// Where `len` floats for a parameter go.
    pub fn set_param(&mut self, name: &str, len: usize) -> (r: ParamWrite)
        requires
            old(self).well_formed(),
        ensures
            r == param_write(*old(self), name@, len, |s: WeightParamSlot| s.nelems),
            old(self).with_stale_packs(*final(self)),
    {
        self.invalidate_baked_weight_packs();
        match self.param_ids.get(name) {
            Some(id) => {
                let id: usize = *id;
                proof {
                    lemma_named_node(self.param_ids, self.graph.nodes@.len(), name@);
                }
                match self.weight_slots[id] {
                    Some(slot) => ParamWrite::Weights(slot, smaller_of(len, slot.nelems)),
                    None => if self.arena[id].is_some() {
                        ParamWrite::Arena(id)
                    } else {
                        ParamWrite::Nowhere
                    },
                }
            },
            None => ParamWrite::Nowhere,
        }
    }

    /// Where `len` raw bytes for a parameter go.
    pub fn set_param_bytes(&mut self, name: &str, len: usize) -> (r: ParamWrite)
        requires
            old(self).well_formed(),
        ensures
            r == param_write(*old(self), name@, len, |s: WeightParamSlot| s.nbytes),
            old(self).with_stale_packs(*final(self)),
    {
        self.invalidate_baked_weight_packs();
        match self.param_ids.get(name) {
            Some(id) => {
                let id: usize = *id;
                proof {
                    lemma_named_node(self.param_ids, self.graph.nodes@.len(), name@);
                }
                match self.weight_slots[id] {
                    Some(slot) => ParamWrite::Weights(slot, smaller_of(len, slot.nbytes)),
                    None => if self.arena[id].is_some() {
                        ParamWrite::Arena(id)
                    } else {
                        ParamWrite::Nowhere
                    },
                }
            },
            None => ParamWrite::Nowhere,
        }
    }

    /// Where `len` raw bytes go that replace a part of a parameter from `byte_offset` on, if it
    /// can be written in part: one in the weight buffer cannot, and the caller uploads it whole.
    pub fn set_param_range(&mut self, name: &str, byte_offset: usize, len: usize) -> (r: Option<
        PartWrite,
    >)
        requires
            old(self).well_formed(),
        ensures
            r == (match param_write(*old(self), name@, 0, |s: WeightParamSlot| s.nbytes) {
                ParamWrite::Arena(node) => Some(PartWrite { node, byte_offset, len }),
                _ => None,
            }),
            old(self).with_stale_packs(*final(self)),
    {
        match self.set_param_bytes(name, 0) {
            ParamWrite::Arena(node) => Some(PartWrite { node, byte_offset, len }),
            _ => None,
        }
    }

    /// The precision in which a parameter is stored, if there is such a parameter.
    pub open spec fn storage_dtype(&self, name: Seq<char>) -> Option<DType> {
        if !self.param_ids.has(name) {
            None
        } else {
            let id = self.param_ids.value(name);
            match self.weight_slots@[id as int] {
                Some(slot) => Some(slot.dtype),
                None => match self.arena@[id as int] {
                    Some(slot) => Some(slot.dtype),
                    None => None,
                },
            }
        }
    }

    /// Whether a parameter is stored in half precision.
    pub fn param_storage_is_f16(&self, name: &str) -> (r: bool)
        requires
            self.well_formed(),
        ensures
            r == (self.storage_dtype(name@) == Some(DType::F16)),
    {
        match self.param_ids.get(name) {
            Some(id) => {
                let id: usize = *id;
                proof {
                    lemma_named_node(self.param_ids, self.graph.nodes@.len(), name@);
                }
                match self.weight_slots[id] {
                    Some(slot) => slot.dtype == DType::F16,
                    None => match self.arena[id] {
                        Some(slot) => slot.dtype == DType::F16,
                        None => false,
                    },
                }
            },
            None => false,
        }
    }

    /// The place of a parameter: the buffer, and the byte offset in it.
    pub open spec fn param_place(&self, id: int) -> (Buf, usize) {
        match self.weight_slots@[id] {
            Some(slot) => (Buf::Weights, slot.offset),
            None => (Buf::Arena, self.arena@[id]->0.byte_offset),
        }
    }

    pub fn param_byte_offset(&self, id: usize) -> (r: usize)
        requires
            self.well_formed(),
            id < self.graph.nodes@.len(),
            self.weight_slots@[id as int] is Some || self.arena@[id as int] is Some,
        ensures
            r == self.param_place(id as int).1,
    {
        match self.weight_slots[id] {
            Some(slot) => slot.offset,
            None => match self.arena[id] {
                Some(slot) => slot.byte_offset,
                None => 0,
            },
        }
    }

    /// The buffer and the byte offset in it of a tagged offset: one with the tag of the weight
    /// buffer has an offset without it.
    pub fn resolve_off(&self, tagged: usize, untagged: Option<usize>) -> (r: (Buf, usize))
        requires
            untagged is Some ==> self.has_weight_buffer,
        ensures
            r == (match untagged {
                Some(raw) => (Buf::Weights, raw),
                None => (Buf::Arena, tagged),
            }),
    {
        match untagged {
            Some(raw) => (Buf::Weights, raw),
            None => (Buf::Arena, tagged),
        }
    }

    pub fn param_buffer(&self, id: usize) -> (r: Buf)
        requires
            self.well_formed(),
            id < self.graph.nodes@.len(),
        ensures
            r == self.param_place(id as int).0,
    {
        if self.weight_slots[id].is_some() {
            Buf::Weights
        } else {
            Buf::Arena
        }
    }
}

/// One parameter's bytes, copied between two executables.
#[derive(Clone, Copy, Debug, PartialEq, Eq, Structural)]
pub enum ParamCopy {
    /// Between the weight buffers: byte offsets there and here, and how many bytes.
    Weights { src: usize, dst: usize, nbytes: usize },
    /// Between the arenas: the nodes there and here.
    Arena { src: usize, dst: usize },
}

/// The elements that a node's place holds.
pub open spec fn capacity(exe: MetalExecutable, id: int) -> usize {
    match exe.arena@[id] {
        Some(slot) => slot.elements,
        None => 0,
    }
}

/// How a parameter is copied from a node there to a node here: their places are of the same kind
/// and size.
pub open spec fn param_copy(
    here: MetalExecutable,
    there: MetalExecutable,
    dst: usize,
    src: usize,
) -> Option<ParamCopy> {
    match (here.weight_slots@[dst as int], there.weight_slots@[src as int]) {
        (Some(d), Some(s)) => if d.nbytes == s.nbytes && d.dtype == s.dtype {
            Some(ParamCopy::Weights { src: s.offset, dst: d.offset, nbytes: d.nbytes })
        } else {
            None
        },
        (None, None) => if here.arena@[dst as int] is Some && there.arena@[src as int] is Some
            && capacity(here, dst as int) == capacity(there, src as int) {
            Some(ParamCopy::Arena { src, dst })
        } else {
            None
        },
        _ => None,
    }
}

/// How the `i`th parameter here is copied, if it can be.
pub open spec fn nth_copy(here: MetalExecutable, there: MetalExecutable, i: int) -> Option<
    ParamCopy,
> {
    let name = here.param_ids.keys()[i];
    if there.param_ids.has(name) {
        param_copy(here, there, here.param_ids.items()[i], there.param_ids.value(name))
    } else {
        None
    }
}

/// The copies of the first `n` parameters, all of which can be copied.
pub open spec fn copies_of(
    here: MetalExecutable,
    there: MetalExecutable,
    n: nat,
    copies: Seq<ParamCopy>,
) -> bool {
    &&& copies.len() == n
    &&& forall|i: int|
        0 <= i < n ==> (#[trigger] nth_copy(here, there, i)) is Some && copies[i] == nth_copy(
            here,
            there,
            i,
        )->0
}

fn copy_between(here: &MetalExecutable, there: &MetalExecutable, dst: usize, src: usize) -> (r:
    Option<ParamCopy>)
    requires
        here.well_formed(),
        there.well_formed(),
        dst < here.graph.nodes@.len(),
        src < there.graph.nodes@.len(),
    ensures
        r == param_copy(*here, *there, dst, src),
{
    match (here.weight_slots[dst], there.weight_slots[src]) {
        (Some(d), Some(s)) => {
            if d.nbytes == s.nbytes && d.dtype == s.dtype {
                Some(ParamCopy::Weights { src: s.offset, dst: d.offset, nbytes: d.nbytes })
            } else {
                None
            }
        },
        (None, None) => match (here.arena[dst], there.arena[src]) {
            (Some(d), Some(s)) => {
                if d.elements == s.elements {
                    Some(ParamCopy::Arena { src, dst })
                } else {
                    None
                }
            },
            _ => None,
        },
        _ => None,
    }
}

/// What bringing parameters over came to.
#[derive(Debug)]
pub struct Transfer {
    /// Every parameter is among the copies.
    pub ok: bool,
    pub copies: Vec<ParamCopy>,
    /// After the copies, the weights of quantized products are unpacked.
    pub preload: bool,
}

impl MetalExecutable {
    /// The copies that bring all parameters over from another executable with the same layout.
    /// Where the layouts differ, the copies are those of the parameters before the first that
    /// differs. Quantized weights are unpacked once all parameters are there, and only there.
    pub fn copy_params_from(&self, other: &Self) -> (r: Transfer)
        requires
            self.well_formed(),
            other.well_formed(),
        ensures
            r.ok <==> self.param_ids.keys().len() == other.param_ids.keys().len() && forall|i: int|
                0 <= i < self.param_ids.keys().len() ==> (#[trigger] nth_copy(*self, *other, i)) is Some,
            copies_of(*self, *other, r.copies@.len(), r.copies@),
            r.ok ==> r.copies@.len() == self.param_ids.keys().len(),
            !r.ok && self.param_ids.keys().len() != other.param_ids.keys().len()
                ==> r.copies@.len() == 0,
            !r.ok && self.param_ids.keys().len() == other.param_ids.keys().len() ==> r.copies@.len()
                < self.param_ids.keys().len() && nth_copy(
                *self,
                *other,
                r.copies@.len() as int,
            ) is None,
            r.preload == r.ok,
    {
        let mut copies: Vec<ParamCopy> = Vec::new();
        if self.param_ids.len() != other.param_ids.len() {
            return Transfer { ok: false, copies, preload: false };
        }
        let mut i: usize = 0;
        while i < self.param_ids.len()
            invariant
                i <= self.param_ids.keys().len(),
                self.well_formed(),
                other.well_formed(),
                self.param_ids.keys().len() == other.param_ids.keys().len(),
                copies_of(*self, *other, i as nat, copies@),
            decreases self.param_ids.keys().len() - i,
        {
            proof {
                self.param_ids.lemma_parts();
            }
            let dst_id: usize = *self.param_ids.value_at(i);
            let name: &Vec<char> = self.param_ids.name_at(i);
            let found: Option<ParamCopy> = match other.param_ids.get_chars(name) {
                Some(src_id) => {
                    proof {
                        lemma_named_node(other.param_ids, other.graph.nodes@.len(), name@);
                    }
                    copy_between(self, other, dst_id, *src_id)
                },
                None => None,
            };
            assert(found == nth_copy(*self, *other, i as int));
            match found {
                Some(copy) => {
                    copies.push(copy);
                },
                None => {
                    return Transfer { ok: false, copies, preload: false };
                },
            }
            i = i + 1;
        }
        Transfer { ok: true, copies, preload: true }
    }
}

/// The `i`th parameter lies at the same bytes of both weight buffers, or in neither.
pub open spec fn same_layout(here: MetalExecutable, there: MetalExecutable, i: int) -> bool {
    let name = here.param_ids.keys()[i];
    &&& there.param_ids.has(name)
    &&& match (
        here.weight_slots@[here.param_ids.items()[i] as int],
        there.weight_slots@[there.param_ids.value(name) as int],
    ) {
        (Some(d), Some(s)) => d.offset == s.offset && d.nbytes == s.nbytes && d.dtype == s.dtype,
        (None, None) => true,
        _ => false,
    }
}

/// Some node has a place in the weight buffer.
pub open spec fn any_weight(exe: MetalExecutable) -> bool {
    exists|k: int| 0 <= k < exe.weight_slots@.len() && (#[trigger] exe.weight_slots@[k]) is Some
}

/// One weight buffer can serve both executables.
pub open spec fn shareable(here: MetalExecutable, there: MetalExecutable) -> bool {
    &&& here.param_ids.keys().len() == there.param_ids.keys().len()
    &&& forall|i: int|
        0 <= i < here.param_ids.keys().len() ==> #[trigger] same_layout(here, there, i)
    &&& there.has_weight_buffer
    &&& any_weight(here)
}

/// The `i`th parameter needs no copy, or can be copied.
pub open spec fn fine(here: MetalExecutable, there: MetalExecutable, i: int) -> bool {
    here.weight_slots@[here.param_ids.items()[i] as int] is Some || nth_copy(here, there, i) is Some
}

/// The copies of those of the first `n` parameters that live in the arena.
pub open spec fn arena_copies(here: MetalExecutable, there: MetalExecutable, n: nat) -> Seq<
    ParamCopy,
>
    decreases n,
{
    if n == 0 {
        Seq::empty()
    } else {
        let rest = arena_copies(here, there, (n - 1) as nat);
        if here.weight_slots@[here.param_ids.items()[n - 1] as int] is Some {
            rest
        } else {
            rest.push(nth_copy(here, there, n - 1)->0)
        }
    }
}

/// What sharing came to.
#[derive(Debug)]
pub struct Sharing {
    /// Every parameter is served, by the shared buffer or by a copy.
    pub ok: bool,
    /// The weight buffer of the other executable is taken over.
    pub shared: bool,
    /// What is copied between the arenas.
    pub copies: Vec<ParamCopy>,
    /// After the copies, the weights of quantized products are unpacked.
    pub preload: bool,
}

fn has_any_weight(exe: &MetalExecutable) -> (r: bool)
    ensures
        r == any_weight(*exe),
{
    let mut k: usize = 0;
    while k < exe.weight_slots.len()
        invariant
            k <= exe.weight_slots@.len(),
            forall|j: int| 0 <= j < k ==> (#[trigger] exe.weight_slots@[j]) is None,
        decreases exe.weight_slots@.len() - k,
    {
        if exe.weight_slots[k].is_some() {
            assert(exe.weight_slots@[k as int] is Some);
            return true;
        }
        k = k + 1;
    }
    false
}

fn layouts_agree(here: &MetalExecutable, there: &MetalExecutable) -> (r: bool)
    requires
        here.well_formed(),
        there.well_formed(),
    ensures
        r <==> forall|i: int|
            0 <= i < here.param_ids.keys().len() ==> #[trigger] same_layout(*here, *there, i),
{
    let mut i: usize = 0;
    while i < here.param_ids.len()
        invariant
            i <= here.param_ids.keys().len(),
            here.well_formed(),
            there.well_formed(),
            forall|j: int| 0 <= j < i ==> #[trigger] same_layout(*here, *there, j),
        decreases here.param_ids.keys().len() - i,
    {
        proof {
            here.param_ids.lemma_parts();
        }
        let dst_id: usize = *here.param_ids.value_at(i);
        let name: &Vec<char> = here.param_ids.name_at(i);
        let agree: bool = match there.param_ids.get_chars(name) {
            Some(src_id) => {
                let src_id: usize = *src_id;
                proof {
                    lemma_named_node(there.param_ids, there.graph.nodes@.len(), name@);
                }
                match (here.weight_slots[dst_id], there.weight_slots[src_id]) {
                    (Some(d), Some(s)) => d.offset == s.offset && d.nbytes == s.nbytes && d.dtype
                        == s.dtype,
                    (None, None) => true,
                    _ => false,
                }
            },
            None => false,
        };
        assert(agree == same_layout(*here, *there, i as int));
        if !agree {
            return false;
        }
        i = i + 1;
    }
    true
}

impl MetalExecutable {
    /// Takes over the weight buffer of another executable with exactly the same layout, instead
    /// of filling one of its own, and copies the parameters in the arena. Where the layouts
    /// differ, or there is nothing to share, nothing is taken over. Quantized weights are unpacked
    /// once every parameter is served.
    pub fn share_weights_from(&mut self, other: &Self) -> (r: Sharing)
        requires
            old(self).well_formed(),
            other.well_formed(),
        ensures
            r.shared <==> shareable(*old(self), *other),
            r.ok <==> r.shared && forall|i: int|
                0 <= i < old(self).param_ids.keys().len() ==> #[trigger] fine(
                    *old(self),
                    *other,
                    i,
                ),
            !r.shared ==> r.copies@.len() == 0,
            r.ok ==> r.copies@ == arena_copies(
                *old(self),
                *other,
                old(self).param_ids.keys().len(),
            ),
            r.shared && !r.ok ==> exists|m: int|
                0 <= m < old(self).param_ids.keys().len() && !(#[trigger] fine(
                    *old(self),
                    *other,
                    m,
                )) && r.copies@ == arena_copies(*old(self), *other, m as nat) && forall|i: int|
                    0 <= i < m ==> #[trigger] fine(*old(self), *other, i),
            r.preload == r.ok,
            *final(self) == (MetalExecutable {
                has_weight_buffer: old(self).has_weight_buffer || r.shared,
                ..*old(self)
            }),
    {
        let ghost here = *self;
        let mut copies: Vec<ParamCopy> = Vec::new();
        if self.param_ids.len() != other.param_ids.len() || !layouts_agree(self, other)
            || !other.has_weight_buffer || !has_any_weight(self) {
            return Sharing { ok: false, shared: false, copies, preload: false };
        }
        self.has_weight_buffer = true;
        let mut i: usize = 0;
        while i < self.param_ids.len()
            invariant
                i <= here.param_ids.keys().len(),
                here == *old(self),
                here.well_formed(),
                *self == (MetalExecutable { has_weight_buffer: true, ..here }),
                other.well_formed(),
                shareable(here, *other),
                copies@ == arena_copies(here, *other, i as nat),
                forall|j: int| 0 <= j < i ==> #[trigger] fine(here, *other, j),
            decreases here.param_ids.keys().len() - i,
        {
            proof {
                self.param_ids.lemma_parts();
            }
            let dst_id: usize = *self.param_ids.value_at(i);
            if self.weight_slots[dst_id].is_none() {
                let name: &Vec<char> = self.param_ids.name_at(i);
                let found: Option<ParamCopy> = match other.param_ids.get_chars(name) {
                    Some(src_id) => {
                        proof {
                            lemma_named_node(other.param_ids, other.graph.nodes@.len(), name@);
                        }
                        copy_between(self, other, dst_id, *src_id)
                    },
                    None => None,
                };
                assert(found == nth_copy(here, *other, i as int));
                match found {
                    Some(copy) => {
                        copies.push(copy);
                    },
                    None => {
                        assert(!fine(here, *other, i as int));
                        return Sharing { ok: false, shared: true, copies, preload: false };
                    },
                }
            }
            assert(fine(here, *other, i as int));
            i = i + 1;
        }
        Sharing { ok: true, shared: true, copies, preload: true }
    }

    pub fn has_gpu_handle(&self, name: &str) -> (r: bool)
        requires
            self.well_formed(),
        ensures
            r == self.gpu_handles.has(name@),
    {
        self.gpu_handles.contains(name)
    }

    pub fn set_active_extent(&mut self, extent: Option<(usize, usize)>)
        ensures
            *final(self) == (MetalExecutable { active_extent: extent, ..*old(self) }),
    {
        self.active_extent = extent;
    }

    /// Lets a handle take over an output after each run.
    pub fn set_gpu_handle_feed(&mut self, handle_name: &str, output_index: usize)
        requires
            old(self).well_formed(),
        ensures
            final(self).gpu_handle_feeds.lookup(handle_name@) == Some(output_index),
            forall|other: Seq<char>|
                other != handle_name@ ==> #[trigger] final(self).gpu_handle_feeds.lookup(other)
                    == old(self).gpu_handle_feeds.lookup(other),
            final(self).well_formed(),
            *final(self) == (MetalExecutable {
                gpu_handle_feeds: final(self).gpu_handle_feeds,
                ..*old(self)
            }),
    {
        self.gpu_handle_feeds.insert(handle_name, output_index);
    }

    /// Lets a handle take over single rows of an output.
    pub fn register_kv_row_feed(&mut self, handle_name: &str, output_index: usize)
        requires
            old(self).well_formed(),
        ensures
            final(self).kv_row_feeds.lookup(handle_name@) == Some(output_index),
            forall|other: Seq<char>|
                other != handle_name@ ==> #[trigger] final(self).kv_row_feeds.lookup(other) == old(
                    self,
                ).kv_row_feeds.lookup(other),
            final(self).well_formed(),
            *final(self) == (MetalExecutable {
                kv_row_feeds: final(self).kv_row_feeds,
                ..*old(self)
            }),
    {
        self.kv_row_feeds.insert(handle_name, output_index);
    }
}

/// The handles of which the host holds any floats, among the first `n`, by position.
pub open spec fn held_handles(handles: NameMap<usize>, n: nat) -> Seq<usize>
    decreases n,
{
    if n == 0 {
        Seq::empty()
    } else {
        let before = held_handles(handles, (n - 1) as nat);
        if handles.items()[n - 1] > 0 {
            before.push((n - 1) as usize)
        } else {
            before
        }
    }
}

/// A fresh executable that has taken over the state of another.
#[derive(Debug)]
pub struct CacheClone {
    pub exe: MetalExecutable,
    /// Whether every parameter is among the copies.
    pub copied: bool,
    pub copies: Vec<ParamCopy>,
    /// After the copies, the weights of quantized products are unpacked.
    pub preload: bool,
    /// The handles whose floats are to be bound anew, by their position in the other executable.
    pub bound: Vec<usize>,
}

impl MetalExecutable {
    fn host_handles(&self) -> (r: Vec<usize>)
        requires
            self.well_formed(),
        ensures
            r@ == held_handles(self.gpu_handles, self.gpu_handles.keys().len()),
    {
        let mut held: Vec<usize> = Vec::new();
        let mut i: usize = 0;
        while i < self.gpu_handles.len()
            invariant
                i <= self.gpu_handles.keys().len(),
                self.well_formed(),
                held@ == held_handles(self.gpu_handles, i as nat),
            decreases self.gpu_handles.keys().len() - i,
        {
            if *self.gpu_handles.value_at(i) > 0 {
                held.push(i);
            }
            i = i + 1;
        }
        held
    }

    /// Hands the state of this executable to one freshly compiled from the same graph: its
    /// parameters, which are no part of the graph, its handles, its feeds and its active rows.
    pub fn clone_for_cache(&self, fresh: MetalExecutable) -> (r: CacheClone)
        requires
            self.well_formed(),
            fresh.well_formed(),
        ensures
            r.copied <==> fresh.param_ids.keys().len() == self.param_ids.keys().len() && forall|
                i: int,
            |
                0 <= i < fresh.param_ids.keys().len() ==> (#[trigger] nth_copy(fresh, *self, i)) is Some,
            copies_of(fresh, *self, r.copies@.len(), r.copies@),
            r.copied ==> r.copies@.len() == fresh.param_ids.keys().len(),
            !r.copied && fresh.param_ids.keys().len() != self.param_ids.keys().len()
                ==> r.copies@.len() == 0,
            !r.copied && fresh.param_ids.keys().len() == self.param_ids.keys().len()
                ==> r.copies@.len() < fresh.param_ids.keys().len() && nth_copy(
                fresh,
                *self,
                r.copies@.len() as int,
            ) is None,
            r.preload == r.copied,
            r.bound@ == held_handles(self.gpu_handles, self.gpu_handles.keys().len()),
            forall|name: Seq<char>| #[trigger]
                r.exe.gpu_handle_feeds.lookup(name) == overlaid(
                    fresh.gpu_handle_feeds.lookup(name),
                    self.gpu_handle_feeds.lookup(name),
                ),
            forall|name: Seq<char>| #[trigger]
                r.exe.kv_row_feeds.lookup(name) == overlaid(
                    fresh.kv_row_feeds.lookup(name),
                    self.kv_row_feeds.lookup(name),
                ),
            r.exe.well_formed(),
            r.exe == (MetalExecutable {
                gpu_handle_feeds: r.exe.gpu_handle_feeds,
                kv_row_feeds: r.exe.kv_row_feeds,
                active_extent: self.active_extent,
                ..fresh
            }),
    {
        let mut exe: MetalExecutable = fresh;
        let params: Transfer = exe.copy_params_from(self);
        let bound: Vec<usize> = self.host_handles();
        exe.gpu_handle_feeds.insert_all(&self.gpu_handle_feeds);
        exe.kv_row_feeds.insert_all(&self.kv_row_feeds);
        exe.set_active_extent(self.active_extent);
        CacheClone {
            exe,
            copied: params.ok,
            copies: params.copies,
            preload: params.preload,
            bound,
        }
    }
}

/// How the floats of a parameter are stored in the weight buffer.
#[derive(Clone, Copy, Debug, PartialEq, Eq, Structural)]
pub enum WeightEncoding {
    Single,
    Half,
    Brain,
}

pub open spec fn encoding_of(dtype: DType) -> WeightEncoding {
    match dtype {
        DType::F16 => WeightEncoding::Half,
        DType::BF16 => WeightEncoding::Brain,
        _ => WeightEncoding::Single,
    }
}

/// How `len` floats are written to a weight slot, and how many of them.
pub fn write_weight_from_f32(slot: WeightParamSlot, len: usize) -> (r: (WeightEncoding, usize))
    ensures
        r == (encoding_of(slot.dtype), smaller(len, slot.nelems)),
{
    let encoding: WeightEncoding = match slot.dtype {
        DType::F16 => WeightEncoding::Half,
        DType::BF16 => WeightEncoding::Brain,
        _ => WeightEncoding::Single,
    };
    (encoding, smaller_of(len, slot.nelems))
}

/// How many of `len` bytes are written to a weight slot.
pub fn write_weight_bytes(slot: WeightParamSlot, len: usize) -> (r: usize)
    ensures
        r == smaller(len, slot.nbytes),
{
    smaller_of(len, slot.nbytes)
}

/// The length of the buffer that replaces one that is missing or too short for the unpacked
/// weights, if it is to be replaced.
pub fn ensure_f16_weight_scratch(current: Option<u64>, nbytes: usize) -> (r: Option<u64>)
    ensures
        r == ({
            let need = if nbytes == 0 {
                1
            } else {
                nbytes as u64
            };
            if current is Some && current->0 >= need {
                None
            } else {
                Some(need)
            }
        }),
{
    let need: u64 = if nbytes == 0 {
        1
    } else {
        nbytes as u64
    };
    match current {
        Some(length) => if length < need {
            Some(need)
        } else {
            None
        },
        None => Some(need),
    }
}

/// Floats of one row, copied in the arena from an output to an input.
#[derive(Clone, Copy, Debug, PartialEq, Eq, Structural)]
pub struct RowCopy {
    pub dst: usize,
    pub dst_elem: usize,
    pub src: usize,
    pub src_elem: usize,
    pub len: usize,
}

/// The `i`th feed takes effect: its output exists, and its handle is an input.
pub open spec fn feeds_input(exe: MetalExecutable, feeds: NameMap<usize>, i: int) -> bool {
    feeds.items()[i] < exe.graph.outputs@.len() && exe.input_ids.has(feeds.keys()[i])
}

/// The nodes that the `i`th feed copies to and from.
pub open spec fn fed_nodes(exe: MetalExecutable, feeds: NameMap<usize>, i: int) -> (usize, usize) {
    (exe.input_ids.value(feeds.keys()[i]), exe.graph.outputs@[feeds.items()[i] as int])
}

/// Where the rows of a feed come from and go to. The output holds `src_cap` rows for each batch
/// element and the input `dst_cap`; batch element `b` takes row `src_row` over as row
/// `dst_rows[b]`.
#[verifier::ext_equal]
pub struct RowPlan {
    pub src_row: nat,
    pub src_cap: nat,
    pub dst_rows: Seq<usize>,
    pub dst_cap: nat,
    pub row_elems: nat,
}

impl RowPlan {
    pub open spec fn src_elem(self, b: int) -> int {
        (b * self.src_cap + self.src_row) * self.row_elems
    }

    pub open spec fn dst_elem(self, b: int) -> int {
        (b * self.dst_cap + self.dst_rows[b]) * self.row_elems
    }

    /// The positions fit a machine word.
    pub open spec fn fits(self) -> bool {
        forall|b: int|
            #![trigger self.dst_rows[b]]
            0 <= b < self.dst_rows.len() ==> {
                &&& b * self.src_cap + self.src_row <= usize::MAX
                &&& b * self.dst_cap + self.dst_rows[b] <= usize::MAX
                &&& self.src_elem(b) <= usize::MAX
                &&& self.dst_elem(b) <= usize::MAX
            }
    }

    /// The copies of one feed.
    pub open spec fn copies(self, dst: usize, src: usize) -> Seq<RowCopy> {
        Seq::new(
            self.dst_rows.len(),
            |b: int|
                RowCopy {
                    dst,
                    dst_elem: self.dst_elem(b) as usize,
                    src,
                    src_elem: self.src_elem(b) as usize,
                    len: self.row_elems as usize,
                },
        )
    }
}

/// The copies of the first `n` feeds. A handle that is its own output needs none.
pub open spec fn feed_copies(
    exe: MetalExecutable,
    feeds: NameMap<usize>,
    plan: RowPlan,
    n: nat,
) -> Seq<RowCopy>
    decreases n,
{
    if n == 0 {
        Seq::empty()
    } else {
        let rest = feed_copies(exe, feeds, plan, (n - 1) as nat);
        let (dst, src) = fed_nodes(exe, feeds, n - 1);
        if feeds_input(exe, feeds, n - 1) && dst != src {
            rest + plan.copies(dst, src)
        } else {
            rest
        }
    }
}

/// The handle of some feed before the `n`th that takes effect.
pub open spec fn fed_before(
    exe: MetalExecutable,
    feeds: NameMap<usize>,
    name: Seq<char>,
    n: nat,
) -> bool {
    exists|i: int| 0 <= i < n && feeds.keys()[i] == name && #[trigger] feeds_input(exe, feeds, i)
}

/// The handles that were fed live in the arena now, and the host holds nothing of them. The others
/// are as they were.
pub open spec fn fed(
    before: MetalExecutable,
    after: MetalExecutable,
    feeds: NameMap<usize>,
    n: nat,
) -> bool {
    &&& after == (MetalExecutable {
        gpu_handles: after.gpu_handles,
        gpu_handle_resident: after.gpu_handle_resident,
        ..before
    })
    &&& after.gpu_handles.well_formed()
    &&& after.gpu_handle_resident.well_formed()
    &&& forall|name: Seq<char>|
        #![trigger after.gpu_handles.lookup(name)]
        after.gpu_handles.lookup(name) == (if fed_before(before, feeds, name, n) {
            Some(0)
        } else {
            before.gpu_handles.lookup(name)
        })
    &&& forall|name: Seq<char>|
        #![trigger after.gpu_handle_resident.has(name)]
        after.gpu_handle_resident.has(name) == (before.gpu_handle_resident.has(name) || fed_before(
            before,
            feeds,
            name,
            n,
        ))
}

fn copy_chars(s: &[char]) -> (r: Vec<char>)
    ensures
        r@ == s@,
{
    let mut r: Vec<char> = Vec::new();
    let mut i: usize = 0;
    while i < s.len()
        invariant
            i <= s@.len(),
            r@ == s@.take(i as int),
        decreases s@.len() - i,
    {
        r.push(s[i]);
        i = i + 1;
        assert(r@ =~= s@.take(i as int));
    }
    assert(s@.take(i as int) =~= s@);
    r
}

/// The nodes of a feed, where it takes effect.
fn nodes_of_feed(exe: &MetalExecutable, name: &[char], out_idx: usize) -> (r: Option<
    (usize, usize),
>)
    requires
        exe.well_formed(),
    ensures
        r is Some <==> out_idx < exe.graph.outputs@.len() && exe.input_ids.has(name@),
        r matches Some(ids) ==> ids == (
            exe.input_ids.value(name@),
            exe.graph.outputs@[out_idx as int],
        ),
{
    if out_idx >= exe.graph.outputs.len() {
        return None;
    }
    match exe.input_ids.get_chars(name) {
        Some(in_id) => Some((*in_id, exe.graph.outputs[out_idx])),
        None => None,
    }
}

impl MetalExecutable {
    /// Marks the handles of the first feeds.
    fn mark_fed(&mut self, rows: bool)
        requires
            old(self).well_formed(),
        ensures
            fed(
                *old(self),
                *final(self),
                old(self).feeds_of(rows),
                old(self).feeds_of(rows).keys().len(),
            ),
            final(self).well_formed(),
    {
        let ghost before = *self;
        let ghost feeds = self.feeds_of(rows);
        let n: usize = if rows {
            self.kv_row_feeds.len()
        } else {
            self.gpu_handle_feeds.len()
        };
        let mut i: usize = 0;
        while i < n
            invariant
                i <= n,
                n == feeds.keys().len(),
                before == *old(self),
                before.well_formed(),
                self.well_formed(),
                feeds == before.feeds_of(rows),
                feeds == self.feeds_of(rows),
                fed(before, *self, feeds, i as nat),
            decreases n - i,
        {
            proof {
                feeds.lemma_parts();
            }
            let name: Vec<char> = if rows {
                copy_chars(self.kv_row_feeds.name_at(i))
            } else {
                copy_chars(self.gpu_handle_feeds.name_at(i))
            };
            let out_idx: usize = if rows {
                *self.kv_row_feeds.value_at(i)
            } else {
                *self.gpu_handle_feeds.value_at(i)
            };
            let ghost was = *self;
            let ghost key = name@;
            let active: bool = nodes_of_feed(self, &name, out_idx).is_some();
            assert(active == feeds_input(before, feeds, i as int));
            if active {
                self.gpu_handle_resident.insert_chars(copy_chars(&name), true);
                self.gpu_handles.insert_chars(name, 0);
            }
            proof {
                let next = (i + 1) as nat;
                assert forall|other: Seq<char>| fed_before(before, feeds, other, next) == (
                fed_before(before, feeds, other, i as nat) || (active && other == key)) by {
                    if fed_before(before, feeds, other, i as nat) {
                        let j = choose|j: int|
                            0 <= j < i && feeds.keys()[j] == other && #[trigger] feeds_input(
                                before,
                                feeds,
                                j,
                            );
                        assert(feeds_input(before, feeds, j));
                    }
                    if active && other == key {
                        assert(feeds_input(before, feeds, i as int));
                    }
                }
                assert forall|other: Seq<char>|
                    #![trigger self.gpu_handles.lookup(other)]
                    self.gpu_handles.lookup(other) == (if fed_before(before, feeds, other, next) {
                        Some(0)
                    } else {
                        before.gpu_handles.lookup(other)
                    }) by {
                    assert(was.gpu_handles.lookup(other) == (if fed_before(
                        before,
                        feeds,
                        other,
                        i as nat,
                    ) {
                        Some(0)
                    } else {
                        before.gpu_handles.lookup(other)
                    }));
                }
                assert forall|other: Seq<char>|
                    #![trigger self.gpu_handle_resident.has(other)]
                    self.gpu_handle_resident.has(other) == (before.gpu_handle_resident.has(other)
                        || fed_before(before, feeds, other, next)) by {
                    assert(was.gpu_handle_resident.has(other) == (before.gpu_handle_resident.has(
                        other,
                    ) || fed_before(before, feeds, other, i as nat)));
                    assert(self.gpu_handle_resident.lookup(other) is Some
                        == self.gpu_handle_resident.has(other));
                    assert(was.gpu_handle_resident.lookup(other) is Some
                        == was.gpu_handle_resident.has(other));
                }
            }
            i = i + 1;
        }
    }

    /// The feeds of single rows, or those of whole outputs.
    pub open spec fn feeds_of(&self, rows: bool) -> NameMap<usize> {
        if rows {
            self.kv_row_feeds
        } else {
            self.gpu_handle_feeds
        }
    }
}

/// Appends the copies of one feed.
fn push_row_copies(
    out: &mut Vec<RowCopy>,
    dst: usize,
    src: usize,
    src_row: usize,
    src_cap: usize,
    dst_rows: &[usize],
    dst_cap: usize,
    row_elems: usize,
)
    requires
        row_plan(src_row, src_cap, dst_rows@, dst_cap, row_elems).fits(),
    ensures
        final(out)@ == old(out)@ + row_plan(src_row, src_cap, dst_rows@, dst_cap, row_elems).copies(
            dst,
            src,
        ),
{
    let ghost plan = row_plan(src_row, src_cap, dst_rows@, dst_cap, row_elems);
    let ghost before = out@;
    let mut b: usize = 0;
    while b < dst_rows.len()
        invariant
            b <= dst_rows@.len(),
            plan == row_plan(src_row, src_cap, dst_rows@, dst_cap, row_elems),
            plan.fits(),
            out@ == before + plan.copies(dst, src).take(b as int),
        decreases dst_rows@.len() - b,
    {
        let dst_row: usize = dst_rows[b];
        proof {
            assert(plan.dst_rows[b as int] == dst_row);
            assert(0 <= b * src_cap && 0 <= b * dst_cap) by (nonlinear_arith);
        }
        let src_elem: usize = (b * src_cap + src_row) * row_elems;
        let dst_elem: usize = (b * dst_cap + dst_row) * row_elems;
        out.push(RowCopy { dst, dst_elem, src, src_elem, len: row_elems });
        b = b + 1;
        assert(out@ =~= before + plan.copies(dst, src).take(b as int));
    }
    assert(plan.copies(dst, src).take(b as int) =~= plan.copies(dst, src));
}

pub open spec fn row_plan(
    src_row: usize,
    src_cap: usize,
    dst_rows: Seq<usize>,
    dst_cap: usize,
    row_elems: usize,
) -> RowPlan {
    RowPlan {
        src_row: src_row as nat,
        src_cap: src_cap as nat,
        dst_rows,
        dst_cap: dst_cap as nat,
        row_elems: row_elems as nat,
    }
}

impl MetalExecutable {
    fn row_feed_copies(
        &self,
        src_row: usize,
        src_cap: usize,
        dst_rows: &[usize],
        dst_cap: usize,
        row_elems: usize,
    ) -> (out: Vec<RowCopy>)
        requires
            self.well_formed(),
            row_plan(src_row, src_cap, dst_rows@, dst_cap, row_elems).fits(),
        ensures
            out@ == feed_copies(
                *self,
                self.kv_row_feeds,
                row_plan(src_row, src_cap, dst_rows@, dst_cap, row_elems),
                self.kv_row_feeds.keys().len(),
            ),
    {
        let ghost plan = row_plan(src_row, src_cap, dst_rows@, dst_cap, row_elems);
        let mut out: Vec<RowCopy> = Vec::new();
        let mut i: usize = 0;
        while i < self.kv_row_feeds.len()
            invariant
                i <= self.kv_row_feeds.keys().len(),
                self.well_formed(),
                plan == row_plan(src_row, src_cap, dst_rows@, dst_cap, row_elems),
                plan.fits(),
                out@ == feed_copies(*self, self.kv_row_feeds, plan, i as nat),
            decreases self.kv_row_feeds.keys().len() - i,
        {
            proof {
                self.kv_row_feeds.lemma_parts();
            }
            let name: &Vec<char> = self.kv_row_feeds.name_at(i);
            let out_idx: usize = *self.kv_row_feeds.value_at(i);
            if let Some((in_id, out_id)) = nodes_of_feed(self, name, out_idx) {
                if in_id != out_id {
                    push_row_copies(
                        &mut out,
                        in_id,
                        out_id,
                        src_row,
                        src_cap,
                        dst_rows,
                        dst_cap,
                        row_elems,
                    );
                }
            }
            i = i + 1;
        }
        out
    }

    /// Folds row `src_row` of each fed output into row `dst_row` of its handle.
    pub fn feed_kv_row(&mut self, src_row: usize, dst_row: usize, row_elems: usize) -> (r: Vec<
        RowCopy,
    >)
        requires
            old(self).well_formed(),
            src_row * row_elems <= usize::MAX,
            dst_row * row_elems <= usize::MAX,
        ensures
            r@ == feed_copies(
                *old(self),
                old(self).kv_row_feeds,
                row_plan(src_row, 1, seq![dst_row], 1, row_elems),
                old(self).kv_row_feeds.keys().len(),
            ),
            fed(
                *old(self),
                *final(self),
                old(self).kv_row_feeds,
                old(self).kv_row_feeds.keys().len(),
            ),
            final(self).well_formed(),
    {
        let dst_rows: Vec<usize> = vec![dst_row];
        proof {
            assert(dst_rows@ =~= seq![dst_row]);
            let plan = row_plan(src_row, 1, dst_rows@, 1, row_elems);
            lemma_first_row(plan);
            assert forall|b: int| #![trigger plan.dst_rows[b]] 0 <= b < plan.dst_rows.len() implies {
                &&& b * plan.src_cap + plan.src_row <= usize::MAX
                &&& b * plan.dst_cap + plan.dst_rows[b] <= usize::MAX
                &&& plan.src_elem(b) <= usize::MAX
                &&& plan.dst_elem(b) <= usize::MAX
            } by {
                assert(b == 0);
            }
        }
        let r: Vec<RowCopy> = self.row_feed_copies(src_row, 1, &dst_rows, 1, row_elems);
        self.mark_fed(true);
        r
    }

    /// Folds the new rows of outputs that hold one row for each batch element into row `dst_row`
    /// of handles that hold `seq_cap` rows for each.
    pub fn feed_kv_batch_major(
        &mut self,
        dst_row: usize,
        batch: usize,
        seq_cap: usize,
        row_elems: usize,
    ) -> (r: Vec<RowCopy>)
        requires
            old(self).well_formed(),
            row_plan(0, 1, Seq::new(batch as nat, |b: int| dst_row), seq_cap, row_elems).fits(),
        ensures
            batch == 0 || row_elems == 0 ==> r@.len() == 0 && *final(self) == *old(self),
            batch > 0 && row_elems > 0 ==> {
                &&& r@ == feed_copies(
                    *old(self),
                    old(self).kv_row_feeds,
                    row_plan(0, 1, Seq::new(batch as nat, |b: int| dst_row), seq_cap, row_elems),
                    old(self).kv_row_feeds.keys().len(),
                )
                &&& fed(
                    *old(self),
                    *final(self),
                    old(self).kv_row_feeds,
                    old(self).kv_row_feeds.keys().len(),
                )
            },
            final(self).well_formed(),
    {
        if batch == 0 || row_elems == 0 {
            return Vec::new();
        }
        let dst_rows: Vec<usize> = repeated(dst_row, batch);
        let r: Vec<RowCopy> = self.row_feed_copies(0, 1, &dst_rows, seq_cap, row_elems);
        self.mark_fed(true);
        r
    }

    /// Folds row `src_row` of outputs that hold `src_seq_cap` rows for each batch element into row
    /// `dst_row` of handles that hold `dst_seq_cap` rows for each.
    pub fn feed_kv_batch_major_src(
        &mut self,
        src_row: usize,
        src_seq_cap: usize,
        dst_row: usize,
        batch: usize,
        dst_seq_cap: usize,
        row_elems: usize,
    ) -> (r: Vec<RowCopy>)
        requires
            old(self).well_formed(),
            row_plan(
                src_row,
                src_seq_cap,
                Seq::new(batch as nat, |b: int| dst_row),
                dst_seq_cap,
                row_elems,
            ).fits(),
        ensures
            batch == 0 || row_elems == 0 ==> r@.len() == 0 && *final(self) == *old(self),
            batch > 0 && row_elems > 0 ==> {
                &&& r@ == feed_copies(
                    *old(self),
                    old(self).kv_row_feeds,
                    row_plan(
                        src_row,
                        src_seq_cap,
                        Seq::new(batch as nat, |b: int| dst_row),
                        dst_seq_cap,
                        row_elems,
                    ),
                    old(self).kv_row_feeds.keys().len(),
                )
                &&& fed(
                    *old(self),
                    *final(self),
                    old(self).kv_row_feeds,
                    old(self).kv_row_feeds.keys().len(),
                )
            },
            final(self).well_formed(),
    {
        if batch == 0 || row_elems == 0 {
            return Vec::new();
        }
        let dst_rows: Vec<usize> = repeated(dst_row, batch);
        let r: Vec<RowCopy> = self.row_feed_copies(
            src_row,
            src_seq_cap,
            &dst_rows,
            dst_seq_cap,
            row_elems,
        );
        self.mark_fed(true);
        r
    }

    /// The same for batch elements whose sequences differ in length: each has a row of its own to
    /// fold into.
    pub fn feed_kv_batch_major_ragged(
        &mut self,
        src_row: usize,
        src_seq_cap: usize,
        dst_rows: &[usize],
        dst_seq_cap: usize,
        row_elems: usize,
    ) -> (r: Vec<RowCopy>)
        requires
            old(self).well_formed(),
            row_plan(src_row, src_seq_cap, dst_rows@, dst_seq_cap, row_elems).fits(),
        ensures
            dst_rows@.len() == 0 || row_elems == 0 ==> r@.len() == 0 && *final(self) == *old(self),
            dst_rows@.len() > 0 && row_elems > 0 ==> {
                &&& r@ == feed_copies(
                    *old(self),
                    old(self).kv_row_feeds,
                    row_plan(src_row, src_seq_cap, dst_rows@, dst_seq_cap, row_elems),
                    old(self).kv_row_feeds.keys().len(),
                )
                &&& fed(
                    *old(self),
                    *final(self),
                    old(self).kv_row_feeds,
                    old(self).kv_row_feeds.keys().len(),
                )
            },
            final(self).well_formed(),
    {
        if dst_rows.len() == 0 || row_elems == 0 {
            return Vec::new();
        }
        let r: Vec<RowCopy> = self.row_feed_copies(
            src_row,
            src_seq_cap,
            dst_rows,
            dst_seq_cap,
            row_elems,
        );
        self.mark_fed(true);
        r
    }
}

proof fn lemma_first_row(plan: RowPlan)
    ensures
        plan.src_elem(0) == plan.src_row * plan.row_elems,
        plan.dst_elem(0) == plan.dst_rows[0] * plan.row_elems,
{
    assert(0 * plan.src_cap == 0 && 0 * plan.dst_cap == 0);
}

fn repeated(x: usize, n: usize) -> (r: Vec<usize>)
    ensures
        r@ == Seq::new(n as nat, |b: int| x),
{
    let mut r: Vec<usize> = Vec::new();
    let mut i: usize = 0;
    while i < n
        invariant
            i <= n,
            r@ == Seq::new(i as nat, |b: int| x),
        decreases n - i,
    {
        r.push(x);
        i = i + 1;
        assert(r@ =~= Seq::new(i as nat, |b: int| x));
    }
    r
}

/// The rows that a feed writes lie in the blocks of their batch elements, so those of different
/// elements do not overlap, as long as each row lies within its block.
pub proof fn lemma_rows_of_batch_elements_disjoint(plan: RowPlan, a: int, b: int)
    requires
        0 <= a < b < plan.dst_rows.len(),
        forall|e: int| 0 <= e < plan.dst_rows.len() ==> (#[trigger] plan.dst_rows[e]) < plan.dst_cap,
    ensures
        plan.dst_elem(a) + plan.row_elems <= plan.dst_elem(b),
        plan.dst_elem(b) + plan.row_elems <= plan.dst_rows.len() * plan.dst_cap * plan.row_elems,
{
    let ra = plan.dst_rows[a];
    let rb = plan.dst_rows[b];
    let cap = plan.dst_cap as int;
    let n = plan.dst_rows.len() as int;
    let w = plan.row_elems as int;
    assert(a * cap + ra + 1 <= b * cap + rb) by (nonlinear_arith)
        requires
            0 <= a < b,
            0 <= ra < cap,
            0 <= rb,
    ;
    assert(b * cap + rb + 1 <= n * cap) by (nonlinear_arith)
        requires
            b < n,
            rb < cap,
            0 <= cap,
    ;
    assert((a * cap + ra) * w + w <= (b * cap + rb) * w) by (nonlinear_arith)
        requires
            a * cap + ra + 1 <= b * cap + rb,
            0 <= w,
    ;
    assert((b * cap + rb) * w + w <= n * cap * w) by (nonlinear_arith)
        requires
            b * cap + rb + 1 <= n * cap,
            0 <= w,
    ;
}

/// A batch of one, with a row of its own, is fed as a single row is.
pub proof fn lemma_batch_of_one_is_a_row(
    exe: MetalExecutable,
    src_row: usize,
    dst_row: usize,
    src_cap: usize,
    dst_cap: usize,
    row_elems: usize,
    n: nat,
)
    ensures
        feed_copies(
            exe,
            exe.kv_row_feeds,
            row_plan(src_row, src_cap, seq![dst_row], dst_cap, row_elems),
            n,
        ) == feed_copies(
            exe,
            exe.kv_row_feeds,
            row_plan(src_row, 1, seq![dst_row], 1, row_elems),
            n,
        ),
    decreases n,
{
    let a = row_plan(src_row, src_cap, seq![dst_row], dst_cap, row_elems);
    let b = row_plan(src_row, 1, seq![dst_row], 1, row_elems);
    if n > 0 {
        lemma_batch_of_one_is_a_row(
            exe,
            src_row,
            dst_row,
            src_cap,
            dst_cap,
            row_elems,
            (n - 1) as nat,
        );
        let (dst, src) = fed_nodes(exe, exe.kv_row_feeds, n - 1);
        lemma_first_row(a);
        lemma_first_row(b);
        assert(a.copies(dst, src)[0] == b.copies(dst, src)[0]);
        assert(a.copies(dst, src) =~= b.copies(dst, src));
    }
}

/// Leading floats, copied in the arena from an output to an input.
#[derive(Clone, Copy, Debug, PartialEq, Eq, Structural)]
pub struct PrefixCopy {
    pub dst: usize,
    pub src: usize,
    pub elems: usize,
}

/// The floats of one row of an output that holds one row more than the extent, and one at least.
pub open spec fn row_elems(out_elems: usize, upper: usize) -> int {
    let row = out_elems as int / (upper + 1);
    if row < 1 {
        1
    } else {
        row
    }
}

/// How much of an output a handle takes over: all of it, or as many rows as are active, counted
/// on an output that holds one row more than the extent.
pub open spec fn prefix_elems(extent: Option<(usize, usize)>, out_elems: usize) -> int {
    let wanted = match extent {
        Some((actual, upper)) => if upper > 0 {
            actual * row_elems(out_elems, upper)
        } else {
            out_elems as int
        },
        None => out_elems as int,
    };
    if wanted <= out_elems {
        wanted
    } else {
        out_elems as int
    }
}

/// The floats of the rows that the extent asks for can be counted on an output.
pub open spec fn extent_fits(extent: Option<(usize, usize)>, out_elems: usize) -> bool {
    match extent {
        Some((actual, upper)) => upper == 0 || (upper < usize::MAX && actual * row_elems(
            out_elems,
            upper,
        ) <= usize::MAX),
        None => true,
    }
}

fn elems_of_prefix(extent: Option<(usize, usize)>, out_elems: usize) -> (r: usize)
    requires
        extent_fits(extent, out_elems),
    ensures
        r == prefix_elems(extent, out_elems),
{
    match extent {
        Some((actual, upper)) => {
            if upper > 0 {
                let row: usize = out_elems / (upper + 1);
                let row: usize = if row < 1 {
                    1
                } else {
                    row
                };
                assert(0 <= actual * row) by (nonlinear_arith);
                smaller_of(actual * row, out_elems)
            } else {
                out_elems
            }
        },
        None => out_elems,
    }
}

/// The copies of the first `n` whole-output feeds.
pub open spec fn prefix_copies(exe: MetalExecutable, n: nat) -> Seq<PrefixCopy>
    decreases n,
{
    if n == 0 {
        Seq::empty()
    } else {
        let rest = prefix_copies(exe, (n - 1) as nat);
        let (dst, src) = fed_nodes(exe, exe.gpu_handle_feeds, n - 1);
        if feeds_input(exe, exe.gpu_handle_feeds, n - 1) && dst != src {
            rest.push(
                PrefixCopy {
                    dst,
                    src,
                    elems: prefix_elems(exe.active_extent, capacity(exe, src as int)) as usize,
                },
            )
        } else {
            rest
        }
    }
}

/// The `i`th feed copies nothing, or what it copies can be counted.
pub open spec fn prefix_fits(exe: MetalExecutable, i: int) -> bool {
    let (dst, src) = fed_nodes(exe, exe.gpu_handle_feeds, i);
    feeds_input(exe, exe.gpu_handle_feeds, i) && dst != src ==> extent_fits(
        exe.active_extent,
        capacity(exe, src as int),
    )
}

impl MetalExecutable {
    /// After a run, hands each fed output over to its handle, inside the arena.
    pub fn propagate_gpu_handle_feeds_in_arena(&mut self) -> (r: Vec<PrefixCopy>)
        requires
            old(self).well_formed(),
            forall|i: int|
                0 <= i < old(self).gpu_handle_feeds.keys().len() ==> #[trigger] prefix_fits(
                    *old(self),
                    i,
                ),
        ensures
            r@ == prefix_copies(*old(self), old(self).gpu_handle_feeds.keys().len()),
            fed(
                *old(self),
                *final(self),
                old(self).gpu_handle_feeds,
                old(self).gpu_handle_feeds.keys().len(),
            ),
            final(self).well_formed(),
    {
        let mut out: Vec<PrefixCopy> = Vec::new();
        let mut i: usize = 0;
        while i < self.gpu_handle_feeds.len()
            invariant
                i <= self.gpu_handle_feeds.keys().len(),
                *self == *old(self),
                self.well_formed(),
                forall|k: int|
                    0 <= k < self.gpu_handle_feeds.keys().len() ==> #[trigger] prefix_fits(
                        *self,
                        k,
                    ),
                out@ == prefix_copies(*self, i as nat),
            decreases self.gpu_handle_feeds.keys().len() - i,
        {
            proof {
                self.gpu_handle_feeds.lemma_parts();
            }
            let name: &Vec<char> = self.gpu_handle_feeds.name_at(i);
            let out_idx: usize = *self.gpu_handle_feeds.value_at(i);
            if let Some((in_id, out_id)) = nodes_of_feed(self, name, out_idx) {
                if in_id != out_id {
                    let out_elems: usize = match self.arena[out_id] {
                        Some(slot) => slot.elements,
                        None => 0,
                    };
                    assert(out_elems == capacity(*self, out_id as int));
                    assert(prefix_fits(*self, i as int));
                    let elems: usize = elems_of_prefix(self.active_extent, out_elems);
                    out.push(PrefixCopy { dst: in_id, src: out_id, elems });
                }
            }
            i = i + 1;
        }
        self.mark_fed(false);
        out
    }
}

} // verus!
