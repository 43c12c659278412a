//! What the host writes before a run and reads after it.

use vstd::prelude::*;

use crate::executable::{capacity, fed, fed_before, smaller, MetalExecutable};
use crate::float_bits::{
    brain_to_single, half_to_single, single_of, single_of_integer, widened_brain, widened_half,
};
use crate::graph::DType;
use crate::text::{chars_of, same_chars};

verus! {

/// How the bytes of a typed input reach its place.
#[derive(Clone, Copy, Debug, PartialEq, Eq, Structural)]
pub enum TypedRoute {
    /// Widened to single precision, as the places of integers and half floats are.
    Widened,
    /// As they are: packed weights and double precision.
    Raw,
    /// Already in single precision.
    Floats,
}

pub open spec fn route_of(dt: DType) -> TypedRoute {
    match dt {
        DType::F64 => TypedRoute::Raw,
        DType::U8 => TypedRoute::Raw,
        DType::I8 => TypedRoute::Raw,
        DType::F32 => TypedRoute::Floats,
        _ => TypedRoute::Widened,
    }
}

pub fn typed_route(dt: DType) -> (r: TypedRoute)
    ensures
        r == route_of(dt),
{
    match dt {
        DType::F64 => TypedRoute::Raw,
        DType::U8 => TypedRoute::Raw,
        DType::I8 => TypedRoute::Raw,
        DType::F32 => TypedRoute::Floats,
        _ => TypedRoute::Widened,
    }
}

/// The number that bytes form, the lowest first.
pub open spec fn number_at(data: Seq<u8>, at: int, width: nat) -> nat
    decreases width,
{
    if width == 0 {
        0
    } else {
        data[at] as nat + 256 * number_at(data, at + 1, (width - 1) as nat)
    }
}

proof fn lemma_number_bound(data: Seq<u8>, at: int, width: nat)
    ensures
        width == 1 ==> number_at(data, at, width) < 0x100,
        width == 2 ==> number_at(data, at, width) < 0x1_0000,
        width == 4 ==> number_at(data, at, width) < 0x1_0000_0000,
        width == 8 ==> number_at(data, at, width) < 0x1_0000_0000_0000_0000,
{
    reveal_with_fuel(number_at, 9);
}

pub fn read_number(data: &[u8], at: usize, width: usize) -> (r: u64)
    requires
        width == 1 || width == 2 || width == 4 || width == 8,
        at + width <= data@.len(),
    ensures
        r as nat == number_at(data@, at as int, width as nat),
        width == 2 ==> r < 0x1_0000,
        width == 4 ==> r < 0x1_0000_0000,
{
    proof {
        reveal_with_fuel(number_at, 9);
        lemma_number_bound(data@, at as int, width as nat);
    }
    if width == 1 {
        data[at] as u64
    } else if width == 2 {
        data[at] as u64 + 256 * (data[at + 1] as u64)
    } else {
        let low: u64 = data[at] as u64 + 256 * (data[at + 1] as u64) + 65536 * (data[at + 2] as u64)
            + 16777216 * (data[at + 3] as u64);
        if width == 4 {
            low
        } else {
            let high: u64 = data[at + 4] as u64 + 256 * (data[at + 5] as u64) + 65536 * (data[at
                + 6] as u64) + 16777216 * (data[at + 7] as u64);
            low + 0x1_0000_0000 * high
        }
    }
}

/// The integer whose two's complement in so many bits a number is.
pub open spec fn signed(n: nat, half: int) -> int {
    if n < half {
        n as int
    } else {
        n - 2 * half
    }
}

/// The value of an integer element.
pub open spec fn integer_at(data: Seq<u8>, dt: DType, i: int) -> int {
    match dt {
        DType::I64 => signed(number_at(data, 8 * i, 8), 0x8000_0000_0000_0000),
        DType::I32 => signed(number_at(data, 4 * i, 4), 0x8000_0000),
        DType::U32 => number_at(data, 4 * i, 4) as int,
        _ => data[i] as int,
    }
}

/// The bit pattern in single precision of an element.
pub open spec fn element_bits(data: Seq<u8>, dt: DType, i: int) -> nat {
    match dt {
        DType::F32 => number_at(data, 4 * i, 4),
        DType::F16 => widened_half(number_at(data, 2 * i, 2)),
        DType::BF16 => widened_brain(number_at(data, 2 * i, 2)),
        _ => single_of(integer_at(data, dt, i)),
    }
}

fn read_integer(data: &[u8], dt: DType, i: usize) -> (r: i64)
    requires
        dt == DType::I64 || dt == DType::I32 || dt == DType::U32 || dt == DType::Bool,
        i < data@.len() / dt.width(),
    ensures
        r as int == integer_at(data@, dt, i as int),
{
    assert(data.len() == data@.len());
    match dt {
        DType::I64 => {
            let n: u64 = read_number(data, 8 * i, 8);
            if n < 0x8000_0000_0000_0000 {
                n as i64
            } else {
                let below: u64 = 0xffff_ffff_ffff_ffff - n;
                -1 - (below as i64)
            }
        },
        DType::I32 => {
            let n: u64 = read_number(data, 4 * i, 4);
            if n < 0x8000_0000 {
                n as i64
            } else {
                n as i64 - 0x1_0000_0000
            }
        },
        DType::U32 => read_number(data, 4 * i, 4) as i64,
        _ => data[i] as i64,
    }
}

/// The elements of an input whose place holds floats in single precision, as bit patterns. What
/// does not fill an element at the end is left out.
pub fn widen_input_bytes_to_f32(data: &[u8], dt: DType) -> (v: Vec<u32>)
    requires
        dt != DType::F64 && dt != DType::U8 && dt != DType::I8,
    ensures
        v@.len() == data@.len() / dt.width(),
        forall|i: int|
            0 <= i < v@.len() ==> (#[trigger] v@[i]) as nat == element_bits(data@, dt, i),
{
    let n: usize = data.len() / dt.size_bytes();
    let mut v: Vec<u32> = Vec::new();
    let mut i: usize = 0;
    while i < n
        invariant
            i <= n,
            n == data@.len() / dt.width(),
            dt != DType::F64 && dt != DType::U8 && dt != DType::I8,
            v@.len() == i,
            forall|k: int| 0 <= k < i ==> (#[trigger] v@[k]) as nat == element_bits(data@, dt, k),
        decreases n - i,
    {
        assert(data.len() == data@.len());
        let bits: u32 = match dt {
            DType::F32 => read_number(data, 4 * i, 4) as u32,
            DType::F16 => half_to_single(read_number(data, 2 * i, 2) as u16),
            DType::BF16 => brain_to_single(read_number(data, 2 * i, 2) as u16),
            _ => single_of_integer(read_integer(data, dt, i)),
        };
        v.push(bits);
        i = i + 1;
    }
    v
}

/// Data of the host, by its position in a list, that goes to the place of a node.
#[derive(Clone, Copy, Debug, PartialEq, Eq, Structural)]
pub struct HostWrite {
    pub from: usize,
    pub node: usize,
}

/// The node that an input's data goes to, if the input has a place.
pub open spec fn input_place(exe: MetalExecutable, name: Seq<char>) -> Option<usize> {
    if exe.input_ids.has(name) && exe.arena@[exe.input_ids.value(name) as int] is Some {
        Some(exe.input_ids.value(name))
    } else {
        None
    }
}

/// The writes for the first `n` of some names.
pub open spec fn named_writes(exe: MetalExecutable, names: Seq<Seq<char>>, n: nat) -> Seq<HostWrite>
    decreases n,
{
    if n == 0 {
        Seq::empty()
    } else {
        let rest = named_writes(exe, names, (n - 1) as nat);
        match input_place(exe, names[n - 1]) {
            Some(node) => rest.push(HostWrite { from: (n - 1) as usize, node }),
            None => rest,
        }
    }
}

/// A handle is written from the host unless it lives on the device, or is among the inputs.
pub open spec fn written_from_host(
    exe: MetalExecutable,
    names: Seq<Seq<char>>,
    handle: Seq<char>,
) -> bool {
    !exe.gpu_handle_resident.has(handle) && !names.contains(handle)
}

/// The writes for the first `n` handles.
pub open spec fn handle_writes(exe: MetalExecutable, names: Seq<Seq<char>>, n: nat) -> Seq<
    HostWrite,
>
    decreases n,
{
    if n == 0 {
        Seq::empty()
    } else {
        let rest = handle_writes(exe, names, (n - 1) as nat);
        let handle = exe.gpu_handles.keys()[n - 1];
        match input_place(exe, handle) {
            Some(node) => if written_from_host(exe, names, handle) {
                rest.push(HostWrite { from: (n - 1) as usize, node })
            } else {
                rest
            },
            None => rest,
        }
    }
}

pub open spec fn views(names: Seq<&str>) -> Seq<Seq<char>> {
    Seq::new(names.len(), |i: int| names[i]@)
}

/// What a run takes: the host data that is written first, handles before inputs, and what is done
/// and read afterwards.
#[derive(Debug)]
pub struct RunPlan {
    pub from_handles: Vec<HostWrite>,
    pub from_inputs: Vec<HostWrite>,
    /// Fed outputs are handed over to their handles.
    pub propagate: bool,
    /// The host takes a copy of them as well.
    pub mirror: bool,
    /// The outputs that are read.
    pub indices: Vec<usize>,
    /// The node of each of them, and how many of its floats are returned.
    pub reads: Vec<(usize, usize)>,
}

fn contains_name(names: &[&str], name: &[char]) -> (r: bool)
    ensures
        r == views(names@).contains(name@),
{
    let mut i: usize = 0;
    while i < names.len()
        invariant
            i <= names@.len(),
            forall|k: int| 0 <= k < i ==> views(names@)[k] != name@,
        decreases names@.len() - i,
    {
        if same_chars(&chars_of(names[i]), name) {
            assert(views(names@)[i as int] == name@);
            return true;
        }
        i = i + 1;
    }
    false
}

impl MetalExecutable {
    fn place_of_input(&self, name: &[char]) -> (r: Option<usize>)
        requires
            self.well_formed(),
        ensures
            r == input_place(*self, name@),
    {
        match self.input_ids.get_chars(name) {
            Some(id) => {
                let id: usize = *id;
                proof {
                    self.lemma_input_node(name@);
                }
                if self.arena[id].is_some() {
                    Some(id)
                } else {
                    None
                }
            },
            None => None,
        }
    }

    proof fn lemma_input_node(&self, name: Seq<char>)
        requires
            self.well_formed(),
            self.input_ids.has(name),
        ensures
            self.input_ids.value(name) < self.graph.nodes@.len(),
    {
        let i = self.input_ids.keys().index_of(name);
        assert(self.input_ids.keys()[i] == name);
        self.input_ids.lemma_parts();
    }

    /// The writes of named inputs.
    pub fn input_writes(&self, inputs: &[&str]) -> (r: Vec<HostWrite>)
        requires
            self.well_formed(),
        ensures
            r@ == named_writes(*self, views(inputs@), inputs@.len()),
    {
        let mut r: Vec<HostWrite> = Vec::new();
        let mut i: usize = 0;
        while i < inputs.len()
            invariant
                i <= inputs@.len(),
                self.well_formed(),
                r@ == named_writes(*self, views(inputs@), i as nat),
            decreases inputs@.len() - i,
        {
            let name: Vec<char> = chars_of(inputs[i]);
            assert(views(inputs@)[i as int] == name@);
            if let Some(node) = self.place_of_input(&name) {
                r.push(HostWrite { from: i, node });
            }
            i = i + 1;
        }
        r
    }

    fn writes_of_handles(&self, inputs: &[&str]) -> (r: Vec<HostWrite>)
        requires
            self.well_formed(),
        ensures
            r@ == handle_writes(*self, views(inputs@), self.gpu_handles.keys().len()),
    {
        let mut r: Vec<HostWrite> = Vec::new();
        let mut i: usize = 0;
        while i < self.gpu_handles.len()
            invariant
                i <= self.gpu_handles.keys().len(),
                self.well_formed(),
                r@ == handle_writes(*self, views(inputs@), i as nat),
            decreases self.gpu_handles.keys().len() - i,
        {
            let name: &Vec<char> = self.gpu_handles.name_at(i);
            let resident: bool = self.gpu_handle_resident.get_chars(name).is_some();
            if !resident && !contains_name(inputs, name) {
                if let Some(node) = self.place_of_input(name) {
                    r.push(HostWrite { from: i, node });
                }
            }
            i = i + 1;
        }
        r
    }

    /// What a run takes that reads some outputs, or all of them. Handles are fed where there are
    /// feeds; the host mirrors them where all outputs are read, or where it is told to.
    pub fn run_read_outputs(
        &self,
        inputs: &[&str],
        read_indices: Option<&[usize]>,
        host_mirror: bool,
    ) -> (r: RunPlan)
        requires
            self.well_formed(),
            read_indices matches Some(ix) ==> self.are_outputs(ix@),
        ensures
            r.from_handles@ == handle_writes(
                *self,
                views(inputs@),
                self.gpu_handles.keys().len(),
            ),
            r.from_inputs@ == named_writes(*self, views(inputs@), inputs@.len()),
            r.propagate == (self.gpu_handle_feeds.keys().len() > 0),
            r.mirror == (r.propagate && (read_indices is None || host_mirror)),
            r.indices@ == (match read_indices {
                None => Seq::new(self.graph.outputs@.len(), |i: int| i as usize),
                Some(ix) => ix@,
            }),
            r.reads@ == self.output_reads(r.indices@),
    {
        let propagate: bool = self.gpu_handle_feeds.len() > 0;
        let indices: Vec<usize> = match read_indices {
            None => {
                let mut all: Vec<usize> = Vec::new();
                let mut i: usize = 0;
                while i < self.graph.outputs.len()
                    invariant
                        i <= self.graph.outputs@.len(),
                        all@ == Seq::new(i as nat, |k: int| k as usize),
                    decreases self.graph.outputs@.len() - i,
                {
                    all.push(i);
                    i = i + 1;
                    assert(all@ =~= Seq::new(i as nat, |k: int| k as usize));
                }
                all
            },
            Some(ix) => {
                let mut some: Vec<usize> = Vec::new();
                some.extend_from_slice(ix);
                assert(some@ =~= ix@);
                some
            },
        };
        assert(self.are_outputs(indices@));
        let reads: Vec<(usize, usize)> = self.reads_of(&indices);
        RunPlan {
            from_handles: self.writes_of_handles(inputs),
            from_inputs: self.input_writes(inputs),
            propagate,
            mirror: propagate && (read_indices.is_none() || host_mirror),
            indices,
            reads,
        }
    }

    /// These are numbers of outputs.
    pub open spec fn are_outputs(&self, indices: Seq<usize>) -> bool {
        forall|i: int| 0 <= i < indices.len() ==> (#[trigger] indices[i]) < self.graph.outputs@.len()
    }

    /// The nodes of some outputs, and how many floats of each are returned.
    pub open spec fn output_reads(&self, indices: Seq<usize>) -> Seq<(usize, usize)> {
        Seq::new(
            indices.len(),
            |i: int| (self.graph.outputs@[indices[i] as int], self.read_len(indices[i] as int)),
        )
    }

    fn reads_of(&self, indices: &[usize]) -> (r: Vec<(usize, usize)>)
        requires
            self.well_formed(),
            self.are_outputs(indices@),
        ensures
            r@ == self.output_reads(indices@),
    {
        let mut r: Vec<(usize, usize)> = Vec::new();
        let mut i: usize = 0;
        while i < indices.len()
            invariant
                i <= indices@.len(),
                self.well_formed(),
                self.are_outputs(indices@),
                r@ == self.output_reads(indices@.take(i as int)),
            decreases indices@.len() - i,
        {
            r.push(self.read_graph_output_f32(indices[i]));
            i = i + 1;
            assert(r@ =~= self.output_reads(indices@.take(i as int)));
        }
        assert(indices@.take(i as int) =~= indices@);
        r
    }

    /// A run by positions. Byte offset and number of floats for each of the first inputs: data
    /// that does not fit is cut off, and data without a place is left out. Then byte offset and
    /// length in floats of each output, which are read in place.
    pub fn run_slots(&self, lens: &[usize]) -> (r: (Vec<(usize, usize)>, &Vec<(usize, usize)>))
        ensures
            r.0@.len() == smaller(lens.len(), self.input_slots.len()),
            forall|i: int|
                0 <= i < r.0@.len() ==> (#[trigger] r.0@[i]) == (
                    self.input_slots@[i].0,
                    smaller(lens@[i], self.input_slots@[i].1),
                ),
            *r.1 == self.output_slots,
    {
        let mut r: Vec<(usize, usize)> = Vec::new();
        let mut i: usize = 0;
        while i < lens.len() && i < self.input_slots.len()
            invariant
                i <= lens@.len(),
                i <= self.input_slots@.len(),
                r@.len() == i,
                forall|k: int|
                    0 <= k < i ==> (#[trigger] r@[k]) == (
                        self.input_slots@[k].0,
                        smaller(lens@[k], self.input_slots@[k].1),
                    ),
            decreases lens@.len() - i,
        {
            let (off, max_len) = self.input_slots[i];
            let len: usize = if lens[i] <= max_len {
                lens[i]
            } else {
                max_len
            };
            r.push((off, len));
            i = i + 1;
        }
        (r, &self.output_slots)
    }

    /// How much of an output is read: its logical length, where its place holds more.
    pub open spec fn read_len(&self, out_idx: int) -> usize {
        let full = capacity(*self, self.graph.outputs@[out_idx] as int);
        let logical = self.output_slots@[out_idx].1;
        if logical == 0 || full <= logical {
            full
        } else {
            logical
        }
    }

    /// The node of an output, and how many of its floats are read.
    pub fn read_graph_output_f32(&self, out_idx: usize) -> (r: (usize, usize))
        requires
            self.well_formed(),
            out_idx < self.graph.outputs@.len(),
        ensures
            r == (self.graph.outputs@[out_idx as int], self.read_len(out_idx as int)),
    {
        let id: usize = self.graph.outputs[out_idx];
        let logical_len: usize = self.output_slots[out_idx].1;
        let full: usize = match self.arena[id] {
            Some(slot) => slot.elements,
            None => 0,
        };
        if logical_len == 0 || full <= logical_len {
            (id, full)
        } else {
            (id, logical_len)
        }
    }

    /// The node of an output, and the range of floats of one of its rows.
    pub fn read_graph_output_row(&self, out_idx: usize, row: usize, row_inner: usize) -> (r: (
        usize,
        usize,
        usize,
    ))
        requires
            self.well_formed(),
            out_idx < self.graph.outputs@.len(),
            row * row_inner + row_inner <= capacity(
                *self,
                self.graph.outputs@[out_idx as int] as int,
            ),
        ensures
            r.0 == self.graph.outputs@[out_idx as int],
            r.1 == row * row_inner,
            r.2 == row * row_inner + row_inner,
    {
        assert(0 <= row * row_inner) by (nonlinear_arith);
        let start: usize = row * row_inner;
        (self.graph.outputs[out_idx], start, start + row_inner)
    }

    /// Byte offset and number of bytes of an output. One without a place is read from the start of
    /// the arena, and one whose extents are not known is empty.
    pub open spec fn output_range(&self, k: int) -> (usize, nat) {
        let id = self.graph.outputs@[k] as int;
        let shape = self.graph.nodes@[id].shape;
        (
            match self.arena@[id] {
                Some(slot) => slot.byte_offset,
                None => 0,
            },
            match shape.count() {
                Some(n) => n * shape.dtype.width(),
                None => 0,
            },
        )
    }

    /// The bytes of every output can be counted.
    pub open spec fn ranges_fit(&self) -> bool {
        &&& self.graph.sizes_fit()
        &&& forall|k: int|
            0 <= k < self.graph.outputs@.len() ==> (#[trigger] self.output_range(k)).1
                <= usize::MAX
    }

    /// The byte offset, number of bytes and precision of an output.
    pub open spec fn is_output(&self, k: int, out: (usize, usize, DType)) -> bool {
        &&& out.0 == self.output_range(k).0
        &&& out.1 == self.output_range(k).1
        &&& out.2 == self.graph.nodes@[self.graph.outputs@[k] as int].shape.dtype
    }

    pub fn output_bytes_per_node(&self) -> (r: Vec<(usize, usize)>)
        requires
            self.well_formed(),
            self.ranges_fit(),
        ensures
            r@.len() == self.graph.outputs@.len(),
            forall|k: int|
                0 <= k < r@.len() ==> (#[trigger] r@[k]).0 == self.output_range(k).0 && r@[k].1
                    == self.output_range(k).1,
    {
        let mut r: Vec<(usize, usize)> = Vec::new();
        let mut k: usize = 0;
        while k < self.graph.outputs.len()
            invariant
                k <= self.graph.outputs@.len(),
                self.well_formed(),
                self.graph.sizes_fit(),
                forall|j: int|
                    0 <= j < self.graph.outputs@.len() ==> (#[trigger] self.output_range(j)).1
                        <= usize::MAX,
                r@.len() == k,
                forall|j: int|
                    0 <= j < k ==> (#[trigger] r@[j]).0 == self.output_range(j).0 && r@[j].1
                        == self.output_range(j).1,
            decreases self.graph.outputs@.len() - k,
        {
            let id: usize = self.graph.outputs[k];
            assert(self.output_range(k as int).1 <= usize::MAX);
            let off: usize = match self.arena[id] {
                Some(slot) => slot.byte_offset,
                None => 0,
            };
            let n_bytes: usize = match self.graph.nodes[id].shape.num_elements() {
                Some(n) => n * self.graph.nodes[id].shape.dtype.size_bytes(),
                None => 0,
            };
            r.push((off, n_bytes));
            k = k + 1;
        }
        r
    }

    /// The precisions of the outputs.
    pub fn output_dtypes(&self) -> (r: Vec<DType>)
        requires
            self.well_formed(),
        ensures
            r@.len() == self.graph.outputs@.len(),
            forall|k: int|
                0 <= k < r@.len() ==> #[trigger] r@[k]
                    == self.graph.nodes@[self.graph.outputs@[k] as int].shape.dtype,
    {
        let mut r: Vec<DType> = Vec::new();
        let mut k: usize = 0;
        while k < self.graph.outputs.len()
            invariant
                k <= self.graph.outputs@.len(),
                self.well_formed(),
                r@.len() == k,
                forall|j: int|
                    0 <= j < k ==> #[trigger] r@[j]
                        == self.graph.nodes@[self.graph.outputs@[j] as int].shape.dtype,
            decreases self.graph.outputs@.len() - k,
        {
            r.push(self.graph.nodes[self.graph.outputs[k]].shape.dtype);
            k = k + 1;
        }
        r
    }

    pub fn output_slots(&self) -> (r: &Vec<(usize, usize)>)
        ensures
            *r == self.output_slots,
    {
        &self.output_slots
    }

    /// What a run takes that reads all outputs.
    pub fn run(&self, inputs: &[&str]) -> (r: RunPlan)
        requires
            self.well_formed(),
        ensures
            r.from_handles@ == handle_writes(
                *self,
                views(inputs@),
                self.gpu_handles.keys().len(),
            ),
            r.from_inputs@ == named_writes(*self, views(inputs@), inputs@.len()),
            r.propagate == (self.gpu_handle_feeds.keys().len() > 0),
            r.mirror == r.propagate,
            r.indices@ == Seq::new(self.graph.outputs@.len(), |i: int| i as usize),
            r.reads@ == self.output_reads(r.indices@),
    {
        self.run_read_outputs(inputs, None, false)
    }

    /// What a run writes that nobody waits for.
    pub fn commit_no_wait(&self, inputs: &[&str]) -> (r: Vec<HostWrite>)
        requires
            self.well_formed(),
        ensures
            r@ == named_writes(*self, views(inputs@), inputs@.len()),
    {
        self.input_writes(inputs)
    }

    fn buffer_sizes(&self) -> (r: Vec<usize>)
        requires
            self.outputs_countable(),
        ensures
            r@.len() == self.output_slots@.len(),
            forall|k: int| 0 <= k < r@.len() ==> #[trigger] r@[k] == self.kept_bytes(k),
    {
        let mut r: Vec<usize> = Vec::new();
        let mut k: usize = 0;
        while k < self.output_slots.len()
            invariant
                k <= self.output_slots@.len(),
                self.outputs_countable(),
                r@.len() == k,
                forall|j: int| 0 <= j < k ==> #[trigger] r@[j] == self.kept_bytes(j),
            decreases self.output_slots@.len() - k,
        {
            let len: usize = self.output_slots[k].1;
            r.push(
                if len == 0 {
                    4
                } else {
                    len * 4
                },
            );
            k = k + 1;
        }
        r
    }

    /// The floats of every output slot can be counted in bytes.
    pub open spec fn outputs_countable(&self) -> bool {
        forall|k: int|
            0 <= k < self.output_slots@.len() ==> (#[trigger] self.output_slots@[k]).1 * 4
                <= usize::MAX
    }

    /// Room for the floats of an output, and for one at least.
    pub open spec fn kept_bytes(&self, k: int) -> int {
        if self.output_slots@[k].1 == 0 {
            4
        } else {
            self.output_slots@[k].1 * 4
        }
    }

    /// How an output is read back: how many elements, and whether they are half floats.
    pub open spec fn kept_read(&self, k: int) -> (usize, bool) {
        (
            self.output_slots@[k].1,
            self.graph.nodes@[self.graph.outputs@[k] as int].shape.dtype == DType::F16,
        )
    }

    fn kept_reads(&self) -> (r: Vec<(usize, bool)>)
        requires
            self.well_formed(),
        ensures
            r@.len() == self.output_slots@.len(),
            forall|k: int| 0 <= k < r@.len() ==> #[trigger] r@[k] == self.kept_read(k),
    {
        let mut r: Vec<(usize, bool)> = Vec::new();
        let mut k: usize = 0;
        while k < self.output_slots.len()
            invariant
                k <= self.output_slots@.len(),
                self.well_formed(),
                r@.len() == k,
                forall|j: int| 0 <= j < k ==> #[trigger] r@[j] == self.kept_read(j),
            decreases self.output_slots@.len() - k,
        {
            let half: bool = self.graph.nodes[self.graph.outputs[k]].shape.dtype == DType::F16;
            r.push((self.output_slots[k].1, half));
            k = k + 1;
        }
        r
    }

    /// Several runs in a row, none of which waits for the one before it. Each writes its inputs
    /// and keeps its outputs in buffers of its own.
    pub fn run_pipelined(&self, input_sets: &[Vec<&str>]) -> (r: Pipeline)
        requires
            self.well_formed(),
            self.outputs_countable(),
        ensures
            r.writes@.len() == input_sets@.len(),
            forall|i: int|
                0 <= i < r.writes@.len() ==> (#[trigger] r.writes@[i])@ == named_writes(
                    *self,
                    views(input_sets@[i]@),
                    input_sets@[i]@.len(),
                ),
            r.sizes@.len() == self.output_slots@.len(),
            forall|k: int| 0 <= k < r.sizes@.len() ==> #[trigger] r.sizes@[k] == self.kept_bytes(k),
            r.reads@.len() == self.output_slots@.len(),
            forall|k: int| 0 <= k < r.reads@.len() ==> #[trigger] r.reads@[k] == self.kept_read(k),
    {
        let mut writes: Vec<Vec<HostWrite>> = Vec::new();
        let mut i: usize = 0;
        while i < input_sets.len()
            invariant
                i <= input_sets@.len(),
                self.well_formed(),
                writes@.len() == i,
                forall|j: int|
                    0 <= j < i ==> (#[trigger] writes@[j])@ == named_writes(
                        *self,
                        views(input_sets@[j]@),
                        input_sets@[j]@.len(),
                    ),
            decreases input_sets@.len() - i,
        {
            writes.push(self.input_writes(input_sets[i].as_slice()));
            i = i + 1;
        }
        Pipeline { writes, sizes: self.buffer_sizes(), reads: self.kept_reads() }
    }
}

/// Several runs in a row: what each writes, the sizes in bytes of the buffers that each keeps its
/// outputs in, and how these are read back.
#[derive(Debug)]
pub struct Pipeline {
    pub writes: Vec<Vec<HostWrite>>,
    pub sizes: Vec<usize>,
    pub reads: Vec<(usize, bool)>,
}

/// What a typed run takes: what is written first, raw bytes and floats before what is widened; the
/// run itself, which writes the handles of the host after that; and what is returned of each
/// output, its byte offset, its number of bytes and its precision.
#[derive(Debug)]
pub struct TypedRun {
    pub direct: Vec<HostWrite>,
    pub widened: Vec<HostWrite>,
    pub run: RunPlan,
    pub outputs: Vec<(usize, usize, DType)>,
}

/// The writes of those of the first `n` inputs whose route is chosen.
pub open spec fn routed_writes(
    exe: MetalExecutable,
    names: Seq<Seq<char>>,
    dts: Seq<DType>,
    widened: bool,
    n: nat,
) -> Seq<HostWrite>
    decreases n,
{
    if n == 0 {
        Seq::empty()
    } else {
        let rest = routed_writes(exe, names, dts, widened, (n - 1) as nat);
        match input_place(exe, names[n - 1]) {
            Some(node) => if (route_of(dts[n - 1]) == TypedRoute::Widened) == widened {
                rest.push(HostWrite { from: (n - 1) as usize, node })
            } else {
                rest
            },
            None => rest,
        }
    }
}

impl MetalExecutable {
    fn typed_outputs(&self) -> (r: Vec<(usize, usize, DType)>)
        requires
            self.well_formed(),
            self.ranges_fit(),
        ensures
            r@.len() == self.graph.outputs@.len(),
            forall|k: int| 0 <= k < r@.len() ==> self.is_output(k, #[trigger] r@[k]),
    {
        let ranges: Vec<(usize, usize)> = self.output_bytes_per_node();
        let dts: Vec<DType> = self.output_dtypes();
        let mut r: Vec<(usize, usize, DType)> = Vec::new();
        let mut k: usize = 0;
        while k < ranges.len()
            invariant
                k <= ranges@.len(),
                ranges@.len() == self.graph.outputs@.len(),
                dts@.len() == ranges@.len(),
                forall|j: int|
                    0 <= j < ranges@.len() ==> (#[trigger] ranges@[j]).0 == self.output_range(j).0
                        && ranges@[j].1 == self.output_range(j).1,
                forall|j: int|
                    0 <= j < dts@.len() ==> #[trigger] dts@[j]
                        == self.graph.nodes@[self.graph.outputs@[j] as int].shape.dtype,
                r@.len() == k,
                forall|j: int| 0 <= j < k ==> self.is_output(j, #[trigger] r@[j]),
            decreases ranges@.len() - k,
        {
            let (off, nbytes) = ranges[k];
            r.push((off, nbytes, dts[k]));
            k = k + 1;
        }
        r
    }

    /// A run with typed inputs that gives all outputs. No input is named to the run itself, so a
    /// handle of the host replaces a typed input of its name.
    pub fn run_typed(&self, names: &[&str], dts: &[DType]) -> (r: TypedRun)
        requires
            self.well_formed(),
            self.ranges_fit(),
            names@.len() == dts@.len(),
        ensures
            r.direct@ == routed_writes(*self, views(names@), dts@, false, names@.len()),
            r.widened@ == routed_writes(*self, views(names@), dts@, true, names@.len()),
            r.run.from_handles@ == handle_writes(
                *self,
                Seq::empty(),
                self.gpu_handles.keys().len(),
            ),
            r.run.from_inputs@.len() == 0,
            r.run.propagate == (self.gpu_handle_feeds.keys().len() > 0),
            r.run.mirror == r.run.propagate,
            r.run.indices@ == Seq::new(self.graph.outputs@.len(), |i: int| i as usize),
            r.run.reads@ == self.output_reads(r.run.indices@),
            r.outputs@.len() == self.graph.outputs@.len(),
            forall|k: int|
                0 <= k < r.outputs@.len() ==> self.is_output(k, #[trigger] r.outputs@[k]),
    {
        let mut direct: Vec<HostWrite> = Vec::new();
        let mut widened: Vec<HostWrite> = Vec::new();
        let mut i: usize = 0;
        while i < names.len()
            invariant
                i <= names@.len(),
                names@.len() == dts@.len(),
                self.well_formed(),
                direct@ == routed_writes(*self, views(names@), dts@, false, i as nat),
                widened@ == routed_writes(*self, views(names@), dts@, true, i as nat),
            decreases names@.len() - i,
        {
            let name: Vec<char> = chars_of(names[i]);
            assert(views(names@)[i as int] == name@);
            if let Some(node) = self.place_of_input(&name) {
                if typed_route(dts[i]) == TypedRoute::Widened {
                    widened.push(HostWrite { from: i, node });
                } else {
                    direct.push(HostWrite { from: i, node });
                }
            }
            i = i + 1;
        }
        let none: Vec<&str> = Vec::new();
        assert(views(none@) =~= Seq::empty());
        TypedRun {
            direct,
            widened,
            run: self.run_read_outputs(&none, None, false),
            outputs: self.typed_outputs(),
        }
    }
}

/// A typed run writes every handle of the host that has a place, whatever typed input came first.
pub proof fn lemma_typed_run_writes_handles(exe: MetalExecutable, i: int, n: nat)
    requires
        0 <= i < n <= exe.gpu_handles.keys().len(),
        !exe.gpu_handle_resident.has(exe.gpu_handles.keys()[i]),
        input_place(exe, exe.gpu_handles.keys()[i]) is Some,
        i <= usize::MAX,
    ensures
        handle_writes(exe, Seq::empty(), n).contains(
            HostWrite {
                from: i as usize,
                node: input_place(exe, exe.gpu_handles.keys()[i])->0,
            },
        ),
    decreases n,
{
    let w = HostWrite {
        from: i as usize,
        node: input_place(exe, exe.gpu_handles.keys()[i])->0,
    };
    let all = handle_writes(exe, Seq::empty(), n);
    let rest = handle_writes(exe, Seq::empty(), (n - 1) as nat);
    if i == n - 1 {
        assert(all[all.len() - 1] == w);
    } else {
        lemma_typed_run_writes_handles(exe, i, (n - 1) as nat);
        let k = choose|k: int| 0 <= k < rest.len() && rest[k] == w;
        assert(all[k] == w);
    }
}

/// Where the floats of a handle are found.
#[derive(Clone, Copy, Debug, PartialEq, Eq, Structural)]
pub enum HandleSource {
    /// An output that the handle takes over.
    Output(usize),
    /// Its own place in the arena.
    Arena(usize),
    /// The host, which holds so many floats.
    Host(usize),
    Missing,
}

/// A handle is read from the output that feeds it, from its place if it lives there, or from the
/// host.
pub open spec fn handle_source(exe: MetalExecutable, name: Seq<char>) -> HandleSource {
    if exe.gpu_handle_feeds.has(name) && exe.gpu_handle_feeds.value(name)
        < exe.graph.outputs@.len() {
        HandleSource::Output(exe.gpu_handle_feeds.value(name))
    } else if exe.gpu_handle_resident.has(name) && exe.input_ids.has(name) {
        HandleSource::Arena(exe.input_ids.value(name))
    } else {
        match exe.gpu_handles.lookup(name) {
            Some(len) => HandleSource::Host(len),
            None => HandleSource::Missing,
        }
    }
}

/// The feeds among the first `n` whose outputs exist, with their nodes.
pub open spec fn mirrored_outputs(exe: MetalExecutable, n: nat) -> Seq<HostWrite>
    decreases n,
{
    if n == 0 {
        Seq::empty()
    } else {
        let rest = mirrored_outputs(exe, (n - 1) as nat);
        let out_idx = exe.gpu_handle_feeds.items()[n - 1];
        if out_idx < exe.graph.outputs@.len() {
            rest.push(
                HostWrite { from: (n - 1) as usize, node: exe.graph.outputs@[out_idx as int] },
            )
        } else {
            rest
        }
    }
}

/// How many floats the host holds of a handle after the first `n` feeds are mirrored.
pub open spec fn mirrored_len(exe: MetalExecutable, name: Seq<char>, n: nat) -> Option<usize>
    decreases n,
{
    if n == 0 {
        exe.gpu_handles.lookup(name)
    } else {
        let out_idx = exe.gpu_handle_feeds.items()[n - 1];
        if exe.gpu_handle_feeds.keys()[n - 1] == name && out_idx < exe.graph.outputs@.len() {
            Some(capacity(exe, exe.graph.outputs@[out_idx as int] as int))
        } else {
            mirrored_len(exe, name, (n - 1) as nat)
        }
    }
}

impl MetalExecutable {
    pub fn read_gpu_handle(&self, name: &str) -> (r: HandleSource)
        requires
            self.well_formed(),
        ensures
            r == handle_source(*self, name@),
    {
        if let Some(out_idx) = self.gpu_handle_feeds.get(name) {
            if *out_idx < self.graph.outputs.len() {
                return HandleSource::Output(*out_idx);
            }
        }
        if self.gpu_handle_resident.contains(name) {
            if let Some(id) = self.input_ids.get(name) {
                return HandleSource::Arena(*id);
            }
        }
        match self.gpu_handles.get(name) {
            Some(len) => HandleSource::Host(*len),
            None => HandleSource::Missing,
        }
    }

    /// Gives the outputs that the host copies, by the positions of their feeds, and counts what
    /// the host holds then.
    pub fn refresh_gpu_handles_from_outputs(&mut self) -> (r: Vec<HostWrite>)
        requires
            old(self).well_formed(),
        ensures
            r@ == mirrored_outputs(*old(self), old(self).gpu_handle_feeds.keys().len()),
            forall|name: Seq<char>| #[trigger]
                final(self).gpu_handles.lookup(name) == mirrored_len(
                    *old(self),
                    name,
                    old(self).gpu_handle_feeds.keys().len(),
                ),
            final(self).well_formed(),
            *final(self) == (MetalExecutable {
                gpu_handles: final(self).gpu_handles,
                ..*old(self)
            }),
    {
        let ghost before = *self;
        let mut r: Vec<HostWrite> = Vec::new();
        let mut i: usize = 0;
        while i < self.gpu_handle_feeds.len()
            invariant
                i <= before.gpu_handle_feeds.keys().len(),
                before == *old(self),
                before.well_formed(),
                self.well_formed(),
                *self == (MetalExecutable { gpu_handles: self.gpu_handles, ..before }),
                r@ == mirrored_outputs(before, i as nat),
                forall|name: Seq<char>| #[trigger]
                    self.gpu_handles.lookup(name) == mirrored_len(before, name, i as nat),
            decreases before.gpu_handle_feeds.keys().len() - i,
        {
            proof {
                self.gpu_handle_feeds.lemma_parts();
            }
            let out_idx: usize = *self.gpu_handle_feeds.value_at(i);
            let ghost was = self.gpu_handles;
            if out_idx < self.graph.outputs.len() {
                let id: usize = self.graph.outputs[out_idx];
                let len: usize = match self.arena[id] {
                    Some(slot) => slot.elements,
                    None => 0,
                };
                let mut name: Vec<char> = Vec::new();
                name.extend_from_slice(self.gpu_handle_feeds.name_at(i));
                assert(name@ =~= self.gpu_handle_feeds.keys()[i as int]);
                self.gpu_handles.insert_chars(name, len);
                r.push(HostWrite { from: i, node: id });
            }
            proof {
                assert forall|other: Seq<char>| #[trigger]
                    self.gpu_handles.lookup(other) == mirrored_len(
                        before,
                        other,
                        (i + 1) as nat,
                    ) by {
                    assert(was.lookup(other) == mirrored_len(before, other, i as nat));
                }
            }
            i = i + 1;
        }
        r
    }
}

/// A handle that was just fed lives in the arena: it is read from there, or from the output that
/// feeds it, and no longer from the host.
pub proof fn lemma_fed_handle_is_read_on_device(
    before: MetalExecutable,
    after: MetalExecutable,
    name: Seq<char>,
    n: nat,
)
    requires
        fed(before, after, before.kv_row_feeds, n),
        fed_before(before, before.kv_row_feeds, name, n),
    ensures
        handle_source(after, name) is Output || handle_source(after, name) == HandleSource::Arena(
            before.input_ids.value(name),
        ),
        after.gpu_handles.has(name),
{
    assert(after.gpu_handle_resident.has(name));
    assert(after.gpu_handles.lookup(name) == Some(0usize));
}

} // verus!
