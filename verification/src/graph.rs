//! Compiled graphs as the backend reads them, and what it computes from them before a run: sizes
//! of scratch areas, dimensions of quantized weights, and how much work a graph holds.

use vstd::prelude::*;

use crate::command::Activation;

verus! {

#[derive(Clone, Copy, Debug, PartialEq, Eq, Structural)]
pub enum DType {
    F32,
    F16,
    BF16,
    F64,
    I8,
    U8,
    I32,
    I64,
    U32,
    Bool,
}

impl DType {
    pub open spec fn width(self) -> nat {
        match self {
            DType::F32 => 4,
            DType::F16 => 2,
            DType::BF16 => 2,
            DType::F64 => 8,
            DType::I8 => 1,
            DType::U8 => 1,
            DType::I32 => 4,
            DType::I64 => 8,
            DType::U32 => 4,
            DType::Bool => 1,
        }
    }

    pub fn size_bytes(self) -> (r: usize)
        ensures
            r == self.width(),
    {
        match self {
            DType::F32 => 4,
            DType::F16 => 2,
            DType::BF16 => 2,
            DType::F64 => 8,
            DType::I8 => 1,
            DType::U8 => 1,
            DType::I32 => 4,
            DType::I64 => 8,
            DType::U32 => 4,
            DType::Bool => 1,
        }
    }
}

/// How weights are packed. Only two GGUF schemes are told apart here.
#[derive(Clone, Copy, Debug, PartialEq, Eq, Structural)]
pub enum QuantKind {
    GgufQ1,
    GgufQ2,
    OtherGguf(u32),
    NotGguf(u32),
}

#[derive(Clone, Copy, Debug, PartialEq, Eq, Structural)]
pub struct QuantScheme {
    pub kind: QuantKind,
    /// The number under which the unpacking kernels know the scheme, where they do.
    pub gpu_dequant_scheme_id: Option<u32>,
}

impl QuantScheme {
    pub open spec fn gguf(self) -> bool {
        !(self.kind is NotGguf)
    }

    pub fn is_gguf(self) -> (r: bool)
        ensures
            r == self.gguf(),
    {
        !matches!(self.kind, QuantKind::NotGguf(_))
    }
}

/// Every scheme that has a number has a branch in the unpacking kernel.
pub fn has_metal_dequant_kernel(scheme: QuantScheme) -> (r: bool)
    ensures
        r == (scheme.gpu_dequant_scheme_id is Some),
{
    scheme.gpu_dequant_scheme_id.is_some()
}

/// What a node computes. Operations of which nothing is read here are told apart by a number.
#[derive(Clone, Copy, Debug, PartialEq, Eq, Structural)]
pub enum Op {
    Input(u32),
    Param(u32),
    MatMul,
    FusedMatMulBiasAct { activation: Option<Activation> },
    Activation(Activation),
    Conv,
    Conv2dBackwardInput,
    /// The first two extents of the kernel, as far as it has them.
    Conv2dBackwardWeight { kh: Option<usize>, kw: Option<usize>, groups: usize },
    DequantMatMul { scheme: QuantScheme },
    DequantGroupedMatMul,
    SynthMatMul,
    FusedAttentionBlock { num_heads: usize, head_dim: usize, has_bias: bool, has_rope: bool },
    FusedConvBiasAct,
    PartitionedConv,
    FusedTransformerLayer,
    RmsNormBackwardGamma,
    RmsNormBackwardBeta,
    LayerNormBackwardGamma,
    Gru { hidden_size: usize, num_layers: usize, bidirectional: bool },
    Rnn { hidden_size: usize, num_layers: usize, bidirectional: bool },
    Lstm { hidden_size: usize, num_layers: usize, bidirectional: bool },
    GatedDeltaNet { carry_state: bool, state_size: usize },
    Other(u32),
}

/// The extents of a tensor; one that is not known before a run has none.
#[derive(Debug)]
pub struct Shape {
    pub dims: Vec<Option<usize>>,
    pub dtype: DType,
}

/// The product of extents, where all are known.
pub open spec fn extent_product(dims: Seq<Option<usize>>) -> Option<nat>
    decreases dims.len(),
{
    if dims.len() == 0 {
        Some(1)
    } else {
        match (extent_product(dims.drop_last()), dims.last()) {
            (Some(p), Some(d)) => Some((p * d) as nat),
            _ => None,
        }
    }
}

/// The leading extents multiply to what a machine word holds, as far as they are known.
pub open spec fn extents_fit(dims: Seq<Option<usize>>) -> bool {
    forall|k: int|
        0 <= k <= dims.len() ==> ((#[trigger] extent_product(dims.take(k))) matches Some(p) ==> p
            <= usize::MAX)
}

impl Shape {
    pub open spec fn count(&self) -> Option<nat> {
        extent_product(self.dims@)
    }

    /// Number of elements, where all extents are known.
    pub fn num_elements(&self) -> (r: Option<usize>)
        requires
            extents_fit(self.dims@),
        ensures
            r is Some <==> self.count() is Some,
            r matches Some(n) ==> self.count() == Some(n as nat),
    {
        let mut total: usize = 1;
        let mut i: usize = 0;
        let mut known: bool = true;
        while i < self.dims.len()
            invariant
                i <= self.dims@.len(),
                extents_fit(self.dims@),
                extent_product(self.dims@.take(i as int)) == (if known {
                    Some(total as nat)
                } else {
                    None
                }),
            decreases self.dims@.len() - i,
        {
            proof {
                let next = self.dims@.take(i + 1);
                assert(next.drop_last() =~= self.dims@.take(i as int));
                assert(next.last() == self.dims@[i as int]);
                assert(extent_product(next) matches Some(p) ==> p <= usize::MAX);
            }
            match self.dims[i] {
                Some(d) => {
                    if known {
                        total = total * d;
                    }
                },
                None => {
                    known = false;
                },
            }
            i = i + 1;
        }
        assert(self.dims@.take(i as int) =~= self.dims@);
        if known {
            Some(total)
        } else {
            None
        }
    }

    /// Copies a shape.
    pub fn copied(&self) -> (r: Self)
        ensures
            r.dims@ == self.dims@,
            r.dtype == self.dtype,
    {
        let mut dims: Vec<Option<usize>> = Vec::new();
        let mut i: usize = 0;
        while i < self.dims.len()
            invariant
                i <= self.dims@.len(),
                dims@ == self.dims@.take(i as int),
            decreases self.dims@.len() - i,
        {
            dims.push(self.dims[i]);
            i = i + 1;
            assert(dims@ =~= self.dims@.take(i as int));
        }
        assert(self.dims@.take(i as int) =~= self.dims@);
        Shape { dims, dtype: self.dtype }
    }
}

/// A node: an operation on earlier nodes, by their positions.
#[derive(Debug)]
pub struct Node {
    pub op: Op,
    pub inputs: Vec<usize>,
    pub shape: Shape,
}

/// Nodes in an order in which each comes behind its inputs, and those whose values are wanted.
#[derive(Debug)]
pub struct Graph {
    pub nodes: Vec<Node>,
    pub outputs: Vec<usize>,
}

impl Graph {
    /// Each node reads earlier nodes only, and the outputs are nodes.
    pub open spec fn well_formed(&self) -> bool {
        &&& forall|i: int, k: int|
            #![trigger self.nodes@[i].inputs@[k]]
            0 <= i < self.nodes@.len() && 0 <= k < self.nodes@[i].inputs@.len()
                ==> self.nodes@[i].inputs@[k] < i
        &&& forall|k: int|
            0 <= k < self.outputs@.len() ==> (#[trigger] self.outputs@[k]) < self.nodes@.len()
    }

    /// The number of elements of each tensor can be computed.
    pub open spec fn sizes_fit(&self) -> bool {
        forall|i: int|
            0 <= i < self.nodes@.len() ==> extents_fit((#[trigger] self.nodes@[i]).shape.dims@)
    }

    pub fn new() -> (r: Self)
        ensures
            r.nodes@.len() == 0,
            r.outputs@.len() == 0,
            r.well_formed(),
    {
        Graph { nodes: Vec::new(), outputs: Vec::new() }
    }

    /// Appends a node, and gives its position.
    pub fn add_node(&mut self, op: Op, inputs: Vec<usize>, shape: Shape) -> (id: usize)
        ensures
            id == old(self).nodes@.len(),
            final(self).nodes@ == old(self).nodes@.push(Node { op, inputs, shape }),
            final(self).outputs == old(self).outputs,
    {
        let id: usize = self.nodes.len();
        self.nodes.push(Node { op, inputs, shape });
        id
    }

    pub fn set_outputs(&mut self, outputs: Vec<usize>)
        ensures
            final(self).nodes == old(self).nodes,
            final(self).outputs == outputs,
    {
        self.outputs = outputs;
    }

    /// The shape of the `k`th input of a node.
    pub open spec fn input_shape(&self, i: int, k: int) -> Shape {
        self.nodes@[self.nodes@[i].inputs@[k] as int].shape
    }
}

/// The greatest of the first `n` needs; zero where there are none.
pub open spec fn greatest(need: spec_fn(int) -> nat, n: nat) -> nat
    decreases n,
{
    if n == 0 {
        0
    } else {
        let rest = greatest(need, (n - 1) as nat);
        if need(n - 1) > rest {
            need(n - 1)
        } else {
            rest
        }
    }
}

/// The greatest need is at least every need, and is one of them unless it is zero.
pub proof fn lemma_greatest(need: spec_fn(int) -> nat, n: nat)
    ensures
        forall|i: int| 0 <= i < n ==> #[trigger] need(i) <= greatest(need, n),
        greatest(need, n) > 0 ==> exists|i: int|
            0 <= i < n && #[trigger] need(i) == greatest(need, n),
    decreases n,
{
    if n > 0 {
        lemma_greatest(need, (n - 1) as nat);
        assert(need(n - 1) <= greatest(need, n));
    }
}

/// One where a number is zero.
pub open spec fn nonzero(n: nat) -> nat {
    if n == 0 {
        1
    } else {
        n
    }
}

fn at_least_one(n: usize) -> (r: usize)
    ensures
        r as nat == nonzero(n as nat),
        r >= 1,
{
    if n == 0 {
        1
    } else {
        n
    }
}

/// The last extent of a shape, where it is known.
pub open spec fn last_extent(s: Shape) -> Option<usize> {
    s.dims@.last()
}

/// Rows, depth and columns of a product, from the shapes of its result and its first factor. The
/// result's last extent gives the columns; its other elements are rows.
pub open spec fn product_dims(out: Shape, a: Shape) -> Option<(nat, nat, nat)> {
    match (last_extent(out), out.count(), a.count()) {
        (Some(n), Some(out_total), Some(a_total)) => {
            let m = out_total / nonzero(n as nat);
            Some((m, a_total / nonzero(m), n as nat))
        },
        _ => None,
    }
}

fn dims_of_product(out: &Shape, a: &Shape) -> (r: Option<(usize, usize, usize)>)
    requires
        out.dims@.len() > 0,
        extents_fit(out.dims@),
        extents_fit(a.dims@),
    ensures
        r is Some <==> product_dims(*out, *a) is Some,
        r matches Some(d) ==> product_dims(*out, *a) == Some((d.0 as nat, d.1 as nat, d.2 as nat)),
{
    let n: usize = match out.dims[out.dims.len() - 1] {
        Some(n) => n,
        None => {
            return None;
        },
    };
    let out_total: usize = match out.num_elements() {
        Some(v) => v,
        None => {
            return None;
        },
    };
    let a_total: usize = match a.num_elements() {
        Some(v) => v,
        None => {
            return None;
        },
    };
    let m: usize = out_total / at_least_one(n);
    let k: usize = a_total / at_least_one(m);
    Some((m, k, n))
}

/// Multiplications of a convolution: each element of the result takes as many as one output
/// channel has weights. The weights are the last input.
pub open spec fn conv_work(out: Shape, w: Shape) -> nat {
    match (out.count(), w.count()) {
        (Some(out_total), Some(w_total)) => {
            let c_out = match w.dims@[0] {
                Some(c) => nonzero(c as nat),
                None => 1,
            };
            (out_total * nonzero(w_total / c_out)) as nat
        },
        _ => 0,
    }
}

/// Multiplications of a node: those of a matrix product or of a convolution, where the shapes are
/// known.
pub open spec fn node_work(g: &Graph, i: int) -> nat {
    let node = g.nodes@[i];
    match node.op {
        Op::MatMul | Op::FusedMatMulBiasAct { .. } => match product_dims(
            node.shape,
            g.input_shape(i, 0),
        ) {
            Some((m, k, n)) => (m * k * n) as nat,
            None => 0,
        },
        Op::Conv | Op::Conv2dBackwardInput | Op::Conv2dBackwardWeight { .. } => conv_work(
            node.shape,
            g.input_shape(i, node.inputs@.len() - 1),
        ),
        _ => 0,
    }
}

/// A node that multiplies has inputs and extents, and its work can be counted.
pub open spec fn node_countable(g: &Graph, i: int) -> bool {
    let node = g.nodes@[i];
    match node.op {
        Op::MatMul | Op::FusedMatMulBiasAct { .. } => {
            &&& node.inputs@.len() > 0
            &&& node.shape.dims@.len() > 0
            &&& product_dims(node.shape, g.input_shape(i, 0)) matches Some(d) ==> d.0 * d.1
                <= u64::MAX && d.0 * d.1 * d.2 <= u64::MAX
        },
        Op::Conv | Op::Conv2dBackwardInput | Op::Conv2dBackwardWeight { .. } => {
            &&& node.inputs@.len() > 0
            &&& g.input_shape(i, node.inputs@.len() - 1).dims@.len() > 0
            &&& node_work(g, i) <= u64::MAX
        },
        _ => true,
    }
}

pub open spec fn work_countable(g: &Graph) -> bool {
    forall|i: int| 0 <= i < g.nodes@.len() ==> #[trigger] node_countable(g, i)
}

fn work_of_conv(out: &Shape, w: &Shape) -> (r: u64)
    requires
        extents_fit(out.dims@),
        extents_fit(w.dims@),
        w.dims@.len() > 0,
        conv_work(*out, *w) <= u64::MAX,
    ensures
        r == conv_work(*out, *w),
{
    let out_total: usize = match out.num_elements() {
        Some(v) => v,
        None => {
            return 0;
        },
    };
    let w_total: usize = match w.num_elements() {
        Some(v) => v,
        None => {
            return 0;
        },
    };
    let c_out: usize = match w.dims[0] {
        Some(c) => at_least_one(c),
        None => 1,
    };
    let fan: usize = at_least_one(w_total / c_out);
    (out_total as u64) * (fan as u64)
}

fn work_of(graph: &Graph, i: usize) -> (r: u64)
    requires
        graph.well_formed(),
        graph.sizes_fit(),
        work_countable(graph),
        i < graph.nodes@.len(),
    ensures
        r == node_work(graph, i as int),
{
    let node: &Node = &graph.nodes[i];
    assert(node_countable(graph, i as int));
    match node.op {
        Op::MatMul | Op::FusedMatMulBiasAct { .. } => {
            assert(graph.nodes@[i as int].inputs@[0] < i);
            let a: usize = node.inputs[0];
            match dims_of_product(&node.shape, &graph.nodes[a].shape) {
                Some((m, k, n)) => (m as u64) * (k as u64) * (n as u64),
                None => 0,
            }
        },
        Op::Conv | Op::Conv2dBackwardInput | Op::Conv2dBackwardWeight { .. } => {
            assert(graph.nodes@[i as int].inputs@[node.inputs@.len() - 1] < i);
            let w: usize = node.inputs[node.inputs.len() - 1];
            work_of_conv(&node.shape, &graph.nodes[w].shape)
        },
        _ => 0,
    }
}

/// The most multiplications that one node of a graph makes.
pub fn max_matmul_flops_in(graph: &Graph) -> (r: u64)
    requires
        graph.well_formed(),
        graph.sizes_fit(),
        work_countable(graph),
    ensures
        r == greatest(|i: int| node_work(graph, i), graph.nodes@.len()),
{
    let ghost need = |i: int| node_work(graph, i);
    let mut best: u64 = 0;
    let mut i: usize = 0;
    while i < graph.nodes.len()
        invariant
            i <= graph.nodes@.len(),
            graph.well_formed(),
            graph.sizes_fit(),
            work_countable(graph),
            need == (|i: int| node_work(graph, i)),
            best == greatest(need, i as nat),
        decreases graph.nodes@.len() - i,
    {
        let flops: u64 = work_of(graph, i);
        assert(need(i as int) == flops);
        if flops > best {
            best = flops;
        }
        i = i + 1;
    }
    best
}

/// The node multiplies with this quantized parameter.
pub open spec fn multiplies_with(g: &Graph, i: int, param: usize) -> bool {
    g.nodes@[i].op is DequantMatMul && g.nodes@[i].inputs@.len() > 1 && g.nodes@[i].inputs@[1]
        == param
}

/// The nodes that multiply with quantized parameters have extents.
pub open spec fn dequant_shaped(g: &Graph) -> bool {
    forall|i: int|
        0 <= i < g.nodes@.len() && (#[trigger] g.nodes@[i]).op is DequantMatMul ==> {
            &&& g.nodes@[i].shape.dims@.len() > 0
            &&& g.nodes@[i].shape.dims@.last() is Some
        }
}

/// Depth, columns and scheme of a quantized parameter, from the first node that multiplies with
/// it, where its shapes are known.
pub fn gguf_dequant_dims_for_param(graph: &Graph, param_id: usize) -> (r: Option<
    (usize, usize, QuantScheme),
>)
    requires
        graph.well_formed(),
        graph.sizes_fit(),
        dequant_shaped(graph),
    ensures
        (forall|i: int| 0 <= i < graph.nodes@.len() ==> !#[trigger] multiplies_with(graph, i, param_id))
            ==> r is None,
        forall|i: int|
            #![trigger multiplies_with(graph, i, param_id)]
            0 <= i < graph.nodes@.len() && multiplies_with(graph, i, param_id) && (forall|j: int|
                0 <= j < i ==> !#[trigger] multiplies_with(graph, j, param_id)) ==> match product_dims(
                graph.nodes@[i].shape,
                graph.input_shape(i, 0),
            ) {
                Some((m, k, n)) => r == Some(
                    (k as usize, n as usize, graph.nodes@[i].op->DequantMatMul_scheme),
                ) && k <= usize::MAX && n <= usize::MAX,
                None => r is None,
            },
{
    let mut i: usize = 0;
    while i < graph.nodes.len()
        invariant
            i <= graph.nodes@.len(),
            graph.well_formed(),
            graph.sizes_fit(),
            dequant_shaped(graph),
            forall|j: int| 0 <= j < i ==> !#[trigger] multiplies_with(graph, j, param_id),
        decreases graph.nodes@.len() - i,
    {
        let node: &Node = &graph.nodes[i];
        if let Op::DequantMatMul { scheme } = node.op {
            if node.inputs.len() > 1 && node.inputs[1] == param_id {
                assert(multiplies_with(graph, i as int, param_id));
                assert(graph.nodes@[i as int].inputs@[0] < i);
                return match dims_of_product(&node.shape, &graph.nodes[node.inputs[0]].shape) {
                    Some((_m, k, n)) => Some((k, n, scheme)),
                    None => None,
                };
            }
        }
        assert(!multiplies_with(graph, i as int, param_id));
        i = i + 1;
    }
    None
}

/// The bytes of a word, the lowest first.
pub open spec fn word_bytes(word: u32) -> Seq<u8> {
    seq![
        (word % 256) as u8,
        (word / 256 % 256) as u8,
        (word / 65536 % 256) as u8,
        (word / 16777216) as u8,
    ]
}

/// The element that stands at a place of the transpose of a matrix of `n` rows of `k` elements:
/// the transpose has rows of `n`.
pub open spec fn transposed_at(matrix: Seq<u32>, n: nat, k: nat, place: int) -> u32 {
    matrix[(place % n as int) * k + place / n as int]
}

/// The bytes of the first places of the transpose.
pub open spec fn transposed_bytes(matrix: Seq<u32>, n: nat, k: nat, places: nat) -> Seq<u8>
    decreases places,
{
    if places == 0 {
        Seq::empty()
    } else {
        transposed_bytes(matrix, n, k, (places - 1) as nat) + word_bytes(
            transposed_at(matrix, n, k, places - 1),
        )
    }
}

fn push_word(out: &mut Vec<u8>, word: u32)
    ensures
        final(out)@ == old(out)@ + word_bytes(word),
{
    let ghost before = out@;
    out.push((word % 256) as u8);
    out.push((word / 256 % 256) as u8);
    out.push((word / 65536 % 256) as u8);
    out.push((word / 16777216) as u8);
    assert(out@ =~= before + word_bytes(word));
}

proof fn lemma_place(p: int, j: int, n: int)
    requires
        0 <= j < n,
        0 <= p,
    ensures
        (p * n + j) / n == p,
        (p * n + j) % n == j,
{
    vstd::arithmetic::div_mod::lemma_fundamental_div_mod_converse(p * n + j, n, p, j);
}

/// Transposes a matrix of `n` rows of `k` floats, and writes it as bytes. Floats travel as their
/// bit patterns.
pub fn transpose_nk_to_kn_bytes(dequant: &[u32], n: usize, k: usize) -> (out: Vec<u8>)
    requires
        n * k <= dequant@.len(),
    ensures
        out@ == transposed_bytes(dequant@, n as nat, k as nat, (k * n) as nat),
{
    let mut out: Vec<u8> = Vec::new();
    let mut p: usize = 0;
    while p < k
        invariant
            p <= k,
            n * k <= dequant@.len(),
            out@ == transposed_bytes(dequant@, n as nat, k as nat, (p * n) as nat),
        decreases k - p,
    {
        let mut j: usize = 0;
        while j < n
            invariant
                p < k,
                j <= n,
                n * k <= dequant@.len(),
                out@ == transposed_bytes(dequant@, n as nat, k as nat, (p * n + j) as nat),
            decreases n - j,
        {
            assert(0 <= j * k && j * k + p < n * k) by (nonlinear_arith)
                requires
                    j < n,
                    p < k,
            ;
            assert(0 <= p * n) by (nonlinear_arith);
            assert(dequant@.len() == dequant.len());
            proof {
                lemma_place(p as int, j as int, n as int);
            }
            push_word(&mut out, dequant[j * k + p]);
            j = j + 1;
        }
        assert(p * n + n == (p + 1) * n) by (nonlinear_arith);
        p = p + 1;
    }
    out
}

proof fn lemma_transposed_len(matrix: Seq<u32>, n: nat, k: nat, places: nat)
    ensures
        transposed_bytes(matrix, n, k, places).len() == places * 4,
    decreases places,
{
    if places > 0 {
        lemma_transposed_len(matrix, n, k, (places - 1) as nat);
    }
}

/// Four bytes of the result, at row `p` and column `j` of the transpose, are those of the element
/// at row `j` and column `p` of the matrix.
pub proof fn lemma_transpose_swaps_rows_and_columns(
    matrix: Seq<u32>,
    n: nat,
    k: nat,
    places: nat,
    p: int,
    j: int,
)
    requires
        0 <= p < k,
        0 <= j < n,
        p * n + j < places,
    ensures
        transposed_bytes(matrix, n, k, places).len() == places * 4,
        transposed_bytes(matrix, n, k, places).subrange((p * n + j) * 4, (p * n + j) * 4 + 4)
            == word_bytes(matrix[j * k + p]),
    decreases places,
{
    lemma_transposed_len(matrix, n, k, places);
    assert(0 <= p * n) by (nonlinear_arith)
        requires
            0 <= p,
    ;
    let at = (p * n + j) * 4;
    let less = transposed_bytes(matrix, n, k, (places - 1) as nat);
    lemma_transposed_len(matrix, n, k, (places - 1) as nat);
    if p * n + j == places - 1 {
        lemma_place(p, j, n as int);
        assert(transposed_bytes(matrix, n, k, places).subrange(at, at + 4) =~= word_bytes(
            matrix[j * k + p],
        ));
    } else {
        lemma_transpose_swaps_rows_and_columns(matrix, n, k, (places - 1) as nat, p, j);
        assert(transposed_bytes(matrix, n, k, places).subrange(at, at + 4) =~= less.subrange(
            at,
            at + 4,
        ));
    }
}

} // verus!
