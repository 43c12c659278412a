//! Rewriting graphs before they are compiled: nodes that the backend has no kernel for are
//! replaced by nodes that compute the same.

use vstd::prelude::*;

use crate::command::Activation;
use crate::graph::{DType, Graph, Node, Op};
use crate::scratch::{block_shaped, fab_is_native, native_block};
use crate::text::{chars_of, has_prefix, parse_unsigned, parsed_unsigned, strip_prefix_chars};

verus! {

/// A node without its representation.
#[verifier::ext_equal]
pub struct NodeModel {
    pub op: Op,
    pub inputs: Seq<int>,
    pub dims: Seq<Option<usize>>,
    pub dtype: DType,
}

pub open spec fn node_model(n: Node) -> NodeModel {
    NodeModel {
        op: n.op,
        inputs: Seq::new(n.inputs@.len(), |k: int| n.inputs@[k] as int),
        dims: n.shape.dims@,
        dtype: n.shape.dtype,
    }
}

pub open spec fn models(nodes: Seq<Node>) -> Seq<NodeModel> {
    Seq::new(nodes.len(), |i: int| node_model(nodes[i]))
}

/// Each node reads earlier nodes only.
pub open spec fn ordered(nodes: Seq<NodeModel>) -> bool {
    forall|i: int, k: int|
        #![trigger nodes[i].inputs[k]]
        0 <= i < nodes.len() && 0 <= k < nodes[i].inputs.len() ==> 0 <= nodes[i].inputs[k] < i
}

/// What stands in the place of a node: nodes of its own, of which some only stand for the inputs
/// of the node that is replaced.
#[derive(Debug)]
pub struct Expansion {
    pub nodes: Vec<Node>,
    /// For each node, which input it stands for, if it does.
    pub slots: Vec<Option<usize>>,
    pub output: usize,
}

#[verifier::ext_equal]
pub struct ExpansionModel {
    pub nodes: Seq<NodeModel>,
    pub slots: Seq<Option<usize>>,
    pub output: int,
}

impl Expansion {
    pub open spec fn model(&self) -> ExpansionModel {
        ExpansionModel {
            nodes: models(self.nodes@),
            slots: self.slots@,
            output: self.output as int,
        }
    }
}

/// The expansion of a node with this many inputs.
pub open spec fn expands(e: ExpansionModel, inputs: nat) -> bool {
    &&& ordered(e.nodes)
    &&& e.slots.len() == e.nodes.len()
    &&& forall|j: int|
        0 <= j < e.slots.len() ==> ((#[trigger] e.slots[j]) matches Some(k) ==> k < inputs)
    &&& 0 <= e.output < e.nodes.len()
}

/// How many of the first nodes of an expansion do not stand for inputs.
pub open spec fn added(slots: Seq<Option<usize>>, n: nat) -> nat
    decreases n,
{
    if n == 0 {
        0
    } else if slots[n - 1] is Some {
        added(slots, (n - 1) as nat)
    } else {
        added(slots, (n - 1) as nat) + 1
    }
}

/// Where a node of an expansion ends up, when its own nodes are appended from `base` on.
pub open spec fn inlined_id(slots: Seq<Option<usize>>, base: int, inputs: Seq<int>, j: int) -> int {
    match slots[j] {
        Some(k) => inputs[k as int],
        None => base + added(slots, j as nat),
    }
}

/// The inputs of a node, each in its new place.
pub open spec fn moved(inputs: Seq<int>, place: spec_fn(int) -> int) -> Seq<int> {
    Seq::new(inputs.len(), |k: int| place(inputs[k]))
}

/// The first nodes of an expansion, as they are appended.
pub open spec fn inlined(e: ExpansionModel, base: int, inputs: Seq<int>, n: nat) -> Seq<NodeModel>
    decreases n,
{
    if n == 0 {
        Seq::empty()
    } else {
        let rest = inlined(e, base, inputs, (n - 1) as nat);
        let node = e.nodes[n - 1];
        if e.slots[n - 1] is Some {
            rest
        } else {
            rest.push(
                NodeModel {
                    inputs: moved(node.inputs, |j: int| inlined_id(e.slots, base, inputs, j)),
                    ..node
                },
            )
        }
    }
}

/// Nodes so far, and where the value of each given node is found among them.
#[verifier::ext_equal]
pub struct Rewritten {
    pub nodes: Seq<NodeModel>,
    pub ids: Seq<int>,
}

/// The first `n` nodes of a graph, with those that have an expansion replaced by it.
pub open spec fn rewritten(
    nodes: Seq<NodeModel>,
    exps: Seq<Option<ExpansionModel>>,
    n: nat,
) -> Rewritten
    decreases n,
{
    if n == 0 {
        Rewritten { nodes: Seq::empty(), ids: Seq::empty() }
    } else {
        let r = rewritten(nodes, exps, (n - 1) as nat);
        let node = nodes[n - 1];
        let inputs = moved(node.inputs, |j: int| r.ids[j]);
        let base = r.nodes.len() as int;
        match exps[n - 1] {
            None => Rewritten {
                nodes: r.nodes.push(NodeModel { inputs, ..node }),
                ids: r.ids.push(base),
            },
            Some(e) => Rewritten {
                nodes: r.nodes + inlined(e, base, inputs, e.nodes.len()),
                ids: r.ids.push(inlined_id(e.slots, base, inputs, e.output)),
            },
        }
    }
}

/// The expansions of a graph's nodes.
pub open spec fn expansion_models(exps: Seq<Option<Expansion>>) -> Seq<Option<ExpansionModel>> {
    Seq::new(
        exps.len(),
        |i: int|
            match exps[i] {
                Some(e) => Some(e.model()),
                None => None,
            },
    )
}

/// Each expansion fits the node that it replaces.
pub open spec fn expansions_fit(
    nodes: Seq<NodeModel>,
    exps: Seq<Option<ExpansionModel>>,
) -> bool {
    &&& exps.len() == nodes.len()
    &&& forall|i: int|
        0 <= i < nodes.len() ==> ((#[trigger] exps[i]) matches Some(e) ==> expands(
            e,
            nodes[i].inputs.len(),
        ))
}

/// The graph is another one with its expanded nodes replaced.
pub open spec fn is_rewrite(r: Graph, g: Graph, exps: Seq<Option<ExpansionModel>>) -> bool {
    let all = rewritten(models(g.nodes@), exps, g.nodes@.len());
    &&& models(r.nodes@) == all.nodes
    &&& r.outputs@.len() == g.outputs@.len()
    &&& forall|k: int|
        0 <= k < g.outputs@.len() ==> (#[trigger] r.outputs@[k]) == all.ids[g.outputs@[k] as int]
}

proof fn lemma_added_bound(slots: Seq<Option<usize>>, n: nat)
    ensures
        added(slots, n) <= n,
    decreases n,
{
    if n > 0 {
        lemma_added_bound(slots, (n - 1) as nat);
    }
}

proof fn lemma_added_monotone(slots: Seq<Option<usize>>, a: nat, b: nat)
    requires
        a <= b,
    ensures
        added(slots, a) <= added(slots, b),
    decreases b,
{
    if a < b {
        lemma_added_monotone(slots, a, (b - 1) as nat);
    }
}

/// An expansion appends its own nodes, each behind its inputs.
proof fn lemma_inlined_ordered(e: ExpansionModel, base: int, inputs: Seq<int>, n: nat)
    requires
        expands(e, inputs.len()),
        base >= 0,
        forall|k: int| 0 <= k < inputs.len() ==> 0 <= #[trigger] inputs[k] < base,
        n <= e.nodes.len(),
    ensures
        inlined(e, base, inputs, n).len() == added(e.slots, n),
        forall|i: int, k: int|
            #![trigger inlined(e, base, inputs, n)[i].inputs[k]]
            0 <= i < inlined(e, base, inputs, n).len() && 0 <= k < inlined(
                e,
                base,
                inputs,
                n,
            )[i].inputs.len() ==> 0 <= inlined(e, base, inputs, n)[i].inputs[k] < base + i,
        forall|j: int|
            0 <= j < n ==> 0 <= #[trigger] inlined_id(e.slots, base, inputs, j) < base + added(
                e.slots,
                n,
            ),
    decreases n,
{
    if n > 0 {
        let less = (n - 1) as nat;
        lemma_inlined_ordered(e, base, inputs, less);
        let rest = inlined(e, base, inputs, less);
        let all = inlined(e, base, inputs, n);
        assert forall|j: int| 0 <= j < n implies 0 <= #[trigger] inlined_id(
            e.slots,
            base,
            inputs,
            j,
        ) < base + added(e.slots, n) by {
            if j == n - 1 {
                if let Some(k) = e.slots[j] {
                    assert(0 <= inputs[k as int] < base);
                }
            }
        }
        if e.slots[n - 1] is None {
            let node = e.nodes[n - 1];
            assert forall|i: int, k: int|
                #![trigger all[i].inputs[k]]
                0 <= i < all.len() && 0 <= k < all[i].inputs.len() implies 0 <= all[i].inputs[k]
                < base + i by {
                if i < rest.len() {
                    assert(all[i] == rest[i]);
                } else {
                    let j = node.inputs[k];
                    assert(0 <= e.nodes[n - 1].inputs[k] < n - 1);
                    assert(all[i].inputs[k] == inlined_id(e.slots, base, inputs, j));
                    lemma_added_monotone(e.slots, j as nat, less);
                }
            }
        }
    }
}

/// A rewritten graph has a place for every given node, and its nodes come behind their inputs.
pub proof fn lemma_rewritten_ordered(
    nodes: Seq<NodeModel>,
    exps: Seq<Option<ExpansionModel>>,
    n: nat,
)
    requires
        ordered(nodes),
        expansions_fit(nodes, exps),
        n <= nodes.len(),
    ensures
        ordered(rewritten(nodes, exps, n).nodes),
        rewritten(nodes, exps, n).ids.len() == n,
        forall|i: int|
            0 <= i < n ==> 0 <= #[trigger] rewritten(nodes, exps, n).ids[i] < rewritten(
                nodes,
                exps,
                n,
            ).nodes.len(),
    decreases n,
{
    if n > 0 {
        let less = (n - 1) as nat;
        lemma_rewritten_ordered(nodes, exps, less);
        let r = rewritten(nodes, exps, less);
        let all = rewritten(nodes, exps, n);
        let node = nodes[n - 1];
        let inputs = moved(node.inputs, |j: int| r.ids[j]);
        let base = r.nodes.len() as int;
        assert forall|k: int| 0 <= k < inputs.len() implies 0 <= #[trigger] inputs[k] < base by {
            assert(0 <= nodes[n - 1].inputs[k] < n - 1);
            assert(inputs[k] == r.ids[node.inputs[k]]);
        }
        if let Some(e) = exps[n - 1] {
            let own = inlined(e, base, inputs, e.nodes.len());
            lemma_inlined_ordered(e, base, inputs, e.nodes.len());
            assert(0 <= inlined_id(e.slots, base, inputs, e.output) < base + own.len());
            assert forall|i: int, k: int|
                #![trigger all.nodes[i].inputs[k]]
                0 <= i < all.nodes.len() && 0 <= k < all.nodes[i].inputs.len() implies 0
                <= all.nodes[i].inputs[k] < i by {
                if i < base {
                    assert(all.nodes[i] == r.nodes[i]);
                    assert(0 <= r.nodes[i].inputs[k] < i);
                } else {
                    assert(all.nodes[i] == own[i - base]);
                    assert(0 <= own[i - base].inputs[k] < base + (i - base));
                }
            }
        } else {
            assert forall|i: int, k: int|
                #![trigger all.nodes[i].inputs[k]]
                0 <= i < all.nodes.len() && 0 <= k < all.nodes[i].inputs.len() implies 0
                <= all.nodes[i].inputs[k] < i by {
                if i < base {
                    assert(all.nodes[i] == r.nodes[i]);
                    assert(0 <= r.nodes[i].inputs[k] < i);
                } else {
                    assert(all.nodes[i].inputs[k] == inputs[k]);
                }
            }
        }
    }
}

/// What a node's operation gives, from its shape and the values of its inputs.
pub type Meaning = spec_fn(Op, Seq<Option<usize>>, DType, Seq<int>) -> int;

/// The value of a node, from the values of the nodes that it reads.
pub open spec fn value(nodes: Seq<NodeModel>, f: Meaning, i: int) -> int
    decreases i, nodes[i].inputs.len() + 1,
{
    let node = nodes[i];
    f(node.op, node.dims, node.dtype, values(nodes, f, node.inputs, i))
}

/// The values of inputs that come before a position.
pub open spec fn values(nodes: Seq<NodeModel>, f: Meaning, inputs: Seq<int>, i: int) -> Seq<int>
    decreases i, inputs.len(),
{
    if inputs.len() == 0 {
        Seq::empty()
    } else {
        values(nodes, f, inputs.drop_last(), i).push(
            if 0 <= inputs.last() < i {
                value(nodes, f, inputs.last())
            } else {
                0
            },
        )
    }
}

/// The value of a node of an expansion, from the values of the inputs of the replaced node.
pub open spec fn inner_value(e: ExpansionModel, f: Meaning, args: Seq<int>, j: int) -> int
    decreases j, e.nodes[j].inputs.len() + 1,
{
    match e.slots[j] {
        Some(k) => args[k as int],
        None => {
            let node = e.nodes[j];
            f(node.op, node.dims, node.dtype, inner_values(e, f, args, node.inputs, j))
        },
    }
}

pub open spec fn inner_values(
    e: ExpansionModel,
    f: Meaning,
    args: Seq<int>,
    inputs: Seq<int>,
    j: int,
) -> Seq<int>
    decreases j, inputs.len(),
{
    if inputs.len() == 0 {
        Seq::empty()
    } else {
        inner_values(e, f, args, inputs.drop_last(), j).push(
            if 0 <= inputs.last() < j {
                inner_value(e, f, args, inputs.last())
            } else {
                0
            },
        )
    }
}

proof fn lemma_values_at(nodes: Seq<NodeModel>, f: Meaning, inputs: Seq<int>, i: int)
    ensures
        values(nodes, f, inputs, i).len() == inputs.len(),
        forall|k: int|
            0 <= k < inputs.len() && 0 <= inputs[k] < i ==> #[trigger] values(nodes, f, inputs, i)[k]
                == value(nodes, f, inputs[k]),
    decreases inputs.len(),
{
    if inputs.len() > 0 {
        lemma_values_at(nodes, f, inputs.drop_last(), i);
        let shorter = inputs.drop_last();
        assert forall|k: int| 0 <= k < inputs.len() && 0 <= inputs[k] < i implies #[trigger] values(
            nodes,
            f,
            inputs,
            i,
        )[k] == value(nodes, f, inputs[k]) by {
            if k < inputs.len() - 1 {
                assert(shorter[k] == inputs[k]);
                assert(values(nodes, f, shorter, i)[k] == value(nodes, f, shorter[k]));
            }
        }
    }
}

proof fn lemma_inner_values_at(
    e: ExpansionModel,
    f: Meaning,
    args: Seq<int>,
    inputs: Seq<int>,
    j: int,
)
    ensures
        inner_values(e, f, args, inputs, j).len() == inputs.len(),
        forall|k: int|
            0 <= k < inputs.len() && 0 <= inputs[k] < j ==> #[trigger] inner_values(
                e,
                f,
                args,
                inputs,
                j,
            )[k] == inner_value(e, f, args, inputs[k]),
    decreases inputs.len(),
{
    if inputs.len() > 0 {
        lemma_inner_values_at(e, f, args, inputs.drop_last(), j);
        let shorter = inputs.drop_last();
        assert forall|k: int| 0 <= k < inputs.len() && 0 <= inputs[k]
            < j implies #[trigger] inner_values(e, f, args, inputs, j)[k] == inner_value(
            e,
            f,
            args,
            inputs[k],
        ) by {
            if k < inputs.len() - 1 {
                assert(shorter[k] == inputs[k]);
                assert(inner_values(e, f, args, shorter, j)[k] == inner_value(
                    e,
                    f,
                    args,
                    shorter[k],
                ));
            }
        }
    }
}

/// The expansion computes what the node computes, whatever its inputs are.
pub open spec fn computes(e: ExpansionModel, f: Meaning, node: NodeModel) -> bool {
    forall|args: Seq<int>|
        args.len() == node.inputs.len() ==> #[trigger] inner_value(e, f, args, e.output) == f(
            node.op,
            node.dims,
            node.dtype,
            args,
        )
}

/// Values do not depend on nodes that come later.
proof fn lemma_value_of_prefix(nodes: Seq<NodeModel>, more: Seq<NodeModel>, f: Meaning, i: int)
    requires
        ordered(nodes),
        0 <= i < nodes.len(),
    ensures
        value(nodes + more, f, i) == value(nodes, f, i),
    decreases i,
{
    let node = nodes[i];
    assert((nodes + more)[i] == node);
    lemma_values_at(nodes + more, f, node.inputs, i);
    lemma_values_at(nodes, f, node.inputs, i);
    let a = values(nodes + more, f, node.inputs, i);
    let b = values(nodes, f, node.inputs, i);
    assert forall|k: int| 0 <= k < node.inputs.len() implies a[k] == b[k] by {
        assert(0 <= nodes[i].inputs[k] < i);
        lemma_value_of_prefix(nodes, more, f, node.inputs[k]);
    }
    assert(a =~= b);
}

/// The appended nodes of an expansion have the values that its own nodes have.
proof fn lemma_inlined_values(
    before: Seq<NodeModel>,
    e: ExpansionModel,
    f: Meaning,
    inputs: Seq<int>,
    n: nat,
)
    requires
        ordered(before),
        expands(e, inputs.len()),
        forall|k: int| 0 <= k < inputs.len() ==> 0 <= #[trigger] inputs[k] < before.len(),
        n <= e.nodes.len(),
    ensures
        ordered(before + inlined(e, before.len() as int, inputs, n)),
        forall|j: int|
            0 <= j < n ==> #[trigger] value(
                before + inlined(e, before.len() as int, inputs, n),
                f,
                inlined_id(e.slots, before.len() as int, inputs, j),
            ) == inner_value(e, f, moved(inputs, |i: int| value(before, f, i)), j),
    decreases n,
{
    let base = before.len() as int;
    let args = moved(inputs, |i: int| value(before, f, i));
    let all = before + inlined(e, base, inputs, n);
    lemma_inlined_ordered(e, base, inputs, n);
    assert forall|i: int, k: int|
        #![trigger all[i].inputs[k]]
        0 <= i < all.len() && 0 <= k < all[i].inputs.len() implies 0 <= all[i].inputs[k] < i by {
        if i < base {
            assert(all[i] == before[i]);
            assert(0 <= before[i].inputs[k] < i);
        } else {
            assert(all[i] == inlined(e, base, inputs, n)[i - base]);
            assert(0 <= inlined(e, base, inputs, n)[i - base].inputs[k] < base + (i - base));
        }
    }
    if n > 0 {
        let less = (n - 1) as nat;
        lemma_inlined_values(before, e, f, inputs, less);
        lemma_inlined_ordered(e, base, inputs, less);
        let rest = before + inlined(e, base, inputs, less);
        let more = if e.slots[n - 1] is Some {
            Seq::<NodeModel>::empty()
        } else {
            seq![inlined(e, base, inputs, n).last()]
        };
        assert(all =~= rest + more);
        assert forall|j: int| 0 <= j < n implies #[trigger] value(
            all,
            f,
            inlined_id(e.slots, base, inputs, j),
        ) == inner_value(e, f, args, j) by {
            let id = inlined_id(e.slots, base, inputs, j);
            if j < n - 1 {
                assert(value(rest, f, id) == inner_value(e, f, args, j));
                lemma_value_of_prefix(rest, more, f, id);
            } else if let Some(k) = e.slots[j] {
                assert(id == inputs[k as int]);
                lemma_value_of_prefix(before, inlined(e, base, inputs, n), f, id);
            } else {
                let node = e.nodes[j];
                let own = all[id];
                assert(own == inlined(e, base, inputs, n).last());
                lemma_values_at(all, f, own.inputs, id);
                lemma_inner_values_at(e, f, args, node.inputs, j);
                let a = values(all, f, own.inputs, id);
                let b = inner_values(e, f, args, node.inputs, j);
                assert forall|k: int| 0 <= k < node.inputs.len() implies a[k] == b[k] by {
                    let inner = node.inputs[k];
                    assert(0 <= e.nodes[j].inputs[k] < j);
                    let outer = inlined_id(e.slots, base, inputs, inner);
                    assert(own.inputs[k] == outer);
                    assert(0 <= all[id].inputs[k] < id);
                    assert(value(rest, f, outer) == inner_value(e, f, args, inner));
                    lemma_value_of_prefix(rest, more, f, outer);
                }
                assert(a =~= b);
            }
        }
    }
}

/// Where every expansion computes what the node in its place computes, rewriting leaves the value
/// of each node of the given graph as it was, at the node's new place.
pub proof fn lemma_rewrite_preserves_values(
    nodes: Seq<NodeModel>,
    exps: Seq<Option<ExpansionModel>>,
    f: Meaning,
    n: nat,
)
    requires
        ordered(nodes),
        expansions_fit(nodes, exps),
        n <= nodes.len(),
        forall|i: int|
            0 <= i < nodes.len() ==> ((#[trigger] exps[i]) matches Some(e) ==> computes(
                e,
                f,
                nodes[i],
            )),
    ensures
        forall|i: int|
            0 <= i < n ==> #[trigger] value(
                rewritten(nodes, exps, n).nodes,
                f,
                rewritten(nodes, exps, n).ids[i],
            ) == value(nodes, f, i),
    decreases n,
{
    if n > 0 {
        let less = (n - 1) as nat;
        lemma_rewrite_preserves_values(nodes, exps, f, less);
        lemma_rewritten_ordered(nodes, exps, less);
        lemma_rewritten_ordered(nodes, exps, n);
        let r = rewritten(nodes, exps, less);
        let all = rewritten(nodes, exps, n);
        let node = nodes[n - 1];
        let inputs = moved(node.inputs, |j: int| r.ids[j]);
        let base = r.nodes.len() as int;
        let more = match exps[n - 1] {
            None => seq![NodeModel { inputs, ..node }],
            Some(e) => inlined(e, base, inputs, e.nodes.len()),
        };
        assert(all.nodes =~= r.nodes + more);
        let args = moved(inputs, |i: int| value(r.nodes, f, i));
        let plain = values(nodes, f, node.inputs, n - 1);
        lemma_values_at(nodes, f, node.inputs, n - 1);
        assert forall|k: int| 0 <= k < node.inputs.len() implies 0 <= #[trigger] inputs[k] < base
            && args[k] == plain[k] by {
            assert(0 <= nodes[n - 1].inputs[k] < n - 1);
            let at = node.inputs[k];
            assert(inputs[k] == r.ids[at]);
            assert(value(r.nodes, f, r.ids[at]) == value(nodes, f, at));
        }
        assert(args =~= plain);
        assert forall|i: int| 0 <= i < n implies #[trigger] value(all.nodes, f, all.ids[i]) == value(
            nodes,
            f,
            i,
        ) by {
            if i < n - 1 {
                assert(all.ids[i] == r.ids[i]);
                assert(value(r.nodes, f, r.ids[i]) == value(nodes, f, i));
                lemma_value_of_prefix(r.nodes, more, f, r.ids[i]);
            } else if let Some(e) = exps[n - 1] {
                lemma_inlined_values(r.nodes, e, f, inputs, e.nodes.len());
                let id = inlined_id(e.slots, base, inputs, e.output);
                assert(value(all.nodes, f, id) == inner_value(e, f, args, e.output));
            } else {
                let own = all.nodes[base];
                assert(own == (NodeModel { inputs, ..node }));
                lemma_values_at(all.nodes, f, own.inputs, base);
                let a = values(all.nodes, f, own.inputs, base);
                assert forall|k: int| 0 <= k < own.inputs.len() implies a[k] == plain[k] by {
                    assert(0 <= inputs[k] < base);
                    lemma_value_of_prefix(r.nodes, more, f, inputs[k]);
                    assert(args[k] == plain[k]);
                }
                assert(a =~= plain);
            }
        }
    }
}

/// Positions as numbers.
pub open spec fn positions(ids: Seq<usize>) -> Seq<int> {
    Seq::new(ids.len(), |k: int| ids[k] as int)
}

/// Looks each input up in a table of new places.
fn look_up(inputs: &[usize], places: &[usize]) -> (r: Vec<usize>)
    requires
        forall|k: int| 0 <= k < inputs@.len() ==> (#[trigger] inputs@[k]) < places@.len(),
    ensures
        r@.len() == inputs@.len(),
        forall|k: int| 0 <= k < inputs@.len() ==> #[trigger] r@[k] == places@[inputs@[k] as int],
{
    let mut r: Vec<usize> = Vec::new();
    let mut k: usize = 0;
    while k < inputs.len()
        invariant
            k <= inputs@.len(),
            r@.len() == k,
            forall|j: int| 0 <= j < inputs@.len() ==> (#[trigger] inputs@[j]) < places@.len(),
            forall|j: int| 0 <= j < k ==> #[trigger] r@[j] == places@[inputs@[j] as int],
        decreases inputs@.len() - k,
    {
        r.push(places[inputs[k]]);
        k = k + 1;
    }
    r
}

/// Appends the nodes of an expansion whose inputs are already there, and gives the position of its
/// value.
pub fn inline_unfused_fused_op(out: &mut Graph, e: &Expansion, inputs: &[usize]) -> (id: usize)
    requires
        expands(e.model(), inputs@.len()),
        forall|k: int| 0 <= k < inputs@.len() ==> (#[trigger] inputs@[k]) < old(out).nodes@.len(),
    ensures
        models(final(out).nodes@) == models(old(out).nodes@) + inlined(
            e.model(),
            old(out).nodes@.len() as int,
            positions(inputs@),
            e.nodes@.len(),
        ),
        final(out).outputs == old(out).outputs,
        id == inlined_id(
            e.slots@,
            old(out).nodes@.len() as int,
            positions(inputs@),
            e.output as int,
        ),
{
    let ghost before = out.nodes@;
    let ghost base = out.nodes@.len() as int;
    let ghost ins = positions(inputs@);
    let ghost em = e.model();
    let mut map: Vec<usize> = Vec::new();
    let mut j: usize = 0;
    assert(models(before) + inlined(em, base, ins, 0) =~= models(before));
    while j < e.nodes.len()
        invariant
            j <= e.nodes@.len(),
            em == e.model(),
            expands(em, inputs@.len()),
            ins == positions(inputs@),
            base == before.len(),
            forall|k: int| 0 <= k < inputs@.len() ==> (#[trigger] inputs@[k]) < base,
            map@.len() == j,
            forall|k: int|
                0 <= k < j ==> #[trigger] map@[k] == inlined_id(e.slots@, base, ins, k),
            models(out.nodes@) == models(before) + inlined(em, base, ins, j as nat),
            out.nodes@.len() == base + added(e.slots@, j as nat),
            out.outputs == old(out).outputs,
        decreases e.nodes@.len() - j,
    {
        let id: usize = match e.slots[j] {
            Some(k) => inputs[k],
            None => {
                let node: &Node = &e.nodes[j];
                proof {
                    assert forall|k: int| 0 <= k < node.inputs@.len() implies (
                    #[trigger] node.inputs@[k]) < map@.len() by {
                        assert(0 <= em.nodes[j as int].inputs[k] < j);
                    }
                }
                let mapped: Vec<usize> = look_up(&node.inputs, &map);
                let ghost was = out.nodes@;
                let id: usize = out.add_node(node.op, mapped, node.shape.copied());
                proof {
                    let own = NodeModel {
                        inputs: moved(
                            em.nodes[j as int].inputs,
                            |i: int| inlined_id(em.slots, base, ins, i),
                        ),
                        ..em.nodes[j as int]
                    };
                    assert(node_model(out.nodes@.last()) =~= own) by {
                        assert forall|k: int| 0 <= k < node.inputs@.len() implies node_model(
                            out.nodes@.last(),
                        ).inputs[k] == own.inputs[k] by {
                            assert(mapped@[k] == map@[node.inputs@[k] as int]);
                        }
                    }
                    assert(models(out.nodes@) =~= models(was).push(own));
                }
                id
            },
        };
        map.push(id);
        j = j + 1;
        assert(models(out.nodes@) =~= models(before) + inlined(em, base, ins, j as nat));
    }
    map[e.output]
}

/// Which input of a replaced node a placeholder stands for, by its name: `in` and a number.
pub open spec fn slot_of_name(name: Seq<char>) -> Option<usize> {
    if has_prefix(name, "in"@) {
        match parsed_unsigned(name.subrange("in"@.len() as int, name.len() as int), usize::MAX as nat) {
            Some(n) => Some(n as usize),
            None => None,
        }
    } else {
        None
    }
}

pub fn placeholder_slot(name: &str) -> (r: Option<usize>)
    ensures
        r == slot_of_name(name@),
{
    match strip_prefix_chars(&chars_of(name), "in") {
        Some(rest) => match parse_unsigned(&rest, usize::MAX as u64) {
            Some(n) => Some(n as usize),
            None => None,
        },
        None => None,
    }
}

/// Replaces the nodes of a graph that have expansions.
fn rewrite(g: &Graph, exps: &[Option<Expansion>]) -> (out: Graph)
    requires
        g.well_formed(),
        expansions_fit(models(g.nodes@), expansion_models(exps@)),
    ensures
        is_rewrite(out, *g, expansion_models(exps@)),
{
    let ghost nodes = models(g.nodes@);
    let ghost em = expansion_models(exps@);
    let mut out: Graph = Graph::new();
    let mut id_map: Vec<usize> = Vec::new();
    let mut i: usize = 0;
    proof {
        lemma_ordered(*g);
        assert(models(out.nodes@) =~= Seq::<NodeModel>::empty());
    }
    while i < g.nodes.len()
        invariant
            i <= g.nodes@.len(),
            g.well_formed(),
            nodes == models(g.nodes@),
            ordered(nodes),
            em == expansion_models(exps@),
            expansions_fit(nodes, em),
            models(out.nodes@) == rewritten(nodes, em, i as nat).nodes,
            positions(id_map@) == rewritten(nodes, em, i as nat).ids,
            id_map@.len() == i,
        decreases g.nodes@.len() - i,
    {
        let node: &Node = &g.nodes[i];
        let ghost r = rewritten(nodes, em, i as nat);
        let ghost was = out.nodes@;
        proof {
            lemma_rewritten_ordered(nodes, em, i as nat);
            assert forall|k: int| 0 <= k < node.inputs@.len() implies (#[trigger] node.inputs@[k])
                < i by {
                assert(g.nodes@[i as int].inputs@[k] < i);
            }
        }
        let new_inputs: Vec<usize> = look_up(&node.inputs, &id_map);
        let ghost ins = moved(nodes[i as int].inputs, |j: int| r.ids[j]);
        proof {
            assert forall|k: int| 0 <= k < new_inputs@.len() implies (#[trigger] new_inputs@[k])
                < out.nodes@.len() && new_inputs@[k] == ins[k] by {
                let at = node.inputs@[k] as int;
                assert(new_inputs@[k] == id_map@[at]);
                assert(positions(id_map@)[at] == r.ids[at]);
                assert(0 <= r.ids[at] < r.nodes.len());
            }
            assert(positions(new_inputs@) =~= ins);
            assert(em[i as int] == match exps@[i as int] {
                Some(e) => Some(e.model()),
                None => None,
            });
        }
        let new_id: usize = match &exps[i] {
            Some(e) => inline_unfused_fused_op(&mut out, e, &new_inputs),
            None => {
                let id: usize = out.add_node(node.op, new_inputs, node.shape.copied());
                proof {
                    assert(node_model(out.nodes@.last()) =~= (NodeModel {
                        inputs: ins,
                        ..nodes[i as int]
                    }));
                    assert(models(out.nodes@) =~= models(was).push(
                        NodeModel { inputs: ins, ..nodes[i as int] },
                    ));
                }
                id
            },
        };
        id_map.push(new_id);
        i = i + 1;
        assert(positions(id_map@) =~= rewritten(nodes, em, i as nat).ids);
    }
    let outputs: Vec<usize> = look_up(&g.outputs, &id_map);
    proof {
        assert forall|k: int| 0 <= k < g.outputs@.len() implies (#[trigger] outputs@[k])
            == rewritten(nodes, em, i as nat).ids[g.outputs@[k] as int] by {
            assert(g.outputs@[k] < g.nodes@.len());
            assert(positions(id_map@)[g.outputs@[k] as int] == id_map@[g.outputs@[k] as int]);
        }
    }
    out.set_outputs(outputs);
    out
}

proof fn lemma_ordered(g: Graph)
    requires
        g.well_formed(),
    ensures
        ordered(models(g.nodes@)),
{
    let nodes = models(g.nodes@);
    assert forall|i: int, k: int|
        #![trigger nodes[i].inputs[k]]
        0 <= i < nodes.len() && 0 <= k < nodes[i].inputs.len() implies 0 <= nodes[i].inputs[k]
        < i by {
        assert(g.nodes@[i].inputs@[k] < i);
    }
}

/// Fused operations that no kernel runs as they are.
pub open spec fn without_kernel(op: Op) -> bool {
    op is FusedConvBiasAct || op is PartitionedConv || op is FusedTransformerLayer
}

pub fn needs_unfusing(op: &Op) -> (r: bool)
    ensures
        r == without_kernel(*op),
{
    matches!(*op, Op::FusedConvBiasAct | Op::PartitionedConv | Op::FusedTransformerLayer)
}

/// Expansions stand exactly for the chosen nodes.
pub open spec fn expands_exactly(
    g: Graph,
    exps: Seq<Option<Expansion>>,
    chosen: spec_fn(Node) -> bool,
) -> bool {
    &&& expansions_fit(models(g.nodes@), expansion_models(exps))
    &&& forall|i: int|
        0 <= i < g.nodes@.len() ==> ((#[trigger] exps[i]) is Some <==> chosen(g.nodes@[i]))
}

/// Expands the fused operations that no kernel runs; a graph without them stays as it is.
pub fn lower_cpu_nop_fused_for_metal(g: Graph, exps: &[Option<Expansion>]) -> (r: Graph)
    requires
        g.well_formed(),
        expands_exactly(g, exps@, |n: Node| without_kernel(n.op)),
    ensures
        (forall|i: int| 0 <= i < g.nodes@.len() ==> !without_kernel((#[trigger] g.nodes@[i]).op))
            ==> r == g,
        (exists|i: int| 0 <= i < g.nodes@.len() && without_kernel((#[trigger] g.nodes@[i]).op))
            ==> is_rewrite(r, g, expansion_models(exps@)),
{
    let mut i: usize = 0;
    while i < g.nodes.len()
        invariant
            i <= g.nodes@.len(),
            forall|j: int| 0 <= j < i ==> !without_kernel((#[trigger] g.nodes@[j]).op),
            g.well_formed(),
            expansions_fit(models(g.nodes@), expansion_models(exps@)),
        decreases g.nodes@.len() - i,
    {
        if needs_unfusing(&g.nodes[i].op) {
            return rewrite(&g, exps);
        }
        i = i + 1;
    }
    g
}

/// Attention blocks that the fused kernel does not serve.
pub open spec fn foreign_block(n: Node) -> bool {
    n.op is FusedAttentionBlock && !native_block(n)
}

/// Expands the attention blocks that the fused kernel does not serve; a graph without them stays
/// as it is.
pub fn lower_fab_for_metal(g: Graph, exps: &[Option<Expansion>]) -> (r: Graph)
    requires
        g.well_formed(),
        forall|i: int| 0 <= i < g.nodes@.len() ==> block_shaped(#[trigger] g.nodes@[i]),
        expands_exactly(g, exps@, |n: Node| foreign_block(n)),
    ensures
        (forall|i: int| 0 <= i < g.nodes@.len() ==> !foreign_block(#[trigger] g.nodes@[i])) ==> r
            == g,
        (exists|i: int| 0 <= i < g.nodes@.len() && foreign_block(#[trigger] g.nodes@[i]))
            ==> is_rewrite(r, g, expansion_models(exps@)),
{
    let mut i: usize = 0;
    while i < g.nodes.len()
        invariant
            i <= g.nodes@.len(),
            forall|j: int| 0 <= j < i ==> !foreign_block(#[trigger] g.nodes@[j]),
            forall|j: int| 0 <= j < g.nodes@.len() ==> block_shaped(#[trigger] g.nodes@[j]),
            g.well_formed(),
            expansions_fit(models(g.nodes@), expansion_models(exps@)),
        decreases g.nodes@.len() - i,
    {
        let node: &Node = &g.nodes[i];
        if matches!(node.op, Op::FusedAttentionBlock { .. }) && !fab_is_native(node) {
            return rewrite(&g, exps);
        }
        i = i + 1;
    }
    g
}

/// A product with a bias and the exact Gelu fused behind it.
pub open spec fn fused_erf(op: Op) -> bool {
    op == (Op::FusedMatMulBiasAct { activation: Some(Activation::Gelu) })
}

fn is_fused_erf(op: &Op) -> (r: bool)
    ensures
        r == fused_erf(*op),
{
    match *op {
        Op::FusedMatMulBiasAct { activation } => match activation {
            Some(a) => a == Activation::Gelu,
            None => false,
        },
        _ => false,
    }
}

/// A fused exact Gelu, split in two: the product with its bias, and the Gelu on its own.
pub open spec fn erf_split(node: NodeModel) -> ExpansionModel {
    let n = node.inputs.len();
    ExpansionModel {
        nodes: Seq::new(
            n,
            |k: int| NodeModel { op: Op::Input(0), inputs: Seq::empty(), ..node },
        ).push(
            NodeModel {
                op: Op::FusedMatMulBiasAct { activation: None },
                inputs: Seq::new(n, |k: int| k),
                ..node
            },
        ).push(
            NodeModel { op: Op::Activation(Activation::Gelu), inputs: seq![n as int], ..node },
        ),
        slots: Seq::new(n, |k: int| Some(k as usize)).push(None).push(None),
        output: (n + 1) as int,
    }
}

/// The splits of a graph's nodes.
pub open spec fn erf_splits(nodes: Seq<NodeModel>) -> Seq<Option<ExpansionModel>> {
    Seq::new(
        nodes.len(),
        |i: int|
            if fused_erf(nodes[i].op) {
                Some(erf_split(nodes[i]))
            } else {
                None
            },
    )
}

fn split_of(node: &Node) -> (e: Expansion)
    requires
        node.inputs@.len() + 1 <= usize::MAX,
    ensures
        e.model() == erf_split(node_model(*node)),
{
    let n: usize = node.inputs.len();
    let ghost nm = node_model(*node);
    let mut nodes: Vec<Node> = Vec::new();
    let mut slots: Vec<Option<usize>> = Vec::new();
    let mut args: Vec<usize> = Vec::new();
    let mut k: usize = 0;
    while k < n
        invariant
            k <= n,
            nm == node_model(*node),
            models(nodes@) == Seq::new(
                k as nat,
                |j: int| NodeModel { op: Op::Input(0), inputs: Seq::empty(), ..nm },
            ),
            slots@ == Seq::new(k as nat, |j: int| Some(j as usize)),
            positions(args@) == Seq::new(k as nat, |j: int| j),
        decreases n - k,
    {
        let ghost nodes_before = models(nodes@);
        let ghost args_before = positions(args@);
        nodes.push(Node { op: Op::Input(0), inputs: Vec::new(), shape: node.shape.copied() });
        slots.push(Some(k));
        args.push(k);
        k = k + 1;
        proof {
            let last = nodes@.last();
            assert(models(nodes@) =~= nodes_before.push(node_model(last)));
            assert(positions(args@) =~= args_before.push(k - 1));
            assert(node_model(last) =~= (NodeModel { op: Op::Input(0), inputs: Seq::empty(), ..nm
            }));
            assert(models(nodes@) =~= Seq::new(
                k as nat,
                |j: int| NodeModel { op: Op::Input(0), inputs: Seq::empty(), ..nm },
            ));
            assert(slots@ =~= Seq::new(k as nat, |j: int| Some(j as usize)));
            assert(positions(args@) =~= Seq::new(k as nat, |j: int| j));
        }
    }
    let ghost stand = models(nodes@);
    nodes.push(
        Node {
            op: Op::FusedMatMulBiasAct { activation: None },
            inputs: args,
            shape: node.shape.copied(),
        },
    );
    assert(models(nodes@) =~= stand.push(node_model(nodes@.last())));
    let ghost product = node_model(nodes@.last());
    slots.push(None);
    nodes.push(
        Node {
            op: Op::Activation(Activation::Gelu),
            inputs: vec![n],
            shape: node.shape.copied(),
        },
    );
    assert(models(nodes@) =~= stand.push(product).push(node_model(nodes@.last())));
    slots.push(None);
    let e: Expansion = Expansion { nodes, slots, output: n + 1 };
    proof {
        let want = erf_split(nm);
        assert(product =~= want.nodes[n as int]);
        assert(node_model(nodes@.last()).inputs =~= seq![n as int]);
        assert(node_model(nodes@.last()) =~= want.nodes[n + 1]);
        assert(e.model().nodes =~= want.nodes);
        assert(e.model().slots =~= want.slots);
    }
    e
}

/// Splits every product with a fused exact Gelu; a graph without them stays as it is. Other
/// activations stay fused.
pub fn split_erf_gelu_fmba_for_metal(g: Graph) -> (r: Graph)
    requires
        g.well_formed(),
        forall|i: int|
            0 <= i < g.nodes@.len() ==> (#[trigger] g.nodes@[i]).inputs@.len() < usize::MAX,
    ensures
        (forall|i: int| 0 <= i < g.nodes@.len() ==> !fused_erf((#[trigger] g.nodes@[i]).op)) ==> r
            == g,
        (exists|i: int| 0 <= i < g.nodes@.len() && fused_erf((#[trigger] g.nodes@[i]).op))
            ==> is_rewrite(r, g, erf_splits(models(g.nodes@))),
{
    let ghost nodes = models(g.nodes@);
    let mut exps: Vec<Option<Expansion>> = Vec::new();
    let mut needs: bool = false;
    let mut i: usize = 0;
    while i < g.nodes.len()
        invariant
            i <= g.nodes@.len(),
            nodes == models(g.nodes@),
            forall|j: int|
                0 <= j < g.nodes@.len() ==> (#[trigger] g.nodes@[j]).inputs@.len() < usize::MAX,
            needs == exists|j: int| 0 <= j < i && fused_erf((#[trigger] g.nodes@[j]).op),
            expansion_models(exps@) == erf_splits(nodes).take(i as int),
            exps@.len() == i,
        decreases g.nodes@.len() - i,
    {
        let node: &Node = &g.nodes[i];
        let ghost was = exps@;
        if is_fused_erf(&node.op) {
            needs = true;
            exps.push(Some(split_of(node)));
        } else {
            exps.push(None);
        }
        assert(erf_splits(nodes)[i as int] == (match exps@[i as int] {
            Some(e) => Some(e.model()),
            None => None,
        }));
        assert(expansion_models(exps@) =~= expansion_models(was).push(
            erf_splits(nodes)[i as int],
        ));
        i = i + 1;
        assert(expansion_models(exps@) =~= erf_splits(nodes).take(i as int));
    }
    if !needs {
        return g;
    }
    proof {
        assert(erf_splits(nodes).take(i as int) =~= erf_splits(nodes));
        lemma_splits_fit(nodes);
    }
    rewrite(&g, &exps)
}

proof fn lemma_splits_fit(nodes: Seq<NodeModel>)
    requires
        forall|i: int| 0 <= i < nodes.len() ==> (#[trigger] nodes[i]).inputs.len() < usize::MAX,
    ensures
        expansions_fit(nodes, erf_splits(nodes)),
{
    let exps = erf_splits(nodes);
    assert forall|i: int| 0 <= i < nodes.len() implies ((#[trigger] exps[i]) matches Some(e)
        ==> expands(e, nodes[i].inputs.len())) by {
        if let Some(e) = exps[i] {
            let n = nodes[i].inputs.len();
            assert forall|a: int, k: int|
                #![trigger e.nodes[a].inputs[k]]
                0 <= a < e.nodes.len() && 0 <= k < e.nodes[a].inputs.len() implies 0
                <= e.nodes[a].inputs[k] < a by {
                if a < n {
                    assert(e.nodes[a].inputs.len() == 0);
                }
            }
            assert forall|j: int| 0 <= j < e.slots.len() implies ((
            #[trigger] e.slots[j]) matches Some(k) ==> k < n) by {
                if j < n {
                    assert(e.slots[j] == Some(j as usize));
                    assert(j as usize == j);
                }
            }
        }
    }
}

/// No product with a fused exact Gelu is left after splitting.
pub proof fn lemma_split_leaves_no_fused_erf(nodes: Seq<NodeModel>, n: nat)
    requires
        n <= nodes.len(),
    ensures
        forall|i: int|
            0 <= i < rewritten(nodes, erf_splits(nodes), n).nodes.len() ==> !fused_erf(
                (#[trigger] rewritten(nodes, erf_splits(nodes), n).nodes[i]).op,
            ),
    decreases n,
{
    if n > 0 {
        let less = (n - 1) as nat;
        let exps = erf_splits(nodes);
        lemma_split_leaves_no_fused_erf(nodes, less);
        let r = rewritten(nodes, exps, less);
        let all = rewritten(nodes, exps, n);
        let base = r.nodes.len() as int;
        let inputs = moved(nodes[n - 1].inputs, |j: int| r.ids[j]);
        assert forall|i: int| 0 <= i < all.nodes.len() implies !fused_erf(
            (#[trigger] all.nodes[i]).op,
        ) by {
            if i < base {
                assert(all.nodes[i] == r.nodes[i]);
            } else if let Some(e) = exps[n - 1] {
                lemma_inlined_ops(e, base, inputs, e.nodes.len());
                let own = inlined(e, base, inputs, e.nodes.len());
                assert(all.nodes[i] == own[i - base]);
            }
        }
    }
}

/// The nodes of a split that do not stand for inputs are no fused exact Gelu.
proof fn lemma_inlined_ops(e: ExpansionModel, base: int, inputs: Seq<int>, n: nat)
    requires
        n <= e.nodes.len(),
        forall|j: int| 0 <= j < e.nodes.len() ==> !fused_erf((#[trigger] e.nodes[j]).op),
    ensures
        forall|i: int|
            0 <= i < inlined(e, base, inputs, n).len() ==> !fused_erf(
                (#[trigger] inlined(e, base, inputs, n)[i]).op,
            ),
    decreases n,
{
    if n > 0 {
        lemma_inlined_ops(e, base, inputs, (n - 1) as nat);
        let rest = inlined(e, base, inputs, (n - 1) as nat);
        let all = inlined(e, base, inputs, n);
        assert forall|i: int| 0 <= i < all.len() implies !fused_erf((#[trigger] all[i]).op) by {
            if i < rest.len() {
                assert(all[i] == rest[i]);
            } else {
                assert(all[i].op == e.nodes[n - 1].op);
            }
        }
    }
}

/// The exact Gelu fused behind a product is the exact Gelu of that product.
pub open spec fn gelu_composes(f: Meaning) -> bool {
    forall|dims: Seq<Option<usize>>, dtype: DType, args: Seq<int>| #[trigger]
        f(Op::FusedMatMulBiasAct { activation: Some(Activation::Gelu) }, dims, dtype, args) == f(
            Op::Activation(Activation::Gelu),
            dims,
            dtype,
            seq![f(Op::FusedMatMulBiasAct { activation: None }, dims, dtype, args)],
        )
}

proof fn lemma_split_computes(node: NodeModel, f: Meaning)
    requires
        gelu_composes(f),
        fused_erf(node.op),
        node.inputs.len() < usize::MAX,
    ensures
        computes(erf_split(node), f, node),
{
    let e = erf_split(node);
    let n = node.inputs.len() as int;
    assert forall|args: Seq<int>| args.len() == node.inputs.len() implies #[trigger] inner_value(
        e,
        f,
        args,
        e.output,
    ) == f(node.op, node.dims, node.dtype, args) by {
        let product = e.nodes[n];
        lemma_inner_values_at(e, f, args, product.inputs, n);
        let read = inner_values(e, f, args, product.inputs, n);
        assert forall|k: int| 0 <= k < n implies read[k] == args[k] by {
            assert(product.inputs[k] == k);
            assert(e.slots[k] == Some(k as usize));
            assert(inner_value(e, f, args, k) == args[k]);
        }
        assert(read =~= args);
        assert(e.slots[n] is None);
        let of_product = f(
            Op::FusedMatMulBiasAct { activation: None },
            node.dims,
            node.dtype,
            args,
        );
        assert(inner_value(e, f, args, n) == of_product);
        let gelu = e.nodes[n + 1];
        assert(e.slots[n + 1] is None);
        lemma_inner_values_at(e, f, args, gelu.inputs, n + 1);
        assert(gelu.inputs[0] == n);
        assert(inner_values(e, f, args, gelu.inputs, n + 1) =~= seq![of_product]);
    }
}

/// Splitting changes no value, as long as the exact Gelu fused behind a product means the Gelu of
/// that product.
pub proof fn lemma_split_preserves_values(nodes: Seq<NodeModel>, f: Meaning, i: int)
    requires
        ordered(nodes),
        gelu_composes(f),
        forall|j: int| 0 <= j < nodes.len() ==> (#[trigger] nodes[j]).inputs.len() < usize::MAX,
        0 <= i < nodes.len(),
    ensures
        ({
            let all = rewritten(nodes, erf_splits(nodes), nodes.len());
            value(all.nodes, f, all.ids[i]) == value(nodes, f, i)
        }),
{
    lemma_splits_fit(nodes);
    let exps = erf_splits(nodes);
    assert forall|j: int| 0 <= j < nodes.len() implies ((#[trigger] exps[j]) matches Some(e)
        ==> computes(e, f, nodes[j])) by {
        if let Some(e) = exps[j] {
            lemma_split_computes(nodes[j], f);
        }
    }
    lemma_rewrite_preserves_values(nodes, exps, f, nodes.len());
}

} // verus!
