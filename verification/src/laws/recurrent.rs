//! Recurrent state: what each kernel is handed and what its launch covers.

use vstd::prelude::*;

use crate::command::{Buf, Cmd, Group, Kernel, Size, bit, f32_index, max_u64, one_row, plane};
use crate::encode::recurrent::{
    Cell, Recurrent, cell_kernel, cell_steps, directions, gated_delta_net_steps, gates, in_width,
    input_block, input_cursor, layer_steps, layers_steps, mamba2_steps, out_width, reads_at,
    recurrent_steps, selective_scan_steps, word, writes_at,
};
use crate::launch::{
    Launch, arg, behind, group_launches, launch, launches, launches_once, lemma_arg_append,
    lemma_behind_keeps, lemma_launches_append, lemma_selected_append, selected,
};

verus! {

/// Gated delta rule. The kernel finds each operand and number of the call at its own slot.
pub proof fn lemma_gated_delta_net(
    q: usize,
    k_off: usize,
    v: usize,
    g: usize,
    beta: usize,
    state: usize,
    dst: usize,
    batch: u32,
    seq: u32,
    heads: u32,
    state_size: u32,
    use_carry: bool,
    gate_per_channel: bool,
    simd_disabled: bool,
)
    ensures
        ({
            let s = gated_delta_net_steps(
                q,
                k_off,
                v,
                g,
                beta,
                state,
                dst,
                batch,
                seq,
                heads,
                state_size,
                use_carry,
                gate_per_channel,
                simd_disabled,
            );
            &&& launches_once(s)
            &&& launch(s).kernel() == Some(
                if state_size == 128 && !simd_disabled {
                    Kernel::GatedDeltaNetSg
                } else { Kernel::GatedDeltaNet },
            )
            &&& launch(s).place(0) == Some((Buf::Arena, 0u64))
            &&& launch(s).long(1) == Some((q / 4) as u64)
            &&& launch(s).long(2) == Some((k_off / 4) as u64)
            &&& launch(s).long(3) == Some((v / 4) as u64)
            &&& launch(s).long(4) == Some((g / 4) as u64)
            &&& launch(s).long(5) == Some((beta / 4) as u64)
            &&& launch(s).long(6) == Some((state / 4) as u64)
            &&& launch(s).long(7) == Some((dst / 4) as u64)
            &&& launch(s).arg(8) == Some(Cmd::U32x4(8, batch, seq, heads, state_size))
            &&& launch(s).word(9) == Some(bit(use_carry))
            &&& launch(s).word(10) == Some(bit(gate_per_channel))
            &&& state_size == 128 && !simd_disabled ==> {
                &&& launch(s).shape == Cmd::Groups(
                    Size { width: 32, height: heads as u64, depth: batch as u64 },
                    plane(32, 4),
                )
            }
            &&& !(state_size == 128 && !simd_disabled) ==> {
                &&& launch(s).shape == Cmd::Threads(
                    one_row(max_u64((batch * heads) as u64, 1)),
                    Group::ExecWidth(Kernel::GatedDeltaNet, max_u64((batch * heads) as u64, 1)),
                )
            }
        }),
{
    broadcast use group_launches;

    let s = gated_delta_net_steps(
        q,
        k_off,
        v,
        g,
        beta,
        state,
        dst,
        batch,
        seq,
        heads,
        state_size,
        use_carry,
        gate_per_channel,
        simd_disabled,
    );
    if state_size == 128 && !simd_disabled {
        assert(launches(s).len() == 1);
    } else if !(state_size == 128 && !simd_disabled) {
        assert(launches(s).len() == 1);
    }
}

/// Selective scan, one thread per batch item and channel. The kernel finds each operand and number
/// of the call at its own slot.
pub proof fn lemma_selective_scan(
    x: usize,
    delta: usize,
    a: usize,
    b: usize,
    c: usize,
    dst: usize,
    batch: u32,
    seq: u32,
    hidden: u32,
    state_size: u32,
)
    ensures
        ({
            let s = selective_scan_steps(x, delta, a, b, c, dst, batch, seq, hidden, state_size);
            &&& launches_once(s)
            &&& launch(s).kernel() == Some(Kernel::SelectiveScan)
            &&& launch(s).place(0) == Some((Buf::Arena, 0u64))
            &&& launch(s).word(1) == Some(f32_index(x))
            &&& launch(s).word(2) == Some(f32_index(delta))
            &&& launch(s).word(3) == Some(f32_index(a))
            &&& launch(s).word(4) == Some(f32_index(b))
            &&& launch(s).word(5) == Some(f32_index(c))
            &&& launch(s).word(6) == Some(f32_index(dst))
            &&& launch(s).arg(7) == Some(Cmd::U32x4(7, batch, seq, hidden, state_size))
            &&& launch(s).shape == Cmd::Threads(
                one_row((batch * hidden) as u64),
                Group::ExecWidth(Kernel::SelectiveScan, max_u64((batch * hidden) as u64, 1)),
            )
        }),
{
    broadcast use group_launches;

    let s = selective_scan_steps(x, delta, a, b, c, dst, batch, seq, hidden, state_size);
    assert(launches(s).len() == 1);
}

/// State-space scan, one thread per batch item, head and position in the head. The kernel finds
/// each operand and number of the call at its own slot.
pub proof fn lemma_mamba2(
    x: usize,
    dt: usize,
    a: usize,
    b: usize,
    c: usize,
    dst: usize,
    batch: u32,
    seq: u32,
    heads: u32,
    head_dim: u32,
    state_size: u32,
)
    ensures
        ({
            let s = mamba2_steps(x, dt, a, b, c, dst, batch, seq, heads, head_dim, state_size);
            &&& launches_once(s)
            &&& launch(s).kernel() == Some(Kernel::Mamba2)
            &&& launch(s).place(0) == Some((Buf::Arena, 0u64))
            &&& launch(s).word(1) == Some(f32_index(x))
            &&& launch(s).word(2) == Some(f32_index(dt))
            &&& launch(s).word(3) == Some(f32_index(a))
            &&& launch(s).word(4) == Some(f32_index(b))
            &&& launch(s).word(5) == Some(f32_index(c))
            &&& launch(s).word(6) == Some(f32_index(dst))
            &&& launch(s).arg(7) == Some(
                Cmd::U32x4(
                    7,
                    batch,
                    seq,
                    heads,
                    ((head_dim as int % 0x1_0000) * 0x1_0000 + state_size as int % 0x1_0000) as u32,
                ),
            )
            &&& launch(s).shape == Cmd::Threads(
                one_row((batch * heads * head_dim) as u64),
                Group::ExecWidth(Kernel::Mamba2, max_u64((batch * heads * head_dim) as u64, 1)),
            )
        }),
{
    broadcast use group_launches;

    let s = mamba2_steps(x, dt, a, b, c, dst, batch, seq, heads, head_dim, state_size);
    assert(launches(s).len() == 1);
}

/// Where the input weights of one direction of a layer start. A float index.
pub open spec fn input_weights_at(p: Recurrent, layer: int, dir: int) -> int {
    p.w_ih as int / 4 + input_cursor(p, layer) + dir * input_block(p, layer)
}

/// The input weights of a direction are a row of the layer's input per gate and unit. They start at
/// the weights of the stack, and each direction's lie right behind those of the direction before it.
pub proof fn lemma_input_weights_in_order(p: Recurrent, layer: int)
    requires
        0 <= layer,
    ensures
        input_weights_at(p, 0, 0) == p.w_ih as int / 4,
        input_weights_at(p, layer, 1) == input_weights_at(p, layer, 0) + gates(p.cell) * p.hidden
            * in_width(p, layer),
        input_weights_at(p, layer + 1, 0) == input_weights_at(p, layer, directions(p) - 1) + gates(
            p.cell,
        ) * p.hidden * in_width(p, layer),
        in_width(p, 0) == p.input_size,
        layer > 0 && p.bidirectional ==> in_width(p, layer) == 2 * p.hidden,
        layer > 0 && !p.bidirectional ==> in_width(p, layer) == p.hidden,
        gates(Cell::Lstm) == 4 && gates(Cell::Gru) == 3,
        gates(Cell::Rnn(true)) == 1 && gates(Cell::Rnn(false)) == 1,
{
    let b = input_block(p, layer);
    assert(0 * b == 0 && 1 * b == b && 2 * b == b + b) by (nonlinear_arith);
    let z = input_block(p, 0);
    assert(0 * z == 0) by (nonlinear_arith);
    assert(1 * p.hidden == p.hidden);
}

/// A cell's launch: what it reads, where it writes, and the part of the stack that it is.
pub open spec fn runs_cell(l: Launch, p: Recurrent, layer: int, dir: int) -> bool {
    let ld = layer * directions(p) + dir;
    let rows = gates(p.cell) * p.hidden;
    let shape = (p.batch, p.seq, word(in_width(p, layer)), p.hidden);
    let out = word(writes_at(p, layer));
    let carried = word(
        if p.carry {
            p.h0 as int / 4 + ld * p.batch * p.hidden
        } else {
            0
        },
    );
    let more = (carried, word(out_width(p)), word(dir * p.hidden), if dir == 1 {
        1u32
    } else {
        0u32
    });
    &&& l.word(1) == Some(word(reads_at(p, layer)))
    &&& l.word(2) == Some(word(input_weights_at(p, layer, dir)))
    &&& l.word(3) == Some(word(p.w_hh as int / 4 + ld * rows * p.hidden))
    &&& l.word(4) == Some(word(p.bias as int / 4 + ld * rows))
    &&& l.groups() == Some((one_row(p.batch as u64), one_row(p.hidden as u64)))
    &&& match p.cell {
        Cell::Lstm => {
            &&& l.word(5) == Some(out)
            &&& l.arg(6) == Some(Cmd::U32x4(6, shape.0, shape.1, shape.2, shape.3))
            &&& l.arg(7) == Some(Cmd::U32x4(7, more.0, more.1, more.2, more.3))
            &&& l.word(8) == Some(
                word(
                    if p.carry {
                        p.c0 as int / 4 + ld * p.batch * p.hidden
                    } else {
                        0
                    },
                ),
            )
        },
        Cell::Gru => {
            &&& l.word(5) == Some(word(p.bias_hh as int / 4 + ld * rows))
            &&& l.word(6) == Some(out)
            &&& l.arg(7) == Some(Cmd::U32x4(7, shape.0, shape.1, shape.2, shape.3))
            &&& l.arg(8) == Some(Cmd::U32x4(8, more.0, more.1, more.2, more.3))
        },
        Cell::Rnn(relu) => {
            &&& l.word(5) == Some(out)
            &&& l.arg(6) == Some(Cmd::U32x4(6, shape.0, shape.1, shape.2, shape.3))
            &&& l.word(7) == Some(
                if relu {
                    1u32
                } else {
                    0u32
                },
            )
            &&& l.arg(8) == Some(Cmd::U32x4(8, more.0, more.1, more.2, more.3))
        },
    }
}

proof fn lemma_cell(p: Recurrent, layer: int, dir: int)
    ensures
        launches_once(cell_steps(p, layer, dir)),
        runs_cell(launch(cell_steps(p, layer, dir)), p, layer, dir),
{
    broadcast use group_launches;

    match p.cell {
        Cell::Lstm => {
            assert(launches_once(cell_steps(p, layer, dir)));
        },
        Cell::Gru => {
            assert(launches_once(cell_steps(p, layer, dir)));
        },
        Cell::Rnn(relu) => {
            assert(launches_once(cell_steps(p, layer, dir)));
        },
    }
}

proof fn lemma_cell_behind(a: Seq<Cmd>, p: Recurrent, layer: int, dir: int)
    ensures
        runs_cell(behind(a, launch(cell_steps(p, layer, dir))), p, layer, dir),
{
    broadcast use lemma_behind_keeps;

    lemma_cell(p, layer, dir);
}

proof fn lemma_layer(p: Recurrent, layer: int)
    ensures
        launches(layer_steps(p, layer)).len() == directions(p),
        runs_cell(launches(layer_steps(p, layer))[0], p, layer, 0),
        p.bidirectional ==> runs_cell(launches(layer_steps(p, layer))[1], p, layer, 1),
        launches(layer_steps(p, layer))[0] == launch(cell_steps(p, layer, 0)),
        p.bidirectional ==> launches(layer_steps(p, layer))[1] == behind(
            cell_steps(p, layer, 0),
            launch(cell_steps(p, layer, 1)),
        ),
{
    lemma_cell(p, layer, 0);
    if p.bidirectional {
        let a = cell_steps(p, layer, 0);
        let b = cell_steps(p, layer, 1);
        lemma_cell(p, layer, 1);
        lemma_launches_append(a, b);
        lemma_cell_behind(a, p, layer, 1);
        assert(launches(b)[0] == launch(b));
    }
}

proof fn lemma_layers(p: Recurrent, n: int)
    requires
        0 <= n,
    ensures
        launches(layers_steps(p, n)).len() == n * directions(p),
        forall|layer: int, dir: int|
            0 <= layer < n && 0 <= dir < directions(p) ==> #[trigger] runs_cell(
                launches(layers_steps(p, n))[layer * directions(p) + dir],
                p,
                layer,
                dir,
            ),
    decreases n,
{
    let d = directions(p);
    if n > 0 {
        let a = layers_steps(p, n - 1);
        let b = layer_steps(p, n - 1);
        lemma_layers(p, n - 1);
        lemma_layer(p, n - 1);
        lemma_launches_append(a, b);
        assert(n * d == (n - 1) * d + d) by (nonlinear_arith);
        assert(launches(b)[0] == launch(cell_steps(p, n - 1, 0)));
        lemma_cell_behind(a, p, n - 1, 0);
        if p.bidirectional {
            let c = cell_steps(p, n - 1, 0);
            let l = launch(cell_steps(p, n - 1, 1));
            assert(launches(b)[1] == behind(c, l));
            assert(behind(a, behind(c, l)) == behind(a + c, l)) by {
                assert(a + (c + l.before) =~= a + c + l.before);
            }
            lemma_cell_behind(a + c, p, n - 1, 1);
        }
        assert forall|layer: int, dir: int|
            0 <= layer < n && 0 <= dir < d implies #[trigger] runs_cell(
            launches(layers_steps(p, n))[layer * d + dir],
            p,
            layer,
            dir,
        ) by {
            if layer < n - 1 {
                assert(layer * d + d <= (n - 1) * d && 0 <= layer * d) by (nonlinear_arith)
                    requires
                        0 <= layer < n - 1,
                        0 < d,
                ;
                assert(runs_cell(launches(a)[layer * d + dir], p, layer, dir));
                assert(launches(a + b)[layer * d + dir] == launches(a)[layer * d + dir]);
            } else {
                assert(launches(a + b)[(n - 1) * d + dir] == behind(a, launches(b)[dir]));
            }
        }
    } else {
        assert(0 * d == 0);
    }
}

/// A stack launches its cells layer by layer, the forward direction of a layer before the backward
/// one, all with the kernel of the cell; each reads its own weights, bias and carried state, and what
/// the layer before it left.
pub proof fn lemma_stack(p: Recurrent, layer: int, dir: int)
    requires
        0 <= layer < p.num_layers,
        0 <= dir < directions(p),
    ensures
        launches(recurrent_steps(p)).len() == p.num_layers * directions(p),
        runs_cell(launches(recurrent_steps(p))[layer * directions(p) + dir], p, layer, dir),
        launches(recurrent_steps(p))[layer * directions(p) + dir].kernel() == Some(
            match p.cell {
                Cell::Lstm => Kernel::Lstm,
                Cell::Gru => Kernel::Gru,
                Cell::Rnn(_) => Kernel::Rnn,
            },
        ),
        launches(recurrent_steps(p))[layer * directions(p) + dir].place(0) == Some(
            (Buf::Arena, 0u64),
        ),
{
    let d = directions(p);
    let n = p.num_layers as int;
    let head = seq![Cmd::Pipeline(cell_kernel(p.cell)), Cmd::Buffer(0, Buf::Arena, 0)];
    let b = layers_steps(p, n);
    let i = layer * d + dir;
    lemma_layers(p, n);
    lemma_launches_append(head, b);
    assert(layer * d + d <= n * d && 0 <= layer * d) by (nonlinear_arith)
        requires
            0 <= layer < n,
            0 < d,
    ;
    let l = launches(b)[i];
    assert(runs_cell(l, p, layer, dir));
    assert(launches(head).len() == 0) by {
        broadcast use group_launches;

    }
    assert(launches(head + b)[i] == behind(head, l));
    assert(runs_cell(behind(head, l), p, layer, dir)) by {
        broadcast use lemma_behind_keeps;

    }
    lemma_layers_set_nothing(p, n, i);
    lemma_arg_append(head, l.before, 0);
    lemma_selected_append(head, l.before);
    assert(arg(head, 0) == Some(Cmd::Buffer(0, Buf::Arena, 0)) && selected(head) == Some(
        cell_kernel(p.cell),
    )) by {
        broadcast use group_launches;

    }
}

proof fn lemma_cell_sets_nothing(p: Recurrent, layer: int, dir: int)
    ensures
        arg(cell_steps(p, layer, dir), 0) is None,
        selected(cell_steps(p, layer, dir)) is None,
        arg(launch(cell_steps(p, layer, dir)).before, 0) is None,
        selected(launch(cell_steps(p, layer, dir)).before) is None,
{
    broadcast use group_launches;

    match p.cell {
        Cell::Lstm => {
            assert(launches_once(cell_steps(p, layer, dir)));
        },
        Cell::Gru => {
            assert(launches_once(cell_steps(p, layer, dir)));
        },
        Cell::Rnn(relu) => {
            assert(launches_once(cell_steps(p, layer, dir)));
        },
    }
}

proof fn lemma_layers_set_nothing(p: Recurrent, n: int, i: int)
    requires
        0 <= n,
    ensures
        arg(layers_steps(p, n), 0) is None,
        selected(layers_steps(p, n)) is None,
        0 <= i < n * directions(p) ==> arg(launches(layers_steps(p, n))[i].before, 0) is None
            && selected(launches(layers_steps(p, n))[i].before) is None,
    decreases n,
{
    let d = directions(p);
    if n > 0 {
        let a = layers_steps(p, n - 1);
        let b = layer_steps(p, n - 1);
        let c0 = cell_steps(p, n - 1, 0);
        let c1 = cell_steps(p, n - 1, 1);
        lemma_layers(p, n - 1);
        lemma_layer(p, n - 1);
        lemma_layers_set_nothing(p, n - 1, i);
        lemma_cell_sets_nothing(p, n - 1, 0);
        lemma_cell_sets_nothing(p, n - 1, 1);
        lemma_launches_append(a, b);
        assert(n * d == (n - 1) * d + d) by (nonlinear_arith);
        if p.bidirectional {
            lemma_arg_append(c0, c1, 0);
            lemma_selected_append(c0, c1);
        }
        lemma_arg_append(a, b, 0);
        lemma_selected_append(a, b);
        if 0 <= i < (n - 1) * d {
            assert(launches(a + b)[i] == launches(a)[i]);
        } else if (n - 1) * d <= i < n * d {
            let j = i - (n - 1) * d;
            let l = launches(b)[j];
            assert(launches(a + b)[(n - 1) * d + j] == behind(a, l));
            lemma_arg_append(a, l.before, 0);
            lemma_selected_append(a, l.before);
            if j == 1 {
                lemma_arg_append(c0, launch(c1).before, 0);
                lemma_selected_append(c0, launch(c1).before);
            }
        }
    } else {
        assert(0 * d == 0);
    }
}

} // verus!
