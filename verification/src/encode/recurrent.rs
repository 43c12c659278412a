//! Recurrent networks and state-space scans.

use vstd::prelude::*;

use crate::command::{
    bit, emit, f32_index, f32_index_of, flag, low32, low_word, max_u64, most, one_row, plane,
    plane_of, row, Buf, Cmd, Group, Kernel, Size,
};

verus! {

/// Which recurrent cell runs.
#[derive(Clone, Copy, Debug, PartialEq, Eq, Structural)]
pub enum Cell {
    Lstm,
    Gru,
    /// An Elman cell, with ReLU in place of tanh where set.
    Rnn(bool),
}

/// A recurrent layer stack. `bias_hh` is used by GRU only and `c0` by LSTM only; `h0` and `c0`
/// count only where state is carried in. All but the shape are byte offsets into the arena.
#[derive(Clone, Copy, Debug, PartialEq, Eq, Structural)]
pub struct Recurrent {
    pub cell: Cell,
    pub scratch: usize,
    pub x: usize,
    pub w_ih: usize,
    pub w_hh: usize,
    pub bias: usize,
    pub bias_hh: usize,
    pub h0: usize,
    pub c0: usize,
    pub dst: usize,
    pub batch: u32,
    pub seq: u32,
    pub input_size: u32,
    pub hidden: u32,
    pub num_layers: u32,
    pub bidirectional: bool,
    pub carry: bool,
}

/// Gates of a cell.
pub open spec fn gates(c: Cell) -> int {
    match c {
        Cell::Lstm => 4,
        Cell::Gru => 3,
        Cell::Rnn(_) => 1,
    }
}

pub open spec fn directions(p: Recurrent) -> int {
    if p.bidirectional {
        2
    } else {
        1
    }
}

/// Width of a layer's output.
pub open spec fn out_width(p: Recurrent) -> int {
    directions(p) * p.hidden
}

/// Floats of a layer's output.
pub open spec fn layer_elems(p: Recurrent) -> int {
    p.batch * p.seq * out_width(p)
}

/// Width of a layer's input.
pub open spec fn in_width(p: Recurrent, layer: int) -> int {
    if layer == 0 {
        p.input_size as int
    } else {
        out_width(p)
    }
}

/// Floats of the input weights of one direction of a layer.
pub open spec fn input_block(p: Recurrent, layer: int) -> int {
    gates(p.cell) * p.hidden * in_width(p, layer)
}

/// Floats of the input weights of all earlier layers.
pub open spec fn input_cursor(p: Recurrent, layer: int) -> int
    decreases layer,
{
    if layer <= 0 {
        0
    } else {
        input_cursor(p, layer - 1) + directions(p) * input_block(p, layer - 1)
    }
}

/// Where a layer writes: the last into the destination, the others into the two halves of
/// scratch in turn. A float index.
pub open spec fn writes_at(p: Recurrent, layer: int) -> int {
    if layer + 1 == p.num_layers {
        p.dst as int / 4
    } else {
        p.scratch as int / 4 + (layer % 2) * layer_elems(p)
    }
}

/// Where a layer reads.
pub open spec fn reads_at(p: Recurrent, layer: int) -> int {
    if layer == 0 {
        p.x as int / 4
    } else {
        p.scratch as int / 4 + ((layer - 1) % 2) * layer_elems(p)
    }
}

/// The low 32 bits of a float index.
pub open spec fn word(i: int) -> u32 {
    low_word(i as u64)
}

/// Where the state that is carried in starts for a layer and direction; zero without carry.
pub open spec fn state_at(p: Recurrent, base: usize, ld: int) -> int {
    if p.carry {
        base as int / 4 + ld * p.batch * p.hidden
    } else {
        0
    }
}

/// One layer in one direction.
pub open spec fn cell_steps(p: Recurrent, layer: int, dir: int) -> Seq<Cmd> {
    let ld = layer * directions(p) + dir;
    let g = gates(p.cell);
    let input = Cmd::U32(1, word(reads_at(p, layer)));
    let w_ih = Cmd::U32(
        2,
        word(p.w_ih as int / 4 + input_cursor(p, layer) + dir * input_block(p, layer)),
    );
    let w_hh = Cmd::U32(3, word(p.w_hh as int / 4 + ld * (g * p.hidden) * p.hidden));
    let bias = Cmd::U32(4, word(p.bias as int / 4 + ld * (g * p.hidden)));
    let shape = |slot: u64| Cmd::U32x4(
        slot,
        p.batch,
        p.seq,
        word(in_width(p, layer)),
        p.hidden,
    );
    let more = |slot: u64| Cmd::U32x4(
        slot,
        word(state_at(p, p.h0, ld)),
        word(out_width(p)),
        word(dir * p.hidden),
        bit(dir == 1),
    );
    let launch = Cmd::Groups(one_row(p.batch as u64), one_row(p.hidden as u64));
    match p.cell {
        Cell::Lstm => seq![
            input,
            w_ih,
            w_hh,
            bias,
            Cmd::U32(5, word(writes_at(p, layer))),
            shape(6),
            more(7),
            Cmd::U32(8, word(state_at(p, p.c0, ld))),
            launch,
        ],
        Cell::Gru => seq![
            input,
            w_ih,
            w_hh,
            bias,
            Cmd::U32(5, word(p.bias_hh as int / 4 + ld * (g * p.hidden))),
            Cmd::U32(6, word(writes_at(p, layer))),
            shape(7),
            more(8),
            launch,
        ],
        Cell::Rnn(relu) => seq![
            input,
            w_ih,
            w_hh,
            bias,
            Cmd::U32(5, word(writes_at(p, layer))),
            shape(6),
            Cmd::U32(7, bit(relu)),
            more(8),
            launch,
        ],
    }
}

pub open spec fn cell_kernel(c: Cell) -> Kernel {
    match c {
        Cell::Lstm => Kernel::Lstm,
        Cell::Gru => Kernel::Gru,
        Cell::Rnn(_) => Kernel::Rnn,
    }
}

/// A layer in every direction.
pub open spec fn layer_steps(p: Recurrent, layer: int) -> Seq<Cmd> {
    if p.bidirectional {
        cell_steps(p, layer, 0) + cell_steps(p, layer, 1)
    } else {
        cell_steps(p, layer, 0)
    }
}

/// The first `n` layers.
pub open spec fn layers_steps(p: Recurrent, n: int) -> Seq<Cmd>
    decreases n,
{
    if n <= 0 {
        Seq::<Cmd>::empty()
    } else {
        layers_steps(p, n - 1) + layer_steps(p, n - 1)
    }
}

/// The whole stack.
pub open spec fn recurrent_steps(p: Recurrent) -> Seq<Cmd> {
    seq![Cmd::Pipeline(cell_kernel(p.cell)), Cmd::Buffer(0, Buf::Arena, 0)] + layers_steps(
        p,
        p.num_layers as int,
    )
}

/// Every index that is formed stays within the address space.
pub open spec fn recurrent_fits(p: Recurrent) -> bool {
    let ld = p.num_layers * directions(p);
    let gh = gates(p.cell) * p.hidden;
    &&& gh <= usize::MAX
    &&& out_width(p) <= usize::MAX
    &&& p.batch * p.seq <= usize::MAX
    &&& layer_elems(p) <= usize::MAX
    &&& p.scratch as int / 4 + layer_elems(p) <= usize::MAX
    &&& ld <= usize::MAX
    &&& p.w_ih as int / 4 + input_cursor(p, p.num_layers as int) <= usize::MAX
    &&& p.w_hh as int / 4 + ld * gh * p.hidden <= usize::MAX
    &&& ld * gh <= usize::MAX
    &&& p.bias as int / 4 + ld * gh <= usize::MAX
    &&& p.cell == Cell::Gru ==> p.bias_hh as int / 4 + ld * gh <= usize::MAX
    &&& p.carry ==> p.h0 as int / 4 + ld * p.batch * p.hidden <= usize::MAX && ld * p.batch
        <= usize::MAX
    &&& p.carry && p.cell == Cell::Lstm ==> p.c0 as int / 4 + ld * p.batch * p.hidden <= usize::MAX
}

proof fn lemma_cursor_monotone(p: Recurrent, a: int, b: int)
    requires
        0 <= a <= b,
    ensures
        0 <= input_block(p, a),
        0 <= input_cursor(p, a) <= input_cursor(p, b),
    decreases b,
{
    lemma_block_nonnegative(p, a);
    if b > 0 {
        lemma_block_nonnegative(p, b - 1);
        if a < b {
            lemma_cursor_monotone(p, a, b - 1);
        } else {
            lemma_cursor_monotone(p, a - 1, b - 1);
        }
    }
}

proof fn lemma_block_nonnegative(p: Recurrent, layer: int)
    requires
        0 <= layer,
    ensures
        0 <= out_width(p),
        0 <= input_block(p, layer),
{
    let g = gates(p.cell);
    let h = p.hidden as int;
    let w = in_width(p, layer);
    assert(0 <= g * h) by (nonlinear_arith)
        requires
            0 <= g,
            0 <= h,
    ;
    let gh = g * h;
    assert(0 <= gh * w) by (nonlinear_arith)
        requires
            0 <= gh,
            0 <= w,
    ;
}

proof fn lemma_scaled_bound(i: int, n: int, unit: int)
    requires
        0 <= i <= n,
        0 <= unit,
    ensures
        0 <= i * unit <= n * unit,
{
    assert(0 <= i * unit <= n * unit) by (nonlinear_arith)
        requires
            0 <= i <= n,
            0 <= unit,
    ;
}

fn encode_cell(
    enc: &mut Vec<Cmd>,
    p: Recurrent,
    layer: usize,
    dir: usize,
    cursor: usize,
    in_off_w: usize,
    out_off_w: usize,
)
    requires
        recurrent_fits(p),
        layer < p.num_layers,
        dir < directions(p),
        cursor == input_cursor(p, layer as int),
        in_off_w == reads_at(p, layer as int),
        out_off_w == writes_at(p, layer as int),
    ensures
        final(enc)@ == old(enc)@ + cell_steps(p, layer as int, dir as int),
{
    let dirs: usize = if p.bidirectional {
        2
    } else {
        1
    };
    let g: usize = match p.cell {
        Cell::Lstm => 4,
        Cell::Gru => 3,
        Cell::Rnn(_) => 1,
    };
    let h: usize = p.hidden as usize;
    let gh: usize = g * h;
    let width: usize = dirs * h;
    let in_l: usize = if layer == 0 {
        p.input_size as usize
    } else {
        width
    };
    proof {
        let n = p.num_layers * directions(p);
        let l = layer as int;
        assert(l * dirs + dir < n) by (nonlinear_arith)
            requires
                l < p.num_layers,
                dir < dirs,
                n == p.num_layers * dirs,
        ;
        assert(0 <= l * dirs) by (nonlinear_arith)
            requires
                0 <= l,
                0 <= dirs,
        ;
        lemma_cursor_monotone(p, l + 1, p.num_layers as int);
        lemma_cursor_monotone(p, l, l + 1);
        lemma_block_nonnegative(p, l);
        lemma_scaled_bound(dir as int, dirs as int - 1, input_block(p, l));
        lemma_scaled_bound(1, dirs as int, input_block(p, l));
        lemma_scaled_bound(l * dirs + dir, n, gh as int);
        let a = (l * dirs + dir) * gh;
        lemma_scaled_bound(a, n * gh, h as int);
        lemma_scaled_bound(l * dirs + dir, n, p.batch as int);
        let b = (l * dirs + dir) * p.batch;
        lemma_scaled_bound(b, n * p.batch, h as int);
        lemma_scaled_bound(dir as int, dirs as int, h as int);
        assert(dirs as int * input_block(p, l) == (dirs as int - 1) * input_block(p, l)
            + input_block(p, l)) by (nonlinear_arith);
    }
    let wih_block: usize = gh * in_l;
    let ld: usize = layer * dirs + dir;
    let w_ih: usize = p.w_ih / 4 + cursor + dir * wih_block;
    let w_hh: usize = p.w_hh / 4 + ld * gh * h;
    let bias: usize = p.bias / 4 + ld * gh;
    let h0_off: usize = if p.carry {
        p.h0 / 4 + ld * (p.batch as usize) * h
    } else {
        0
    };
    let input: Cmd = Cmd::U32(1, low32(in_off_w as u64));
    let weights: Cmd = Cmd::U32(2, low32(w_ih as u64));
    let recurrent: Cmd = Cmd::U32(3, low32(w_hh as u64));
    let biases: Cmd = Cmd::U32(4, low32(bias as u64));
    let out: u32 = low32(out_off_w as u64);
    let in_word: u32 = low32(in_l as u64);
    let h0_word: u32 = low32(h0_off as u64);
    let width_word: u32 = low32(width as u64);
    let side: u32 = low32((dir * h) as u64);
    let launch: Cmd = Cmd::Groups(row(p.batch as u64), row(p.hidden as u64));
    match p.cell {
        Cell::Lstm => {
            let c0_off: usize = if p.carry {
                p.c0 / 4 + ld * (p.batch as usize) * h
            } else {
                0
            };
            emit(
                enc,
                vec![
                    input,
                    weights,
                    recurrent,
                    biases,
                    Cmd::U32(5, out),
                    Cmd::U32x4(6, p.batch, p.seq, in_word, p.hidden),
                    Cmd::U32x4(7, h0_word, width_word, side, flag(dir == 1)),
                    Cmd::U32(8, low32(c0_off as u64)),
                    launch,
                ],
            );
        },
        Cell::Gru => {
            let bias_hh: usize = p.bias_hh / 4 + ld * gh;
            emit(
                enc,
                vec![
                    input,
                    weights,
                    recurrent,
                    biases,
                    Cmd::U32(5, low32(bias_hh as u64)),
                    Cmd::U32(6, out),
                    Cmd::U32x4(7, p.batch, p.seq, in_word, p.hidden),
                    Cmd::U32x4(8, h0_word, width_word, side, flag(dir == 1)),
                    launch,
                ],
            );
        },
        Cell::Rnn(relu) => {
            emit(
                enc,
                vec![
                    input,
                    weights,
                    recurrent,
                    biases,
                    Cmd::U32(5, out),
                    Cmd::U32x4(6, p.batch, p.seq, in_word, p.hidden),
                    Cmd::U32(7, flag(relu)),
                    Cmd::U32x4(8, h0_word, width_word, side, flag(dir == 1)),
                    launch,
                ],
            );
        },
    }
}

/// The half of scratch that a layer writes, and the half that it reads.
fn scratch_index(p: Recurrent, upper: bool, elems: usize) -> (r: usize)
    requires
        elems == layer_elems(p),
        p.scratch as int / 4 + elems <= usize::MAX,
    ensures
        r == p.scratch as int / 4 + (if upper {
            1int
        } else {
            0int
        }) * layer_elems(p),
{
    assert(0 * layer_elems(p) == 0 && 1 * layer_elems(p) == layer_elems(p)) by (nonlinear_arith);
    if upper {
        p.scratch / 4 + elems
    } else {
        p.scratch / 4
    }
}

fn encode_layer(enc: &mut Vec<Cmd>, p: Recurrent, l: usize, cursor: usize, elems: usize)
    requires
        recurrent_fits(p),
        l < p.num_layers,
        elems == layer_elems(p),
        cursor == input_cursor(p, l as int),
    ensures
        final(enc)@ == old(enc)@ + layer_steps(p, l as int),
{
    let in_off_w: usize = if l == 0 {
        p.x / 4
    } else {
        scratch_index(p, l % 2 == 0, elems)
    };
    let out_off_w: usize = if l + 1 == p.num_layers as usize {
        p.dst / 4
    } else {
        scratch_index(p, l % 2 == 1, elems)
    };
    encode_cell(enc, p, l, 0, cursor, in_off_w, out_off_w);
    if p.bidirectional {
        encode_cell(enc, p, l, 1, cursor, in_off_w, out_off_w);
    }
}

fn next_cursor(p: Recurrent, l: usize, cursor: usize) -> (r: usize)
    requires
        recurrent_fits(p),
        l < p.num_layers,
        cursor == input_cursor(p, l as int),
    ensures
        r == input_cursor(p, l + 1),
{
    let dirs: usize = if p.bidirectional {
        2
    } else {
        1
    };
    let g: usize = match p.cell {
        Cell::Lstm => 4,
        Cell::Gru => 3,
        Cell::Rnn(_) => 1,
    };
    let h: usize = p.hidden as usize;
    let in_l: usize = if l == 0 {
        p.input_size as usize
    } else {
        dirs * h
    };
    proof {
        lemma_cursor_monotone(p, l + 1, p.num_layers as int);
        lemma_cursor_monotone(p, l as int, l + 1);
        lemma_block_nonnegative(p, l as int);
        lemma_scaled_bound(1, dirs as int, input_block(p, l as int));
    }
    let block: usize = g * h * in_l;
    cursor + dirs * block
}

fn count_layer_elems(p: Recurrent) -> (r: usize)
    requires
        recurrent_fits(p),
    ensures
        r == layer_elems(p),
{
    let dirs: usize = if p.bidirectional {
        2
    } else {
        1
    };
    let width: usize = dirs * (p.hidden as usize);
    proof {
        lemma_block_nonnegative(p, 0);
        let bs = p.batch * p.seq;
        assert(0 <= bs) by (nonlinear_arith)
            requires
                bs == p.batch * p.seq,
        ;
    }
    (p.batch as usize) * (p.seq as usize) * width
}

/// Encodes a recurrent stack, layer by layer and direction by direction.
pub fn encode_recurrent(enc: &mut Vec<Cmd>, p: Recurrent)
    requires
        recurrent_fits(p),
    ensures
        final(enc)@ == old(enc)@ + recurrent_steps(p),
{
    let ghost before = enc@;
    let kernel: Kernel = match p.cell {
        Cell::Lstm => Kernel::Lstm,
        Cell::Gru => Kernel::Gru,
        Cell::Rnn(_) => Kernel::Rnn,
    };
    emit(enc, vec![Cmd::Pipeline(kernel), Cmd::Buffer(0, Buf::Arena, 0)]);
    let ghost start = enc@;
    let elems: usize = count_layer_elems(p);
    let layers: usize = p.num_layers as usize;
    let mut cursor: usize = 0;
    let mut l: usize = 0;
    while l < layers
        invariant
            l <= layers,
            layers == p.num_layers,
            recurrent_fits(p),
            elems == layer_elems(p),
            cursor == input_cursor(p, l as int),
            enc@ == start + layers_steps(p, l as int),
        decreases layers - l,
    {
        encode_layer(enc, p, l, cursor, elems);
        cursor = next_cursor(p, l, cursor);
        l = l + 1;
        assert(enc@ =~= start + layers_steps(p, l as int));
    }
    assert(enc@ =~= before + recurrent_steps(p));
}

/// A layer reads what the layer before it wrote.
pub proof fn lemma_layer_reads_previous(p: Recurrent, layer: int)
    requires
        0 < layer < p.num_layers,
    ensures
        reads_at(p, layer) == writes_at(p, layer - 1),
{
}

/// No layer but the first and the last touches its own input while it writes: the two halves of
/// scratch are a layer's output apart.
pub proof fn lemma_layer_never_overwrites_input(p: Recurrent, layer: int)
    requires
        0 < layer < p.num_layers - 1,
        layer_elems(p) > 0,
    ensures
        reads_at(p, layer) + layer_elems(p) <= writes_at(p, layer) || writes_at(p, layer)
            + layer_elems(p) <= reads_at(p, layer),
{
    let n = layer_elems(p);
    assert(0 * n == 0 && 1 * n == n) by (nonlinear_arith);
    if layer % 2 == 0 {
        assert((layer - 1) % 2 == 1);
    } else {
        assert((layer - 1) % 2 == 0);
    }
}

/// LSTM with one bias per gate, and hidden and cell state carried in where `carry`.
pub fn encode_lstm(
    enc: &mut Vec<Cmd>,
    scratch: usize,
    x: usize,
    w_ih: usize,
    w_hh: usize,
    bias: usize,
    h0: usize,
    c0: usize,
    dst: usize,
    batch: u32,
    seq: u32,
    input_size: u32,
    hidden: u32,
    num_layers: u32,
    bidirectional: bool,
    carry: bool,
)
    requires
        recurrent_fits(Recurrent {
            cell: Cell::Lstm,
            scratch,
            x,
            w_ih,
            w_hh,
            bias,
            bias_hh: 0,
            h0,
            c0,
            dst,
            batch,
            seq,
            input_size,
            hidden,
            num_layers,
            bidirectional,
            carry,
        }),
    ensures
        final(enc)@ == old(enc)@ + recurrent_steps(Recurrent {
            cell: Cell::Lstm,
            scratch,
            x,
            w_ih,
            w_hh,
            bias,
            bias_hh: 0,
            h0,
            c0,
            dst,
            batch,
            seq,
            input_size,
            hidden,
            num_layers,
            bidirectional,
            carry,
        }),
{
    let p: Recurrent = Recurrent {
        cell: Cell::Lstm,
        scratch,
        x,
        w_ih,
        w_hh,
        bias,
        bias_hh: 0,
        h0,
        c0,
        dst,
        batch,
        seq,
        input_size,
        hidden,
        num_layers,
        bidirectional,
        carry,
    };
    encode_recurrent(enc, p);
}

/// GRU with separate biases for input and state.
pub fn encode_gru(
    enc: &mut Vec<Cmd>,
    scratch: usize,
    x: usize,
    w_ih: usize,
    w_hh: usize,
    b_ih: usize,
    b_hh: usize,
    h0: usize,
    dst: usize,
    batch: u32,
    seq: u32,
    input_size: u32,
    hidden: u32,
    num_layers: u32,
    bidirectional: bool,
    carry: bool,
)
    requires
        recurrent_fits(Recurrent {
            cell: Cell::Gru,
            scratch,
            x,
            w_ih,
            w_hh,
            bias: b_ih,
            bias_hh: b_hh,
            h0,
            c0: 0,
            dst,
            batch,
            seq,
            input_size,
            hidden,
            num_layers,
            bidirectional,
            carry,
        }),
    ensures
        final(enc)@ == old(enc)@ + recurrent_steps(Recurrent {
            cell: Cell::Gru,
            scratch,
            x,
            w_ih,
            w_hh,
            bias: b_ih,
            bias_hh: b_hh,
            h0,
            c0: 0,
            dst,
            batch,
            seq,
            input_size,
            hidden,
            num_layers,
            bidirectional,
            carry,
        }),
{
    let p: Recurrent = Recurrent {
        cell: Cell::Gru,
        scratch,
        x,
        w_ih,
        w_hh,
        bias: b_ih,
        bias_hh: b_hh,
        h0,
        c0: 0,
        dst,
        batch,
        seq,
        input_size,
        hidden,
        num_layers,
        bidirectional,
        carry,
    };
    encode_recurrent(enc, p);
}

/// Elman network with ReLU or tanh.
pub fn encode_rnn(
    enc: &mut Vec<Cmd>,
    scratch: usize,
    x: usize,
    w_ih: usize,
    w_hh: usize,
    bias: usize,
    h0: usize,
    dst: usize,
    batch: u32,
    seq: u32,
    input_size: u32,
    hidden: u32,
    num_layers: u32,
    bidirectional: bool,
    carry: bool,
    relu: bool,
)
    requires
        recurrent_fits(Recurrent {
            cell: Cell::Rnn(relu),
            scratch,
            x,
            w_ih,
            w_hh,
            bias,
            bias_hh: 0,
            h0,
            c0: 0,
            dst,
            batch,
            seq,
            input_size,
            hidden,
            num_layers,
            bidirectional,
            carry,
        }),
    ensures
        final(enc)@ == old(enc)@ + recurrent_steps(Recurrent {
            cell: Cell::Rnn(relu),
            scratch,
            x,
            w_ih,
            w_hh,
            bias,
            bias_hh: 0,
            h0,
            c0: 0,
            dst,
            batch,
            seq,
            input_size,
            hidden,
            num_layers,
            bidirectional,
            carry,
        }),
{
    let p: Recurrent = Recurrent {
        cell: Cell::Rnn(relu),
        scratch,
        x,
        w_ih,
        w_hh,
        bias,
        bias_hh: 0,
        h0,
        c0: 0,
        dst,
        batch,
        seq,
        input_size,
        hidden,
        num_layers,
        bidirectional,
        carry,
    };
    encode_recurrent(enc, p);
}

/// The steps of `encode_gated_delta_net`.
pub open spec fn gated_delta_net_steps(
    q: usize,
    k_off: usize,
    v: usize,
    g: usize,
    beta: usize,
    state: usize,
    dst: usize,
    batch: u32,
    seq: u32,
    heads: u32,
    state_size: u32,
    use_carry: bool,
    gate_per_channel: bool,
    simd_disabled: bool,
) -> Seq<Cmd> {
    seq![
        Cmd::Pipeline(
            if state_size == 128 && !simd_disabled {
                Kernel::GatedDeltaNetSg
            } else {
                Kernel::GatedDeltaNet
            },
        ),
        Cmd::Buffer(0, Buf::Arena, 0),
        Cmd::U64(1, (q / 4) as u64),
        Cmd::U64(2, (k_off / 4) as u64),
        Cmd::U64(3, (v / 4) as u64),
        Cmd::U64(4, (g / 4) as u64),
        Cmd::U64(5, (beta / 4) as u64),
        Cmd::U64(6, (state / 4) as u64),
        Cmd::U64(7, (dst / 4) as u64),
        Cmd::U32x4(8, batch, seq, heads, state_size),
        Cmd::U32(9, bit(use_carry)),
        Cmd::U32(10, bit(gate_per_channel)),
    ] + (if state_size == 128 && !simd_disabled {
        seq![
            Cmd::Groups(
                Size { width: 32, height: heads as u64, depth: batch as u64 },
                plane(32, 4),
            ),
        ]
    } else {
        seq![
            Cmd::Threads(
                one_row(max_u64((batch * heads) as u64, 1)),
                Group::ExecWidth(Kernel::GatedDeltaNet, max_u64((batch * heads) as u64, 1)),
            ),
        ]
    })
}

/// Gated delta rule. States of width 128 have one simdgroup per column; others one thread per batch
/// item and head.
pub fn encode_gated_delta_net(
    enc: &mut Vec<Cmd>,
    q: usize,
    k_off: usize,
    v: usize,
    g: usize,
    beta: usize,
    state: usize,
    dst: usize,
    batch: u32,
    seq: u32,
    heads: u32,
    state_size: u32,
    use_carry: bool,
    gate_per_channel: bool,
    simd_disabled: bool,
)
    requires
        !(state_size == 128 && !simd_disabled) ==> batch * heads <= u32::MAX,
    ensures
        final(enc)@ == old(enc)@ + gated_delta_net_steps(
            q,
            k_off,
            v,
            g,
            beta,
            state,
            dst,
            batch,
            seq,
            heads,
            state_size,
            use_carry,
            gate_per_channel,
            simd_disabled,
        ),
{
    emit(
        enc,
        vec![
            Cmd::Pipeline(
                if state_size == 128 && !simd_disabled {
                    Kernel::GatedDeltaNetSg
                } else {
                    Kernel::GatedDeltaNet
                },
            ),
            Cmd::Buffer(0, Buf::Arena, 0),
            Cmd::U64(1, (q / 4) as u64),
            Cmd::U64(2, (k_off / 4) as u64),
            Cmd::U64(3, (v / 4) as u64),
            Cmd::U64(4, (g / 4) as u64),
            Cmd::U64(5, (beta / 4) as u64),
            Cmd::U64(6, (state / 4) as u64),
            Cmd::U64(7, (dst / 4) as u64),
            Cmd::U32x4(8, batch, seq, heads, state_size),
            Cmd::U32(9, flag(use_carry)),
            Cmd::U32(10, flag(gate_per_channel)),
        ],
    );
    if state_size == 128 && !simd_disabled {
        emit(
            enc,
            vec![
                Cmd::Groups(
                    Size { width: 32, height: heads as u64, depth: batch as u64 },
                    plane_of(32, 4),
                ),
            ],
        );
    } else {
        emit(
            enc,
            vec![
                Cmd::Threads(
                    row(most((batch * heads) as u64, 1)),
                    Group::ExecWidth(Kernel::GatedDeltaNet, most((batch * heads) as u64, 1)),
                ),
            ],
        );
    }
}

/// The steps of `encode_selective_scan`.
pub open spec fn selective_scan_steps(
    x: usize,
    delta: usize,
    a: usize,
    b: usize,
    c: usize,
    dst: usize,
    batch: u32,
    seq: u32,
    hidden: u32,
    state_size: u32,
) -> Seq<Cmd> {
    seq![
        Cmd::Pipeline(Kernel::SelectiveScan),
        Cmd::Buffer(0, Buf::Arena, 0),
        Cmd::U32(1, f32_index(x)),
        Cmd::U32(2, f32_index(delta)),
        Cmd::U32(3, f32_index(a)),
        Cmd::U32(4, f32_index(b)),
        Cmd::U32(5, f32_index(c)),
        Cmd::U32(6, f32_index(dst)),
        Cmd::U32x4(7, batch, seq, hidden, state_size),
        Cmd::Threads(
            one_row((batch * hidden) as u64),
            Group::ExecWidth(Kernel::SelectiveScan, max_u64((batch * hidden) as u64, 1)),
        ),
    ]
}

/// Selective scan, one thread per batch item and channel.
pub fn encode_selective_scan(
    enc: &mut Vec<Cmd>,
    x: usize,
    delta: usize,
    a: usize,
    b: usize,
    c: usize,
    dst: usize,
    batch: u32,
    seq: u32,
    hidden: u32,
    state_size: u32,
)
    requires
        batch * hidden <= u32::MAX,
    ensures
        final(enc)@ == old(enc)@ + selective_scan_steps(
            x,
            delta,
            a,
            b,
            c,
            dst,
            batch,
            seq,
            hidden,
            state_size,
        ),
{
    emit(
        enc,
        vec![
            Cmd::Pipeline(Kernel::SelectiveScan),
            Cmd::Buffer(0, Buf::Arena, 0),
            Cmd::U32(1, f32_index_of(x)),
            Cmd::U32(2, f32_index_of(delta)),
            Cmd::U32(3, f32_index_of(a)),
            Cmd::U32(4, f32_index_of(b)),
            Cmd::U32(5, f32_index_of(c)),
            Cmd::U32(6, f32_index_of(dst)),
            Cmd::U32x4(7, batch, seq, hidden, state_size),
            Cmd::Threads(
                row((batch * hidden) as u64),
                Group::ExecWidth(Kernel::SelectiveScan, most((batch * hidden) as u64, 1)),
            ),
        ],
    );
}

/// The steps of `encode_mamba2`.
pub open spec fn mamba2_steps(
    x: usize,
    dt: usize,
    a: usize,
    b: usize,
    c: usize,
    dst: usize,
    batch: u32,
    seq: u32,
    heads: u32,
    head_dim: u32,
    state_size: u32,
) -> Seq<Cmd> {
    seq![
        Cmd::Pipeline(Kernel::Mamba2),
        Cmd::Buffer(0, Buf::Arena, 0),
        Cmd::U32(1, f32_index(x)),
        Cmd::U32(2, f32_index(dt)),
        Cmd::U32(3, f32_index(a)),
        Cmd::U32(4, f32_index(b)),
        Cmd::U32(5, f32_index(c)),
        Cmd::U32(6, f32_index(dst)),
        Cmd::U32x4(
            7,
            batch,
            seq,
            heads,
            ((head_dim as int % 0x1_0000) * 0x1_0000 + state_size as int % 0x1_0000) as u32,
        ),
        Cmd::Threads(
            one_row((batch * heads * head_dim) as u64),
            Group::ExecWidth(Kernel::Mamba2, max_u64((batch * heads * head_dim) as u64, 1)),
        ),
    ]
}

/// State-space scan, one thread per batch item, head and position in the head. Head width and state
/// size share a word.
pub fn encode_mamba2(
    enc: &mut Vec<Cmd>,
    x: usize,
    dt: usize,
    a: usize,
    b: usize,
    c: usize,
    dst: usize,
    batch: u32,
    seq: u32,
    heads: u32,
    head_dim: u32,
    state_size: u32,
)
    requires
        batch * heads <= u32::MAX,
        batch * heads * head_dim <= u32::MAX,
    ensures
        final(enc)@ == old(enc)@ + mamba2_steps(
            x,
            dt,
            a,
            b,
            c,
            dst,
            batch,
            seq,
            heads,
            head_dim,
            state_size,
        ),
{
    emit(
        enc,
        vec![
            Cmd::Pipeline(Kernel::Mamba2),
            Cmd::Buffer(0, Buf::Arena, 0),
            Cmd::U32(1, f32_index_of(x)),
            Cmd::U32(2, f32_index_of(dt)),
            Cmd::U32(3, f32_index_of(a)),
            Cmd::U32(4, f32_index_of(b)),
            Cmd::U32(5, f32_index_of(c)),
            Cmd::U32(6, f32_index_of(dst)),
            Cmd::U32x4(
                7,
                batch,
                seq,
                heads,
                (head_dim % 0x1_0000) * 0x1_0000 + state_size % 0x1_0000,
            ),
            Cmd::Threads(
                row((batch * heads * head_dim) as u64),
                Group::ExecWidth(Kernel::Mamba2, most((batch * heads * head_dim) as u64, 1)),
            ),
        ],
    );
}

} // verus!
