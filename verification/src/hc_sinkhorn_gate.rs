//! A gate that balances a small matrix by Sinkhorn's iteration, one thread for each row.

use vstd::prelude::*;

use crate::command::{emit, most, one_row, row, Buf, Cmd, Group, Kernel};
use crate::run::{number_at, read_number};

verus! {

pub const OP_NAME: &'static str = "dsv4.hc_sinkhorn_gate";

/// Why a gate cannot be encoded.
#[derive(Clone, Copy, Debug, PartialEq, Eq, Structural)]
pub enum GateError {
    /// The attributes do not hold two numbers and a float.
    ShortAttrs,
}

impl GateError {
    pub open spec fn text(self) -> Seq<char> {
        "hc_sinkhorn_gate: attrs must be [hc:u32, iters:u32, eps:f32]"@
    }

    pub fn message(self) -> (r: String)
        ensures
            r@ == self.text(),
    {
        "hc_sinkhorn_gate: attrs must be [hc:u32, iters:u32, eps:f32]".to_owned()
    }
}

/// The columns of a gate of this width: two vectors and a square matrix.
pub open spec fn gate_columns(hc: nat) -> nat {
    2 * hc + hc * hc
}

/// The rows of a gate's output.
pub open spec fn gate_rows(hc: nat, out_len: u32) -> u32 {
    if gate_columns(hc) == 0 {
        out_len
    } else {
        (out_len as nat / gate_columns(hc)) as u32
    }
}

/// The commands of a gate. `inputs` are the byte offsets of the mixes, the scales and the biases.
pub open spec fn gate_steps(
    attrs: Seq<u8>,
    inputs: Seq<usize>,
    out_off: usize,
    out_len: u32,
) -> Seq<Cmd> {
    let hc = number_at(attrs, 0, 4);
    let rows = gate_rows(hc, out_len);
    seq![
        Cmd::Pipeline(Kernel::HcSinkhornGate),
        Cmd::Buffer(0, Buf::Arena, inputs[0] as u64),
        Cmd::Buffer(1, Buf::Arena, inputs[1] as u64),
        Cmd::Buffer(2, Buf::Arena, inputs[2] as u64),
        Cmd::Buffer(3, Buf::Arena, out_off as u64),
        Cmd::U32(4, rows),
        Cmd::U32(5, hc as u32),
        Cmd::U32(6, number_at(attrs, 4, 4) as u32),
        Cmd::U32(7, number_at(attrs, 8, 4) as u32),
        Cmd::Threads(
            one_row(rows as u64),
            Group::ExecWidth(Kernel::HcSinkhornGate, if rows == 0 {
                1
            } else {
                rows as u64
            }),
        ),
    ]
}

/// Encodes a gate. The attributes hold its width, the number of iterations and a small float, each
/// in four bytes, the lowest first.
pub fn encode(
    enc: &mut Vec<Cmd>,
    attrs: &[u8],
    inputs: &[usize],
    out_off: usize,
    out_len: u32,
) -> (r: Result<(), GateError>)
    requires
        inputs@.len() >= 3,
        attrs@.len() >= 12 ==> gate_columns(number_at(attrs@, 0, 4)) <= u32::MAX,
    ensures
        attrs@.len() < 12 ==> r == Err::<(), GateError>(GateError::ShortAttrs) && final(enc)@
            == old(enc)@,
        attrs@.len() >= 12 ==> r is Ok && final(enc)@ == old(enc)@ + gate_steps(
            attrs@,
            inputs@,
            out_off,
            out_len,
        ),
{
    if attrs.len() < 12 {
        return Err(GateError::ShortAttrs);
    }
    let hc: u32 = read_number(attrs, 0, 4) as u32;
    let iters: u32 = read_number(attrs, 4, 4) as u32;
    let eps: u32 = read_number(attrs, 8, 4) as u32;
    assert(0 <= hc * hc) by (nonlinear_arith);
    let mh: u32 = 2 * hc + hc * hc;
    let rows: u32 = out_len / (if mh == 0 {
        1
    } else {
        mh
    });
    let steps: Vec<Cmd> = vec![
        Cmd::Pipeline(Kernel::HcSinkhornGate),
        Cmd::Buffer(0, Buf::Arena, inputs[0] as u64),
        Cmd::Buffer(1, Buf::Arena, inputs[1] as u64),
        Cmd::Buffer(2, Buf::Arena, inputs[2] as u64),
        Cmd::Buffer(3, Buf::Arena, out_off as u64),
        Cmd::U32(4, rows),
        Cmd::U32(5, hc),
        Cmd::U32(6, iters),
        Cmd::U32(7, eps),
        Cmd::Threads(
            row(rows as u64),
            Group::ExecWidth(Kernel::HcSinkhornGate, most(rows as u64, 1)),
        ),
    ];
    assert(steps@ =~= gate_steps(attrs@, inputs@, out_off, out_len));
    emit(enc, steps);
    Ok(())
}

} // verus!
