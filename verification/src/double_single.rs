//! Sums in pairs of single-precision floats, which come close to double precision.

use vstd::prelude::*;

use crate::command::{low32, low_word, one_row, row, Buf, Cmd, Kernel};

verus! {

/// Threads of the one threadgroup that sums.
pub const THREADS: u64 = 256;

/// Numbers by which the buffers of a sum are bound.
pub const DATA: u32 = 0;

pub const RESULT: u32 = 1;

/// The bytes of the data's buffer: four for each float, and room for one at least.
pub open spec fn data_bytes(len: usize) -> int {
    if len == 0 {
        4
    } else {
        len * 4
    }
}

/// The commands of a sum: one threadgroup goes over all of the data.
pub open spec fn sum_steps(len: usize) -> Seq<Cmd> {
    seq![
        Cmd::Pipeline(Kernel::DwSum),
        Cmd::Buffer(0, Buf::Tensor(DATA), 0),
        Cmd::Buffer(1, Buf::Tensor(RESULT), 0),
        Cmd::U32(2, low_word(len as u64)),
        Cmd::Groups(one_row(1), one_row(THREADS)),
    ]
}

/// The size of the data's buffer, and the commands that sum it.
pub fn sum_pair(len: usize) -> (r: (usize, Vec<Cmd>))
    requires
        len * 4 <= usize::MAX,
    ensures
        r.0 == data_bytes(len),
        r.1@ == sum_steps(len),
{
    let bytes: usize = if len == 0 {
        4
    } else {
        len * 4
    };
    let steps: Vec<Cmd> = vec![
        Cmd::Pipeline(Kernel::DwSum),
        Cmd::Buffer(0, Buf::Tensor(DATA), 0),
        Cmd::Buffer(1, Buf::Tensor(RESULT), 0),
        Cmd::U32(2, low32(len as u64)),
        Cmd::Groups(row(1), row(THREADS)),
    ];
    assert(steps@ =~= sum_steps(len));
    (bytes, steps)
}

} // verus!
