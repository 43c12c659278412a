//! What a stream of commands launches, and with which arguments.

use vstd::prelude::*;

use crate::command::{array_steps, word_steps, Buf, Cmd, Kernel, Size};

verus! {

/// The slot that a step sets.
pub open spec fn slot_of(c: Cmd) -> Option<u64> {
    match c {
        Cmd::Buffer(slot, _, _) => Some(slot),
        Cmd::U32(slot, _) => Some(slot),
        Cmd::U64(slot, _) => Some(slot),
        Cmd::U32x2(slot, _, _) => Some(slot),
        Cmd::U32x4(slot, _, _, _, _) => Some(slot),
        Cmd::U64x6(slot, _, _, _, _, _, _) => Some(slot),
        Cmd::Array(slot, _) => Some(slot),
        _ => None,
    }
}

pub open spec fn is_launch(c: Cmd) -> bool {
    c is Threads || c is Groups
}

/// What a slot holds after a stream: the last step that sets it.
pub open spec fn arg(s: Seq<Cmd>, slot: u64) -> Option<Cmd>
    decreases s.len(),
{
    if s.len() == 0 {
        None
    } else if slot_of(s.last()) == Some(slot) {
        Some(s.last())
    } else {
        arg(s.drop_last(), slot)
    }
}

/// The pipeline that is selected after a stream.
pub open spec fn selected(s: Seq<Cmd>) -> Option<Kernel>
    decreases s.len(),
{
    if s.len() == 0 {
        None
    } else {
        match s.last() {
            Cmd::Pipeline(kernel) => Some(kernel),
            _ => selected(s.drop_last()),
        }
    }
}

/// The slot of the array whose words are being set at the end of a stream.
pub open spec fn filling(s: Seq<Cmd>) -> Option<u64>
    decreases s.len(),
{
    if s.len() == 0 {
        None
    } else {
        match s.last() {
            Cmd::Word(_) => filling(s.drop_last()),
            Cmd::Array(slot, _) => Some(slot),
            _ => None,
        }
    }
}

/// The words of the array that a slot holds after a stream.
pub open spec fn words(s: Seq<Cmd>, slot: u64) -> Option<Seq<u32>>
    decreases s.len(),
{
    if s.len() == 0 {
        None
    } else {
        let rest = words(s.drop_last(), slot);
        match s.last() {
            Cmd::Word(w) => if filling(s.drop_last()) == Some(slot) && rest is Some {
                Some(rest->0.push(w))
            } else {
                rest
            },
            c => if slot_of(c) != Some(slot) {
                rest
            } else if c is Array {
                Some(Seq::empty())
            } else {
                None
            },
        }
    }
}

/// A launch, and the steps before it.
pub struct Launch {
    pub before: Seq<Cmd>,
    pub shape: Cmd,
}

impl Launch {
    /// The kernel that runs.
    pub open spec fn kernel(self) -> Option<Kernel> {
        selected(self.before)
    }

    /// What the kernel finds at a slot.
    pub open spec fn arg(self, slot: u64) -> Option<Cmd> {
        arg(self.before, slot)
    }

    /// The word that the kernel finds at a slot.
    pub open spec fn word(self, slot: u64) -> Option<u32> {
        match self.arg(slot) {
            Some(Cmd::U32(_, w)) => Some(w),
            _ => None,
        }
    }

    /// The long word that the kernel finds at a slot.
    pub open spec fn long(self, slot: u64) -> Option<u64> {
        match self.arg(slot) {
            Some(Cmd::U64(_, w)) => Some(w),
            _ => None,
        }
    }

    /// The buffer that the kernel finds at a slot, and the byte at which it starts there.
    pub open spec fn place(self, slot: u64) -> Option<(Buf, u64)> {
        match self.arg(slot) {
            Some(Cmd::Buffer(_, buf, off)) => Some((buf, off)),
            _ => None,
        }
    }

    /// The array that the kernel finds at a slot.
    pub open spec fn words(self, slot: u64) -> Option<Seq<u32>> {
        words(self.before, slot)
    }

    /// The threads of the launch, where their number is given.
    pub open spec fn threads(self) -> Option<Size> {
        match self.shape {
            Cmd::Threads(size, _) => Some(size),
            _ => None,
        }
    }

    /// The threadgroups of the launch, and the threads of each, where those are given.
    pub open spec fn groups(self) -> Option<(Size, Size)> {
        match self.shape {
            Cmd::Groups(count, size) => Some((count, size)),
            _ => None,
        }
    }
}

/// The launches of a stream, in order.
pub open spec fn launches(s: Seq<Cmd>) -> Seq<Launch>
    decreases s.len(),
{
    if s.len() == 0 {
        Seq::empty()
    } else {
        let rest = launches(s.drop_last());
        if is_launch(s.last()) {
            rest.push(Launch { before: s.drop_last(), shape: s.last() })
        } else {
            rest
        }
    }
}

/// The only launch of a stream.
pub open spec fn launch(s: Seq<Cmd>) -> Launch {
    launches(s)[0]
}

/// A stream launches once.
pub open spec fn launches_once(s: Seq<Cmd>) -> bool {
    launches(s).len() == 1
}

pub broadcast proof fn lemma_arg_push(s: Seq<Cmd>, c: Cmd, slot: u64)
    ensures
        #[trigger] arg(s.push(c), slot) == (if slot_of(c) == Some(slot) {
            Some(c)
        } else {
            arg(s, slot)
        }),
{
    assert(s.push(c).drop_last() =~= s);
}

pub broadcast proof fn lemma_selected_push(s: Seq<Cmd>, c: Cmd)
    ensures
        #[trigger] selected(s.push(c)) == (match c {
            Cmd::Pipeline(kernel) => Some(kernel),
            _ => selected(s),
        }),
{
    assert(s.push(c).drop_last() =~= s);
}

pub broadcast proof fn lemma_launches_push(s: Seq<Cmd>, c: Cmd)
    ensures
        #[trigger] launches(s.push(c)) == (if is_launch(c) {
            launches(s).push(Launch { before: s, shape: c })
        } else {
            launches(s)
        }),
{
    assert(s.push(c).drop_last() =~= s);
}

pub broadcast proof fn lemma_words_push(s: Seq<Cmd>, c: Cmd, slot: u64)
    requires
        !(c is Word),
    ensures
        #[trigger] words(s.push(c), slot) == (if slot_of(c) != Some(slot) {
            words(s, slot)
        } else if c is Array {
            Some(Seq::empty())
        } else {
            None
        }),
{
    assert(s.push(c).drop_last() =~= s);
}

proof fn lemma_words_filled(a: Seq<Cmd>, array: u64, w: Seq<u32>, slot: u64)
    ensures
        ({
            let s = a + array_steps(array, w);
            &&& filling(s) == Some(array)
            &&& words(s, slot) == (if slot == array {
                Some(w)
            } else {
                words(a, slot)
            })
            &&& arg(s, slot) == (if slot == array {
                Some(Cmd::Array(array, w.len() as u64))
            } else {
                arg(a, slot)
            })
            &&& selected(s) == selected(a)
            &&& launches(s) == launches(a)
        }),
    decreases w.len(),
{
    let s = a + array_steps(array, w);
    if w.len() == 0 {
        assert(s =~= a.push(Cmd::Array(array, 0)));
        assert(s.drop_last() =~= a);
        assert(w =~= Seq::empty());
    } else {
        let v = w.drop_last();
        let head = a.push(Cmd::Array(array, w.len() as u64));
        lemma_words_from(a, array, w.len() as u64, w, slot);
        assert(s =~= head + word_steps(w));
    }
}

proof fn lemma_words_from(a: Seq<Cmd>, array: u64, count: u64, w: Seq<u32>, slot: u64)
    ensures
        ({
            let s = a.push(Cmd::Array(array, count)) + word_steps(w);
            &&& filling(s) == Some(array)
            &&& words(s, slot) == (if slot == array {
                Some(w)
            } else {
                words(a, slot)
            })
            &&& arg(s, slot) == (if slot == array {
                Some(Cmd::Array(array, count))
            } else {
                arg(a, slot)
            })
            &&& selected(s) == selected(a)
            &&& launches(s) == launches(a)
        }),
    decreases w.len(),
{
    let head = a.push(Cmd::Array(array, count));
    let s = head + word_steps(w);
    if w.len() == 0 {
        assert(s =~= head);
        assert(head.drop_last() =~= a);
        assert(w =~= Seq::empty());
    } else {
        let v = w.drop_last();
        lemma_words_from(a, array, count, v, slot);
        assert(s.drop_last() =~= head + word_steps(v));
        assert(s.last() == Cmd::Word(w.last()));
        assert(v.push(w.last()) =~= w);
    }
}

/// An array sets its own slot to its words, and nothing else.
pub broadcast proof fn lemma_array_words(a: Seq<Cmd>, array: u64, w: Seq<u32>, slot: u64)
    ensures
        #[trigger] words(a + array_steps(array, w), slot) == (if slot == array {
            Some(w)
        } else {
            words(a, slot)
        }),
{
    lemma_words_filled(a, array, w, slot);
}

pub broadcast proof fn lemma_array_arg(a: Seq<Cmd>, array: u64, w: Seq<u32>, slot: u64)
    ensures
        #[trigger] arg(a + array_steps(array, w), slot) == (if slot == array {
            Some(Cmd::Array(array, w.len() as u64))
        } else {
            arg(a, slot)
        }),
{
    lemma_words_filled(a, array, w, slot);
}

pub broadcast proof fn lemma_array_runs(a: Seq<Cmd>, array: u64, w: Seq<u32>)
    ensures
        #![trigger a + array_steps(array, w)]
        selected(a + array_steps(array, w)) == selected(a),
        launches(a + array_steps(array, w)) == launches(a),
{
    lemma_words_filled(a, array, w, 0);
}

pub broadcast proof fn lemma_append_push(a: Seq<Cmd>, b: Seq<Cmd>, c: Cmd)
    ensures
        #[trigger] (a + b.push(c)) == (a + b).push(c),
{
    assert(a + b.push(c) =~= (a + b).push(c));
}

pub broadcast proof fn lemma_append_nothing(a: Seq<Cmd>)
    ensures
        #[trigger] (a + Seq::<Cmd>::empty()) == a,
{
    assert(a + Seq::<Cmd>::empty() =~= a);
}

pub broadcast proof fn lemma_nothing_launched()
    ensures
        #[trigger] launches(Seq::<Cmd>::empty()) == Seq::<Launch>::empty(),
{
}

/// A launch of a stream that is appended to another.
pub open spec fn behind(a: Seq<Cmd>, l: Launch) -> Launch {
    Launch { before: a + l.before, shape: l.shape }
}

/// What a slot holds after two streams: what the second sets, or else what the first leaves.
pub proof fn lemma_arg_append(a: Seq<Cmd>, b: Seq<Cmd>, slot: u64)
    ensures
        arg(a + b, slot) == (if arg(b, slot) is Some {
            arg(b, slot)
        } else {
            arg(a, slot)
        }),
    decreases b.len(),
{
    if b.len() == 0 {
        assert(a + b =~= a);
    } else {
        assert((a + b).drop_last() =~= a + b.drop_last());
        lemma_arg_append(a, b.drop_last(), slot);
    }
}

pub proof fn lemma_selected_append(a: Seq<Cmd>, b: Seq<Cmd>)
    ensures
        selected(a + b) == (if selected(b) is Some {
            selected(b)
        } else {
            selected(a)
        }),
    decreases b.len(),
{
    if b.len() == 0 {
        assert(a + b =~= a);
    } else {
        assert((a + b).drop_last() =~= a + b.drop_last());
        lemma_selected_append(a, b.drop_last());
    }
}

/// Two streams launch what the first launches, and next what the second launches.
pub proof fn lemma_launches_append(a: Seq<Cmd>, b: Seq<Cmd>)
    ensures
        launches(a + b).len() == launches(a).len() + launches(b).len(),
        forall|i: int| #![trigger launches(a + b)[i]]
            0 <= i < launches(a).len() ==> launches(a + b)[i] == launches(a)[i],
        forall|i: int| #![trigger launches(b)[i]]
            0 <= i < launches(b).len() ==> launches(a + b)[launches(a).len() + i] == behind(
                a,
                launches(b)[i],
            ),
    decreases b.len(),
{
    if b.len() == 0 {
        assert(a + b =~= a);
    } else {
        assert((a + b).drop_last() =~= a + b.drop_last());
        lemma_launches_append(a, b.drop_last());
        assert forall|i: int| #![trigger launches(b)[i]] 0 <= i < launches(b).len() implies
            launches(a + b)[launches(a).len() + i] == behind(a, launches(b)[i]) by {
            if i < launches(b.drop_last()).len() {
                assert(launches(b.drop_last())[i] == launches(b)[i]);
            }
        }
    }
}

/// What stands before a stream changes nothing that the stream sets itself.
pub broadcast proof fn lemma_behind_keeps(a: Seq<Cmd>, l: Launch, slot: u64)
    ensures
        l.arg(slot) is Some ==> #[trigger] behind(a, l).arg(slot) == l.arg(slot),
        l.kernel() is Some ==> behind(a, l).kernel() == l.kernel(),
{
    lemma_arg_append(a, l.before, slot);
    lemma_selected_append(a, l.before);
}

pub broadcast proof fn lemma_behind_kernel(a: Seq<Cmd>, l: Launch)
    ensures
        l.kernel() is Some ==> #[trigger] behind(a, l).kernel() == l.kernel(),
{
    lemma_selected_append(a, l.before);
}

pub broadcast proof fn lemma_steps_2(a: [Cmd; 2])
    ensures
        #[trigger] a@ == Seq::<Cmd>::empty().push(a@[0]).push(a@[1]),
{
    assert(a@ =~= Seq::<Cmd>::empty().push(a@[0]).push(a@[1]));
}

pub broadcast proof fn lemma_steps_3(a: [Cmd; 3])
    ensures
        #[trigger] a@ == Seq::<Cmd>::empty().push(a@[0]).push(a@[1]).push(a@[2]),
{
    assert(a@ =~= Seq::<Cmd>::empty().push(a@[0]).push(a@[1]).push(a@[2]));
}

pub broadcast proof fn lemma_steps_4(a: [Cmd; 4])
    ensures
        #[trigger] a@ == Seq::<Cmd>::empty().push(a@[0]).push(a@[1]).push(a@[2]).push(a@[3]),
{
    assert(a@ =~= Seq::<Cmd>::empty().push(a@[0]).push(a@[1]).push(a@[2]).push(a@[3]));
}

pub broadcast proof fn lemma_steps_5(a: [Cmd; 5])
    ensures
        #[trigger] a@ == Seq::<Cmd>::empty().push(a@[0]).push(a@[1]).push(a@[2]).push(a@[3]).push(a@[4]),
{
    assert(a@ =~= Seq::<Cmd>::empty().push(a@[0]).push(a@[1]).push(a@[2]).push(a@[3]).push(a@[4]));
}

pub broadcast proof fn lemma_steps_6(a: [Cmd; 6])
    ensures
        #[trigger] a@ == Seq::<Cmd>::empty().push(a@[0]).push(a@[1]).push(a@[2]).push(a@[3]).push(a@[4]).push(a@[5]),
{
    assert(a@ =~= Seq::<Cmd>::empty().push(a@[0]).push(a@[1]).push(a@[2]).push(a@[3]).push(a@[4]).push(a@[5]));
}

pub broadcast proof fn lemma_steps_7(a: [Cmd; 7])
    ensures
        #[trigger] a@ == Seq::<Cmd>::empty().push(a@[0]).push(a@[1]).push(a@[2]).push(a@[3]).push(a@[4]).push(a@[5]).push(a@[6]),
{
    assert(a@ =~= Seq::<Cmd>::empty().push(a@[0]).push(a@[1]).push(a@[2]).push(a@[3]).push(a@[4]).push(a@[5]).push(a@[6]));
}

pub broadcast proof fn lemma_steps_8(a: [Cmd; 8])
    ensures
        #[trigger] a@ == Seq::<Cmd>::empty().push(a@[0]).push(a@[1]).push(a@[2]).push(a@[3]).push(a@[4]).push(a@[5]).push(a@[6]).push(a@[7]),
{
    assert(a@ =~= Seq::<Cmd>::empty().push(a@[0]).push(a@[1]).push(a@[2]).push(a@[3]).push(a@[4]).push(a@[5]).push(a@[6]).push(a@[7]));
}

pub broadcast proof fn lemma_steps_9(a: [Cmd; 9])
    ensures
        #[trigger] a@ == Seq::<Cmd>::empty().push(a@[0]).push(a@[1]).push(a@[2]).push(a@[3]).push(a@[4]).push(a@[5]).push(a@[6]).push(a@[7]).push(a@[8]),
{
    assert(a@ =~= Seq::<Cmd>::empty().push(a@[0]).push(a@[1]).push(a@[2]).push(a@[3]).push(a@[4]).push(a@[5]).push(a@[6]).push(a@[7]).push(a@[8]));
}

pub broadcast proof fn lemma_steps_10(a: [Cmd; 10])
    ensures
        #[trigger] a@ == Seq::<Cmd>::empty().push(a@[0]).push(a@[1]).push(a@[2]).push(a@[3]).push(a@[4]).push(a@[5]).push(a@[6]).push(a@[7]).push(a@[8]).push(a@[9]),
{
    assert(a@ =~= Seq::<Cmd>::empty().push(a@[0]).push(a@[1]).push(a@[2]).push(a@[3]).push(a@[4]).push(a@[5]).push(a@[6]).push(a@[7]).push(a@[8]).push(a@[9]));
}

pub broadcast proof fn lemma_steps_11(a: [Cmd; 11])
    ensures
        #[trigger] a@ == Seq::<Cmd>::empty().push(a@[0]).push(a@[1]).push(a@[2]).push(a@[3]).push(a@[4]).push(a@[5]).push(a@[6]).push(a@[7]).push(a@[8]).push(a@[9]).push(a@[10]),
{
    assert(a@ =~= Seq::<Cmd>::empty().push(a@[0]).push(a@[1]).push(a@[2]).push(a@[3]).push(a@[4]).push(a@[5]).push(a@[6]).push(a@[7]).push(a@[8]).push(a@[9]).push(a@[10]));
}

pub broadcast proof fn lemma_steps_12(a: [Cmd; 12])
    ensures
        #[trigger] a@ == Seq::<Cmd>::empty().push(a@[0]).push(a@[1]).push(a@[2]).push(a@[3]).push(a@[4]).push(a@[5]).push(a@[6]).push(a@[7]).push(a@[8]).push(a@[9]).push(a@[10]).push(a@[11]),
{
    assert(a@ =~= Seq::<Cmd>::empty().push(a@[0]).push(a@[1]).push(a@[2]).push(a@[3]).push(a@[4]).push(a@[5]).push(a@[6]).push(a@[7]).push(a@[8]).push(a@[9]).push(a@[10]).push(a@[11]));
}

pub broadcast proof fn lemma_steps_13(a: [Cmd; 13])
    ensures
        #[trigger] a@ == Seq::<Cmd>::empty().push(a@[0]).push(a@[1]).push(a@[2]).push(a@[3]).push(a@[4]).push(a@[5]).push(a@[6]).push(a@[7]).push(a@[8]).push(a@[9]).push(a@[10]).push(a@[11]).push(a@[12]),
{
    assert(a@ =~= Seq::<Cmd>::empty().push(a@[0]).push(a@[1]).push(a@[2]).push(a@[3]).push(a@[4]).push(a@[5]).push(a@[6]).push(a@[7]).push(a@[8]).push(a@[9]).push(a@[10]).push(a@[11]).push(a@[12]));
}

pub broadcast proof fn lemma_steps_14(a: [Cmd; 14])
    ensures
        #[trigger] a@ == Seq::<Cmd>::empty().push(a@[0]).push(a@[1]).push(a@[2]).push(a@[3]).push(a@[4]).push(a@[5]).push(a@[6]).push(a@[7]).push(a@[8]).push(a@[9]).push(a@[10]).push(a@[11]).push(a@[12]).push(a@[13]),
{
    assert(a@ =~= Seq::<Cmd>::empty().push(a@[0]).push(a@[1]).push(a@[2]).push(a@[3]).push(a@[4]).push(a@[5]).push(a@[6]).push(a@[7]).push(a@[8]).push(a@[9]).push(a@[10]).push(a@[11]).push(a@[12]).push(a@[13]));
}

pub broadcast proof fn lemma_steps_15(a: [Cmd; 15])
    ensures
        #[trigger] a@ == Seq::<Cmd>::empty().push(a@[0]).push(a@[1]).push(a@[2]).push(a@[3]).push(a@[4]).push(a@[5]).push(a@[6]).push(a@[7]).push(a@[8]).push(a@[9]).push(a@[10]).push(a@[11]).push(a@[12]).push(a@[13]).push(a@[14]),
{
    assert(a@ =~= Seq::<Cmd>::empty().push(a@[0]).push(a@[1]).push(a@[2]).push(a@[3]).push(a@[4]).push(a@[5]).push(a@[6]).push(a@[7]).push(a@[8]).push(a@[9]).push(a@[10]).push(a@[11]).push(a@[12]).push(a@[13]).push(a@[14]));
}

pub broadcast proof fn lemma_steps_16(a: [Cmd; 16])
    ensures
        #[trigger] a@ == Seq::<Cmd>::empty().push(a@[0]).push(a@[1]).push(a@[2]).push(a@[3]).push(a@[4]).push(a@[5]).push(a@[6]).push(a@[7]).push(a@[8]).push(a@[9]).push(a@[10]).push(a@[11]).push(a@[12]).push(a@[13]).push(a@[14]).push(a@[15]),
{
    assert(a@ =~= Seq::<Cmd>::empty().push(a@[0]).push(a@[1]).push(a@[2]).push(a@[3]).push(a@[4]).push(a@[5]).push(a@[6]).push(a@[7]).push(a@[8]).push(a@[9]).push(a@[10]).push(a@[11]).push(a@[12]).push(a@[13]).push(a@[14]).push(a@[15]));
}

pub broadcast proof fn lemma_steps_17(a: [Cmd; 17])
    ensures
        #[trigger] a@ == Seq::<Cmd>::empty().push(a@[0]).push(a@[1]).push(a@[2]).push(a@[3]).push(a@[4]).push(a@[5]).push(a@[6]).push(a@[7]).push(a@[8]).push(a@[9]).push(a@[10]).push(a@[11]).push(a@[12]).push(a@[13]).push(a@[14]).push(a@[15]).push(a@[16]),
{
    assert(a@ =~= Seq::<Cmd>::empty().push(a@[0]).push(a@[1]).push(a@[2]).push(a@[3]).push(a@[4]).push(a@[5]).push(a@[6]).push(a@[7]).push(a@[8]).push(a@[9]).push(a@[10]).push(a@[11]).push(a@[12]).push(a@[13]).push(a@[14]).push(a@[15]).push(a@[16]));
}

pub broadcast proof fn lemma_steps_18(a: [Cmd; 18])
    ensures
        #[trigger] a@ == Seq::<Cmd>::empty().push(a@[0]).push(a@[1]).push(a@[2]).push(a@[3]).push(a@[4]).push(a@[5]).push(a@[6]).push(a@[7]).push(a@[8]).push(a@[9]).push(a@[10]).push(a@[11]).push(a@[12]).push(a@[13]).push(a@[14]).push(a@[15]).push(a@[16]).push(a@[17]),
{
    assert(a@ =~= Seq::<Cmd>::empty().push(a@[0]).push(a@[1]).push(a@[2]).push(a@[3]).push(a@[4]).push(a@[5]).push(a@[6]).push(a@[7]).push(a@[8]).push(a@[9]).push(a@[10]).push(a@[11]).push(a@[12]).push(a@[13]).push(a@[14]).push(a@[15]).push(a@[16]).push(a@[17]));
}

pub broadcast proof fn lemma_steps_19(a: [Cmd; 19])
    ensures
        #[trigger] a@ == Seq::<Cmd>::empty().push(a@[0]).push(a@[1]).push(a@[2]).push(a@[3]).push(a@[4]).push(a@[5]).push(a@[6]).push(a@[7]).push(a@[8]).push(a@[9]).push(a@[10]).push(a@[11]).push(a@[12]).push(a@[13]).push(a@[14]).push(a@[15]).push(a@[16]).push(a@[17]).push(a@[18]),
{
    assert(a@ =~= Seq::<Cmd>::empty().push(a@[0]).push(a@[1]).push(a@[2]).push(a@[3]).push(a@[4]).push(a@[5]).push(a@[6]).push(a@[7]).push(a@[8]).push(a@[9]).push(a@[10]).push(a@[11]).push(a@[12]).push(a@[13]).push(a@[14]).push(a@[15]).push(a@[16]).push(a@[17]).push(a@[18]));
}

pub broadcast proof fn lemma_steps_20(a: [Cmd; 20])
    ensures
        #[trigger] a@ == Seq::<Cmd>::empty().push(a@[0]).push(a@[1]).push(a@[2]).push(a@[3]).push(a@[4]).push(a@[5]).push(a@[6]).push(a@[7]).push(a@[8]).push(a@[9]).push(a@[10]).push(a@[11]).push(a@[12]).push(a@[13]).push(a@[14]).push(a@[15]).push(a@[16]).push(a@[17]).push(a@[18]).push(a@[19]),
{
    assert(a@ =~= Seq::<Cmd>::empty().push(a@[0]).push(a@[1]).push(a@[2]).push(a@[3]).push(a@[4]).push(a@[5]).push(a@[6]).push(a@[7]).push(a@[8]).push(a@[9]).push(a@[10]).push(a@[11]).push(a@[12]).push(a@[13]).push(a@[14]).push(a@[15]).push(a@[16]).push(a@[17]).push(a@[18]).push(a@[19]));
}

pub broadcast proof fn lemma_steps_21(a: [Cmd; 21])
    ensures
        #[trigger] a@ == Seq::<Cmd>::empty().push(a@[0]).push(a@[1]).push(a@[2]).push(a@[3]).push(a@[4]).push(a@[5]).push(a@[6]).push(a@[7]).push(a@[8]).push(a@[9]).push(a@[10]).push(a@[11]).push(a@[12]).push(a@[13]).push(a@[14]).push(a@[15]).push(a@[16]).push(a@[17]).push(a@[18]).push(a@[19]).push(a@[20]),
{
    assert(a@ =~= Seq::<Cmd>::empty().push(a@[0]).push(a@[1]).push(a@[2]).push(a@[3]).push(a@[4]).push(a@[5]).push(a@[6]).push(a@[7]).push(a@[8]).push(a@[9]).push(a@[10]).push(a@[11]).push(a@[12]).push(a@[13]).push(a@[14]).push(a@[15]).push(a@[16]).push(a@[17]).push(a@[18]).push(a@[19]).push(a@[20]));
}

pub broadcast proof fn lemma_steps_22(a: [Cmd; 22])
    ensures
        #[trigger] a@ == Seq::<Cmd>::empty().push(a@[0]).push(a@[1]).push(a@[2]).push(a@[3]).push(a@[4]).push(a@[5]).push(a@[6]).push(a@[7]).push(a@[8]).push(a@[9]).push(a@[10]).push(a@[11]).push(a@[12]).push(a@[13]).push(a@[14]).push(a@[15]).push(a@[16]).push(a@[17]).push(a@[18]).push(a@[19]).push(a@[20]).push(a@[21]),
{
    assert(a@ =~= Seq::<Cmd>::empty().push(a@[0]).push(a@[1]).push(a@[2]).push(a@[3]).push(a@[4]).push(a@[5]).push(a@[6]).push(a@[7]).push(a@[8]).push(a@[9]).push(a@[10]).push(a@[11]).push(a@[12]).push(a@[13]).push(a@[14]).push(a@[15]).push(a@[16]).push(a@[17]).push(a@[18]).push(a@[19]).push(a@[20]).push(a@[21]));
}

pub broadcast proof fn lemma_steps_23(a: [Cmd; 23])
    ensures
        #[trigger] a@ == Seq::<Cmd>::empty().push(a@[0]).push(a@[1]).push(a@[2]).push(a@[3]).push(a@[4]).push(a@[5]).push(a@[6]).push(a@[7]).push(a@[8]).push(a@[9]).push(a@[10]).push(a@[11]).push(a@[12]).push(a@[13]).push(a@[14]).push(a@[15]).push(a@[16]).push(a@[17]).push(a@[18]).push(a@[19]).push(a@[20]).push(a@[21]).push(a@[22]),
{
    assert(a@ =~= Seq::<Cmd>::empty().push(a@[0]).push(a@[1]).push(a@[2]).push(a@[3]).push(a@[4]).push(a@[5]).push(a@[6]).push(a@[7]).push(a@[8]).push(a@[9]).push(a@[10]).push(a@[11]).push(a@[12]).push(a@[13]).push(a@[14]).push(a@[15]).push(a@[16]).push(a@[17]).push(a@[18]).push(a@[19]).push(a@[20]).push(a@[21]).push(a@[22]));
}

pub broadcast proof fn lemma_steps_24(a: [Cmd; 24])
    ensures
        #[trigger] a@ == Seq::<Cmd>::empty().push(a@[0]).push(a@[1]).push(a@[2]).push(a@[3]).push(a@[4]).push(a@[5]).push(a@[6]).push(a@[7]).push(a@[8]).push(a@[9]).push(a@[10]).push(a@[11]).push(a@[12]).push(a@[13]).push(a@[14]).push(a@[15]).push(a@[16]).push(a@[17]).push(a@[18]).push(a@[19]).push(a@[20]).push(a@[21]).push(a@[22]).push(a@[23]),
{
    assert(a@ =~= Seq::<Cmd>::empty().push(a@[0]).push(a@[1]).push(a@[2]).push(a@[3]).push(a@[4]).push(a@[5]).push(a@[6]).push(a@[7]).push(a@[8]).push(a@[9]).push(a@[10]).push(a@[11]).push(a@[12]).push(a@[13]).push(a@[14]).push(a@[15]).push(a@[16]).push(a@[17]).push(a@[18]).push(a@[19]).push(a@[20]).push(a@[21]).push(a@[22]).push(a@[23]));
}

pub broadcast proof fn lemma_steps_25(a: [Cmd; 25])
    ensures
        #[trigger] a@ == Seq::<Cmd>::empty().push(a@[0]).push(a@[1]).push(a@[2]).push(a@[3]).push(a@[4]).push(a@[5]).push(a@[6]).push(a@[7]).push(a@[8]).push(a@[9]).push(a@[10]).push(a@[11]).push(a@[12]).push(a@[13]).push(a@[14]).push(a@[15]).push(a@[16]).push(a@[17]).push(a@[18]).push(a@[19]).push(a@[20]).push(a@[21]).push(a@[22]).push(a@[23]).push(a@[24]),
{
    assert(a@ =~= Seq::<Cmd>::empty().push(a@[0]).push(a@[1]).push(a@[2]).push(a@[3]).push(a@[4]).push(a@[5]).push(a@[6]).push(a@[7]).push(a@[8]).push(a@[9]).push(a@[10]).push(a@[11]).push(a@[12]).push(a@[13]).push(a@[14]).push(a@[15]).push(a@[16]).push(a@[17]).push(a@[18]).push(a@[19]).push(a@[20]).push(a@[21]).push(a@[22]).push(a@[23]).push(a@[24]));
}

pub broadcast proof fn lemma_steps_26(a: [Cmd; 26])
    ensures
        #[trigger] a@ == Seq::<Cmd>::empty().push(a@[0]).push(a@[1]).push(a@[2]).push(a@[3]).push(a@[4]).push(a@[5]).push(a@[6]).push(a@[7]).push(a@[8]).push(a@[9]).push(a@[10]).push(a@[11]).push(a@[12]).push(a@[13]).push(a@[14]).push(a@[15]).push(a@[16]).push(a@[17]).push(a@[18]).push(a@[19]).push(a@[20]).push(a@[21]).push(a@[22]).push(a@[23]).push(a@[24]).push(a@[25]),
{
    assert(a@ =~= Seq::<Cmd>::empty().push(a@[0]).push(a@[1]).push(a@[2]).push(a@[3]).push(a@[4]).push(a@[5]).push(a@[6]).push(a@[7]).push(a@[8]).push(a@[9]).push(a@[10]).push(a@[11]).push(a@[12]).push(a@[13]).push(a@[14]).push(a@[15]).push(a@[16]).push(a@[17]).push(a@[18]).push(a@[19]).push(a@[20]).push(a@[21]).push(a@[22]).push(a@[23]).push(a@[24]).push(a@[25]));
}

pub broadcast proof fn lemma_steps_27(a: [Cmd; 27])
    ensures
        #[trigger] a@ == Seq::<Cmd>::empty().push(a@[0]).push(a@[1]).push(a@[2]).push(a@[3]).push(a@[4]).push(a@[5]).push(a@[6]).push(a@[7]).push(a@[8]).push(a@[9]).push(a@[10]).push(a@[11]).push(a@[12]).push(a@[13]).push(a@[14]).push(a@[15]).push(a@[16]).push(a@[17]).push(a@[18]).push(a@[19]).push(a@[20]).push(a@[21]).push(a@[22]).push(a@[23]).push(a@[24]).push(a@[25]).push(a@[26]),
{
    assert(a@ =~= Seq::<Cmd>::empty().push(a@[0]).push(a@[1]).push(a@[2]).push(a@[3]).push(a@[4]).push(a@[5]).push(a@[6]).push(a@[7]).push(a@[8]).push(a@[9]).push(a@[10]).push(a@[11]).push(a@[12]).push(a@[13]).push(a@[14]).push(a@[15]).push(a@[16]).push(a@[17]).push(a@[18]).push(a@[19]).push(a@[20]).push(a@[21]).push(a@[22]).push(a@[23]).push(a@[24]).push(a@[25]).push(a@[26]));
}

pub broadcast group group_launches {
    lemma_arg_push,
    lemma_selected_push,
    lemma_launches_push,
    lemma_words_push,
    lemma_array_words,
    lemma_array_arg,
    lemma_array_runs,
    lemma_append_push,
    lemma_append_nothing,
    lemma_nothing_launched,
    lemma_behind_keeps,
    lemma_behind_kernel,
    lemma_steps_2,
    lemma_steps_3,
    lemma_steps_4,
    lemma_steps_5,
    lemma_steps_6,
    lemma_steps_7,
    lemma_steps_8,
    lemma_steps_9,
    lemma_steps_10,
    lemma_steps_11,
    lemma_steps_12,
    lemma_steps_13,
    lemma_steps_14,
    lemma_steps_15,
    lemma_steps_16,
    lemma_steps_17,
    lemma_steps_18,
    lemma_steps_19,
    lemma_steps_20,
    lemma_steps_21,
    lemma_steps_22,
    lemma_steps_23,
    lemma_steps_24,
    lemma_steps_25,
    lemma_steps_26,
    lemma_steps_27,
}

} // verus!
