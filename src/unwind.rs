//! Bounded walk of a frame-pointer chain.
//!
//! Stack memory is read through `StackMemory`, an explicit image of the words
//! the walk may touch, so that every read is checked: an address outside the
//! image ends the walk, as does a null frame pointer or the step bound.
use vstd::prelude::*;

use crate::config::{MAX_UNWIND_STEPS, WORD_SIZE};

verus! {

/// The two words saved just below a frame pointer.
#[derive(Clone, Copy, Debug, PartialEq, Eq, Structural)]
pub struct StackFrame {
    pub return_address: usize,
    pub saved_frame_pointer: usize,
}

/// Readable stack words: `words[i]` is the word at address `base + i * WORD_SIZE`.
pub struct StackMemory {
    pub base: usize,
    pub words: Vec<usize>,
}

/// Word at address `addr` of the image `(base, words)`, if it holds one.
pub open spec fn word_at(base: int, words: Seq<usize>, addr: int) -> Option<usize> {
    if base <= addr && (addr - base) % WORD_SIZE as int == 0 && (addr - base) / (WORD_SIZE as int)
        < words.len() {
        Some(words[(addr - base) / (WORD_SIZE as int)])
    } else {
        None
    }
}

/// The frame saved below frame pointer `fp`, when both of its words are readable.
pub open spec fn frame_at(base: int, words: Seq<usize>, fp: int) -> Option<StackFrame> {
    match (word_at(base, words, fp - WORD_SIZE), word_at(base, words, fp - 2 * WORD_SIZE)) {
        (Some(ra), Some(sfp)) => Some(StackFrame { return_address: ra, saved_frame_pointer: sfp }),
        _ => None,
    }
}

/// Frames met by following the chain from `fp` for at most `steps` steps.
pub open spec fn chain(base: int, words: Seq<usize>, fp: usize, steps: nat) -> Seq<StackFrame>
    decreases steps,
{
    if steps == 0 || fp == 0 {
        Seq::empty()
    } else {
        match frame_at(base, words, fp as int) {
            Some(f) => seq![f] + chain(base, words, f.saved_frame_pointer, (steps - 1) as nat),
            None => Seq::empty(),
        }
    }
}

impl StackMemory {
    /// Word at address `addr`, if the image holds it.
    pub fn read_word(&self, addr: usize) -> (r: Option<usize>)
        ensures
            r == word_at(self.base as int, self.words@, addr as int),
    {
        if addr < self.base {
            return None;
        }
        let d = addr - self.base;
        if d % WORD_SIZE != 0 {
            return None;
        }
        let i = d / WORD_SIZE;
        if i < self.words.len() {
            Some(self.words[i])
        } else {
            None
        }
    }

    /// The frame saved below frame pointer `fp`, if both its words are readable.
    pub fn frame_below(&self, fp: usize) -> (r: Option<StackFrame>)
        ensures
            r == frame_at(self.base as int, self.words@, fp as int),
    {
        if fp < 2 * WORD_SIZE {
            return None;
        }
        let ra = self.read_word(fp - WORD_SIZE);
        let sfp = self.read_word(fp - 2 * WORD_SIZE);
        match (ra, sfp) {
            (Some(ra), Some(sfp)) => Some(StackFrame { return_address: ra, saved_frame_pointer: sfp }),
            _ => None,
        }
    }
}

/// Frames of the chain that starts at `fp`, callee first; stops at a null
/// frame pointer, at an unreadable frame, or after `MAX_UNWIND_STEPS` frames.
pub fn walk(mem: &StackMemory, fp: usize) -> (r: Vec<StackFrame>)
    ensures
        r@ == chain(mem.base as int, mem.words@, fp, MAX_UNWIND_STEPS as nat),
        r@.len() <= MAX_UNWIND_STEPS,
{
    let mut out: Vec<StackFrame> = Vec::new();
    let mut cur = fp;
    let mut steps: usize = 0;
    let ghost base = mem.base as int;
    let ghost words = mem.words@;
    while steps < MAX_UNWIND_STEPS && cur != 0
        invariant
            steps <= MAX_UNWIND_STEPS,
            base == mem.base,
            words == mem.words@,
            out@.len() == steps,
            out@ + chain(base, words, cur, (MAX_UNWIND_STEPS - steps) as nat) == chain(
                base,
                words,
                fp,
                MAX_UNWIND_STEPS as nat,
            ),
        decreases MAX_UNWIND_STEPS - steps,
    {
        match mem.frame_below(cur) {
            Some(f) => {
                let ghost pre = out@;
                out.push(f);
                assert(pre + chain(base, words, cur, (MAX_UNWIND_STEPS - steps) as nat) =~= out@
                    + chain(base, words, f.saved_frame_pointer, (MAX_UNWIND_STEPS - steps - 1) as nat));
                cur = f.saved_frame_pointer;
                steps = steps + 1;
            },
            None => {
                assert(out@ =~= chain(base, words, fp, MAX_UNWIND_STEPS as nat));
                return out;
            },
        }
    }
    assert(chain(base, words, cur, (MAX_UNWIND_STEPS - steps) as nat) =~= Seq::<StackFrame>::empty());
    assert(out@ =~= chain(base, words, fp, MAX_UNWIND_STEPS as nat));
    out
}

/// A readable chain of frame pointers `fps`, each frame saving the next one
/// and the last saving null.
pub open spec fn null_terminated(base: int, words: Seq<usize>, fps: Seq<usize>) -> bool {
    &&& forall|i: int| 0 <= i < fps.len() ==> #[trigger] fps[i] != 0
    &&& forall|i: int| 0 <= i < fps.len() ==> (#[trigger] frame_at(base, words, fps[i] as int)) is Some
    &&& forall|i: int|
        0 <= i < fps.len() - 1 ==> (#[trigger] frame_at(base, words, fps[i] as int))->Some_0.saved_frame_pointer
            == fps[i + 1]
    &&& fps.len() > 0 ==> frame_at(base, words, fps.last() as int)->Some_0.saved_frame_pointer == 0
}

/// Following a null-terminated chain of `n` frames yields those `n` frames,
/// callee first, when the step budget covers them.
pub proof fn lemma_chain_length(base: int, words: Seq<usize>, fps: Seq<usize>, steps: nat)
    requires
        null_terminated(base, words, fps),
        fps.len() > 0,
        fps.len() <= steps,
    ensures
        chain(base, words, fps[0], steps).len() == fps.len(),
        forall|i: int|
            0 <= i < fps.len() ==> #[trigger] chain(base, words, fps[0], steps)[i] == frame_at(
                base,
                words,
                fps[i] as int,
            )->Some_0,
    decreases fps.len(),
{
    let f = frame_at(base, words, fps[0] as int)->Some_0;
    if fps.len() == 1 {
        assert(chain(base, words, 0, (steps - 1) as nat) =~= Seq::<StackFrame>::empty());
    } else {
        let rest = fps.drop_first();
        assert(null_terminated(base, words, rest)) by {
            assert forall|i: int| 0 <= i < rest.len() - 1 implies (#[trigger] frame_at(
                base,
                words,
                rest[i] as int,
            ))->Some_0.saved_frame_pointer == rest[i + 1] by {
                assert(rest[i] == fps[i + 1]);
            }
        }
        lemma_chain_length(base, words, rest, (steps - 1) as nat);
        assert(f.saved_frame_pointer == fps[1]);
        assert forall|i: int| 0 <= i < fps.len() implies #[trigger] chain(base, words, fps[0], steps)[i]
            == frame_at(base, words, fps[i] as int)->Some_0 by {
            if i > 0 {
                assert(chain(base, words, fps[0], steps)[i] == chain(base, words, rest[0], (steps - 1) as nat)[i - 1]);
                assert(rest[i - 1] == fps[i]);
            }
        }
    }
}

/// A readable cycle of frame pointers `fps`, each frame saving the next one
/// and the last saving the first.
pub open spec fn cyclic(base: int, words: Seq<usize>, fps: Seq<usize>) -> bool {
    &&& fps.len() > 0
    &&& forall|i: int| 0 <= i < fps.len() ==> #[trigger] fps[i] != 0
    &&& forall|i: int| 0 <= i < fps.len() ==> (#[trigger] frame_at(base, words, fps[i] as int)) is Some
    &&& forall|i: int|
        0 <= i < fps.len() ==> (#[trigger] frame_at(base, words, fps[i] as int))->Some_0.saved_frame_pointer
            == fps[(i + 1) % fps.len() as int]
}

/// Following a cyclic chain stops exactly at the step budget.
pub proof fn lemma_cycle_bounded(base: int, words: Seq<usize>, fps: Seq<usize>, k: int, steps: nat)
    requires
        cyclic(base, words, fps),
        0 <= k < fps.len(),
    ensures
        chain(base, words, fps[k], steps).len() == steps,
    decreases steps,
{
    if steps > 0 {
        let next = (k + 1) % fps.len() as int;
        lemma_cycle_bounded(base, words, fps, next, (steps - 1) as nat);
    }
}

} // verus!
