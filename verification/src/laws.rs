//! Laws of the machine: what holds of every state, stated over the model
//! that the engine's contracts are written in.

use vstd::prelude::*;
use crate::bracket::{closes, nesting};
use crate::machine::{wrapping_dec, wrapping_inc, FaultKind, Machine};

verus! {

/// Incrementing a cell value and then decrementing it, or the other way
/// round, gives the value back, also across the wrap between 255 and 0.
pub proof fn lemma_cell_round_trip(v: u8)
    ensures
        wrapping_dec(wrapping_inc(v)) == v,
        wrapping_inc(wrapping_dec(v)) == v,
        wrapping_inc(255) == 0,
        wrapping_dec(0) == 255,
{
}

impl Machine {
    /// The state after `count` increments of the current cell.
    pub open spec fn inc_times(self, count: nat) -> Machine
        decreases count,
    {
        if count == 0 {
            self
        } else {
            self.inc().inc_times((count - 1) as nat)
        }
    }

    /// The state after `count` decrements of the current cell.
    pub open spec fn dec_times(self, count: nat) -> Machine
        decreases count,
    {
        if count == 0 {
            self
        } else {
            self.dec().dec_times((count - 1) as nat)
        }
    }
}

/// One increment followed by one decrement of the current cell, or the
/// other way round, restores the whole state.
pub proof fn lemma_inc_dec_restore(m: Machine)
    requires
        m.wf(),
    ensures
        m.inc().dec() == m,
        m.dec().inc() == m,
{
    lemma_cell_round_trip(m.cell());
    assert(m.inc().dec().tape =~= m.tape);
    assert(m.dec().inc().tape =~= m.tape);
}

/// Increments and decrements of the current cell commute.
proof fn lemma_inc_dec_commute(m: Machine)
    requires
        m.wf(),
    ensures
        m.inc().dec() == m.dec().inc(),
{
    lemma_inc_dec_restore(m);
}

/// A decrement moves through any number of increments.
proof fn lemma_dec_after_incs(m: Machine, count: nat)
    requires
        m.wf(),
    ensures
        m.inc_times(count).wf(),
        m.inc_times(count).dec() == m.dec().inc_times(count),
    decreases count,
{
    if count > 0 {
        lemma_inc_dec_commute(m);
        lemma_dec_after_incs(m.inc(), (count - 1) as nat);
        lemma_inc_dec_restore(m);
        assert(m.dec().inc_times(count) == m.dec().inc().inc_times((count - 1) as nat));
    }
}

/// An increment moves through any number of decrements.
proof fn lemma_inc_after_decs(m: Machine, count: nat)
    requires
        m.wf(),
    ensures
        m.dec_times(count).wf(),
        m.dec_times(count).inc() == m.inc().dec_times(count),
    decreases count,
{
    if count > 0 {
        lemma_inc_dec_commute(m);
        lemma_inc_after_decs(m.dec(), (count - 1) as nat);
        lemma_inc_dec_restore(m);
        assert(m.inc().dec_times(count) == m.inc().dec().dec_times((count - 1) as nat));
    }
}

/// Any number of increments followed by as many decrements of the current
/// cell, or the other way round, restores the whole state, however often
/// the cell wraps on the way.
pub proof fn lemma_matched_pairs_restore(m: Machine, count: nat)
    requires
        m.wf(),
    ensures
        m.inc_times(count).dec_times(count) == m,
        m.dec_times(count).inc_times(count) == m,
    decreases count,
{
    if count > 0 {
        let rest = (count - 1) as nat;
        lemma_inc_dec_restore(m);
        // inc^count then dec^count: the first decrement cancels the first increment.
        lemma_dec_after_incs(m.inc(), rest);
        assert(m.inc_times(count).dec() == m.inc().dec().inc_times(rest));
        assert(m.inc_times(count).dec_times(count) == m.inc_times(rest).dec_times(rest));
        lemma_inc_after_decs(m.dec(), rest);
        assert(m.dec_times(count).inc() == m.dec().inc().dec_times(rest));
        assert(m.dec_times(count).inc_times(count) == m.dec_times(rest).inc_times(rest));
        lemma_matched_pairs_restore(m, rest);
    }
}

/// Moving right and then left restores the whole state, from every cell
/// but the last, where moving right is a fault.
pub proof fn lemma_right_then_left_restores(m: Machine)
    requires
        m.wf(),
        m.data_pointer + 1 < m.tape.len(),
    ensures
        m.mov_right() is Ok,
        m.mov_right()->Ok_0.mov_left() == m,
{
}

/// Moving left and then right restores the whole state, from every cell
/// but the first, where moving left does nothing.
pub proof fn lemma_left_then_right_restores(m: Machine)
    requires
        m.wf(),
        m.data_pointer > 0,
    ensures
        m.mov_left().mov_right() == Ok::<Machine, FaultKind>(m),
{
}

/// The nesting of a stretch of program is the sum of the nestings of its
/// two parts.
pub proof fn lemma_nesting_splits(program: Seq<char>, from: int, mid: int, to: int)
    requires
        from <= mid <= to,
    ensures
        nesting(program, from, to) == nesting(program, from, mid) + nesting(program, mid, to),
    decreases to - mid,
{
    if mid < to {
        lemma_nesting_splits(program, from, mid, to - 1);
    }
}

/// Inside a loop the nesting never drops below the level of its opener.
pub proof fn lemma_nesting_inside_loop(program: Seq<char>, open: int, close: int, at: int)
    requires
        closes(program, open, close),
        open < at <= close,
    ensures
        nesting(program, open + 1, at) >= 0,
    decreases at - open,
{
    if at > open + 1 {
        lemma_nesting_inside_loop(program, open, close, at - 1);
        if program[at - 1] == ']' {
            assert(nesting(program, open + 1, at - 1) > 0);
        }
    }
}

/// Loops nest: a loop that opens inside another closes inside it too. The
/// scan for the outer loop's end therefore never stops at the closing
/// bracket of an inner loop, and the scan for an inner loop's end never
/// runs on to the closing bracket of the outer one.
pub proof fn lemma_inner_loop_closes_inside(
    program: Seq<char>,
    outer_open: int,
    outer_close: int,
    inner_open: int,
    inner_close: int,
)
    requires
        closes(program, outer_open, outer_close),
        closes(program, inner_open, inner_close),
        outer_open < inner_open < outer_close,
        program[inner_open] == '[',
    ensures
        inner_close < outer_close,
{
    lemma_nesting_inside_loop(program, outer_open, outer_close, inner_open);
    assert(nesting(program, outer_open + 1, inner_open + 1) >= 1);
    if inner_close >= outer_close {
        lemma_nesting_splits(program, outer_open + 1, inner_open + 1, outer_close);
        if inner_close > outer_close {
            assert(nesting(program, inner_open + 1, outer_close) > 0);
        }
    }
}

/// A step keeps the invariant of the machine: the data pointer stays on the
/// tape, the instruction pointer within the program or at its end, and
/// every recorded loop start within the program.
pub proof fn lemma_step_keeps_wf(m: Machine)
    requires
        m.wf(),
    ensures
        m.step().wf(),
{
    if !m.terminated() {
        let ticked = m.tick();
        match crate::bracket::matching_close(ticked.program, ticked.instruction_pointer) {
            Some(close) => {
                assert(closes(ticked.program, ticked.instruction_pointer, close));
            },
            None => {},
        }
    }
}

/// What a step leaves alone: the program and the length of the tape never
/// change, every cell but the current one keeps its value, the output only
/// grows at its end, and the step counter never goes down.
pub proof fn lemma_step_frame(m: Machine)
    requires
        m.wf(),
    ensures
        m.step().program == m.program,
        m.step().tape.len() == m.tape.len(),
        forall|i: int|
            0 <= i < m.tape.len() && i != m.data_pointer ==> m.step().tape[i] == m.tape[i],
        m.output.is_prefix_of(m.step().output),
        m.step().steps >= m.steps,
{
}

} // verus!
