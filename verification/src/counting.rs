//! Laws of loops that count a cell down to zero: how many steps they take
//! and where they leave the machine.

use vstd::prelude::*;
use crate::bracket::{closes, lemma_matching_close_is, nesting};
use crate::command::Command;
use crate::laws::lemma_step_keeps_wf;
use crate::machine::Machine;

verus! {

impl Machine {
    /// The state `count` steps on.
    pub open spec fn after(self, count: nat) -> Machine
        decreases count,
    {
        if count == 0 {
            self
        } else {
            self.step().after((count - 1) as nat)
        }
    }

    /// Each of the next `count` steps runs a command, and none of them
    /// faults.
    pub open spec fn runs_clean(self, count: nat) -> bool
        decreases count,
    {
        count == 0 || (!self.terminated() && self.outcome() is Ok && self.step().runs_clean(
            (count - 1) as nat,
        ))
    }
}

/// Steps add up: `first + second` steps are `first` steps and then `second`
/// more, and they run clean if both stretches do.
pub proof fn lemma_steps_add_up(m: Machine, first: nat, second: nat)
    ensures
        m.after(first + second) == m.after(first).after(second),
        m.runs_clean(first) && m.after(first).runs_clean(second) ==> m.runs_clean(first + second),
    decreases first,
{
    if first > 0 {
        lemma_steps_add_up(m.step(), (first - 1) as nat, second);
        assert(m.after(first + second) == m.step().after((first + second - 1) as nat));
    }
}

/// A run with a limit follows the steps: where the next `count` steps run
/// clean and the limit allows them, the run goes through the state `count`
/// steps on and continues from there with what is left of the limit.
pub proof fn lemma_run_follows_steps(m: Machine, count: nat, limit: nat)
    requires
        m.runs_clean(count),
        limit >= count,
    ensures
        m.run(limit) == m.after(count).run((limit - count) as nat),
    decreases count,
{
    if count > 0 {
        lemma_run_follows_steps(m.step(), (count - 1) as nat, (limit - 1) as nat);
    }
}

/// The step counter `count` steps after it stood at `steps`.
pub open spec fn steps_after(steps: int, count: int) -> int {
    if steps + count <= usize::MAX {
        steps + count
    } else {
        usize::MAX as int
    }
}

/// The three characters from `open` on are a loop whose whole body is one
/// decrement.
pub open spec fn countdown_at(program: Seq<char>, open: int) -> bool {
    &&& 0 <= open
    &&& open + 2 < program.len()
    &&& program[open] == '['
    &&& program[open + 1] == '-'
    &&& program[open + 2] == ']'
}

impl Machine {
    /// The state in which a countdown loop opened at `open` leaves a
    /// machine that took `count` steps over it: the current cell at zero,
    /// the instruction pointer just past the loop, and `loops` open.
    pub open spec fn past_countdown(self, open: int, loops: Seq<usize>, count: int) -> Machine {
        Machine {
            tape: self.tape.update(self.data_pointer, 0),
            instruction_pointer: open + 3,
            loops,
            steps: steps_after(self.steps, count),
            ..self
        }
    }
}

/// Inside a countdown loop, at its decrement with a nonzero cell: the loop
/// goes on for as many rounds as the cell's value, two steps each.
proof fn lemma_countdown_rounds(m: Machine, open: int)
    requires
        m.wf(),
        countdown_at(m.program, open),
        m.instruction_pointer == open + 1,
        m.loops.len() > 0,
        m.loops.last() == open,
        m.cell() > 0,
    ensures
        m.runs_clean((2 * m.cell()) as nat),
        m.after((2 * m.cell()) as nat) == m.past_countdown(
            open,
            m.loops.drop_last(),
            2 * m.cell(),
        ),
    decreases m.cell(),
{
    let rounds = m.cell();
    let at_close = m.step();
    assert(m.command() == Command::Dec);
    assert(at_close == m.tick().dec().advance());
    assert(at_close.command() == Command::JumpBackward);
    assert(at_close.cell() == rounds - 1);
    let next = at_close.step();
    assert(m.after((2 * rounds) as nat) == next.after((2 * rounds - 2) as nat)) by {
        assert(m.after((2 * rounds) as nat) == at_close.after((2 * rounds - 1) as nat));
    }
    assert(m.runs_clean((2 * rounds) as nat) == next.runs_clean((2 * rounds - 2) as nat)) by {
        assert(at_close.runs_clean((2 * rounds - 1) as nat) == next.runs_clean(
            (2 * rounds - 2) as nat,
        ));
    }
    if rounds == 1 {
        assert(next.tape =~= m.tape.update(m.data_pointer, 0));
        assert(next == m.past_countdown(open, m.loops.drop_last(), 2));
    } else {
        assert(next.instruction_pointer == open + 1);
        lemma_countdown_rounds(next, open);
        assert(next.tape.update(next.data_pointer, 0) =~= m.tape.update(m.data_pointer, 0));
        assert(next.past_countdown(open, next.loops.drop_last(), 2 * next.cell())
            == m.past_countdown(open, m.loops.drop_last(), 2 * rounds));
    }
}

/// A loop whose body is a single decrement of the current cell runs its
/// body exactly as many times as the cell's value on entry. From its
/// opening bracket the machine takes one step to enter or skip the loop
/// and two steps for every round, none of which faults, and then stands
/// just past the loop with the cell at zero and everything else, the step
/// counter apart, as it was.
pub proof fn lemma_countdown_loop(m: Machine)
    requires
        m.wf(),
        countdown_at(m.program, m.instruction_pointer),
    ensures
        m.runs_clean((2 * m.cell() + 1) as nat),
        m.after((2 * m.cell() + 1) as nat) == m.past_countdown(
            m.instruction_pointer,
            m.loops,
            2 * m.cell() + 1,
        ),
{
    let open = m.instruction_pointer;
    let rounds = m.cell();
    let inside = m.step();
    assert(m.command() == Command::JumpForward);
    assert(m.after((2 * rounds + 1) as nat) == inside.after((2 * rounds) as nat));
    if rounds == 0 {
        assert(nesting(m.program, open + 1, open + 1) == 0);
        assert(nesting(m.program, open + 1, open + 2) == 0);
        assert(closes(m.program, open, open + 2));
        lemma_matching_close_is(m.program, open, open + 2);
        assert(m.tape.update(m.data_pointer, 0) =~= m.tape);
        assert(inside == m.past_countdown(open, m.loops, 1));
        assert(inside.runs_clean(0));
    } else {
        assert(m.runs_clean((2 * rounds + 1) as nat) == inside.runs_clean((2 * rounds) as nat));
        assert(inside.loops.drop_last() =~= m.loops);
        lemma_countdown_rounds(inside, open);
        assert(inside.past_countdown(open, inside.loops.drop_last(), 2 * rounds)
            == m.past_countdown(open, m.loops, 2 * rounds + 1));
    }
}

/// The machine stands on the first command of the body of the loop opened
/// at `open` in `program`, and that loop is its innermost open loop.
pub open spec fn in_loop(s: Machine, program: Seq<char>, open: int) -> bool {
    &&& s.wf()
    &&& s.program == program
    &&& s.instruction_pointer == open + 1
    &&& s.loops.len() > 0
    &&& s.loops.last() == open
}

/// One pass over a loop body took the machine from `before` to `after`: it
/// now stands on the closing bracket at `close`, the data pointer is back
/// on the cell it started on, that cell is one lower, and the same loops
/// are open.
pub open spec fn round_done(before: Machine, after: Machine, close: int) -> bool {
    &&& after.wf()
    &&& after.program == before.program
    &&& after.instruction_pointer == close
    &&& after.loops == before.loops
    &&& after.data_pointer == before.data_pointer
    &&& after.cell() == before.cell() - 1
}

/// The body of the loop from `open` to `close` counts its loop down: begun
/// on a nonzero cell in a state that `holds`, it takes `cost` steps without
/// a fault to a round done, and where another round follows, that round
/// begins in a state that `holds` again.
pub open spec fn body_counts_down(
    program: Seq<char>,
    open: int,
    close: int,
    cost: nat,
    holds: spec_fn(Machine) -> bool,
) -> bool {
    forall|s: Machine| #[trigger]
        in_loop(s, program, open) && holds(s) && s.cell() > 0 ==> {
            &&& s.runs_clean(cost)
            &&& round_done(s, s.after(cost), close)
            &&& s.cell() > 1 ==> holds(s.after(cost + 1))
        }
}

/// Steps that a loop takes whose counter stands at `count` on entry and
/// whose body takes `cost` steps: one to enter or skip it, and for each
/// round the body and the closing bracket.
pub open spec fn loop_steps(count: nat, cost: nat) -> nat {
    1 + count * (cost + 1)
}

/// Inside a loop whose body counts it down, on a nonzero cell: the loop
/// goes on for as many rounds as the cell's value and then ends.
proof fn lemma_counting_rounds(
    s: Machine,
    open: int,
    close: int,
    cost: nat,
    holds: spec_fn(Machine) -> bool,
)
    requires
        in_loop(s, s.program, open),
        open < close < s.program.len(),
        s.program[close] == ']',
        body_counts_down(s.program, open, close, cost, holds),
        holds(s),
        s.cell() > 0,
    ensures
        ({
            let total = (s.cell() * (cost + 1)) as nat;
            let end = s.after(total);
            &&& s.runs_clean(total)
            &&& end.wf()
            &&& end.program == s.program
            &&& end.instruction_pointer == close + 1
            &&& end.data_pointer == s.data_pointer
            &&& end.cell() == 0
            &&& end.loops == s.loops.drop_last()
        }),
    decreases s.cell(),
{
    let rounds = s.cell();
    let rest = ((rounds - 1) * (cost + 1)) as nat;
    assert(rounds * (cost + 1) == cost + 1 + (rounds - 1) * (cost + 1)) by (nonlinear_arith);
    assert((rounds - 1) * (cost + 1) >= 0) by (nonlinear_arith)
        requires
            rounds >= 1,
            cost >= 0,
    ;
    assert(in_loop(s, s.program, open));
    let at_close = s.after(cost);
    assert(round_done(s, at_close, close));
    assert(at_close.command() == Command::JumpBackward);
    let next = at_close.step();
    assert(at_close.after(1) == next) by {
        assert(next.after(0) == next);
    }
    assert(at_close.runs_clean(1)) by {
        assert(next.runs_clean(0));
    }
    lemma_steps_add_up(s, cost, 1);
    lemma_steps_add_up(s, cost + 1, rest);
    if rounds > 1 {
        lemma_counting_rounds(next, open, close, cost, holds);
    } else {
        assert(rest == 0) by (nonlinear_arith)
            requires
                rounds == 1,
                rest == (rounds - 1) * (cost + 1),
        ;
        assert(next.after(0) == next);
        assert(next.runs_clean(0));
    }
}

/// A loop whose body counts it down runs that body exactly as many times
/// as the value of its counter on entry. Let the machine stand on an
/// opening bracket whose loop ends at `close`, with the value N in the
/// current cell, and let every pass over the body, begun on a nonzero
/// counter, come to the closing bracket in `cost` steps with the data
/// pointer back on the counter and the counter one lower. Then the machine
/// takes one step to enter or skip the loop and N rounds of `cost + 1`
/// steps, none of which faults, and stands just past the closing bracket
/// with the counter at zero, the data pointer on it, and the loops open
/// that were open before.
pub proof fn lemma_counting_loop(
    m: Machine,
    close: int,
    cost: nat,
    holds: spec_fn(Machine) -> bool,
)
    requires
        m.wf(),
        !m.terminated(),
        m.program[m.instruction_pointer] == '[',
        closes(m.program, m.instruction_pointer, close),
        body_counts_down(m.program, m.instruction_pointer, close, cost, holds),
        m.cell() > 0 ==> holds(m.step()),
    ensures
        ({
            let total = loop_steps(m.cell() as nat, cost);
            let end = m.after(total);
            &&& m.runs_clean(total)
            &&& end.wf()
            &&& end.program == m.program
            &&& end.instruction_pointer == close + 1
            &&& end.data_pointer == m.data_pointer
            &&& end.cell() == 0
            &&& end.loops == m.loops
        }),
{
    let open = m.instruction_pointer;
    let inside = m.step();
    let rest = (m.cell() * (cost + 1)) as nat;
    assert(m.cell() * (cost + 1) >= 0) by (nonlinear_arith)
        requires
            m.cell() >= 0,
            cost >= 0,
    ;
    assert(m.command() == Command::JumpForward);
    assert(m.after(1) == inside) by {
        assert(inside.after(0) == inside);
    }
    assert(m.runs_clean(1)) by {
        if m.cell() == 0 {
            lemma_matching_close_is(m.program, open, close);
        }
        assert(inside.runs_clean(0));
    }
    lemma_steps_add_up(m, 1, rest);
    lemma_step_keeps_wf(m);
    if m.cell() == 0 {
        lemma_matching_close_is(m.program, open, close);
        assert(rest == 0) by (nonlinear_arith)
            requires
                m.cell() == 0,
                rest == m.cell() * (cost + 1),
        ;
        assert(inside.after(0) == inside);
        assert(inside.runs_clean(0));
    } else {
        assert(inside.loops.drop_last() =~= m.loops);
        lemma_counting_rounds(inside, open, close, cost, holds);
    }
}

} // verus!
