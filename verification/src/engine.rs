//! The execution engine: the tape, the two pointers, the stack of open
//! loops, and the single-step transition.

use vstd::prelude::*;
use std::collections::VecDeque;
use crate::bracket::find_matching_close;
use crate::command::Command;
use crate::machine::{Event, Fault, FaultKind, Machine};
use crate::snapshot::{window_bounds, window_end, window_start, DebugView};

verus! {

/// Number of cells on the tape of a machine made by [`Brain::new`].
pub const TAPE_LENGTH: usize = 30000;

/// The engine. It owns the tape, the program, both pointers, the stack of
/// open loops, the pending input and the output printed so far.
pub struct Brain {
    data: Vec<u8>,
    data_pointer: usize,
    program: Vec<char>,
    instruction_pointer: usize,
    output_string: String,
    step: usize,
    bracket_markers: Vec<usize>,
    input: VecDeque<u8>,
}

impl View for Brain {
    type V = Machine;

    closed spec fn view(&self) -> Machine {
        Machine {
            tape: self.data@,
            data_pointer: self.data_pointer as int,
            program: self.program@,
            instruction_pointer: self.instruction_pointer as int,
            loops: self.bracket_markers@,
            output: self.output_string@,
            input: self.input@,
            steps: self.step as int,
        }
    }
}

/// `String::push` of the standard library, trusted rather than proved: the
/// string afterwards is the string before with `c` appended, as the
/// method's documentation says.
pub assume_specification[ String::push ](s: &mut String, c: char)
    ensures
        final(s)@ == old(s)@.push(c),
;

/// How an operation that can fault relates the engine before and after to
/// what the model plans: on success the planned state is reached, on a fault
/// the fault is reported and the state is as it was.
pub open spec fn carried_out(
    before: Machine,
    planned: Result<Machine, FaultKind>,
    reported: Result<(), FaultKind>,
    after: Machine,
) -> bool {
    match planned {
        Ok(next) => reported is Ok && after == next,
        Err(kind) => reported == Err::<(), FaultKind>(kind) && after == before,
    }
}

/// The characters of a string, in order.
fn collect_chars(text: &str) -> (chars: Vec<char>)
    ensures
        chars@ == text@,
{
    let mut chars: Vec<char> = Vec::new();
    for c in it: text.chars()
        invariant
            it.seq() == text@,
            chars@ == text@.take(it.index()),
    {
        assert(text@.take(it.index() + 1) =~= text@.take(it.index()).push(c));
        chars.push(c);
    }
    assert(text@.take(text@.len() as int) =~= text@);
    chars
}

impl Brain {
    /// The invariant that every engine satisfies.
    pub open spec fn wf(&self) -> bool {
        self@.wf()
    }

    /// An engine at the start of `program`, with `tape_length` zeroed cells.
    fn build(program: &str, tape_length: usize) -> (brain: Brain)
        requires
            tape_length > 0,
        ensures
            brain.wf(),
            brain@ == Machine::initial(program@, tape_length as nat),
    {
        let data = vec![0u8; tape_length];
        assert(data@ =~= Seq::new(tape_length as nat, |i: int| 0u8));
        let brain = Brain {
            data,
            data_pointer: 0,
            program: collect_chars(program),
            instruction_pointer: 0,
            output_string: String::new(),
            step: 0,
            bracket_markers: Vec::new(),
            input: VecDeque::new(),
        };
        assert(brain.program.len() <= usize::MAX);
        brain
    }

    /// An engine for `program` with the conventional tape of
    /// [`TAPE_LENGTH`] cells. Bracket balance is not inspected.
    pub fn new(program: &str) -> (brain: Brain)
        ensures
            brain.wf(),
            brain@ == Machine::initial(program@, TAPE_LENGTH as nat),
    {
        Brain::build(program, TAPE_LENGTH)
    }

    /// An engine for `program` with a tape of `tape_length` zeroed cells, or
    /// `None` when `tape_length` is zero. Bracket balance is not inspected.
    pub fn with_tape_length(program: &str, tape_length: usize) -> (made: Option<Brain>)
        ensures
            tape_length == 0 <==> made is None,
            made matches Some(brain) ==> brain.wf() && brain@ == Machine::initial(
                program@,
                tape_length as nat,
            ),
    {
        if tape_length == 0 {
            None
        } else {
            Some(Brain::build(program, tape_length))
        }
    }

    /// Supplies one byte of input, to be read after the bytes supplied
    /// before it.
    pub fn feed(&mut self, byte: u8)
        requires
            old(self).wf(),
        ensures
            final(self).wf(),
            final(self)@ == (Machine { input: old(self)@.input.push(byte), ..old(self)@ }),
    {
        self.input.push_back(byte);
    }

    /// Increment the data pointer (to point to the next cell to the right).
    /// At the last cell this is a tape overrun and nothing moves.
    pub fn mov_right(&mut self) -> (reported: Result<(), FaultKind>)
        requires
            old(self).wf(),
        ensures
            final(self).wf(),
            carried_out(old(self)@, old(self)@.mov_right(), reported, final(self)@),
    {
        if self.data_pointer + 1 < self.data.len() {
            self.data_pointer += 1;
            Ok(())
        } else {
            Err(FaultKind::TapeOverrun)
        }
    }

    /// Decrement the data pointer (to point to the next cell to the left).
    /// At cell 0 nothing moves.
    pub fn mov_left(&mut self)
        requires
            old(self).wf(),
        ensures
            final(self).wf(),
            final(self)@ == old(self)@.mov_left(),
    {
        if self.data_pointer == 0 {
            return ;
        }
        self.data_pointer -= 1;
    }

    /// Increment (increase by one) the byte at the data pointer, 255
    /// wrapping to 0.
    pub fn inc(&mut self)
        requires
            old(self).wf(),
        ensures
            final(self).wf(),
            final(self)@ == old(self)@.inc(),
    {
        let at = self.data_pointer;
        if self.data[at] == u8::MAX {
            self.data[at] = 0;
        } else {
            self.data[at] += 1;
        }
    }

    /// Decrement (decrease by one) the byte at the data pointer, 0 wrapping
    /// to 255.
    pub fn dec(&mut self)
        requires
            old(self).wf(),
        ensures
            final(self).wf(),
            final(self)@ == old(self)@.dec(),
    {
        let at = self.data_pointer;
        if self.data[at] == 0 {
            self.data[at] = u8::MAX;
        } else {
            self.data[at] -= 1;
        }
    }

    /// Output the byte at the data pointer: it is appended to the output as
    /// the character with that code, and returned for the caller to emit.
    pub fn print(&mut self) -> (emitted: u8)
        requires
            old(self).wf(),
        ensures
            final(self).wf(),
            final(self)@ == old(self)@.print(),
            emitted == old(self)@.cell(),
    {
        let byte = self.data[self.data_pointer];
        self.output_string.push(byte as char);
        byte
    }

    /// Accept one byte of input, storing its value in the byte at the data
    /// pointer. With no input pending the byte is set to zero. Returns
    /// whether a byte of input was there.
    pub fn read(&mut self) -> (found: bool)
        requires
            old(self).wf(),
        ensures
            final(self).wf(),
            final(self)@ == old(self)@.read(),
            found == (old(self)@.input.len() > 0),
    {
        let at = self.data_pointer;
        match self.input.pop_front() {
            Some(byte) => {
                self.data[at] = byte;
                assert(self.input@ =~= old(self).input@.drop_first());
                true
            },
            None => {
                self.data[at] = 0;
                false
            },
        }
    }

    /// If the byte at the data pointer is zero, jump the instruction pointer
    /// forward to the matching `]`, stepping over nested loops; without a
    /// matching `]` this is an unmatched bracket and nothing moves. If the
    /// byte is nonzero, record the position of this `[` as an open loop.
    pub fn jump_forward(&mut self) -> (reported: Result<(), FaultKind>)
        requires
            old(self).wf(),
            !old(self)@.terminated(),
        ensures
            final(self).wf(),
            carried_out(old(self)@, old(self)@.jump_forward(), reported, final(self)@),
    {
        if self.data[self.data_pointer] == 0 {
            match find_matching_close(&self.program, self.instruction_pointer) {
                Some(close) => {
                    self.instruction_pointer = close;
                    Ok(())
                },
                None => Err(FaultKind::UnmatchedBracket),
            }
        } else {
            self.bracket_markers.push(self.instruction_pointer);
            Ok(())
        }
    }

    /// If the byte at the data pointer is nonzero, jump the instruction
    /// pointer back to the `[` of the innermost open loop; if it is zero,
    /// that loop is over and is forgotten. With no loop open this is an
    /// unmatched bracket and nothing changes.
    pub fn jump_backward(&mut self) -> (reported: Result<(), FaultKind>)
        requires
            old(self).wf(),
        ensures
            final(self).wf(),
            carried_out(old(self)@, old(self)@.jump_backward(), reported, final(self)@),
    {
        let depth = self.bracket_markers.len();
        if depth == 0 {
            return Err(FaultKind::UnmatchedBracket);
        }
        if self.data[self.data_pointer] != 0 {
            self.instruction_pointer = self.bracket_markers[depth - 1];
        } else {
            self.bracket_markers.pop();
        }
        Ok(())
    }

    /// Do the next thing: count the step, run the command under the
    /// instruction pointer, and move the instruction pointer past it. At the
    /// end of the program nothing happens and `Halted` is reported. A
    /// command that faults changes nothing but the step counter.
    pub fn next(&mut self) -> (reported: Result<Event, Fault>)
        requires
            old(self).wf(),
        ensures
            final(self).wf(),
            final(self)@ == old(self)@.step(),
            reported == old(self)@.outcome(),
    {
        let at = self.instruction_pointer;
        if at >= self.program.len() {
            return Ok(Event::Halted);
        }
        if self.step < usize::MAX {
            self.step += 1;
        }
        let done: Result<Event, FaultKind> = match Command::from(self.program[at]) {
            Command::MovRight => match self.mov_right() {
                Ok(()) => Ok(Event::Stepped),
                Err(kind) => Err(kind),
            },
            Command::MovLeft => {
                self.mov_left();
                Ok(Event::Stepped)
            },
            Command::Inc => {
                self.inc();
                Ok(Event::Stepped)
            },
            Command::Dec => {
                self.dec();
                Ok(Event::Stepped)
            },
            Command::Print => Ok(Event::Printed(self.print())),
            Command::Read => if self.read() {
                Ok(Event::Stepped)
            } else {
                Ok(Event::InputExhausted)
            },
            Command::JumpForward => match self.jump_forward() {
                Ok(()) => Ok(Event::Stepped),
                Err(kind) => Err(kind),
            },
            Command::JumpBackward => match self.jump_backward() {
                Ok(()) => Ok(Event::Stepped),
                Err(kind) => Err(kind),
            },
            Command::Invalid => Ok(Event::Stepped),
        };
        match done {
            Ok(event) => {
                self.instruction_pointer += 1;
                Ok(event)
            },
            Err(kind) => Err(Fault { kind, instruction_pointer: at, step: self.step }),
        }
    }

    /// Runs the program one step at a time, for at most `limit` steps.
    /// Returns `Ok(true)` once the end of the program is reached,
    /// `Ok(false)` when the limit ran out first, and the fault of the first
    /// command that faults.
    pub fn run(&mut self, limit: usize) -> (reported: Result<bool, Fault>)
        requires
            old(self).wf(),
        ensures
            final(self).wf(),
            final(self)@ == old(self)@.run(limit as nat).0,
            reported == old(self)@.run(limit as nat).1,
    {
        let mut left = limit;
        while left > 0 && self.instruction_pointer < self.program.len()
            invariant
                self.wf(),
                old(self)@.run(limit as nat) == self@.run(left as nat),
            decreases left,
        {
            match self.next() {
                Ok(_) => {},
                Err(fault) => {
                    return Err(fault);
                },
            }
            left -= 1;
        }
        Ok(self.instruction_pointer >= self.program.len())
    }

    /// Index of the next command.
    pub fn instruction_pointer(&self) -> (at: usize)
        ensures
            at == self@.instruction_pointer,
    {
        self.instruction_pointer
    }

    /// Index of the current cell.
    pub fn data_pointer(&self) -> (at: usize)
        ensures
            at == self@.data_pointer,
    {
        self.data_pointer
    }

    /// Commands dispatched so far.
    pub fn steps(&self) -> (count: usize)
        ensures
            count == self@.steps,
    {
        self.step
    }

    /// Number of loops now open.
    pub fn loop_depth(&self) -> (depth: usize)
        ensures
            depth == self@.loops.len(),
    {
        self.bracket_markers.len()
    }

    /// Number of cells on the tape.
    pub fn tape_length(&self) -> (length: usize)
        ensures
            length == self@.tape.len(),
    {
        self.data.len()
    }

    /// The byte at the data pointer.
    pub fn cell(&self) -> (byte: u8)
        requires
            self.wf(),
        ensures
            byte == self@.cell(),
    {
        self.data[self.data_pointer]
    }

    /// The byte in the cell at `index`, or `None` past the end of the tape.
    pub fn cell_at(&self, index: usize) -> (byte: Option<u8>)
        ensures
            byte == if index < self@.tape.len() {
                Some(self@.tape[index as int])
            } else {
                None
            },
    {
        if index < self.data.len() {
            Some(self.data[index])
        } else {
            None
        }
    }

    /// Whether the instruction pointer has reached the end of the program.
    pub fn is_terminated(&self) -> (done: bool)
        ensures
            done == self@.terminated(),
    {
        self.instruction_pointer >= self.program.len()
    }

    /// The command under the instruction pointer, or `None` at the end of
    /// the program.
    pub fn command(&self) -> (current: Option<Command>)
        ensures
            current == if self@.terminated() {
                None
            } else {
                Some(self@.command())
            },
    {
        if self.instruction_pointer < self.program.len() {
            Some(Command::from(self.program[self.instruction_pointer]))
        } else {
            None
        }
    }

    /// Whether the next step is a read that would find no input. A caller
    /// with a source of input feeds a byte before it takes that step.
    pub fn awaiting_input(&self) -> (waiting: bool)
        ensures
            waiting == (!self@.terminated() && self@.command() == Command::Read
                && self@.input.len() == 0),
    {
        match self.command() {
            Some(Command::Read) => self.input.len() == 0,
            _ => false,
        }
    }

    /// The program, one entry per source character.
    pub fn program(&self) -> (program: &Vec<char>)
        ensures
            program@ == self@.program,
    {
        &self.program
    }

    /// Everything printed so far.
    pub fn output(&self) -> (output: &String)
        ensures
            output@ == self@.output,
    {
        &self.output_string
    }

    /// A picture of the engine as it stands: both pointers, the current
    /// command, the step count, the cells around the data pointer, the
    /// program and the output.
    pub fn snapshot(&self) -> (view: DebugView)
        requires
            self.wf(),
        ensures
            view.instruction_pointer == self@.instruction_pointer,
            view.command == if self@.terminated() {
                None
            } else {
                Some(self@.command())
            },
            view.step == self@.steps,
            view.data_pointer == self@.data_pointer,
            view.window_start == window_start(self@.data_pointer),
            view.window@ == self@.tape.subrange(
                window_start(self@.data_pointer),
                window_end(self@.data_pointer, self@.tape.len() as int),
            ),
            view.program@ == self@.program,
            view.output@ == self@.output,
    {
        let (start, end) = window_bounds(self.data_pointer, self.data.len());
        let mut window: Vec<u8> = Vec::new();
        let mut at = start;
        assert(window@ =~= self.data@.subrange(start as int, start as int));
        while at < end
            invariant
                start <= at <= end <= self.data.len(),
                window@ == self.data@.subrange(start as int, at as int),
            decreases end - at,
        {
            window.push(self.data[at]);
            at += 1;
            assert(window@ =~= self.data@.subrange(start as int, at as int));
        }
        DebugView {
            instruction_pointer: self.instruction_pointer,
            command: self.command(),
            step: self.step,
            data_pointer: self.data_pointer,
            window_start: start,
            window,
            program: self.program.clone(),
            output: self.output_string.clone(),
        }
    }
}

} // verus!
