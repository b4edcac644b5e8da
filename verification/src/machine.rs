//! The mathematical model of the engine: a machine state and the transition
//! that each command makes on it.

use vstd::prelude::*;
use crate::bracket::matching_close;
use crate::command::{decode, Command};

verus! {

/// Why a run stopped before the end of its program.
#[derive(Debug, Clone, Copy, PartialEq, Eq, Structural)]
pub enum FaultKind {
    /// The data pointer would have moved past the last cell of the tape.
    TapeOverrun,
    /// A closing bracket with no open loop, or an opening bracket whose
    /// closing bracket is missing.
    UnmatchedBracket,
}

/// A fault together with the place where it arose.
#[derive(Debug, Clone, Copy, PartialEq, Eq, Structural)]
pub struct Fault {
    pub kind: FaultKind,
    /// Position of the command that faulted.
    pub instruction_pointer: usize,
    /// Value of the step counter when the command faulted, that command
    /// included.
    pub step: usize,
}

/// What a successful step did that its caller may have to act on.
#[derive(Debug, Clone, Copy, PartialEq, Eq, Structural)]
pub enum Event {
    /// A command ran and nothing left the machine.
    Stepped,
    /// A print command ran and emitted this byte.
    Printed(u8),
    /// A read command found no input; the current cell was set to zero.
    InputExhausted,
    /// The instruction pointer is at the end of the program; nothing ran.
    Halted,
}

/// A cell value one higher, 255 wrapping to 0.
pub open spec fn wrapping_inc(v: u8) -> u8 {
    if v == 255 {
        0
    } else {
        (v + 1) as u8
    }
}

/// A cell value one lower, 0 wrapping to 255.
pub open spec fn wrapping_dec(v: u8) -> u8 {
    if v == 0 {
        255
    } else {
        (v - 1) as u8
    }
}

/// Every recorded loop start is a position in a program of this length.
pub open spec fn within(loops: Seq<usize>, length: nat) -> bool {
    forall|i: int| 0 <= i < loops.len() ==> #[trigger] loops[i] < length
}

/// The state of the engine as plain mathematical values.
pub struct Machine {
    /// The cells, left to right.
    pub tape: Seq<u8>,
    /// Index of the current cell.
    pub data_pointer: int,
    /// The program, one entry per source character.
    pub program: Seq<char>,
    /// Index of the next command.
    pub instruction_pointer: int,
    /// Positions of the opening brackets of the loops now running,
    /// outermost first.
    pub loops: Seq<usize>,
    /// Everything printed so far.
    pub output: Seq<char>,
    /// Bytes supplied and not yet read, oldest first.
    pub input: Seq<u8>,
    /// Commands dispatched so far; stays at `usize::MAX` once it gets there.
    pub steps: int,
}

impl Machine {
    /// The state in which a program starts: a zeroed tape, both pointers at
    /// zero, no open loops, no output and no input.
    pub open spec fn initial(program: Seq<char>, tape_length: nat) -> Machine {
        Machine {
            tape: Seq::new(tape_length, |i: int| 0u8),
            data_pointer: 0,
            program,
            instruction_pointer: 0,
            loops: Seq::empty(),
            output: Seq::empty(),
            input: Seq::empty(),
            steps: 0,
        }
    }

    /// The invariant of every reachable state.
    pub open spec fn wf(self) -> bool {
        &&& 0 <= self.data_pointer < self.tape.len() <= usize::MAX
        &&& 0 <= self.instruction_pointer <= self.program.len() <= usize::MAX
        &&& 0 <= self.steps <= usize::MAX
        &&& within(self.loops, self.program.len())
    }

    /// The instruction pointer has reached the end of the program.
    pub open spec fn terminated(self) -> bool {
        self.instruction_pointer >= self.program.len()
    }

    /// The command under the instruction pointer.
    pub open spec fn command(self) -> Command
        recommends
            !self.terminated(),
    {
        decode(self.program[self.instruction_pointer])
    }

    /// The value of the current cell.
    pub open spec fn cell(self) -> u8 {
        self.tape[self.data_pointer]
    }

    /// The same state with the current cell replaced.
    pub open spec fn with_cell(self, v: u8) -> Machine {
        Machine { tape: self.tape.update(self.data_pointer, v), ..self }
    }

    /// Move the data pointer one cell to the right; a fault at the last cell.
    pub open spec fn mov_right(self) -> Result<Machine, FaultKind> {
        if self.data_pointer + 1 < self.tape.len() {
            Ok(Machine { data_pointer: self.data_pointer + 1, ..self })
        } else {
            Err(FaultKind::TapeOverrun)
        }
    }

    /// Move the data pointer one cell to the left; it stays at cell 0.
    pub open spec fn mov_left(self) -> Machine {
        if self.data_pointer == 0 {
            self
        } else {
            Machine { data_pointer: self.data_pointer - 1, ..self }
        }
    }

    /// Add one to the current cell, modulo 256.
    pub open spec fn inc(self) -> Machine {
        self.with_cell(wrapping_inc(self.cell()))
    }

    /// Subtract one from the current cell, modulo 256.
    pub open spec fn dec(self) -> Machine {
        self.with_cell(wrapping_dec(self.cell()))
    }

    /// Append the current cell, as a character, to the output.
    pub open spec fn print(self) -> Machine {
        Machine { output: self.output.push(self.cell() as char), ..self }
    }

    /// Store the oldest pending input byte in the current cell; with no
    /// input pending, store zero.
    pub open spec fn read(self) -> Machine {
        if self.input.len() > 0 {
            Machine { input: self.input.drop_first(), ..self.with_cell(self.input[0]) }
        } else {
            self.with_cell(0)
        }
    }

    /// Enter a loop. On a zero cell the instruction pointer goes to the
    /// closing bracket of this loop, and it is a fault if there is none.
    /// Otherwise the opener's position joins the open loops.
    pub open spec fn jump_forward(self) -> Result<Machine, FaultKind> {
        if self.cell() == 0 {
            match matching_close(self.program, self.instruction_pointer) {
                Some(close) => Ok(Machine { instruction_pointer: close, ..self }),
                None => Err(FaultKind::UnmatchedBracket),
            }
        } else {
            Ok(Machine { loops: self.loops.push(self.instruction_pointer as usize), ..self })
        }
    }

    /// Reach the end of a loop. With no loop open it is a fault. On a
    /// nonzero cell the instruction pointer goes back to the opener of the
    /// innermost open loop; on a zero cell that loop is closed.
    pub open spec fn jump_backward(self) -> Result<Machine, FaultKind> {
        if self.loops.len() == 0 {
            Err(FaultKind::UnmatchedBracket)
        } else if self.cell() != 0 {
            Ok(Machine { instruction_pointer: self.loops.last() as int, ..self })
        } else {
            Ok(Machine { loops: self.loops.drop_last(), ..self })
        }
    }

    /// What the command under the instruction pointer does to the state,
    /// before the instruction pointer advances.
    pub open spec fn execute(self) -> Result<Machine, FaultKind>
        recommends
            !self.terminated(),
    {
        match self.command() {
            Command::MovRight => self.mov_right(),
            Command::MovLeft => Ok(self.mov_left()),
            Command::Inc => Ok(self.inc()),
            Command::Dec => Ok(self.dec()),
            Command::Print => Ok(self.print()),
            Command::Read => Ok(self.read()),
            Command::JumpForward => self.jump_forward(),
            Command::JumpBackward => self.jump_backward(),
            Command::Invalid => Ok(self),
        }
    }

    /// The same state with the step counter one higher, unless the counter
    /// is at its ceiling.
    pub open spec fn tick(self) -> Machine {
        if self.steps < usize::MAX {
            Machine { steps: self.steps + 1, ..self }
        } else {
            self
        }
    }

    /// The same state with the instruction pointer one further.
    pub open spec fn advance(self) -> Machine {
        Machine { instruction_pointer: self.instruction_pointer + 1, ..self }
    }

    /// The state after one step. A terminated machine stays as it is. A
    /// command that faults leaves everything but the step counter unchanged.
    pub open spec fn step(self) -> Machine {
        if self.terminated() {
            self
        } else {
            match self.tick().execute() {
                Ok(next) => next.advance(),
                Err(_) => self.tick(),
            }
        }
    }

    /// What one step reports to its caller.
    pub open spec fn outcome(self) -> Result<Event, Fault> {
        if self.terminated() {
            Ok(Event::Halted)
        } else {
            match self.tick().execute() {
                Ok(_) => Ok(
                    match self.command() {
                        Command::Print => Event::Printed(self.cell()),
                        Command::Read => if self.input.len() > 0 {
                            Event::Stepped
                        } else {
                            Event::InputExhausted
                        },
                        _ => Event::Stepped,
                    },
                ),
                Err(kind) => Err(
                    Fault {
                        kind,
                        instruction_pointer: self.instruction_pointer as usize,
                        step: self.tick().steps as usize,
                    },
                ),
            }
        }
    }

    /// The state and the report after running for at most `limit` steps:
    /// `Ok(true)` at the end of the program, `Ok(false)` when the limit was
    /// reached first, and the fault of the first command that faults.
    pub open spec fn run(self, limit: nat) -> (Machine, Result<bool, Fault>)
        decreases limit,
    {
        if self.terminated() {
            (self, Ok(true))
        } else if limit == 0 {
            (self, Ok(false))
        } else {
            match self.outcome() {
                Err(fault) => (self.step(), Err(fault)),
                Ok(_) => self.step().run((limit - 1) as nat),
            }
        }
    }
}

} // verus!
