//! A read-only picture of the engine for whoever renders or inspects it.

use vstd::prelude::*;
use crate::command::Command;

verus! {

/// Most cells that a snapshot shows of the tape.
pub const WINDOW_WIDTH: usize = 30;

/// Cells that a snapshot shows to the left of the data pointer, where the
/// tape has that many.
pub const WINDOW_LEAD: usize = 15;

/// Index of the first cell in the window around `data_pointer`.
pub open spec fn window_start(data_pointer: int) -> int {
    if data_pointer < WINDOW_LEAD {
        0
    } else {
        data_pointer - WINDOW_LEAD
    }
}

/// Index one past the last cell in the window around `data_pointer` on a
/// tape of `tape_length` cells.
pub open spec fn window_end(data_pointer: int, tape_length: int) -> int {
    if window_start(data_pointer) + WINDOW_WIDTH < tape_length {
        window_start(data_pointer) + WINDOW_WIDTH
    } else {
        tape_length
    }
}

/// The bounds of the window of tape around `data_pointer`: at most
/// `WINDOW_WIDTH` cells, the data pointer among them.
pub fn window_bounds(data_pointer: usize, tape_length: usize) -> (bounds: (usize, usize))
    requires
        data_pointer < tape_length,
    ensures
        bounds.0 == window_start(data_pointer as int),
        bounds.1 == window_end(data_pointer as int, tape_length as int),
        bounds.0 <= data_pointer < bounds.1 <= tape_length,
        bounds.1 - bounds.0 <= WINDOW_WIDTH,
{
    let start = if data_pointer < WINDOW_LEAD {
        0
    } else {
        data_pointer - WINDOW_LEAD
    };
    let end = if tape_length - start > WINDOW_WIDTH {
        start + WINDOW_WIDTH
    } else {
        tape_length
    };
    (start, end)
}

/// The state of an engine at one moment, as plain values.
#[derive(Debug)]
pub struct DebugView {
    /// Index of the next command.
    pub instruction_pointer: usize,
    /// The next command; `None` at the end of the program.
    pub command: Option<Command>,
    /// Commands dispatched so far.
    pub step: usize,
    /// Index of the current cell.
    pub data_pointer: usize,
    /// Index on the tape of the first cell of `window`.
    pub window_start: usize,
    /// The cells of the tape around the data pointer.
    pub window: Vec<u8>,
    /// The whole program, one entry per source character.
    pub program: Vec<char>,
    /// Everything printed so far.
    pub output: String,
}

} // verus!
