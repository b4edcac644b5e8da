//! Loop brackets: what it means for a closing bracket to end the loop that
//! starts at a given position, and the forward scan that finds it.

use vstd::prelude::*;

verus! {

/// What a single program character adds to the loop nesting depth.
pub open spec fn weight(c: char) -> int {
    if c == '[' {
        1
    } else if c == ']' {
        -1
    } else {
        0
    }
}

/// Openers minus closers among the characters at positions `from..to`.
pub open spec fn nesting(program: Seq<char>, from: int, to: int) -> int
    decreases to - from,
{
    if to <= from {
        0
    } else {
        nesting(program, from, to - 1) + weight(program[to - 1])
    }
}

/// The closing bracket at `close` ends the loop whose opener stands at
/// `open`: everything between the two is balanced, and every closer in
/// between ends a loop that was opened in between.
pub open spec fn closes(program: Seq<char>, open: int, close: int) -> bool {
    &&& 0 <= open < close < program.len()
    &&& program[close] == ']'
    &&& nesting(program, open + 1, close) == 0
    &&& forall|k: int|
        open < k < close && program[k] == ']' ==> #[trigger] nesting(program, open + 1, k) > 0
}

/// The position of the closing bracket that ends the loop opened at `open`,
/// if the program has one.
pub open spec fn matching_close(program: Seq<char>, open: int) -> Option<int> {
    if exists|j: int| closes(program, open, j) {
        Some(choose|j: int| closes(program, open, j))
    } else {
        None
    }
}

/// A loop has at most one closing bracket: two positions that both close
/// the loop opened at `open` are the same position.
pub proof fn lemma_closes_unique(program: Seq<char>, open: int, a: int, b: int)
    requires
        closes(program, open, a),
        closes(program, open, b),
    ensures
        a == b,
{
    if a < b {
        assert(nesting(program, open + 1, a) > 0);
    } else if b < a {
        assert(nesting(program, open + 1, b) > 0);
    }
}

/// Whatever closes the loop opened at `open` is the matching close.
pub proof fn lemma_matching_close_is(program: Seq<char>, open: int, close: int)
    requires
        closes(program, open, close),
    ensures
        matching_close(program, open) == Some(close),
{
    let j = choose|j: int| closes(program, open, j);
    lemma_closes_unique(program, open, j, close);
}

/// Scans forward from the opener at `open` for the closing bracket that ends
/// its loop, stepping over nested loops. The character at `open` itself is
/// not inspected; a position past the end of the program opens no loop.
pub fn find_matching_close(program: &Vec<char>, open: usize) -> (found: Option<usize>)
    ensures
        match found {
            Some(close) => closes(program@, open as int, close as int) && matching_close(
                program@,
                open as int,
            ) == Some(close as int),
            None => matching_close(program@, open as int) is None,
        },
{
    if open >= program.len() {
        return None;
    }
    let mut depth: usize = 0;
    let mut at: usize = open + 1;
    while at < program.len()
        invariant
            open < at <= program.len(),
            depth == nesting(program@, open + 1, at as int),
            depth <= at - (open + 1),
            forall|k: int|
                open < k < at && program@[k] == ']' ==> #[trigger] nesting(program@, open + 1, k)
                    > 0,
        decreases program.len() - at,
    {
        let c = program[at];
        if c == ']' {
            if depth == 0 {
                proof {
                    lemma_matching_close_is(program@, open as int, at as int);
                }
                return Some(at);
            }
            depth = depth - 1;
        } else if c == '[' {
            depth = depth + 1;
        }
        at = at + 1;
    }
    None
}

} // verus!
