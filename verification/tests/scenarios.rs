use brain::engine::{Brain, TAPE_LENGTH};
use brain::machine::{Event, Fault, FaultKind};

const HELLO_WORLD: &str = "++++++++[>++++[>++>+++>+++>+<<<<-]>+>+>->>+[<]<-]>>.>---.+++++++..+++.>>.<-.<.+++.------.--------.>>+.>++.";

const ADD_TWO_AND_FIVE: &str = "++       Cell c0 = 2
    > +++++  Cell c1 = 5
    [        Start your loops with your cell pointer on the loop counter (c1 in our case)
    < +      Add 1 to c0
    > -      Subtract 1 from c1
    ]    ";

const CELL_WIDTH: &str = "Calculate the value 256 and test if it's zero
    If the interpreter errors on overflow this is where it'll happen
    ++++++++[>++++++++<-]>[<++++>-]
    +<[>-<
        Not zero so multiply by 256 again to get 65536
        [>++++<-]>[<++++++++>-]<[>++++++++<-]
        +>[>
            # Print \"32\"
            ++++++++++[>+++++<-]>+.-.[-]<
        <[-]<->] <[>>
            # Print \"16\"
            +++++++[>+++++++<-]>.+++++.[-]<
    <<-]] >[>
        # Print \"8\"
        ++++++++[>+++++++<-]>.[-]<
    <-]<
    # Print \" bit cells\\n\"
    +++++++++++[>+++>+++++++++>+++++++++>+<<<<-]>-.>-.+++++++.+++++++++++.<.
    >>.++.+++++++..<-.>>-
    Clean up used cells.
    [[-]<]";

fn finish(brain: &mut Brain) -> Result<(), Fault> {
    while !brain.is_terminated() {
        brain.next()?;
    }
    Ok(())
}

#[test]
fn add_two_and_five_leaves_seven_in_cell_zero() {
    let mut brain = Brain::new("++>+++++[<+>-]");
    assert_eq!(finish(&mut brain), Ok(()));
    assert_eq!(brain.cell_at(0), Some(7));
    assert_eq!(brain.cell_at(1), Some(0));
    assert_eq!(brain.data_pointer(), 1);
    assert_eq!(brain.cell(), 0);
    assert_eq!(brain.loop_depth(), 0);
    assert!(brain.is_terminated());
}

#[test]
fn add_two_and_five_with_comments_gives_the_same_cells() {
    let mut brain = Brain::new(ADD_TWO_AND_FIVE);
    assert_eq!(finish(&mut brain), Ok(()));
    assert_eq!(brain.cell_at(0), Some(7));
    assert_eq!(brain.cell_at(1), Some(0));
    assert_eq!(brain.data_pointer(), 1);
    assert_eq!(brain.instruction_pointer(), ADD_TWO_AND_FIVE.chars().count());
}

#[test]
fn hello_world_prints_hello_world() {
    let mut brain = Brain::new(HELLO_WORLD);
    assert_eq!(finish(&mut brain), Ok(()));
    assert_eq!(brain.output().as_str(), "Hello World!\n");
    assert_eq!(brain.output().as_bytes(), b"Hello World!\n");
}

#[test]
fn hello_world_reports_each_printed_byte() {
    let mut brain = Brain::new(HELLO_WORLD);
    let mut emitted: Vec<u8> = Vec::new();
    while !brain.is_terminated() {
        match brain.next() {
            Ok(Event::Printed(byte)) => emitted.push(byte),
            Ok(Event::Stepped) => {}
            other => panic!("unexpected report {:?}", other),
        }
    }
    assert_eq!(emitted, b"Hello World!\n".to_vec());
}

#[test]
fn hello_world_through_run() {
    let mut brain = Brain::new(HELLO_WORLD);
    assert_eq!(brain.run(10), Ok(false));
    assert_eq!(brain.steps(), 10);
    assert_eq!(brain.run(usize::MAX), Ok(true));
    assert_eq!(brain.output().as_str(), "Hello World!\n");
    assert_eq!(brain.run(5), Ok(true));
}

#[test]
fn cell_width_program_reports_eight_bit_cells() {
    let mut brain = Brain::new(CELL_WIDTH);
    assert_eq!(finish(&mut brain), Ok(()));
    assert_eq!(brain.output().as_str(), "8 bit cells\n");
}

#[test]
fn lone_closing_bracket_is_unmatched() {
    let mut brain = Brain::new("]");
    assert_eq!(
        brain.next(),
        Err(Fault { kind: FaultKind::UnmatchedBracket, instruction_pointer: 0, step: 1 })
    );
    assert_eq!(brain.instruction_pointer(), 0);
    assert_eq!(brain.loop_depth(), 0);
    assert!(!brain.is_terminated());
}

#[test]
fn closing_bracket_on_nonzero_cell_without_loop_is_unmatched() {
    let mut brain = Brain::new("+]");
    assert_eq!(brain.next(), Ok(Event::Stepped));
    assert_eq!(
        brain.next(),
        Err(Fault { kind: FaultKind::UnmatchedBracket, instruction_pointer: 1, step: 2 })
    );
    assert_eq!(brain.instruction_pointer(), 1);
    assert_eq!(brain.cell(), 1);
}

#[test]
fn run_stops_at_the_unmatched_bracket() {
    let mut brain = Brain::new("++]+");
    assert_eq!(
        brain.run(100),
        Err(Fault { kind: FaultKind::UnmatchedBracket, instruction_pointer: 2, step: 3 })
    );
    assert_eq!(brain.cell(), 2);
    assert_eq!(brain.instruction_pointer(), 2);
}

#[test]
fn opening_bracket_without_close_is_unmatched_when_skipped() {
    let mut brain = Brain::new("[+");
    assert_eq!(
        brain.next(),
        Err(Fault { kind: FaultKind::UnmatchedBracket, instruction_pointer: 0, step: 1 })
    );
    assert_eq!(brain.instruction_pointer(), 0);
}

#[test]
fn opening_bracket_without_close_is_entered_on_nonzero_cell() {
    let mut brain = Brain::new("+[+");
    assert_eq!(brain.run(10), Ok(true));
    assert_eq!(brain.cell(), 2);
    assert_eq!(brain.loop_depth(), 1);
}

#[test]
fn moving_right_past_the_last_cell_is_a_tape_overrun() {
    let program = ">".repeat(TAPE_LENGTH);
    let mut brain = Brain::new(&program);
    for _ in 0..TAPE_LENGTH - 1 {
        assert_eq!(brain.next(), Ok(Event::Stepped));
    }
    assert_eq!(brain.data_pointer(), TAPE_LENGTH - 1);
    assert_eq!(
        brain.next(),
        Err(Fault {
            kind: FaultKind::TapeOverrun,
            instruction_pointer: TAPE_LENGTH - 1,
            step: TAPE_LENGTH,
        })
    );
    assert_eq!(brain.data_pointer(), TAPE_LENGTH - 1);
    assert_eq!(brain.tape_length(), TAPE_LENGTH);
    assert_eq!(brain.instruction_pointer(), TAPE_LENGTH - 1);
}

#[test]
fn tape_overrun_on_a_short_tape() {
    let mut brain = Brain::with_tape_length(">>>", 3).unwrap();
    assert_eq!(
        brain.run(10),
        Err(Fault { kind: FaultKind::TapeOverrun, instruction_pointer: 2, step: 3 })
    );
    assert_eq!(brain.data_pointer(), 2);
    assert_eq!(brain.tape_length(), 3);
    assert_eq!(brain.cell_at(3), None);
}

#[test]
fn a_fault_repeats_and_only_the_step_counter_moves() {
    let mut brain = Brain::with_tape_length("+>", 1).unwrap();
    assert_eq!(brain.next(), Ok(Event::Stepped));
    assert_eq!(
        brain.next(),
        Err(Fault { kind: FaultKind::TapeOverrun, instruction_pointer: 1, step: 2 })
    );
    assert_eq!(
        brain.next(),
        Err(Fault { kind: FaultKind::TapeOverrun, instruction_pointer: 1, step: 3 })
    );
    assert_eq!(brain.cell(), 1);
    assert_eq!(brain.data_pointer(), 0);
    assert_eq!(brain.steps(), 3);
}

#[test]
fn multiplication_loop_runs_its_body_once_per_count() {
    let mut brain = Brain::new("+++[>++++<-]");
    assert_eq!(finish(&mut brain), Ok(()));
    assert_eq!(brain.cell_at(0), Some(0));
    assert_eq!(brain.cell_at(1), Some(12));
    assert_eq!(brain.steps(), 3 + 1 + 3 * 8);
}

#[test]
fn loop_body_runs_as_often_as_the_counter_says() {
    for count in 0..=255usize {
        let program = format!("{}[>+<-]", "+".repeat(count));
        let mut brain = Brain::new(&program);
        assert_eq!(finish(&mut brain), Ok(()));
        assert_eq!(brain.cell_at(0), Some(0));
        assert_eq!(brain.cell_at(1), Some(count as u8));
        assert_eq!(brain.steps(), count + 1 + count * 5);
    }
}

#[test]
fn countdown_loop_takes_two_steps_a_round() {
    let mut brain = Brain::new("+++++[-]");
    assert_eq!(brain.run(5), Ok(false));
    assert_eq!(brain.cell(), 5);
    assert_eq!(brain.run(2 * 5 + 1), Ok(true));
    assert_eq!(brain.cell(), 0);
    assert_eq!(brain.steps(), 5 + 2 * 5 + 1);
    assert_eq!(brain.instruction_pointer(), 8);
    assert_eq!(brain.loop_depth(), 0);
}

#[test]
fn countdown_loop_on_zero_is_skipped_in_one_step() {
    let mut brain = Brain::new("[-]+");
    assert_eq!(brain.next(), Ok(Event::Stepped));
    assert_eq!(brain.instruction_pointer(), 3);
    assert_eq!(brain.steps(), 1);
    assert_eq!(brain.loop_depth(), 0);
}

#[test]
fn endless_loop_runs_until_the_limit() {
    let mut brain = Brain::new("+[]");
    assert_eq!(brain.run(100), Ok(false));
    assert_eq!(brain.steps(), 100);
    assert!(!brain.is_terminated());
    assert_eq!(brain.cell(), 1);
}

#[test]
fn run_with_no_steps_allowed_changes_nothing() {
    let mut brain = Brain::new("+");
    assert_eq!(brain.run(0), Ok(false));
    assert_eq!(brain.steps(), 0);
    assert_eq!(brain.cell(), 0);
    let mut empty = Brain::new("");
    assert_eq!(empty.run(0), Ok(true));
}

#[test]
fn stepping_a_finished_program_reports_halted() {
    let mut brain = Brain::new("+");
    assert_eq!(brain.next(), Ok(Event::Stepped));
    assert!(brain.is_terminated());
    assert_eq!(brain.next(), Ok(Event::Halted));
    assert_eq!(brain.next(), Ok(Event::Halted));
    assert_eq!(brain.steps(), 1);
    assert_eq!(brain.instruction_pointer(), 1);
    assert_eq!(brain.cell(), 1);
}

#[test]
fn empty_program_is_finished_at_once() {
    let mut brain = Brain::new("");
    assert!(brain.is_terminated());
    assert_eq!(brain.command(), None);
    assert_eq!(brain.next(), Ok(Event::Halted));
    assert_eq!(brain.steps(), 0);
}

#[test]
fn construction_does_not_look_at_brackets() {
    let brain = Brain::new("]]][[[");
    assert_eq!(brain.instruction_pointer(), 0);
    assert_eq!(brain.data_pointer(), 0);
    assert_eq!(brain.steps(), 0);
    assert_eq!(brain.loop_depth(), 0);
    assert_eq!(brain.tape_length(), 30000);
    assert_eq!(brain.output().as_str(), "");
    assert_eq!(brain.program().len(), 6);
    for index in 0..30000 {
        assert_eq!(brain.cell_at(index), Some(0));
    }
}

#[test]
fn a_tape_needs_a_cell() {
    assert!(Brain::with_tape_length("+", 0).is_none());
    let brain = Brain::with_tape_length("+", 1).unwrap();
    assert_eq!(brain.tape_length(), 1);
    assert_eq!(brain.cell_at(0), Some(0));
    assert_eq!(brain.cell_at(1), None);
}

#[test]
fn comment_characters_keep_their_slots() {
    let mut brain = Brain::new("a+b[c-d]e");
    assert_eq!(brain.program().len(), 9);
    assert_eq!(finish(&mut brain), Ok(()));
    assert_eq!(brain.instruction_pointer(), 9);
    assert_eq!(brain.cell(), 0);
    // a + b [ c - d ] e: nine steps, the closing bracket falls through.
    assert_eq!(brain.steps(), 9);
}

#[test]
fn characters_beyond_ascii_are_single_slots() {
    let mut brain = Brain::new("é+ü");
    assert_eq!(brain.program().len(), 3);
    assert_eq!(finish(&mut brain), Ok(()));
    assert_eq!(brain.cell(), 1);
    assert_eq!(brain.steps(), 3);
}
