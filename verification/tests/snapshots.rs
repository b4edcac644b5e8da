use brain::command::Command;
use brain::engine::Brain;
use brain::snapshot::{window_bounds, WINDOW_LEAD, WINDOW_WIDTH};

#[test]
fn window_starts_at_the_left_edge_for_low_pointers() {
    assert_eq!(window_bounds(0, 30000), (0, 30));
    assert_eq!(window_bounds(14, 30000), (0, 30));
    assert_eq!(window_bounds(15, 30000), (0, 30));
    assert_eq!(window_bounds(16, 30000), (1, 31));
}

#[test]
fn window_follows_the_pointer_and_stops_at_the_right_edge() {
    assert_eq!(window_bounds(100, 30000), (85, 115));
    assert_eq!(window_bounds(29999, 30000), (29984, 30000));
    assert_eq!(window_bounds(29985, 30000), (29970, 30000));
    assert_eq!(window_bounds(29984, 30000), (29969, 29999));
}

#[test]
fn window_of_a_short_tape_is_the_whole_tape() {
    assert_eq!(window_bounds(0, 1), (0, 1));
    assert_eq!(window_bounds(3, 10), (0, 10));
    assert_eq!(window_bounds(20, 30), (5, 30));
    assert_eq!(WINDOW_WIDTH, 30);
    assert_eq!(WINDOW_LEAD, 15);
}

#[test]
fn snapshot_of_a_fresh_engine() {
    let brain = Brain::new("+.");
    let view = brain.snapshot();
    assert_eq!(view.instruction_pointer, 0);
    assert_eq!(view.command, Some(Command::Inc));
    assert_eq!(view.step, 0);
    assert_eq!(view.data_pointer, 0);
    assert_eq!(view.window_start, 0);
    assert_eq!(view.window, vec![0u8; 30]);
    assert_eq!(view.program, vec!['+', '.']);
    assert_eq!(view.output, "");
}

#[test]
fn snapshot_shows_the_cells_around_the_pointer() {
    let program = format!("{}+++", ">+".repeat(20));
    let mut brain = Brain::new(&program);
    assert_eq!(brain.run(1000), Ok(true));
    let view = brain.snapshot();
    assert_eq!(view.data_pointer, 20);
    assert_eq!(view.window_start, 5);
    assert_eq!(view.window.len(), 30);
    let mut expected = vec![1u8; 15];
    expected.push(4);
    expected.extend(vec![0u8; 14]);
    assert_eq!(view.window, expected);
    assert_eq!(view.window[view.data_pointer - view.window_start], brain.cell());
    assert_eq!(view.command, None);
    assert_eq!(view.step, 43);
    assert_eq!(view.instruction_pointer, 43);
}

#[test]
fn snapshot_carries_program_and_output() {
    let mut brain = Brain::new("+++++++++++++++++++++++++++++++++.x");
    assert_eq!(brain.run(34), Ok(false));
    let view = brain.snapshot();
    assert_eq!(view.output, "!");
    assert_eq!(view.program.len(), 35);
    assert_eq!(view.program[34], 'x');
    assert_eq!(view.command, Some(Command::Invalid));
    assert_eq!(view.instruction_pointer, 34);
    assert_eq!(view.step, 34);
}

#[test]
fn snapshot_leaves_the_engine_alone() {
    let mut brain = Brain::new("+>+");
    assert_eq!(brain.run(2), Ok(false));
    let before = brain.snapshot();
    let again = brain.snapshot();
    assert_eq!(before.window, again.window);
    assert_eq!(before.instruction_pointer, again.instruction_pointer);
    assert_eq!(brain.steps(), 2);
    assert_eq!(brain.data_pointer(), 1);
}
