use gdd::instruction::DuckInstruction;
use gdd::rotation::{apply_goose_updates, position, rotate_right};

fn inst(op_code: usize, n: usize, y: usize, arg_c: usize) -> DuckInstruction {
    DuckInstruction { op_code, n, y, arg_c }
}

#[test]
fn rotate_right_moves_the_last_to_the_front() {
    let mut ring = vec![0, 1, 2, 3, 4];
    rotate_right(&mut ring, 2);
    assert_eq!(ring, vec![3, 4, 0, 1, 2]);
    rotate_right(&mut ring, 0);
    assert_eq!(ring, vec![3, 4, 0, 1, 2]);
    rotate_right(&mut ring, 5);
    assert_eq!(ring, vec![3, 4, 0, 1, 2]);
    rotate_right(&mut ring, 1);
    assert_eq!(ring, vec![2, 3, 4, 0, 1]);
}

#[test]
fn rotate_right_of_an_empty_ring() {
    let mut ring: Vec<usize> = Vec::new();
    rotate_right(&mut ring, 0);
    assert_eq!(ring, Vec::<usize>::new());
}

#[test]
fn position_gives_the_first_place() {
    assert_eq!(position(&vec![3, 4, 0, 1, 2], 0), 2);
    assert_eq!(position(&vec![3, 4, 0, 1, 2], 3), 0);
    assert_eq!(position(&vec![7, 7, 7], 7), 0);
}

#[test]
fn the_first_instruction_is_left_alone() {
    let program = vec![inst(11, 2, 9, 2)];
    assert_eq!(apply_goose_updates(3, &program), program);
}

#[test]
fn an_empty_list_stays_empty() {
    assert_eq!(apply_goose_updates(3, &Vec::new()), Vec::new());
}

#[test]
fn slots_are_looked_up_in_the_turned_ring() {
    // three slots, a ring of four places
    let program = vec![
        inst(11, 1, 65, 2), // Set: turns the ring by 1
        inst(2, 1, 2, 2),   // Add: 1 -> 2, 2 -> 3; turns the ring by 1 more
        inst(1, 3, 0, 1),   // Print: 3 -> (3 + 2) mod 4 = 1; leaves the ring
        inst(11, 0, 7, 2),  // Set: 0 -> (0 + 2) mod 4 = 2, the value 7 stays
        inst(6, 1, 0, 1),   // Input: 1 -> (1 + 2) mod 4 = 3; turns by 1 more
        inst(0, 0, 0, 0),   // End: stays
    ];
    let rotated = apply_goose_updates(3, &program);
    assert_eq!(
        rotated,
        vec![
            inst(11, 1, 65, 2),
            inst(2, 2, 3, 2),
            inst(1, 1, 0, 1),
            inst(11, 2, 7, 2),
            inst(6, 3, 0, 1),
            inst(0, 0, 0, 0),
        ]
    );
}

#[test]
fn print_does_not_turn_the_ring() {
    // two slots
    let program = vec![inst(1, 1, 0, 1), inst(1, 1, 0, 1), inst(0, 0, 0, 0)];
    assert_eq!(apply_goose_updates(2, &program), program);
}

#[test]
fn loop_instructions_and_end_do_not_turn_the_ring() {
    let program = vec![
        inst(9, 2, 1, 2),  // LoopBegin
        inst(1, 1, 0, 1),  // Print
        inst(10, 3, 0, 2), // LoopEnd
        inst(0, 0, 0, 0),  // End
        inst(1, 2, 0, 1),  // Print
    ];
    assert_eq!(apply_goose_updates(3, &program), program);
}

#[test]
fn slots_out_of_the_ring_stay_while_the_cursor_has_not_moved() {
    let program = vec![inst(1, 9, 0, 1), inst(9, 8, 1, 2), inst(0, 0, 0, 0)];
    assert_eq!(apply_goose_updates(2, &program), program);
}

#[test]
fn every_writing_instruction_turns_the_ring() {
    for code in [2usize, 3, 4, 5, 6, 7, 8, 11] {
        let arg_c = if code >= 6 && code <= 8 { 1 } else { 2 };
        let program = vec![inst(code, 2, 0, arg_c), inst(1, 1, 0, 1), inst(0, 0, 0, 0)];
        let rotated = apply_goose_updates(4, &program);
        assert_eq!(rotated, vec![inst(code, 2, 0, arg_c), inst(1, 3, 0, 1), inst(0, 0, 0, 0)]);
    }
}

#[test]
fn loop_instructions_keep_their_loop_number() {
    let program = vec![
        inst(7, 2, 0, 1),  // Push: turns the ring by 2
        inst(9, 1, 5, 2),  // LoopBegin: n 1 -> 3, the loop number 5 stays
        inst(10, 1, 0, 2), // LoopEnd: stays
        inst(0, 0, 0, 0),
    ];
    let rotated = apply_goose_updates(3, &program);
    assert_eq!(
        rotated,
        vec![inst(7, 2, 0, 1), inst(9, 3, 5, 2), inst(10, 1, 0, 2), inst(0, 0, 0, 0)]
    );
}

#[test]
fn a_full_turn_changes_nothing() {
    let program = vec![inst(6, 4, 0, 1), inst(1, 2, 0, 1), inst(0, 0, 0, 0)];
    let rotated = apply_goose_updates(3, &program);
    assert_eq!(rotated, program);
}
