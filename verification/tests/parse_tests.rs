use gdd::error::ParseError;
use gdd::instruction::DuckInstruction;
use gdd::parse::{
    check_line, decode_opcode, get_counts, get_op_name, parse_binary_inst, parse_file,
    parse_header, parse_header_line, parse_loop_inst, parse_unary_inst, validate_program,
};

fn source(text: &[&str]) -> Vec<String> {
    text.iter().map(|line| line.to_string()).collect()
}

fn made(op_code: usize, n: usize, y: usize, arg_c: usize) -> DuckInstruction {
    DuckInstruction { op_code, n, y, arg_c }
}

fn ducks(count: usize) -> String {
    vec!["duck"; count].join(" ")
}

// ---- counting

#[test]
fn counts_ducks_and_geese() {
    assert_eq!(get_counts("duck duck duck goose"), (3, 1));
    assert_eq!(get_counts("goose"), (0, 1));
    assert_eq!(get_counts("duck"), (1, 0));
    assert_eq!(get_counts(""), (0, 0));
    assert_eq!(get_counts("duckduckgoosegoose"), (2, 2));
}

#[test]
fn counts_nothing_behind_the_comment_mark() {
    assert_eq!(get_counts("duck # duck goose"), (1, 0));
    assert_eq!(get_counts("# duck goose"), (0, 0));
    assert_eq!(get_counts("duck goose # one # two duck"), (1, 1));
    assert_eq!(get_counts("du#ck"), (0, 0));
}

#[test]
fn counts_exact_lower_case_keywords_only() {
    assert_eq!(get_counts("Duck DUCK Goose gooose"), (0, 0));
    assert_eq!(get_counts("ducks geese goosey"), (1, 1));
}

#[test]
fn counts_in_text_that_is_not_ascii() {
    assert_eq!(get_counts("duck 柴犬 duck é goose # duck"), (2, 1));
}

#[test]
fn counts_lines_with_their_line_break() {
    assert_eq!(get_counts("duck duck goose\n"), (2, 1));
    assert_eq!(get_counts("\r\n"), (0, 0));
}

// ---- the rule for lines with a goose

#[test]
fn check_line_takes_ducks_before_one_goose() {
    assert_eq!(check_line("duck duck goose", 1), Ok(()));
    assert_eq!(check_line("goose", 1), Ok(()));
    assert_eq!(check_line("duckgoose", 1), Ok(()));
}

#[test]
fn check_line_refuses_a_duck_behind_the_goose() {
    assert_eq!(check_line("goose duck", 1), Err(ParseError::MarkerOrderError));
    assert_eq!(check_line("duck goose duck", 1), Err(ParseError::MarkerOrderError));
    assert_eq!(check_line("duck duck goose duck duck duck", 1), Err(ParseError::MarkerOrderError));
}

#[test]
fn check_line_refuses_two_geese() {
    assert_eq!(check_line("goose goose", 2), Err(ParseError::MultipleMarkersError));
    assert_eq!(check_line("duck goose duck goose", 2), Err(ParseError::MultipleMarkersError));
}

#[test]
fn check_line_does_not_look_into_the_comment() {
    assert_eq!(check_line("duck goose # ducks are counted", 1), Ok(()));
    assert_eq!(check_line("goose # goose duck", 1), Ok(()));
}

// ---- the header line

#[test]
fn header_line_gives_its_counts() {
    assert_eq!(parse_header_line("duck duck duck goose"), Ok((3, 1)));
    assert_eq!(parse_header_line("goose"), Ok((0, 1)));
    assert_eq!(parse_header_line("duck goose # three ducks"), Ok((1, 1)));
}

#[test]
fn header_line_with_k_ducks_gives_k() {
    for k in 0..40 {
        let line = format!("{} goose", ducks(k));
        assert_eq!(parse_header_line(&line), Ok((k, 1)));
    }
}

#[test]
fn blank_line_before_the_header_is_passed_over() {
    assert_eq!(parse_header_line(""), Ok((0, 0)));
    assert_eq!(parse_header_line("   "), Ok((0, 0)));
    assert_eq!(parse_header_line("# duck goose"), Ok((0, 0)));
}

#[test]
fn header_line_without_goose_is_refused() {
    assert_eq!(parse_header_line("duck"), Err(ParseError::MissingHeaderMarkerError));
    assert_eq!(parse_header_line("duck duck # goose"), Err(ParseError::MissingHeaderMarkerError));
}

#[test]
fn header_line_with_duck_behind_goose_is_refused() {
    for before in 0..5 {
        for behind in 1..5 {
            let line = format!("{} goose {}", ducks(before), ducks(behind));
            assert_eq!(parse_header_line(&line), Err(ParseError::MarkerOrderError));
        }
    }
}

#[test]
fn header_line_with_two_geese_is_refused() {
    for k in 0..5 {
        let line = format!("{} goose goose", ducks(k));
        assert_eq!(parse_header_line(&line), Err(ParseError::MultipleMarkersError));
        let line = format!("goose {} goose", ducks(k));
        assert_eq!(parse_header_line(&line), Err(ParseError::MultipleMarkersError));
    }
    assert_eq!(parse_header_line("goose goose goose"), Err(ParseError::MultipleMarkersError));
}

// ---- the header

#[test]
fn header_is_the_first_line_with_a_keyword() {
    assert_eq!(parse_header(&source(&["duck duck goose", "goose"])), Ok((2, 1)));
    assert_eq!(parse_header(&source(&["", "# comment", "  ", "duck goose", "goose"])), Ok((1, 4)));
    assert_eq!(parse_header(&source(&["goose"])), Ok((0, 1)));
}

#[test]
fn header_is_missed_where_the_lines_run_out() {
    assert_eq!(parse_header(&source(&[])), Err(ParseError::UnexpectedEndOfInputError));
    assert_eq!(
        parse_header(&source(&["", "# duck goose", ""])),
        Err(ParseError::UnexpectedEndOfInputError)
    );
}

#[test]
fn header_errors_come_from_the_first_line_with_a_keyword() {
    assert_eq!(
        parse_header(&source(&["", "duck", "duck goose"])),
        Err(ParseError::MissingHeaderMarkerError)
    );
    assert_eq!(
        parse_header(&source(&["goose goose", "duck goose"])),
        Err(ParseError::MultipleMarkersError)
    );
    assert_eq!(
        parse_header(&source(&["# c", "goose duck", "duck goose"])),
        Err(ParseError::MarkerOrderError)
    );
}

// ---- operands

#[test]
fn unary_takes_the_top_operand() {
    let mut ops = vec![4, 9];
    assert_eq!(parse_unary_inst(1, &mut ops), Ok(made(1, 9, 0, 1)));
    assert_eq!(ops, vec![4]);
}

#[test]
fn unary_without_operand_is_an_arity_error() {
    let mut ops = Vec::new();
    assert_eq!(parse_unary_inst(6, &mut ops), Err(ParseError::ArityError));
    assert_eq!(ops, Vec::<usize>::new());
}

#[test]
fn binary_takes_y_then_n() {
    let mut ops = vec![7, 1, 2];
    assert_eq!(parse_binary_inst(2, &mut ops), Ok(made(2, 1, 2, 2)));
    assert_eq!(ops, vec![7]);
}

#[test]
fn binary_with_fewer_than_two_operands_is_an_arity_error() {
    let mut none = Vec::new();
    assert_eq!(parse_binary_inst(3, &mut none), Err(ParseError::ArityError));
    assert_eq!(none, Vec::<usize>::new());
    let mut one = vec![5];
    assert_eq!(parse_binary_inst(3, &mut one), Err(ParseError::ArityError));
    assert_eq!(one, Vec::<usize>::new());
}

#[test]
fn loop_begin_takes_y_then_n() {
    let mut ops = vec![3, 1];
    assert_eq!(parse_loop_inst(9, &mut ops), Ok(made(9, 3, 1, 2)));
    assert_eq!(ops, Vec::<usize>::new());
}

#[test]
fn loop_begin_needs_n() {
    let mut none = Vec::new();
    assert_eq!(parse_loop_inst(9, &mut none), Err(ParseError::ArityError));
    let mut one = vec![3];
    assert_eq!(parse_loop_inst(9, &mut one), Err(ParseError::ArityError));
    assert_eq!(one, Vec::<usize>::new());
}

#[test]
fn loop_end_takes_n_or_zero() {
    let mut ops = vec![3, 1];
    assert_eq!(parse_loop_inst(10, &mut ops), Ok(made(10, 1, 0, 2)));
    assert_eq!(ops, vec![3]);
    let mut none = Vec::new();
    assert_eq!(parse_loop_inst(10, &mut none), Ok(made(10, 0, 0, 2)));
    assert_eq!(none, Vec::<usize>::new());
}

#[test]
fn every_opcode_is_decoded_by_its_arity() {
    for op in 0..12usize {
        let mut ops = vec![8, 5, 6];
        let decoded = decode_opcode(op, &mut ops);
        let (expected, left) = match op {
            0 => (made(0, 0, 0, 0), vec![8, 5, 6]),
            1 | 6 | 7 | 8 => (made(op, 6, 0, 1), vec![8, 5]),
            10 => (made(10, 6, 0, 2), vec![8, 5]),
            _ => (made(op, 5, 6, 2), vec![8]),
        };
        assert_eq!(decoded, Ok(expected));
        assert_eq!(ops, left);
    }
}

#[test]
fn numbers_above_11_are_unknown_opcodes() {
    let mut ops = vec![1, 2];
    assert_eq!(decode_opcode(12, &mut ops), Err(ParseError::UnknownOpcodeError));
    assert_eq!(decode_opcode(400, &mut ops), Err(ParseError::UnknownOpcodeError));
    assert_eq!(ops, vec![1, 2]);
}

#[test]
fn binary_opcodes_take_the_last_pushed_as_y() {
    for op in [2usize, 3, 4, 5, 9, 11] {
        for v1 in 0..4 {
            for v2 in 0..4 {
                let text = source(&[
                    "duck duck duck duck goose",
                    &ducks(v1),
                    &ducks(v2),
                    &format!("{} goose", ducks(op)),
                    "goose",
                ]);
                assert_eq!(
                    parse_file(&text),
                    Ok((4, vec![made(op, v1, v2, 2), made(0, 0, 0, 0)]))
                );
            }
        }
    }
}

// ---- validation

#[test]
fn program_must_end_with_end() {
    assert_eq!(validate_program(&vec![made(0, 0, 0, 0)]), Ok(()));
    assert_eq!(validate_program(&vec![made(1, 2, 0, 1), made(0, 0, 0, 0)]), Ok(()));
    assert_eq!(validate_program(&vec![]), Err(ParseError::UnterminatedProgramError));
    assert_eq!(validate_program(&vec![made(1, 2, 0, 1)]), Err(ParseError::UnterminatedProgramError));
    assert_eq!(
        validate_program(&vec![made(0, 0, 0, 0), made(11, 1, 2, 2)]),
        Err(ParseError::UnterminatedProgramError)
    );
}

#[test]
fn end_put_behind_any_program_makes_it_pass() {
    for op in 0..12usize {
        let mut program = vec![made(op, 1, 2, 2)];
        program.push(made(0, 0, 0, 0));
        assert_eq!(validate_program(&program), Ok(()));
    }
}

// ---- whole programs

#[test]
fn header_and_end_make_a_program() {
    let parsed = parse_file(&source(&["duck duck duck goose", "goose"]));
    assert_eq!(parsed, Ok((3, vec![made(0, 0, 0, 0)])));
}

#[test]
fn set_takes_slot_and_value() {
    let parsed = parse_file(&source(&[
        "duck duck goose",
        "duck",
        "duck duck",
        "duck duck duck duck duck duck duck duck duck duck duck goose",
        "goose",
    ]));
    assert_eq!(parsed, Ok((2, vec![made(11, 1, 2, 2), made(0, 0, 0, 0)])));
}

#[test]
fn blank_lines_of_the_body_are_operands_of_zero() {
    let parsed = parse_file(&source(&["goose", "", "# note", "duck goose", "goose"]));
    assert_eq!(parsed, Ok((0, vec![made(1, 0, 0, 1), made(0, 0, 0, 0)])));
}

#[test]
fn operands_left_over_are_thrown_away() {
    let parsed = parse_file(&source(&[
        "duck goose",
        "duck duck duck",
        "duck",
        "duck goose",
        "duck goose",
    ]));
    // the second Print finds the stack empty
    assert_eq!(parsed, Err(ParseError::ArityError));
    let parsed = parse_file(&source(&[
        "duck goose",
        "duck duck duck",
        "duck",
        "duck goose",
        "goose",
    ]));
    assert_eq!(parsed, Ok((1, vec![made(1, 1, 0, 1), made(0, 0, 0, 0)])));
}

#[test]
fn a_longer_program_is_decoded_in_order() {
    let parsed = parse_file(&source(&[
        "# three slots",
        "duck duck duck goose",
        "",                                 // 0
        &ducks(6).replace(' ', "") ,        // 6 ducks without blanks: operand 6
        &format!("{} goose", ducks(11)),    // Set(0, 6)
        "duck",
        &format!("{} goose", ducks(6)),     // Input(1)
        "duck",
        "duck duck",
        &format!("{} goose # loop", ducks(9)),  // LoopBegin(1, 2)
        "duck",
        "duck goose",                       // Print(1)
        "duck duck",
        &format!("{} goose", ducks(10)),    // LoopEnd(2)
        "goose",
    ]));
    assert_eq!(
        parsed,
        Ok((
            3,
            vec![
                made(11, 0, 6, 2),
                made(6, 1, 0, 1),
                made(9, 1, 2, 2),
                made(1, 1, 0, 1),
                made(10, 2, 0, 2),
                made(0, 0, 0, 0),
            ]
        ))
    );
}

#[test]
fn program_without_end_is_refused() {
    let parsed = parse_file(&source(&["duck goose", "duck", "duck goose"]));
    assert_eq!(parsed, Err(ParseError::UnterminatedProgramError));
    let parsed = parse_file(&source(&["duck goose"]));
    assert_eq!(parsed, Err(ParseError::UnterminatedProgramError));
    let parsed = parse_file(&source(&["duck goose", "duck", "duck"]));
    assert_eq!(parsed, Err(ParseError::UnterminatedProgramError));
}

#[test]
fn end_line_behind_a_body_completes_it() {
    let mut text = source(&["duck goose", "duck", "duck goose"]);
    assert_eq!(parse_file(&text), Err(ParseError::UnterminatedProgramError));
    text.push("goose".to_string());
    assert_eq!(parse_file(&text), Ok((1, vec![made(1, 1, 0, 1), made(0, 0, 0, 0)])));
}

#[test]
fn source_without_header_is_refused() {
    assert_eq!(parse_file(&source(&[])), Err(ParseError::UnexpectedEndOfInputError));
    assert_eq!(parse_file(&source(&["", "#"])), Err(ParseError::UnexpectedEndOfInputError));
    assert_eq!(parse_file(&source(&["duck", "goose"])), Err(ParseError::MissingHeaderMarkerError));
}

#[test]
fn body_lines_are_held_to_the_rule_for_geese() {
    assert_eq!(
        parse_file(&source(&["duck goose", "goose goose"])),
        Err(ParseError::MultipleMarkersError)
    );
    assert_eq!(
        parse_file(&source(&["duck goose", "duck", "goose duck", "goose"])),
        Err(ParseError::MarkerOrderError)
    );
}

#[test]
fn opcode_line_with_twelve_ducks_is_refused() {
    let text = source(&["duck goose", "duck", "duck", &format!("{} goose", ducks(12)), "goose"]);
    assert_eq!(parse_file(&text), Err(ParseError::UnknownOpcodeError));
}

#[test]
fn opcode_without_its_operands_is_refused() {
    let text = source(&["duck goose", "duck", &format!("{} goose", ducks(2)), "goose"]);
    assert_eq!(parse_file(&text), Err(ParseError::ArityError));
    let text = source(&["duck goose", &format!("{} goose", ducks(7)), "goose"]);
    assert_eq!(parse_file(&text), Err(ParseError::ArityError));
}

#[test]
fn the_first_error_is_the_one_given() {
    let text = source(&[
        "duck goose",
        &format!("{} goose", ducks(12)), // unknown opcode
        "goose goose",                   // two geese
    ]);
    assert_eq!(parse_file(&text), Err(ParseError::UnknownOpcodeError));
    let text = source(&[
        "duck goose",
        &format!("{} goose goose", ducks(12)), // two geese come before the opcode
    ]);
    assert_eq!(parse_file(&text), Err(ParseError::MultipleMarkersError));
}

// ---- names

#[test]
fn every_opcode_has_its_name() {
    let names = [
        "End", "Print", "Add", "Subtract", "Multiply", "Divide", "Input", "Push", "Pop",
        "LoopBegin", "LoopEnd", "Set",
    ];
    for (op, name) in names.iter().enumerate() {
        assert_eq!(get_op_name(op), *name);
    }
}
