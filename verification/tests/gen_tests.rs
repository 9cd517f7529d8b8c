use gdd::instruction::{DuckInstruction, InstructionEnum};
use gdd::listing::{render, Line, Reg};
use gdd::parse::parse_file;
use gdd::x86_64_gen::{
    get_duck_index, get_goose_index, get_teacher_index, lower_program, lower_to_lines, write_add,
    write_divide, write_exit, write_header, write_input, write_instruction, write_loop_begin,
    write_loop_end, write_multiply, write_pop, write_print, write_push, write_set, write_subtract,
};

fn op(op_code: usize, n: usize, y: usize, arg_c: usize) -> DuckInstruction {
    DuckInstruction { op_code, n, y, arg_c }
}

fn text_of(write: fn(&DuckInstruction, &mut Vec<Line>), inst: DuckInstruction) -> String {
    let mut lines = Vec::new();
    write(&inst, &mut lines);
    render(&lines)
}

fn find_cell(register: &str, slot: usize) -> String {
    format!(
        "  mov %r14, %r8\n  add ${}, %r8\n  mov %r8, %rax\n  mov $0, %rdx\n  mov %r13, %rbx\n  add $1, %rbx\n  divq %rbx\n  mov %rdx, %{}\n",
        slot, register
    )
}

const EXIT: &str = "#Exit==========\n  mov $60, %rax\n  mov $0, %rdi\n  syscall\n";

// ---- single lines

#[test]
fn every_kind_of_line_has_its_text() {
    let cases: Vec<(Line, &str)> = vec![
        (Line::Entry, ".section .text\n.global main\nmain:\n"),
        (Line::Banner(InstructionEnum::Add), "#Add==========\n"),
        (Line::Banner(InstructionEnum::End), "#Exit==========\n"),
        (Line::Banner(InstructionEnum::SetValue), "#Set==========\n"),
        (Line::AllocateNote, "#Allocate ducks on stack\n"),
        (Line::NoteN(12), "#n: 12\n"),
        (Line::NoteY(0), "#y: 0\n"),
        (Line::Move { from: Reg::Rsp, to: Reg::R12 }, "  mov %rsp, %r12\n"),
        (Line::MoveValue { value: 60, to: Reg::Rax }, "  mov $60, %rax\n"),
        (Line::MoveValue32 { value: 1, to: Reg::Rdx }, "  mov $1, %edx\n"),
        (Line::Clear32 { reg: Reg::Rax }, "  xor %eax, %eax\n"),
        (Line::Clear32 { reg: Reg::Rdi }, "  xor %edi, %edi\n"),
        (Line::AddValue { value: 8, to: Reg::Rsp }, "  add $8, %rsp\n"),
        (Line::Add { from: Reg::R8, to: Reg::R9 }, "  add %r8, %r9\n"),
        (Line::Sub { from: Reg::R9, to: Reg::R8 }, "  sub %r9, %r8\n"),
        (Line::Mul { from: Reg::R8, to: Reg::R9 }, "  imul %r8, %r9\n"),
        (Line::Div { by: Reg::Rbx }, "  divq %rbx\n"),
        (Line::SignExtend, "  cqto\n"),
        (Line::DivSigned { by: Reg::R9 }, "  idivq %r9\n"),
        (Line::Load { index: Reg::R10, to: Reg::R8 }, "  movq (%r12, %r10, 8),%r8\n"),
        (Line::Store { from: Reg::R9, index: Reg::R10 }, "  movq %r9, (%r12, %r10, 8)\n"),
        (Line::StoreValue { value: 65, index: Reg::R11 }, "  movq $65, (%r12, %r11, 8)\n"),
        (Line::Push { from: Reg::R8 }, "  push %r8\n"),
        (Line::PushValue { value: 0 }, "  push $0\n"),
        (Line::Pop { to: Reg::R11 }, "  pop %r11\n"),
        (Line::Compare { value: 0, with: Reg::R8 }, "  cmp $0, %r8\n"),
        (Line::StartLabel(3), "  start_3:\n"),
        (Line::EndLabel(3), "  end_3:\n"),
        (Line::JumpToStart(14), "  jmp start_14\n"),
        (Line::JumpIfZeroToEnd(14), "  jz end_14\n"),
        (Line::Syscall, "  syscall\n"),
    ];
    for (line, text) in cases {
        let mut out = String::new();
        line.write(&mut out);
        assert_eq!(out, text);
    }
}

#[test]
fn every_register_has_its_names() {
    let cases = [
        (Reg::Rax, "rax", "eax"),
        (Reg::Rbx, "rbx", "ebx"),
        (Reg::Rdx, "rdx", "edx"),
        (Reg::Rdi, "rdi", "edi"),
        (Reg::Rsi, "rsi", "esi"),
        (Reg::Rsp, "rsp", "esp"),
        (Reg::R8, "r8", "r8d"),
        (Reg::R9, "r9", "r9d"),
        (Reg::R10, "r10", "r10d"),
        (Reg::R11, "r11", "r11d"),
        (Reg::R12, "r12", "r12d"),
        (Reg::R13, "r13", "r13d"),
        (Reg::R14, "r14", "r14d"),
    ];
    for (reg, whole, low) in cases {
        assert_eq!(reg.as_str(), whole);
        assert_eq!(reg.as_str32(), low);
    }
}

#[test]
fn line_is_written_behind_what_is_there() {
    let mut out = String::from("main:\n");
    Line::Syscall.write(&mut out);
    assert_eq!(out, "main:\n  syscall\n");
}

#[test]
fn listing_is_rendered_line_by_line() {
    assert_eq!(render(&Vec::new()), "");
    let lines = vec![Line::StartLabel(1), Line::JumpToStart(1), Line::EndLabel(1)];
    assert_eq!(render(&lines), "  start_1:\n  jmp start_1\n  end_1:\n");
}

// ---- pieces

#[test]
fn goose_index_copies_the_cursor() {
    let mut lines = Vec::new();
    get_goose_index(Reg::Rax, &mut lines);
    assert_eq!(lines, vec![Line::Move { from: Reg::R14, to: Reg::Rax }]);
    assert_eq!(render(&lines), "  mov %r14, %rax\n");
}

#[test]
fn teacher_index_is_the_slot_count() {
    let mut lines = Vec::new();
    get_teacher_index(Reg::R11, &mut lines);
    assert_eq!(render(&lines), "  mov %r13, %r11\n");
}

#[test]
fn duck_index_adds_the_slot_and_keeps_the_remainder() {
    let mut lines = Vec::new();
    get_duck_index(Reg::R10, 5, &mut lines);
    assert_eq!(
        lines,
        vec![
            Line::Move { from: Reg::R14, to: Reg::R8 },
            Line::AddValue { value: 5, to: Reg::R8 },
            Line::Move { from: Reg::R8, to: Reg::Rax },
            Line::MoveValue { value: 0, to: Reg::Rdx },
            Line::Move { from: Reg::R13, to: Reg::Rbx },
            Line::AddValue { value: 1, to: Reg::Rbx },
            Line::Div { by: Reg::Rbx },
            Line::Move { from: Reg::Rdx, to: Reg::R10 },
        ]
    );
    assert_eq!(render(&lines), find_cell("r10", 5));
}

#[test]
fn lines_are_put_behind_what_is_there() {
    let mut lines = vec![Line::Syscall];
    get_duck_index(Reg::R11, 2, &mut lines);
    assert_eq!(lines.len(), 9);
    assert_eq!(lines[0], Line::Syscall);
    assert_eq!(render(&lines), format!("  syscall\n{}", find_cell("r11", 2)));
}

#[test]
fn header_makes_one_cell_more_than_slots() {
    for slots in [0usize, 1, 3, 10] {
        let mut lines = Vec::new();
        write_header(slots, &mut lines);
        let pushes = lines.iter().filter(|line| **line == Line::PushValue { value: 0 }).count();
        assert_eq!(pushes, slots + 1);
        assert_eq!(lines.len(), slots + 1 + 5);
    }
}

#[test]
fn header_for_two_slots() {
    let mut lines = Vec::new();
    write_header(2, &mut lines);
    assert_eq!(
        render(&lines),
        ".section .text\n.global main\nmain:\n#Allocate ducks on stack\n  push $0\n  push $0\n  push $0\n  mov %rsp, %r12\n  mov $2, %r13\n  mov $0, %r14\n"
    );
}

#[test]
fn exit_ends_with_status_zero() {
    let mut lines = Vec::new();
    write_exit(&mut lines);
    assert_eq!(render(&lines), EXIT);
}

// ---- instructions

#[test]
fn add_writes_the_sum_to_n() {
    assert_eq!(
        text_of(write_add, op(2, 1, 2, 2)),
        format!(
            "#Add==========\n#n: 1\n#y: 2\n{}{}  movq (%r12, %r10, 8),%r8\n  movq (%r12, %r11, 8),%r9\n  add %r8, %r9\n  movq %r9, (%r12, %r10, 8)\n  mov %r10, %r14\n",
            find_cell("r10", 1),
            find_cell("r11", 2)
        )
    );
}

#[test]
fn subtract_writes_the_difference_to_n() {
    assert_eq!(
        text_of(write_subtract, op(3, 0, 3, 2)),
        format!(
            "#Subtract==========\n#n: 0\n#y: 3\n{}{}  movq (%r12, %r10, 8),%r8\n  movq (%r12, %r11, 8),%r9\n  sub %r9, %r8\n  movq %r8, (%r12, %r10, 8)\n  mov %r10, %r14\n",
            find_cell("r10", 0),
            find_cell("r11", 3)
        )
    );
}

#[test]
fn multiply_writes_the_product_to_n() {
    assert_eq!(
        text_of(write_multiply, op(4, 2, 2, 2)),
        format!(
            "#Multiply==========\n#n: 2\n#y: 2\n{}{}  movq (%r12, %r10, 8),%r8\n  movq (%r12, %r11, 8),%r9\n  imul %r8, %r9\n  movq %r9, (%r12, %r10, 8)\n  mov %r10, %r14\n",
            find_cell("r10", 2),
            find_cell("r11", 2)
        )
    );
}

#[test]
fn divide_writes_the_signed_quotient_to_n() {
    assert_eq!(
        text_of(write_divide, op(5, 7, 1, 2)),
        format!(
            "#Divide==========\n#n: 7\n#y: 1\n{}{}  movq (%r12, %r10, 8),%r8\n  movq (%r12, %r11, 8),%r9\n  mov %r8, %rax\n  cqto\n  idivq %r9\n  movq %rax, (%r12, %r10, 8)\n  mov %r10, %r14\n",
            find_cell("r10", 7),
            find_cell("r11", 1)
        )
    );
}

#[test]
fn divide_widens_the_dividend_by_its_sign() {
    let mut lines = Vec::new();
    write_divide(&op(5, 0, 1, 2), &mut lines);
    let tail = &lines[lines.len() - 5..];
    assert_eq!(
        tail,
        &[
            Line::Move { from: Reg::R8, to: Reg::Rax },
            Line::SignExtend,
            Line::DivSigned { by: Reg::R9 },
            Line::Store { from: Reg::Rax, index: Reg::R10 },
            Line::Move { from: Reg::R10, to: Reg::R14 },
        ]
    );
    // the division of the slot values is the only one with sign
    assert_eq!(lines.iter().filter(|line| matches!(line, Line::DivSigned { .. })).count(), 1);
    assert_eq!(lines.iter().filter(|line| matches!(line, Line::Div { .. })).count(), 2);
}

#[test]
fn input_reads_one_byte_into_n() {
    assert_eq!(
        text_of(write_input, op(6, 2, 0, 1)),
        format!(
            "#Input==========\n  push $0\n  xor %eax, %eax\n  xor %edi, %edi\n  mov %rsp, %rsi\n  mov $1, %edx\n  syscall\n{}  pop %r11\n  movq %r11, (%r12, %r10, 8)\n  mov %r10, %r14\n",
            find_cell("r10", 2)
        )
    );
}

#[test]
fn push_saves_n_to_the_satchel() {
    assert_eq!(
        text_of(write_push, op(7, 1, 0, 1)),
        format!(
            "  mov %r13, %r11\n{}  movq (%r12, %r10, 8),%r8\n  movq %r8, (%r12, %r10, 8)\n  movq %r8, (%r12, %r11, 8)\n  mov %r10, %r14\n",
            find_cell("r10", 1)
        )
    );
}

#[test]
fn pop_takes_the_satchel_into_n() {
    assert_eq!(
        text_of(write_pop, op(8, 3, 0, 1)),
        format!(
            "  mov %r13, %r11\n{}  movq (%r12, %r11, 8),%r8\n  movq %r8, (%r12, %r10, 8)\n  movq $0, (%r12, %r11, 8)\n  mov %r10, %r14\n",
            find_cell("r10", 3)
        )
    );
}

#[test]
fn loop_begin_tests_n_and_names_the_loop_by_y() {
    assert_eq!(
        text_of(write_loop_begin, op(9, 1, 4, 2)),
        format!(
            "#LoopBegin==========\n  start_4:\n{}  movq (%r12, %r10, 8),%r8\n  cmp $0, %r8\n  jz end_4\n",
            find_cell("r10", 1)
        )
    );
}

#[test]
fn loop_end_jumps_back() {
    assert_eq!(
        text_of(write_loop_end, op(10, 0, 4, 2)),
        "#LoopEnd==========\n  jmp start_4\n  end_4:\n"
    );
}

#[test]
fn set_stores_the_value_at_the_cell_of_n_and_moves_the_cursor() {
    assert_eq!(
        text_of(write_set, op(11, 1, 2, 2)),
        format!(
            "#Set==========\n#n: 1\n#y: 2\n{}  movq $2, (%r12, %r10, 8)\n  mov %r10, %r14\n",
            find_cell("r10", 1)
        )
    );
}

#[test]
fn print_writes_one_byte_and_leaves_the_cursor() {
    let text = text_of(write_print, op(1, 2, 0, 1));
    assert_eq!(
        text,
        format!(
            "#Print==========\n{}  movq (%r12, %r10, 8),%r8\n  push %r8\n  mov $1, %rax\n  mov $1, %rdi\n  mov %rsp, %rsi\n  mov $1, %rdx\n  syscall\n  add $8, %rsp\n",
            find_cell("r10", 2)
        )
    );
    assert!(!text.contains("%r14\n"));
}

#[test]
fn all_but_print_and_the_loop_and_end_move_the_cursor() {
    for code in 0..12usize {
        let mut lines = Vec::new();
        write_instruction(&op(code, 1, 2, 2), &mut lines);
        let moves = lines.contains(&Line::Move { from: Reg::R10, to: Reg::R14 });
        assert_eq!(moves, ![0, 1, 9, 10].contains(&code));
    }
}

#[test]
fn write_instruction_picks_the_lines_by_opcode() {
    type Writer = fn(&DuckInstruction, &mut Vec<Line>);
    let writers: [(usize, Writer); 11] = [
        (1, write_print),
        (2, write_add),
        (3, write_subtract),
        (4, write_multiply),
        (5, write_divide),
        (6, write_input),
        (7, write_push),
        (8, write_pop),
        (9, write_loop_begin),
        (10, write_loop_end),
        (11, write_set),
    ];
    for (code, writer) in writers {
        let inst = op(code, 3, 4, 2);
        let mut by_code = Vec::new();
        write_instruction(&inst, &mut by_code);
        let mut direct = Vec::new();
        writer(&inst, &mut direct);
        assert_eq!(by_code, direct);
    }
    let mut end = Vec::new();
    write_instruction(&op(0, 0, 0, 0), &mut end);
    assert_eq!(render(&end), EXIT);
}

// ---- whole programs

#[test]
fn smallest_program_is_header_exit_and_exit_again() {
    let text = lower_program(&(3, vec![op(0, 0, 0, 0)]));
    assert_eq!(
        text,
        format!(
            ".section .text\n.global main\nmain:\n#Allocate ducks on stack\n  push $0\n  push $0\n  push $0\n  push $0\n  mov %rsp, %r12\n  mov $3, %r13\n  mov $0, %r14\n{}{}",
            EXIT, EXIT
        )
    );
}

#[test]
fn program_text_is_the_text_of_its_instructions_in_order() {
    let program = vec![op(11, 1, 65, 2), op(1, 1, 0, 1), op(0, 0, 0, 0)];
    let text = lower_program(&(2, program.clone()));
    let mut header = Vec::new();
    write_header(2, &mut header);
    let expected = format!(
        "{}{}{}{}{}",
        render(&header),
        text_of(write_set, program[0]),
        text_of(write_print, program[1]),
        EXIT,
        EXIT
    );
    assert_eq!(text, expected);
}

#[test]
fn text_is_the_rendering_of_the_lines() {
    let program = (4, vec![op(6, 0, 0, 1), op(9, 0, 1, 2), op(1, 0, 0, 1), op(10, 0, 1, 2), op(0, 0, 0, 0)]);
    assert_eq!(lower_program(&program), render(&lower_to_lines(&program)));
}

#[test]
fn lowering_twice_gives_the_same_bytes() {
    let program = (
        3,
        vec![
            op(11, 0, 72, 2),
            op(7, 0, 0, 1),
            op(8, 2, 0, 1),
            op(2, 2, 0, 2),
            op(9, 2, 1, 2),
            op(1, 2, 0, 1),
            op(3, 2, 1, 2),
            op(10, 0, 1, 2),
            op(0, 0, 0, 0),
        ],
    );
    let first = lower_program(&program);
    let second = lower_program(&program);
    assert_eq!(first.as_bytes(), second.as_bytes());
}

#[test]
fn parsed_source_is_lowered() {
    let source: Vec<String> = ["duck duck goose", "duck", "duck duck", "duck duck duck duck duck duck duck duck duck duck duck goose", "goose"]
        .iter()
        .map(|line| line.to_string())
        .collect();
    let parsed = parse_file(&source).unwrap();
    assert_eq!(parsed, (2, vec![op(11, 1, 2, 2), op(0, 0, 0, 0)]));
    let text = lower_program(&parsed);
    let set = format!(
        "#Set==========\n#n: 1\n#y: 2\n{}  movq $2, (%r12, %r10, 8)\n  mov %r10, %r14\n",
        find_cell("r10", 1)
    );
    assert!(text.contains(&set));
    assert!(text.ends_with(&format!("{}{}", EXIT, EXIT)));
}

#[test]
fn print_then_input_use_the_same_cell_and_the_same_word() {
    let text = lower_program(&(1, vec![op(1, 0, 0, 1), op(6, 0, 0, 1), op(0, 0, 0, 0)]));
    let print_at = text.find("#Print==========").unwrap();
    let input_at = text.find("#Input==========").unwrap();
    assert!(print_at < input_at);
    // both find the cell of slot 0 in r10, and both hand the word at the top of the stack over
    assert_eq!(text.matches(&find_cell("r10", 0)).count(), 2);
    assert_eq!(text.matches("  mov %rsp, %rsi\n").count(), 2);
}
