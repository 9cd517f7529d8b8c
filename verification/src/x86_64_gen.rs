//! From an instruction list to x86-64 assembly.
//!
//! The program that is generated keeps its slots in a ring of
//! `slot_count + 1` cells of eight bytes on the stack. Three registers hold
//! its state: `r12` the address of the first cell, `r13` the slot count, and
//! `r14` the cursor, the number of the cell at which slot 0 stands. Slot `i`
//! stands in cell `(cursor + i) mod (slot_count + 1)`. The cell with the
//! number `slot_count` is also the satchel, the one place that `Push` and
//! `Pop` save a value to and take it from, whatever the cursor is.
//!
//! An instruction that writes to a slot finds the cell of that slot with the
//! cursor as it stands before the instruction, writes there, and then moves
//! the cursor to that cell.
//!
//! Values are numbers of 64 bits in two's complement: sums, differences and
//! products keep their low 64 bits, and quotients are rounded towards zero.
//!
//! Nothing here checks that a slot number is below the slot count, or that
//! a divisor is not zero: the first goes round the ring, the second is a
//! fault of the generated program when it runs.
//!
//! Here the lines of each instruction are laid down and written; that they
//! do what is said above is shown in [`crate::refinement`].

use vstd::prelude::*;

use crate::instruction::{valid_program, DuckInstruction, InstructionEnum};
use crate::listing::{listing_text, render, Line, Reg};

verus! {

/// Lines that copy the cursor to `register`.
pub open spec fn goose_index_lines(register: Reg) -> Seq<Line> {
    seq![Line::Move { from: Reg::R14, to: register }]
}

/// Lines that leave in `register` the number of the cell at which slot
/// `duck` stands: the cursor plus `duck` is divided by the slot count plus
/// one, and the remainder is kept. They use `r8`, `rax`, `rbx` and `rdx`.
pub open spec fn duck_index_lines(register: Reg, duck: usize) -> Seq<Line> {
    goose_index_lines(Reg::R8) + seq![
        Line::AddValue { value: duck, to: Reg::R8 },
        Line::Move { from: Reg::R8, to: Reg::Rax },
        Line::MoveValue { value: 0, to: Reg::Rdx },
        Line::Move { from: Reg::R13, to: Reg::Rbx },
        Line::AddValue { value: 1, to: Reg::Rbx },
        Line::Div { by: Reg::Rbx },
        Line::Move { from: Reg::Rdx, to: register },
    ]
}

/// Lines that leave in `register` the number of the satchel's cell, which is
/// the slot count.
pub open spec fn teacher_index_lines(register: Reg) -> Seq<Line> {
    seq![Line::Move { from: Reg::R13, to: register }]
}

/// `count` lines that each put one cell of zero on the stack.
pub open spec fn cells_lines(count: nat) -> Seq<Line>
    decreases count,
{
    if count == 0 {
        Seq::empty()
    } else {
        cells_lines((count - 1) as nat).push(Line::PushValue { value: 0 })
    }
}

/// The start of every program: `slot_count + 1` cells of zero, `r12` at the
/// first of them, the slot count in `r13`, and the cursor at cell 0.
pub open spec fn header_lines(slot_count: usize) -> Seq<Line> {
    seq![Line::Entry, Line::AllocateNote] + cells_lines(slot_count as nat + 1) + seq![
        Line::Move { from: Reg::Rsp, to: Reg::R12 },
        Line::MoveValue { value: slot_count, to: Reg::R13 },
        Line::MoveValue { value: 0, to: Reg::R14 },
    ]
}

/// The end of the process, with status 0.
pub open spec fn exit_lines() -> Seq<Line> {
    seq![
        Line::Banner(InstructionEnum::End),
        Line::MoveValue { value: 60, to: Reg::Rax },
        Line::MoveValue { value: 0, to: Reg::Rdi },
        Line::Syscall,
    ]
}

/// The start of an instruction on two slots: its name, its operands as
/// comments, the cells of both slots found (`r10` for `n`, `r11` for `y`)
/// and their values read (`r8` for `n`, `r9` for `y`).
pub open spec fn operands_lines(kind: InstructionEnum, n: usize, y: usize) -> Seq<Line> {
    seq![Line::Banner(kind), Line::NoteN(n), Line::NoteY(y)] + duck_index_lines(Reg::R10, n)
        + duck_index_lines(Reg::R11, y) + seq![
        Line::Load { index: Reg::R10, to: Reg::R8 },
        Line::Load { index: Reg::R11, to: Reg::R9 },
    ]
}

/// `n + y`, written to the cell of `n`, to which the cursor then moves.
pub open spec fn add_lines(n: usize, y: usize) -> Seq<Line> {
    operands_lines(InstructionEnum::Add, n, y) + seq![
        Line::Add { from: Reg::R8, to: Reg::R9 },
        Line::Store { from: Reg::R9, index: Reg::R10 },
        Line::Move { from: Reg::R10, to: Reg::R14 },
    ]
}

/// `n - y`, written to the cell of `n`, to which the cursor then moves.
pub open spec fn subtract_lines(n: usize, y: usize) -> Seq<Line> {
    operands_lines(InstructionEnum::Subtract, n, y) + seq![
        Line::Sub { from: Reg::R9, to: Reg::R8 },
        Line::Store { from: Reg::R8, index: Reg::R10 },
        Line::Move { from: Reg::R10, to: Reg::R14 },
    ]
}

/// `n * y`, written to the cell of `n`, to which the cursor then moves.
pub open spec fn multiply_lines(n: usize, y: usize) -> Seq<Line> {
    operands_lines(InstructionEnum::Multiply, n, y) + seq![
        Line::Mul { from: Reg::R8, to: Reg::R9 },
        Line::Store { from: Reg::R9, index: Reg::R10 },
        Line::Move { from: Reg::R10, to: Reg::R14 },
    ]
}

/// `n / y`, both taken in two's complement and the quotient rounded towards
/// zero, written to the cell of `n`, to which the cursor then moves.
pub open spec fn divide_lines(n: usize, y: usize) -> Seq<Line> {
    operands_lines(InstructionEnum::Divide, n, y) + seq![
        Line::Move { from: Reg::R8, to: Reg::Rax },
        Line::SignExtend,
        Line::DivSigned { by: Reg::R9 },
        Line::Store { from: Reg::Rax, index: Reg::R10 },
        Line::Move { from: Reg::R10, to: Reg::R14 },
    ]
}

/// One byte read from standard input into a word of zero on the stack,
/// which is then taken from the stack and written to the cell of `n`, to
/// which the cursor then moves.
pub open spec fn input_lines(n: usize) -> Seq<Line> {
    seq![
        Line::Banner(InstructionEnum::Input),
        Line::PushValue { value: 0 },
        Line::Clear32 { reg: Reg::Rax },
        Line::Clear32 { reg: Reg::Rdi },
        Line::Move { from: Reg::Rsp, to: Reg::Rsi },
        Line::MoveValue32 { value: 1, to: Reg::Rdx },
        Line::Syscall,
    ] + duck_index_lines(Reg::R10, n) + seq![
        Line::Pop { to: Reg::R11 },
        Line::Store { from: Reg::R11, index: Reg::R10 },
        Line::Move { from: Reg::R10, to: Reg::R14 },
    ]
}

/// The value of `n` written to its own cell and to the satchel; the cursor
/// then moves to the cell of `n`.
pub open spec fn push_lines(n: usize) -> Seq<Line> {
    teacher_index_lines(Reg::R11) + duck_index_lines(Reg::R10, n) + seq![
        Line::Load { index: Reg::R10, to: Reg::R8 },
        Line::Store { from: Reg::R8, index: Reg::R10 },
        Line::Store { from: Reg::R8, index: Reg::R11 },
        Line::Move { from: Reg::R10, to: Reg::R14 },
    ]
}

/// The value of the satchel written to the cell of `n`, and zero to the
/// satchel; the cursor then moves to the cell of `n`.
pub open spec fn pop_lines(n: usize) -> Seq<Line> {
    teacher_index_lines(Reg::R11) + duck_index_lines(Reg::R10, n) + seq![
        Line::Load { index: Reg::R11, to: Reg::R8 },
        Line::Store { from: Reg::R8, index: Reg::R10 },
        Line::StoreValue { value: 0, index: Reg::R11 },
        Line::Move { from: Reg::R10, to: Reg::R14 },
    ]
}

/// The head of loop `y`: its label, and a jump behind its end where the
/// value of `n` is zero. The cursor stays.
pub open spec fn loop_begin_lines(n: usize, y: usize) -> Seq<Line> {
    seq![Line::Banner(InstructionEnum::LoopBegin), Line::StartLabel(y)] + duck_index_lines(
        Reg::R10,
        n,
    ) + seq![
        Line::Load { index: Reg::R10, to: Reg::R8 },
        Line::Compare { value: 0, with: Reg::R8 },
        Line::JumpIfZeroToEnd(y),
    ]
}

/// The end of loop `y`: a jump back to its head, and the label behind it.
pub open spec fn loop_end_lines(y: usize) -> Seq<Line> {
    seq![Line::Banner(InstructionEnum::LoopEnd), Line::JumpToStart(y), Line::EndLabel(y)]
}

/// The value `y` itself written to the cell of `n`, to which the cursor
/// then moves.
pub open spec fn set_lines(n: usize, y: usize) -> Seq<Line> {
    seq![Line::Banner(InstructionEnum::SetValue), Line::NoteN(n), Line::NoteY(y)]
        + duck_index_lines(Reg::R10, n) + seq![
        Line::StoreValue { value: y, index: Reg::R10 },
        Line::Move { from: Reg::R10, to: Reg::R14 },
    ]
}

/// The lowest byte of the value of `n` written to standard output, from a
/// word put on the stack and given back afterwards. The cursor stays.
pub open spec fn print_lines(n: usize) -> Seq<Line> {
    seq![Line::Banner(InstructionEnum::Print)] + duck_index_lines(Reg::R10, n) + seq![
        Line::Load { index: Reg::R10, to: Reg::R8 },
        Line::Push { from: Reg::R8 },
        Line::MoveValue { value: 1, to: Reg::Rax },
        Line::MoveValue { value: 1, to: Reg::Rdi },
        Line::Move { from: Reg::Rsp, to: Reg::Rsi },
        Line::MoveValue { value: 1, to: Reg::Rdx },
        Line::Syscall,
        Line::AddValue { value: 8, to: Reg::Rsp },
    ]
}

/// The lines of one instruction; none for an opcode that is not known.
pub open spec fn instruction_lines(inst: DuckInstruction) -> Seq<Line> {
    match inst.kind() {
        Some(InstructionEnum::End) => exit_lines(),
        Some(InstructionEnum::Print) => print_lines(inst.n),
        Some(InstructionEnum::Add) => add_lines(inst.n, inst.y),
        Some(InstructionEnum::Subtract) => subtract_lines(inst.n, inst.y),
        Some(InstructionEnum::Multiply) => multiply_lines(inst.n, inst.y),
        Some(InstructionEnum::Divide) => divide_lines(inst.n, inst.y),
        Some(InstructionEnum::Input) => input_lines(inst.n),
        Some(InstructionEnum::Push) => push_lines(inst.n),
        Some(InstructionEnum::Pop) => pop_lines(inst.n),
        Some(InstructionEnum::LoopBegin) => loop_begin_lines(inst.n, inst.y),
        Some(InstructionEnum::LoopEnd) => loop_end_lines(inst.y),
        Some(InstructionEnum::SetValue) => set_lines(inst.n, inst.y),
        None => Seq::empty(),
    }
}

/// The lines of the instructions of a program, one after the other.
pub open spec fn body_lines(program: Seq<DuckInstruction>) -> Seq<Line>
    decreases program.len(),
{
    if program.len() == 0 {
        Seq::empty()
    } else {
        body_lines(program.drop_last()) + instruction_lines(program.last())
    }
}

/// The whole listing: the header, the lines of each instruction, and the
/// end of the process once more.
pub open spec fn program_lines(slot_count: usize, program: Seq<DuckInstruction>) -> Seq<Line> {
    header_lines(slot_count) + body_lines(program) + exit_lines()
}

/// The text of the whole listing.
pub open spec fn program_text(slot_count: usize, program: Seq<DuckInstruction>) -> Seq<char> {
    listing_text(program_lines(slot_count, program))
}

/// Writes lines that copy the cursor to `register`.
pub fn get_goose_index(register: Reg, out: &mut Vec<Line>)
    ensures
        final(out)@ == old(out)@ + goose_index_lines(register),
{
    out.push(Line::Move { from: Reg::R14, to: register });
    assert(out@ =~= old(out)@ + goose_index_lines(register));
}

/// Writes lines that leave in `register` the number of the cell at which
/// slot `duck` stands.
pub fn get_duck_index(register: Reg, duck: usize, out: &mut Vec<Line>)
    ensures
        final(out)@ == old(out)@ + duck_index_lines(register, duck),
{
    get_goose_index(Reg::R8, out);
    out.push(Line::AddValue { value: duck, to: Reg::R8 });
    out.push(Line::Move { from: Reg::R8, to: Reg::Rax });
    out.push(Line::MoveValue { value: 0, to: Reg::Rdx });
    out.push(Line::Move { from: Reg::R13, to: Reg::Rbx });
    out.push(Line::AddValue { value: 1, to: Reg::Rbx });
    out.push(Line::Div { by: Reg::Rbx });
    out.push(Line::Move { from: Reg::Rdx, to: register });
    assert(out@ =~= old(out)@ + duck_index_lines(register, duck));
}

/// Writes lines that leave in `register` the number of the satchel's cell.
pub fn get_teacher_index(register: Reg, out: &mut Vec<Line>)
    ensures
        final(out)@ == old(out)@ + teacher_index_lines(register),
{
    out.push(Line::Move { from: Reg::R13, to: register });
    assert(out@ =~= old(out)@ + teacher_index_lines(register));
}

/// Writes the start of a program with `duck_count` slots.
pub fn write_header(duck_count: usize, out: &mut Vec<Line>)
    ensures
        final(out)@ == old(out)@ + header_lines(duck_count),
{
    out.push(Line::Entry);
    out.push(Line::AllocateNote);
    let ghost start = out@;
    // one cell for each slot
    let mut i: usize = 0;
    while i < duck_count
        invariant
            i <= duck_count,
            out@ == start + cells_lines(i as nat),
        decreases duck_count - i,
    {
        out.push(Line::PushValue { value: 0 });
        i += 1;
        assert(out@ =~= start + cells_lines(i as nat));
    }
    // and one more
    out.push(Line::PushValue { value: 0 });
    assert(out@ =~= start + cells_lines(duck_count as nat + 1));
    out.push(Line::Move { from: Reg::Rsp, to: Reg::R12 });
    out.push(Line::MoveValue { value: duck_count, to: Reg::R13 });
    out.push(Line::MoveValue { value: 0, to: Reg::R14 });
    assert(out@ =~= old(out)@ + header_lines(duck_count));
}

/// Writes the end of the process.
pub fn write_exit(out: &mut Vec<Line>)
    ensures
        final(out)@ == old(out)@ + exit_lines(),
{
    out.push(Line::Banner(InstructionEnum::End));
    out.push(Line::MoveValue { value: 60, to: Reg::Rax });
    out.push(Line::MoveValue { value: 0, to: Reg::Rdi });
    out.push(Line::Syscall);
    assert(out@ =~= old(out)@ + exit_lines());
}

/// Writes the start of an instruction on two slots.
fn write_operands(kind: InstructionEnum, inst: &DuckInstruction, out: &mut Vec<Line>)
    ensures
        final(out)@ == old(out)@ + operands_lines(kind, inst.n, inst.y),
{
    out.push(Line::Banner(kind));
    out.push(Line::NoteN(inst.n));
    out.push(Line::NoteY(inst.y));
    get_duck_index(Reg::R10, inst.n, out);
    get_duck_index(Reg::R11, inst.y, out);
    out.push(Line::Load { index: Reg::R10, to: Reg::R8 });
    out.push(Line::Load { index: Reg::R11, to: Reg::R9 });
    assert(out@ =~= old(out)@ + operands_lines(kind, inst.n, inst.y));
}

/// Writes the lines of `Add`.
pub fn write_add(inst: &DuckInstruction, out: &mut Vec<Line>)
    ensures
        final(out)@ == old(out)@ + add_lines(inst.n, inst.y),
{
    write_operands(InstructionEnum::Add, inst, out);
    out.push(Line::Add { from: Reg::R8, to: Reg::R9 });
    out.push(Line::Store { from: Reg::R9, index: Reg::R10 });
    out.push(Line::Move { from: Reg::R10, to: Reg::R14 });
    assert(out@ =~= old(out)@ + add_lines(inst.n, inst.y));
}

/// Writes the lines of `Subtract`.
pub fn write_subtract(inst: &DuckInstruction, out: &mut Vec<Line>)
    ensures
        final(out)@ == old(out)@ + subtract_lines(inst.n, inst.y),
{
    write_operands(InstructionEnum::Subtract, inst, out);
    out.push(Line::Sub { from: Reg::R9, to: Reg::R8 });
    out.push(Line::Store { from: Reg::R8, index: Reg::R10 });
    out.push(Line::Move { from: Reg::R10, to: Reg::R14 });
    assert(out@ =~= old(out)@ + subtract_lines(inst.n, inst.y));
}

/// Writes the lines of `Multiply`.
pub fn write_multiply(inst: &DuckInstruction, out: &mut Vec<Line>)
    ensures
        final(out)@ == old(out)@ + multiply_lines(inst.n, inst.y),
{
    write_operands(InstructionEnum::Multiply, inst, out);
    out.push(Line::Mul { from: Reg::R8, to: Reg::R9 });
    out.push(Line::Store { from: Reg::R9, index: Reg::R10 });
    out.push(Line::Move { from: Reg::R10, to: Reg::R14 });
    assert(out@ =~= old(out)@ + multiply_lines(inst.n, inst.y));
}

/// Writes the lines of `Divide`.
pub fn write_divide(inst: &DuckInstruction, out: &mut Vec<Line>)
    ensures
        final(out)@ == old(out)@ + divide_lines(inst.n, inst.y),
{
    write_operands(InstructionEnum::Divide, inst, out);
    out.push(Line::Move { from: Reg::R8, to: Reg::Rax });
    out.push(Line::SignExtend);
    out.push(Line::DivSigned { by: Reg::R9 });
    out.push(Line::Store { from: Reg::Rax, index: Reg::R10 });
    out.push(Line::Move { from: Reg::R10, to: Reg::R14 });
    assert(out@ =~= old(out)@ + divide_lines(inst.n, inst.y));
}

/// Writes the lines of `Input`.
pub fn write_input(inst: &DuckInstruction, out: &mut Vec<Line>)
    ensures
        final(out)@ == old(out)@ + input_lines(inst.n),
{
    out.push(Line::Banner(InstructionEnum::Input));
    out.push(Line::PushValue { value: 0 });
    out.push(Line::Clear32 { reg: Reg::Rax });
    out.push(Line::Clear32 { reg: Reg::Rdi });
    out.push(Line::Move { from: Reg::Rsp, to: Reg::Rsi });
    out.push(Line::MoveValue32 { value: 1, to: Reg::Rdx });
    out.push(Line::Syscall);
    get_duck_index(Reg::R10, inst.n, out);
    out.push(Line::Pop { to: Reg::R11 });
    out.push(Line::Store { from: Reg::R11, index: Reg::R10 });
    out.push(Line::Move { from: Reg::R10, to: Reg::R14 });
    assert(out@ =~= old(out)@ + input_lines(inst.n));
}

/// Writes the lines of `Push`.
pub fn write_push(inst: &DuckInstruction, out: &mut Vec<Line>)
    ensures
        final(out)@ == old(out)@ + push_lines(inst.n),
{
    get_teacher_index(Reg::R11, out);
    get_duck_index(Reg::R10, inst.n, out);
    out.push(Line::Load { index: Reg::R10, to: Reg::R8 });
    out.push(Line::Store { from: Reg::R8, index: Reg::R10 });
    out.push(Line::Store { from: Reg::R8, index: Reg::R11 });
    out.push(Line::Move { from: Reg::R10, to: Reg::R14 });
    assert(out@ =~= old(out)@ + push_lines(inst.n));
}

/// Writes the lines of `Pop`.
pub fn write_pop(inst: &DuckInstruction, out: &mut Vec<Line>)
    ensures
        final(out)@ == old(out)@ + pop_lines(inst.n),
{
    get_teacher_index(Reg::R11, out);
    get_duck_index(Reg::R10, inst.n, out);
    out.push(Line::Load { index: Reg::R11, to: Reg::R8 });
    out.push(Line::Store { from: Reg::R8, index: Reg::R10 });
    out.push(Line::StoreValue { value: 0, index: Reg::R11 });
    out.push(Line::Move { from: Reg::R10, to: Reg::R14 });
    assert(out@ =~= old(out)@ + pop_lines(inst.n));
}

/// Writes the lines of `LoopBegin`.
pub fn write_loop_begin(inst: &DuckInstruction, out: &mut Vec<Line>)
    ensures
        final(out)@ == old(out)@ + loop_begin_lines(inst.n, inst.y),
{
    out.push(Line::Banner(InstructionEnum::LoopBegin));
    out.push(Line::StartLabel(inst.y));
    get_duck_index(Reg::R10, inst.n, out);
    out.push(Line::Load { index: Reg::R10, to: Reg::R8 });
    out.push(Line::Compare { value: 0, with: Reg::R8 });
    out.push(Line::JumpIfZeroToEnd(inst.y));
    assert(out@ =~= old(out)@ + loop_begin_lines(inst.n, inst.y));
}

/// Writes the lines of `LoopEnd`.
pub fn write_loop_end(inst: &DuckInstruction, out: &mut Vec<Line>)
    ensures
        final(out)@ == old(out)@ + loop_end_lines(inst.y),
{
    out.push(Line::Banner(InstructionEnum::LoopEnd));
    out.push(Line::JumpToStart(inst.y));
    out.push(Line::EndLabel(inst.y));
    assert(out@ =~= old(out)@ + loop_end_lines(inst.y));
}

/// Writes the lines of `Set`.
pub fn write_set(inst: &DuckInstruction, out: &mut Vec<Line>)
    ensures
        final(out)@ == old(out)@ + set_lines(inst.n, inst.y),
{
    out.push(Line::Banner(InstructionEnum::SetValue));
    out.push(Line::NoteN(inst.n));
    out.push(Line::NoteY(inst.y));
    get_duck_index(Reg::R10, inst.n, out);
    out.push(Line::StoreValue { value: inst.y, index: Reg::R10 });
    out.push(Line::Move { from: Reg::R10, to: Reg::R14 });
    assert(out@ =~= old(out)@ + set_lines(inst.n, inst.y));
}

/// Writes the lines of `Print`.
pub fn write_print(inst: &DuckInstruction, out: &mut Vec<Line>)
    ensures
        final(out)@ == old(out)@ + print_lines(inst.n),
{
    out.push(Line::Banner(InstructionEnum::Print));
    get_duck_index(Reg::R10, inst.n, out);
    out.push(Line::Load { index: Reg::R10, to: Reg::R8 });
    out.push(Line::Push { from: Reg::R8 });
    out.push(Line::MoveValue { value: 1, to: Reg::Rax });
    out.push(Line::MoveValue { value: 1, to: Reg::Rdi });
    out.push(Line::Move { from: Reg::Rsp, to: Reg::Rsi });
    out.push(Line::MoveValue { value: 1, to: Reg::Rdx });
    out.push(Line::Syscall);
    out.push(Line::AddValue { value: 8, to: Reg::Rsp });
    assert(out@ =~= old(out)@ + print_lines(inst.n));
}

/// Writes the lines of one instruction.
pub fn write_instruction(inst: &DuckInstruction, out: &mut Vec<Line>)
    requires
        inst.known(),
    ensures
        final(out)@ == old(out)@ + instruction_lines(*inst),
{
    match InstructionEnum::from_code(inst.op_code) {
        Some(InstructionEnum::End) => write_exit(out),
        Some(InstructionEnum::Print) => write_print(inst, out),
        Some(InstructionEnum::Add) => write_add(inst, out),
        Some(InstructionEnum::Subtract) => write_subtract(inst, out),
        Some(InstructionEnum::Multiply) => write_multiply(inst, out),
        Some(InstructionEnum::Divide) => write_divide(inst, out),
        Some(InstructionEnum::Input) => write_input(inst, out),
        Some(InstructionEnum::Push) => write_push(inst, out),
        Some(InstructionEnum::Pop) => write_pop(inst, out),
        Some(InstructionEnum::LoopBegin) => write_loop_begin(inst, out),
        Some(InstructionEnum::LoopEnd) => write_loop_end(inst, out),
        Some(InstructionEnum::SetValue) => write_set(inst, out),
        None => {
            assert(out@ =~= old(out)@ + instruction_lines(*inst));
        },
    }
}

/// Lowers a program, given as its slot count and its instructions, to the
/// lines of its listing.
pub fn lower_to_lines(parse_results: &(usize, Vec<DuckInstruction>)) -> (lines: Vec<Line>)
    requires
        valid_program(parse_results.1@),
    ensures
        lines@ == program_lines(parse_results.0, parse_results.1@),
{
    let mut out: Vec<Line> = Vec::new();
    write_header(parse_results.0, &mut out);
    let program = &parse_results.1;
    let mut i: usize = 0;
    assert(program@.subrange(0, 0) =~= Seq::<DuckInstruction>::empty());
    assert(out@ =~= header_lines(parse_results.0) + body_lines(program@.subrange(0, 0)));
    while i < program.len()
        invariant
            i <= program.len(),
            valid_program(program@),
            out@ == header_lines(parse_results.0) + body_lines(program@.subrange(0, i as int)),
        decreases program.len() - i,
    {
        assert(program@[i as int].wf());
        let ghost before = out@;
        write_instruction(&program[i], &mut out);
        proof {
            let done = program@.subrange(0, i + 1);
            assert(done.drop_last() =~= program@.subrange(0, i as int));
            assert(done.last() == program@[i as int]);
            assert(out@ =~= header_lines(parse_results.0) + body_lines(done));
        }
        i += 1;
    }
    assert(program@.subrange(0, i as int) =~= program@);
    write_exit(&mut out);
    out
}

/// Lowers a program, given as its slot count and its instructions, to
/// assembly text.
pub fn lower_program(parse_results: &(usize, Vec<DuckInstruction>)) -> (text: String)
    requires
        valid_program(parse_results.1@),
    ensures
        text@ == program_text(parse_results.0, parse_results.1@),
{
    let lines = lower_to_lines(parse_results);
    render(&lines)
}

/// The text is decided by the slot count and the instructions alone: two
/// texts lowered from the same program are the same, character for
/// character and byte for byte.
pub proof fn lemma_lowering_is_repeatable(
    slot_count: usize,
    program: Seq<DuckInstruction>,
    first: Seq<char>,
    second: Seq<char>,
)
    requires
        first == program_text(slot_count, program),
        second == program_text(slot_count, program),
    ensures
        first == second,
        vstd::utf8::encode_utf8(first) == vstd::utf8::encode_utf8(second),
{
}

} // verus!
