//! The lines of each instruction do to the machine what the instruction
//! does to the slots.

use vstd::prelude::*;

use crate::instruction::{DuckInstruction, InstructionEnum};
use crate::listing::{Line, Reg};
use crate::machine::{
    lemma_run_concat, run, run_from, run_line, signed_pair, Machine, Outcome,
};
use crate::slots::{
    divide, fresh_slots, lemma_print_then_input, lemma_quotient_fits, low64, quotient_toward_zero,
    signed, word, Slots, Step,
};
use crate::x86_64_gen::{
    add_lines, body_lines, cells_lines, divide_lines, duck_index_lines, exit_lines, header_lines,
    input_lines, instruction_lines, loop_begin_lines, loop_end_lines, multiply_lines,
    operands_lines, pop_lines, print_lines, program_lines, push_lines, set_lines, subtract_lines,
    teacher_index_lines,
};

verus! {

/// The machine as generated code keeps it between two instructions: `r13`
/// holds the slot count, `r14` the number of a cell, the ring, whose first
/// cell is at the address that `r12` holds, lies within the addresses of 64
/// bits, and the stack, which has room for a word, lies below the ring.
pub open spec fn frame(m: Machine, slot_count: nat) -> bool {
    &&& m.has(Reg::R12)
    &&& m.has(Reg::R13)
    &&& m.has(Reg::R14)
    &&& m.has(Reg::Rsp)
    &&& m.get(Reg::R13) == slot_count
    &&& m.get(Reg::R12) + 8 * (slot_count + 1) <= word()
    &&& m.get(Reg::R14) <= slot_count
    &&& 8 <= m.get(Reg::Rsp) <= m.get(Reg::R12)
}

/// The number is one that a line with room for 32 bits can add: a slot
/// number must be such a number for the lines that find its cell.
pub open spec fn fits_operand(value: usize) -> bool {
    value < 0x8000_0000
}

/// The slots that a machine holds.
pub open spec fn slots_of(m: Machine, slot_count: nat) -> Slots {
    Slots {
        cells: Seq::new(slot_count + 1, |i: int| m.mem[m.get(Reg::R12) + 8 * i]),
        cursor: m.get(Reg::R14) as nat,
        input: m.input,
        output: m.output,
    }
}

/// The register holds in `after` what it holds in `before`.
pub open spec fn keeps(before: Machine, after: Machine, r: Reg) -> bool {
    after.has(r) == before.has(r) && after.get(r) == before.get(r)
}

/// Every register but `register` and the four that finding a cell uses up
/// holds in `after` what it holds in `before`.
pub open spec fn kept_by_find(before: Machine, after: Machine, register: Reg) -> bool {
    &&& keeps(before, after, Reg::Rdi)
    &&& keeps(before, after, Reg::Rsi)
    &&& keeps(before, after, Reg::Rsp)
    &&& keeps(before, after, Reg::R9)
    &&& register != Reg::R10 ==> keeps(before, after, Reg::R10)
    &&& register != Reg::R11 ==> keeps(before, after, Reg::R11)
    &&& keeps(before, after, Reg::R12)
    &&& keeps(before, after, Reg::R13)
    &&& keeps(before, after, Reg::R14)
}

/// Where a line comes to its end, the lines from it on do what the lines
/// behind it do from there.
pub proof fn lemma_run_step(m: Machine, lines: Seq<Line>, at: int, next: Machine)
    requires
        0 <= at < lines.len(),
        run_line(m, lines[at]) == Outcome::Next(next),
    ensures
        run_from(m, lines, at) == run_from(next, lines, at + 1),
{
}

/// The lines that find the cell of a slot leave its number in the register
/// named, and change nothing else but `r8`, `rax`, `rbx`, `rdx` and the flag.
pub proof fn lemma_duck_index_runs(m: Machine, slot_count: nat, register: Reg, duck: usize)
    requires
        m.has(Reg::R13),
        m.has(Reg::R14),
        m.get(Reg::R13) == slot_count,
        slot_count + 1 < word(),
        m.get(Reg::R14) + duck < word(),
        fits_operand(duck),
        register == Reg::R10 || register == Reg::R11,
    ensures
        run(m, duck_index_lines(register, duck)) matches Outcome::Next(after) && {
            &&& after.has(register)
            &&& after.get(register) == (m.get(Reg::R14) + duck) % (slot_count as int + 1)
            &&& after.get(register) <= slot_count
            &&& after.mem == m.mem
            &&& after.input == m.input
            &&& after.output == m.output
            &&& kept_by_find(m, after, register)
        },
{
    let lines = duck_index_lines(register, duck);
    let cursor = m.get(Reg::R14);
    let sum = low64(cursor + duck);
    let ring = low64(slot_count as int + 1);
    assert(sum == cursor + duck);
    assert(ring == slot_count + 1);
    let m1 = m.set(Reg::R8, cursor, m.zero);
    let m2 = m1.set(Reg::R8, sum, Some(sum == 0));
    let m3 = m2.set(Reg::Rax, sum, m2.zero);
    let m4 = m3.set(Reg::Rdx, 0, m3.zero);
    let m5 = m4.set(Reg::Rbx, slot_count as u64, m4.zero);
    let m6 = m5.set(Reg::Rbx, ring, Some(ring == 0));
    let dividend = 0 * word() + sum;
    assert(dividend == sum);
    assert(dividend / (ring as int) <= dividend) by (nonlinear_arith)
        requires
            dividend >= 0,
            ring > 0,
    ;
    let m7 = m6.set(Reg::Rax, (dividend / (ring as int)) as u64, None).set(
        Reg::Rdx,
        (dividend % (ring as int)) as u64,
        None,
    );
    let m8 = m7.set(register, m7.get(Reg::Rdx), m7.zero);
    assert(lines.len() == 8);
    assert(lines[0] == Line::Move { from: Reg::R14, to: Reg::R8 });
    assert(lines[1] == Line::AddValue { value: duck, to: Reg::R8 });
    assert(lines[2] == Line::Move { from: Reg::R8, to: Reg::Rax });
    assert(lines[3] == Line::MoveValue { value: 0, to: Reg::Rdx });
    assert(lines[4] == Line::Move { from: Reg::R13, to: Reg::Rbx });
    assert(lines[5] == Line::AddValue { value: 1, to: Reg::Rbx });
    assert(lines[6] == Line::Div { by: Reg::Rbx });
    assert(lines[7] == Line::Move { from: Reg::Rdx, to: register });
    lemma_run_step(m, lines, 0, m1);
    lemma_run_step(m1, lines, 1, m2);
    lemma_run_step(m2, lines, 2, m3);
    lemma_run_step(m3, lines, 3, m4);
    lemma_run_step(m4, lines, 4, m5);
    lemma_run_step(m5, lines, 5, m6);
    lemma_run_step(m6, lines, 6, m7);
    lemma_run_step(m7, lines, 7, m8);
    assert(run_from(m8, lines, 8) == Outcome::Next(m8));
}

/// The lines that find the cell of a slot whose number has no room in the
/// line that adds it are a fault: they cannot be assembled.
pub proof fn lemma_wide_slot_faults(m: Machine, register: Reg, duck: usize)
    requires
        !crate::machine::fits_line(duck),
    ensures
        run(m, duck_index_lines(register, duck)) is Fault,
{
    let lines = duck_index_lines(register, duck);
    assert(lines[0] == Line::Move { from: Reg::R14, to: Reg::R8 });
    assert(lines[1] == Line::AddValue { value: duck, to: Reg::R8 });
    if m.has(Reg::R14) {
        let m1 = m.set(Reg::R8, m.get(Reg::R14), m.zero);
        lemma_run_step(m, lines, 0, m1);
        assert(run_line(m1, lines[1]) is Fault);
        assert(run_from(m1, lines, 1) is Fault);
    } else {
        assert(run_line(m, lines[0]) is Fault);
    }
}

/// What an outcome of the machine is to the slots.
pub open spec fn step_of(outcome: Outcome, slot_count: nat) -> Step {
    match outcome {
        Outcome::Next(m) => Step::Next(slots_of(m, slot_count)),
        Outcome::ToStart(y, m) => Step::ToStart(y, slots_of(m, slot_count)),
        Outcome::ToEnd(y, m) => Step::ToEnd(y, slots_of(m, slot_count)),
        Outcome::Exit(status, m) => Step::Exit(status, slots_of(m, slot_count)),
        Outcome::Fault => Step::Fault,
    }
}

/// But for a fault, the machine is left as generated code keeps it, with the
/// stack and the ring where they were.
pub open spec fn frame_kept(before: Machine, outcome: Outcome, slot_count: nat) -> bool {
    outcome !is Fault ==> {
        &&& frame(outcome.machine(), slot_count)
        &&& keeps(before, outcome.machine(), Reg::R12)
        &&& keeps(before, outcome.machine(), Reg::Rsp)
    }
}

/// The three comment lines at the head of an instruction do nothing.
proof fn lemma_notes_run(m: Machine, kind: InstructionEnum, n: usize, y: usize)
    ensures
        run(m, seq![Line::Banner(kind), Line::NoteN(n), Line::NoteY(y)]) == Outcome::Next(m),
{
    let lines = seq![Line::Banner(kind), Line::NoteN(n), Line::NoteY(y)];
    lemma_run_step(m, lines, 0, m);
    lemma_run_step(m, lines, 1, m);
    lemma_run_step(m, lines, 2, m);
}

/// The lines of `Set` write the value to the cell of `n` and move the cursor
/// there.
pub proof fn lemma_set_runs(m: Machine, slot_count: nat, n: usize, y: usize)
    requires
        frame(m, slot_count),
        fits_operand(n),
        fits_operand(y),
    ensures
        run(m, set_lines(n, y)) is Next,
        slots_of(run(m, set_lines(n, y)).machine(), slot_count) == slots_of(m, slot_count).write(
            n as nat,
            y as u64,
        ),
        frame_kept(m, run(m, set_lines(n, y)), slot_count),
{
    let notes = seq![Line::Banner(InstructionEnum::SetValue), Line::NoteN(n), Line::NoteY(y)];
    let find = duck_index_lines(Reg::R10, n);
    let tail = seq![
        Line::StoreValue { value: y, index: Reg::R10 },
        Line::Move { from: Reg::R10, to: Reg::R14 },
    ];
    lemma_run_concat(m, notes + find, tail);
    lemma_run_concat(m, notes, find);
    lemma_notes_run(m, InstructionEnum::SetValue, n, y);
    lemma_duck_index_runs(m, slot_count, Reg::R10, n);
    let found = run(m, find).machine();
    let cell = found.get(Reg::R10);
    let m1 = found.store(found.cell_address(cell), y as u64);
    let m2 = m1.set(Reg::R14, cell, m1.zero);
    lemma_run_step(found, tail, 0, m1);
    lemma_run_step(m1, tail, 1, m2);
    assert(run(m, set_lines(n, y)) == Outcome::Next(m2));
    assert(slots_of(m2, slot_count).cells =~= slots_of(m, slot_count).write(
        n as nat,
        y as u64,
    ).cells);
}

/// The machine behind the start of an instruction on two slots: `r10` and
/// `r11` hold the cells of `n` and `y`, `r8` and `r9` their values, and
/// nothing that counts has changed.
pub open spec fn operands_ready(
    before: Machine,
    after: Machine,
    slot_count: nat,
    n: usize,
    y: usize,
) -> bool {
    let slots = slots_of(before, slot_count);
    &&& after.has(Reg::R8)
    &&& after.has(Reg::R9)
    &&& after.has(Reg::R10)
    &&& after.has(Reg::R11)
    &&& after.get(Reg::R10) == slots.cell_of(n as nat)
    &&& after.get(Reg::R11) == slots.cell_of(y as nat)
    &&& after.get(Reg::R8) == slots.value(n as nat)
    &&& after.get(Reg::R9) == slots.value(y as nat)
    &&& after.mem == before.mem
    &&& after.input == before.input
    &&& after.output == before.output
    &&& keeps(before, after, Reg::Rsp)
    &&& keeps(before, after, Reg::R12)
    &&& keeps(before, after, Reg::R13)
    &&& keeps(before, after, Reg::R14)
}

/// The start of an instruction on two slots finds both cells and reads both
/// values.
pub proof fn lemma_operands_run(
    m: Machine,
    slot_count: nat,
    kind: InstructionEnum,
    n: usize,
    y: usize,
)
    requires
        frame(m, slot_count),
        fits_operand(n),
        fits_operand(y),
    ensures
        run(m, operands_lines(kind, n, y)) is Next,
        operands_ready(m, run(m, operands_lines(kind, n, y)).machine(), slot_count, n, y),
{
    let notes = seq![Line::Banner(kind), Line::NoteN(n), Line::NoteY(y)];
    let find_n = duck_index_lines(Reg::R10, n);
    let find_y = duck_index_lines(Reg::R11, y);
    let loads = seq![
        Line::Load { index: Reg::R10, to: Reg::R8 },
        Line::Load { index: Reg::R11, to: Reg::R9 },
    ];
    lemma_run_concat(m, notes + find_n + find_y, loads);
    lemma_run_concat(m, notes + find_n, find_y);
    lemma_run_concat(m, notes, find_n);
    lemma_notes_run(m, kind, n, y);
    lemma_duck_index_runs(m, slot_count, Reg::R10, n);
    let m1 = run(m, find_n).machine();
    lemma_duck_index_runs(m1, slot_count, Reg::R11, y);
    let m2 = run(m1, find_y).machine();
    let m3 = m2.set(Reg::R8, m2.mem[m2.cell_address(m2.get(Reg::R10))], m2.zero);
    let m4 = m3.set(Reg::R9, m3.mem[m3.cell_address(m3.get(Reg::R11))], m3.zero);
    lemma_run_step(m2, loads, 0, m3);
    lemma_run_step(m3, loads, 1, m4);
    assert(run(m, operands_lines(kind, n, y)) == Outcome::Next(m4));
}

/// The lines of `Add` write the sum to the cell of `n` and move the cursor
/// there.
pub proof fn lemma_add_runs(m: Machine, slot_count: nat, n: usize, y: usize)
    requires
        frame(m, slot_count),
        fits_operand(n),
        fits_operand(y),
    ensures
        run(m, add_lines(n, y)) is Next,
        slots_of(run(m, add_lines(n, y)).machine(), slot_count) == slots_of(m, slot_count).write(
            n as nat,
            low64(
                slots_of(m, slot_count).value(n as nat) + slots_of(m, slot_count).value(y as nat),
            ),
        ),
        frame_kept(m, run(m, add_lines(n, y)), slot_count),
{
    let head = operands_lines(InstructionEnum::Add, n, y);
    let tail = seq![
        Line::Add { from: Reg::R8, to: Reg::R9 },
        Line::Store { from: Reg::R9, index: Reg::R10 },
        Line::Move { from: Reg::R10, to: Reg::R14 },
    ];
    lemma_run_concat(m, head, tail);
    lemma_operands_run(m, slot_count, InstructionEnum::Add, n, y);
    let ready = run(m, head).machine();
    let sum = low64(ready.get(Reg::R9) + ready.get(Reg::R8));
    let m1 = ready.set(Reg::R9, sum, Some(sum == 0));
    let m2 = m1.store(m1.cell_address(m1.get(Reg::R10)), sum);
    let m3 = m2.set(Reg::R14, m2.get(Reg::R10), m2.zero);
    lemma_run_step(ready, tail, 0, m1);
    lemma_run_step(m1, tail, 1, m2);
    lemma_run_step(m2, tail, 2, m3);
    assert(run(m, add_lines(n, y)) == Outcome::Next(m3));
    assert(slots_of(m3, slot_count).cells =~= slots_of(m, slot_count).write(
        n as nat,
        sum,
    ).cells);
}

/// The lines of `Subtract` write the difference to the cell of `n` and move
/// the cursor there.
pub proof fn lemma_subtract_runs(m: Machine, slot_count: nat, n: usize, y: usize)
    requires
        frame(m, slot_count),
        fits_operand(n),
        fits_operand(y),
    ensures
        run(m, subtract_lines(n, y)) is Next,
        slots_of(run(m, subtract_lines(n, y)).machine(), slot_count) == slots_of(
            m,
            slot_count,
        ).write(
            n as nat,
            low64(
                slots_of(m, slot_count).value(n as nat) - slots_of(m, slot_count).value(y as nat),
            ),
        ),
        frame_kept(m, run(m, subtract_lines(n, y)), slot_count),
{
    let head = operands_lines(InstructionEnum::Subtract, n, y);
    let tail = seq![
        Line::Sub { from: Reg::R9, to: Reg::R8 },
        Line::Store { from: Reg::R8, index: Reg::R10 },
        Line::Move { from: Reg::R10, to: Reg::R14 },
    ];
    lemma_run_concat(m, head, tail);
    lemma_operands_run(m, slot_count, InstructionEnum::Subtract, n, y);
    let ready = run(m, head).machine();
    let difference = low64(ready.get(Reg::R8) - ready.get(Reg::R9));
    let m1 = ready.set(Reg::R8, difference, Some(difference == 0));
    let m2 = m1.store(m1.cell_address(m1.get(Reg::R10)), difference);
    let m3 = m2.set(Reg::R14, m2.get(Reg::R10), m2.zero);
    lemma_run_step(ready, tail, 0, m1);
    lemma_run_step(m1, tail, 1, m2);
    lemma_run_step(m2, tail, 2, m3);
    assert(run(m, subtract_lines(n, y)) == Outcome::Next(m3));
    assert(slots_of(m3, slot_count).cells =~= slots_of(m, slot_count).write(
        n as nat,
        difference,
    ).cells);
}

/// The lines of `Multiply` write the low 64 bits of the product to the cell
/// of `n` and move the cursor there.
pub proof fn lemma_multiply_runs(m: Machine, slot_count: nat, n: usize, y: usize)
    requires
        frame(m, slot_count),
        fits_operand(n),
        fits_operand(y),
    ensures
        run(m, multiply_lines(n, y)) is Next,
        slots_of(run(m, multiply_lines(n, y)).machine(), slot_count) == slots_of(
            m,
            slot_count,
        ).write(
            n as nat,
            low64(
                slots_of(m, slot_count).value(n as nat) * slots_of(m, slot_count).value(y as nat),
            ),
        ),
        frame_kept(m, run(m, multiply_lines(n, y)), slot_count),
{
    let head = operands_lines(InstructionEnum::Multiply, n, y);
    let tail = seq![
        Line::Mul { from: Reg::R8, to: Reg::R9 },
        Line::Store { from: Reg::R9, index: Reg::R10 },
        Line::Move { from: Reg::R10, to: Reg::R14 },
    ];
    lemma_run_concat(m, head, tail);
    lemma_operands_run(m, slot_count, InstructionEnum::Multiply, n, y);
    let ready = run(m, head).machine();
    let product = low64(ready.get(Reg::R9) * ready.get(Reg::R8));
    assert(ready.get(Reg::R9) * ready.get(Reg::R8) == ready.get(Reg::R8) * ready.get(Reg::R9))
        by (nonlinear_arith);
    let m1 = ready.set(Reg::R9, product, None);
    let m2 = m1.store(m1.cell_address(m1.get(Reg::R10)), product);
    let m3 = m2.set(Reg::R14, m2.get(Reg::R10), m2.zero);
    lemma_run_step(ready, tail, 0, m1);
    lemma_run_step(m1, tail, 1, m2);
    lemma_run_step(m2, tail, 2, m3);
    assert(run(m, multiply_lines(n, y)) == Outcome::Next(m3));
    assert(slots_of(m3, slot_count).cells =~= slots_of(m, slot_count).write(
        n as nat,
        product,
    ).cells);
}

/// The lines of `Divide` write the quotient of the two values, taken in
/// two's complement and rounded towards zero, to the cell of `n` and move
/// the cursor there; where there is no quotient, they are a fault.
pub proof fn lemma_divide_runs(m: Machine, slot_count: nat, n: usize, y: usize)
    requires
        frame(m, slot_count),
        fits_operand(n),
        fits_operand(y),
    ensures
        match divide(
            slots_of(m, slot_count).value(n as nat),
            slots_of(m, slot_count).value(y as nat),
        ) {
            None => run(m, divide_lines(n, y)) is Fault,
            Some(quotient) => {
                &&& run(m, divide_lines(n, y)) is Next
                &&& slots_of(run(m, divide_lines(n, y)).machine(), slot_count) == slots_of(
                    m,
                    slot_count,
                ).write(n as nat, quotient)
            },
        },
        frame_kept(m, run(m, divide_lines(n, y)), slot_count),
{
    let head = operands_lines(InstructionEnum::Divide, n, y);
    let tail = seq![
        Line::Move { from: Reg::R8, to: Reg::Rax },
        Line::SignExtend,
        Line::DivSigned { by: Reg::R9 },
        Line::Store { from: Reg::Rax, index: Reg::R10 },
        Line::Move { from: Reg::R10, to: Reg::R14 },
    ];
    lemma_run_concat(m, head, tail);
    lemma_operands_run(m, slot_count, InstructionEnum::Divide, n, y);
    let ready = run(m, head).machine();
    let a = ready.get(Reg::R8);
    let b = ready.get(Reg::R9);
    let high: u64 = if signed(a) < 0 {
        0xffff_ffff_ffff_ffff
    } else {
        0
    };
    let m1 = ready.set(Reg::Rax, a, ready.zero);
    let m2 = m1.set(Reg::Rdx, high, m1.zero);
    lemma_run_step(ready, tail, 0, m1);
    lemma_run_step(m1, tail, 1, m2);
    assert(signed_pair(high, a) == signed(a)) by {
        assert(0xffff_ffff_ffff_ffff * word() + a - word() * word() == a - word());
        assert(0 * word() + a == a);
    }
    if b == 0 {
        assert(run_line(m2, tail[2]) is Fault);
        assert(run_from(m2, tail, 2) is Fault);
    } else {
        lemma_quotient_fits(a, b);
        let quotient = quotient_toward_zero(signed(a), signed(b));
        if divide(a, b) is None {
            assert(run_line(m2, tail[2]) is Fault);
            assert(run_from(m2, tail, 2) is Fault);
        } else {
            let m3 = m2.set(Reg::Rax, low64(quotient), None).set(
                Reg::Rdx,
                low64(signed(a) - quotient * signed(b)),
                None,
            );
            let m4 = m3.store(m3.cell_address(m3.get(Reg::R10)), m3.get(Reg::Rax));
            let m5 = m4.set(Reg::R14, m4.get(Reg::R10), m4.zero);
            lemma_run_step(m2, tail, 2, m3);
            lemma_run_step(m3, tail, 3, m4);
            lemma_run_step(m4, tail, 4, m5);
            assert(run(m, divide_lines(n, y)) == Outcome::Next(m5));
            assert(slots_of(m5, slot_count).cells =~= slots_of(m, slot_count).write(
                n as nat,
                low64(quotient),
            ).cells);
        }
    }
}

/// The lines of `Push` write the value of `n` to its own cell and to the
/// satchel, and move the cursor to the cell of `n`.
pub proof fn lemma_push_runs(m: Machine, slot_count: nat, n: usize)
    requires
        frame(m, slot_count),
        fits_operand(n),
    ensures
        run(m, push_lines(n)) is Next,
        slots_of(run(m, push_lines(n)).machine(), slot_count) == slots_of(m, slot_count).write(
            n as nat,
            slots_of(m, slot_count).value(n as nat),
        ).save(slots_of(m, slot_count).value(n as nat)),
        frame_kept(m, run(m, push_lines(n)), slot_count),
{
    let satchel = teacher_index_lines(Reg::R11);
    let find = duck_index_lines(Reg::R10, n);
    let tail = seq![
        Line::Load { index: Reg::R10, to: Reg::R8 },
        Line::Store { from: Reg::R8, index: Reg::R10 },
        Line::Store { from: Reg::R8, index: Reg::R11 },
        Line::Move { from: Reg::R10, to: Reg::R14 },
    ];
    lemma_run_concat(m, satchel + find, tail);
    lemma_run_concat(m, satchel, find);
    let m0 = m.set(Reg::R11, m.get(Reg::R13), m.zero);
    lemma_run_step(m, satchel, 0, m0);
    lemma_duck_index_runs(m0, slot_count, Reg::R10, n);
    let found = run(m0, find).machine();
    let value = found.mem[found.cell_address(found.get(Reg::R10))];
    let m1 = found.set(Reg::R8, value, found.zero);
    let m2 = m1.store(m1.cell_address(m1.get(Reg::R10)), value);
    let m3 = m2.store(m2.cell_address(m2.get(Reg::R11)), value);
    let m4 = m3.set(Reg::R14, m3.get(Reg::R10), m3.zero);
    lemma_run_step(found, tail, 0, m1);
    lemma_run_step(m1, tail, 1, m2);
    lemma_run_step(m2, tail, 2, m3);
    lemma_run_step(m3, tail, 3, m4);
    assert(run(m, push_lines(n)) == Outcome::Next(m4));
    assert(slots_of(m4, slot_count).cells =~= slots_of(m, slot_count).write(
        n as nat,
        value,
    ).save(value).cells);
}

/// The lines of `Pop` write the value of the satchel to the cell of `n` and
/// zero to the satchel, and move the cursor to the cell of `n`.
pub proof fn lemma_pop_runs(m: Machine, slot_count: nat, n: usize)
    requires
        frame(m, slot_count),
        fits_operand(n),
    ensures
        run(m, pop_lines(n)) is Next,
        slots_of(run(m, pop_lines(n)).machine(), slot_count) == slots_of(m, slot_count).write(
            n as nat,
            slots_of(m, slot_count).cells[slots_of(m, slot_count).satchel()],
        ).save(0),
        frame_kept(m, run(m, pop_lines(n)), slot_count),
{
    let satchel = teacher_index_lines(Reg::R11);
    let find = duck_index_lines(Reg::R10, n);
    let tail = seq![
        Line::Load { index: Reg::R11, to: Reg::R8 },
        Line::Store { from: Reg::R8, index: Reg::R10 },
        Line::StoreValue { value: 0, index: Reg::R11 },
        Line::Move { from: Reg::R10, to: Reg::R14 },
    ];
    lemma_run_concat(m, satchel + find, tail);
    lemma_run_concat(m, satchel, find);
    let m0 = m.set(Reg::R11, m.get(Reg::R13), m.zero);
    lemma_run_step(m, satchel, 0, m0);
    lemma_duck_index_runs(m0, slot_count, Reg::R10, n);
    let found = run(m0, find).machine();
    let value = found.mem[found.cell_address(found.get(Reg::R11))];
    let m1 = found.set(Reg::R8, value, found.zero);
    let m2 = m1.store(m1.cell_address(m1.get(Reg::R10)), value);
    let m3 = m2.store(m2.cell_address(m2.get(Reg::R11)), 0);
    let m4 = m3.set(Reg::R14, m3.get(Reg::R10), m3.zero);
    lemma_run_step(found, tail, 0, m1);
    lemma_run_step(m1, tail, 1, m2);
    lemma_run_step(m2, tail, 2, m3);
    lemma_run_step(m3, tail, 3, m4);
    assert(run(m, pop_lines(n)) == Outcome::Next(m4));
    assert(slots_of(m4, slot_count).cells =~= slots_of(m, slot_count).write(
        n as nat,
        value,
    ).save(0).cells);
}

/// The lines of `LoopBegin` jump behind the end of the loop where `n` holds
/// zero, and go on into the loop where it does not. The slots stay.
pub proof fn lemma_loop_begin_runs(m: Machine, slot_count: nat, n: usize, y: usize)
    requires
        frame(m, slot_count),
        fits_operand(n),
    ensures
        slots_of(m, slot_count).value(n as nat) == 0 ==> (run(m, loop_begin_lines(n, y))
            matches Outcome::ToEnd(label, _) && label == y),
        slots_of(m, slot_count).value(n as nat) != 0 ==> run(m, loop_begin_lines(n, y)) is Next,
        slots_of(run(m, loop_begin_lines(n, y)).machine(), slot_count) == slots_of(m, slot_count),
        frame_kept(m, run(m, loop_begin_lines(n, y)), slot_count),
{
    let head = seq![Line::Banner(InstructionEnum::LoopBegin), Line::StartLabel(y)];
    let find = duck_index_lines(Reg::R10, n);
    let tail = seq![
        Line::Load { index: Reg::R10, to: Reg::R8 },
        Line::Compare { value: 0, with: Reg::R8 },
        Line::JumpIfZeroToEnd(y),
    ];
    lemma_run_concat(m, head + find, tail);
    lemma_run_concat(m, head, find);
    lemma_run_step(m, head, 0, m);
    lemma_run_step(m, head, 1, m);
    lemma_duck_index_runs(m, slot_count, Reg::R10, n);
    let found = run(m, find).machine();
    let value = found.mem[found.cell_address(found.get(Reg::R10))];
    let m1 = found.set(Reg::R8, value, found.zero);
    let m2 = Machine { zero: Some(value == 0), ..m1 };
    lemma_run_step(found, tail, 0, m1);
    lemma_run_step(m1, tail, 1, m2);
    if value == 0 {
        assert(run_line(m2, tail[2]) == Outcome::ToEnd(y, m2));
        assert(run_from(m2, tail, 2) == Outcome::ToEnd(y, m2));
    } else {
        lemma_run_step(m2, tail, 2, m2);
        assert(run(m, loop_begin_lines(n, y)) == Outcome::Next(m2));
    }
    assert(slots_of(m2, slot_count).cells =~= slots_of(m, slot_count).cells);
}

/// The lines of `LoopEnd` jump to the head of the loop. Nothing changes.
pub proof fn lemma_loop_end_runs(m: Machine, y: usize)
    ensures
        run(m, loop_end_lines(y)) == Outcome::ToStart(y, m),
{
    let lines = loop_end_lines(y);
    lemma_run_step(m, lines, 0, m);
    assert(run_line(m, lines[1]) == Outcome::ToStart(y, m));
    assert(run_from(m, lines, 1) == Outcome::ToStart(y, m));
}

/// The lines of `End` end the process with status 0. The slots stay.
pub proof fn lemma_exit_runs(m: Machine, slot_count: nat)
    requires
        frame(m, slot_count),
    ensures
        run(m, exit_lines()) matches Outcome::Exit(status, _) && status == 0,
        slots_of(run(m, exit_lines()).machine(), slot_count) == slots_of(m, slot_count),
        frame_kept(m, run(m, exit_lines()), slot_count),
{
    let lines = exit_lines();
    let m1 = m.set(Reg::Rax, 60, m.zero);
    let m2 = m1.set(Reg::Rdi, 0, m1.zero);
    lemma_run_step(m, lines, 0, m);
    lemma_run_step(m, lines, 1, m1);
    lemma_run_step(m1, lines, 2, m2);
    assert(run_line(m2, lines[3]) == Outcome::Exit(0, m2));
    assert(run_from(m2, lines, 3) == Outcome::Exit(0, m2));
    assert(slots_of(m2, slot_count).cells =~= slots_of(m, slot_count).cells);
}

/// The lines of `Print` write the lowest byte of the value of `n` to
/// standard output. The slots stay; the word below the stack holds the value
/// afterwards.
pub proof fn lemma_print_runs(m: Machine, slot_count: nat, n: usize)
    requires
        frame(m, slot_count),
        fits_operand(n),
    ensures
        run(m, print_lines(n)) is Next,
        slots_of(run(m, print_lines(n)).machine(), slot_count) == slots_of(
            m,
            slot_count,
        ).write_byte(n as nat),
        frame_kept(m, run(m, print_lines(n)), slot_count),
{
    let head = seq![Line::Banner(InstructionEnum::Print)];
    let find = duck_index_lines(Reg::R10, n);
    let tail = seq![
        Line::Load { index: Reg::R10, to: Reg::R8 },
        Line::Push { from: Reg::R8 },
        Line::MoveValue { value: 1, to: Reg::Rax },
        Line::MoveValue { value: 1, to: Reg::Rdi },
        Line::Move { from: Reg::Rsp, to: Reg::Rsi },
        Line::MoveValue { value: 1, to: Reg::Rdx },
        Line::Syscall,
        Line::AddValue { value: 8, to: Reg::Rsp },
    ];
    lemma_run_concat(m, head + find, tail);
    lemma_run_concat(m, head, find);
    lemma_run_step(m, head, 0, m);
    lemma_duck_index_runs(m, slot_count, Reg::R10, n);
    let found = run(m, find).machine();
    let value = found.mem[found.cell_address(found.get(Reg::R10))];
    let top = low64(found.get(Reg::Rsp) - 8);
    assert(top == found.get(Reg::Rsp) - 8);
    let m1 = found.set(Reg::R8, value, found.zero);
    let m2 = m1.store(top as int, value).set(Reg::Rsp, top, m1.zero);
    let m3 = m2.set(Reg::Rax, 1, m2.zero);
    let m4 = m3.set(Reg::Rdi, 1, m3.zero);
    let m5 = m4.set(Reg::Rsi, top, m4.zero);
    let m6 = m5.set(Reg::Rdx, 1, m5.zero);
    let m7 = Machine { output: m6.output.push((m6.mem[top as int] % 256) as u8), ..m6 }.forget(
        Reg::R11,
    ).set(Reg::Rax, 1, None);
    let back = low64(top + 8);
    assert(back == found.get(Reg::Rsp));
    let m8 = m7.set(Reg::Rsp, back, Some(back == 0));
    lemma_run_step(found, tail, 0, m1);
    lemma_run_step(m1, tail, 1, m2);
    lemma_run_step(m2, tail, 2, m3);
    lemma_run_step(m3, tail, 3, m4);
    lemma_run_step(m4, tail, 4, m5);
    lemma_run_step(m5, tail, 5, m6);
    lemma_run_step(m6, tail, 6, m7);
    lemma_run_step(m7, tail, 7, m8);
    assert(run(m, print_lines(n)) == Outcome::Next(m8));
    assert(slots_of(m8, slot_count).cells =~= slots_of(m, slot_count).cells);
}

/// The lines of `Input` take the next byte of standard input, or 0 where
/// none waits, write it to the cell of `n` and move the cursor there.
pub proof fn lemma_input_runs(m: Machine, slot_count: nat, n: usize)
    requires
        frame(m, slot_count),
        fits_operand(n),
    ensures
        run(m, input_lines(n)) is Next,
        slots_of(run(m, input_lines(n)).machine(), slot_count) == slots_of(
            m,
            slot_count,
        ).read_byte(n as nat),
        frame_kept(m, run(m, input_lines(n)), slot_count),
{
    let head = seq![
        Line::Banner(InstructionEnum::Input),
        Line::PushValue { value: 0 },
        Line::Clear32 { reg: Reg::Rax },
        Line::Clear32 { reg: Reg::Rdi },
        Line::Move { from: Reg::Rsp, to: Reg::Rsi },
        Line::MoveValue32 { value: 1, to: Reg::Rdx },
        Line::Syscall,
    ];
    let find = duck_index_lines(Reg::R10, n);
    let tail = seq![
        Line::Pop { to: Reg::R11 },
        Line::Store { from: Reg::R11, index: Reg::R10 },
        Line::Move { from: Reg::R10, to: Reg::R14 },
    ];
    lemma_run_concat(m, head + find, tail);
    lemma_run_concat(m, head, find);
    let top = low64(m.get(Reg::Rsp) - 8);
    assert(top == m.get(Reg::Rsp) - 8);
    let m1 = m.store(top as int, 0).set(Reg::Rsp, top, m.zero);
    let m2 = m1.set(Reg::Rax, 0, Some(true));
    let m3 = m2.set(Reg::Rdi, 0, Some(true));
    let m4 = m3.set(Reg::Rsi, top, m3.zero);
    let m5 = m4.set(Reg::Rdx, 1, m4.zero);
    let byte: u64 = if m.input.len() > 0 {
        m.input[0] as u64
    } else {
        0
    };
    let m6 = if m.input.len() > 0 {
        Machine { input: m5.input.drop_first(), ..m5.store(top as int, byte) }.forget(
            Reg::R11,
        ).set(Reg::Rax, 1, None)
    } else {
        m5.forget(Reg::R11).set(Reg::Rax, 0, None)
    };
    assert(low64((0int / 256) * 256 + byte) == byte);
    lemma_run_step(m, head, 0, m);
    lemma_run_step(m, head, 1, m1);
    lemma_run_step(m1, head, 2, m2);
    lemma_run_step(m2, head, 3, m3);
    lemma_run_step(m3, head, 4, m4);
    lemma_run_step(m4, head, 5, m5);
    lemma_run_step(m5, head, 6, m6);
    assert(run(m, head) == Outcome::Next(m6));
    assert(m6.mem[top as int] == byte);
    lemma_duck_index_runs(m6, slot_count, Reg::R10, n);
    let found = run(m6, find).machine();
    let back = low64(top + 8);
    assert(back == m.get(Reg::Rsp));
    let m7 = found.set(Reg::Rsp, back, found.zero).set(Reg::R11, byte, found.zero);
    let m8 = m7.store(m7.cell_address(m7.get(Reg::R10)), byte);
    let m9 = m8.set(Reg::R14, m8.get(Reg::R10), m8.zero);
    lemma_run_step(found, tail, 0, m7);
    lemma_run_step(m7, tail, 1, m8);
    lemma_run_step(m8, tail, 2, m9);
    assert(run(m, input_lines(n)) == Outcome::Next(m9));
    assert(slots_of(m9, slot_count).cells =~= slots_of(m, slot_count).read_byte(
        n as nat,
    ).cells);
}

/// The instruction reads the slot `y`.
pub open spec fn reads_y(inst: DuckInstruction) -> bool {
    2 <= inst.op_code <= 5
}

/// The instruction reads or writes the slot `n`.
pub open spec fn uses_n(inst: DuckInstruction) -> bool {
    inst.op_code != 0 && inst.op_code != 10
}

/// The operands of the instruction that its lines add or store are numbers
/// that such lines have room for: the slot `n`, the slot `y`, and the value
/// `y` of `Set`.
pub open spec fn operands_fit(inst: DuckInstruction) -> bool {
    &&& uses_n(inst) ==> fits_operand(inst.n)
    &&& reads_y(inst) || inst.op_code == 11 ==> fits_operand(inst.y)
}

/// The lines of an instruction do to the machine what the instruction does
/// to the slots, and leave the machine as generated code keeps it.
pub proof fn lemma_instruction_runs(m: Machine, slot_count: nat, inst: DuckInstruction)
    requires
        frame(m, slot_count),
        inst.known(),
        operands_fit(inst),
    ensures
        step_of(run(m, instruction_lines(inst)), slot_count) == slots_of(m, slot_count).step(inst),
        frame_kept(m, run(m, instruction_lines(inst)), slot_count),
{
    match inst.kind() {
        Some(InstructionEnum::End) => lemma_exit_runs(m, slot_count),
        Some(InstructionEnum::Print) => lemma_print_runs(m, slot_count, inst.n),
        Some(InstructionEnum::Add) => lemma_add_runs(m, slot_count, inst.n, inst.y),
        Some(InstructionEnum::Subtract) => lemma_subtract_runs(m, slot_count, inst.n, inst.y),
        Some(InstructionEnum::Multiply) => lemma_multiply_runs(m, slot_count, inst.n, inst.y),
        Some(InstructionEnum::Divide) => lemma_divide_runs(m, slot_count, inst.n, inst.y),
        Some(InstructionEnum::Input) => lemma_input_runs(m, slot_count, inst.n),
        Some(InstructionEnum::Push) => lemma_push_runs(m, slot_count, inst.n),
        Some(InstructionEnum::Pop) => lemma_pop_runs(m, slot_count, inst.n),
        Some(InstructionEnum::LoopBegin) => lemma_loop_begin_runs(
            m,
            slot_count,
            inst.n,
            inst.y,
        ),
        Some(InstructionEnum::LoopEnd) => lemma_loop_end_runs(m, inst.y),
        Some(InstructionEnum::SetValue) => lemma_set_runs(m, slot_count, inst.n, inst.y),
        None => {},
    }
}

/// The lines of the instructions of a program, run from its first
/// instruction up to its first jump, do to the machine what the instructions
/// do to the slots.
pub proof fn lemma_body_runs(m: Machine, slot_count: nat, program: Seq<DuckInstruction>)
    requires
        frame(m, slot_count),
        forall|i: int|
            0 <= i < program.len() ==> (#[trigger] program[i]).known() && operands_fit(program[i]),
    ensures
        step_of(run(m, body_lines(program)), slot_count) == slots_of(m, slot_count).steps(
            program,
        ),
        frame_kept(m, run(m, body_lines(program)), slot_count),
    decreases program.len(),
{
    if program.len() == 0 {
        assert(run(m, body_lines(program)) == Outcome::Next(m));
    } else {
        let before = program.drop_last();
        let last = program.last();
        assert forall|i: int| 0 <= i < before.len() implies (#[trigger] before[i]).known()
            && operands_fit(before[i]) by {
            assert(before[i] == program[i]);
        }
        lemma_body_runs(m, slot_count, before);
        lemma_run_concat(m, body_lines(before), instruction_lines(last));
        match run(m, body_lines(before)) {
            Outcome::Next(middle) => {
                lemma_instruction_runs(middle, slot_count, last);
            },
            _ => {},
        }
    }
}

/// The word of memory that lies `i` words above `base`.
pub open spec fn word_above(m: Machine, base: int, i: int) -> u64 {
    m.mem[base + 8 * i]
}

/// The machine behind `count` lines that each put a cell of zero on the
/// stack: the stack has grown by that many words of zero, and nothing else
/// has changed.
pub open spec fn cells_made(before: Machine, after: Machine, count: nat) -> bool {
    &&& after.regs == before.regs.insert(
        Reg::Rsp,
        (before.get(Reg::Rsp) - 8 * count) as u64,
    )
    &&& forall|i: int|
        0 <= i < count ==> #[trigger] word_above(after, before.get(Reg::Rsp) - 8 * count, i) == 0
    &&& after.zero == before.zero
    &&& after.input == before.input
    &&& after.output == before.output
}

/// The lines that make the cells put that many words of zero on the stack.
pub proof fn lemma_cells_run(m: Machine, count: nat)
    requires
        m.has(Reg::Rsp),
        m.get(Reg::Rsp) >= 8 * count,
    ensures
        run(m, cells_lines(count)) is Next,
        cells_made(m, run(m, cells_lines(count)).machine(), count),
    decreases count,
{
    if count == 0 {
        assert(run(m, cells_lines(count)) == Outcome::Next(m));
        assert(m.regs =~= m.regs.insert(Reg::Rsp, m.get(Reg::Rsp)));
    } else {
        let fewer = (count - 1) as nat;
        let line = Line::PushValue { value: 0 };
        assert(cells_lines(count) =~= cells_lines(fewer) + seq![line]);
        lemma_cells_run(m, fewer);
        lemma_run_concat(m, cells_lines(fewer), seq![line]);
        let middle = run(m, cells_lines(fewer)).machine();
        let top = low64(middle.get(Reg::Rsp) - 8);
        assert(top == m.get(Reg::Rsp) - 8 * count);
        let after = middle.store(top as int, 0).set(Reg::Rsp, top, middle.zero);
        lemma_run_step(middle, seq![line], 0, after);
        assert(run(m, cells_lines(count)) == Outcome::Next(after));
        assert(after.regs =~= m.regs.insert(Reg::Rsp, top));
        assert forall|i: int| 0 <= i < count implies #[trigger] word_above(
            after,
            m.get(Reg::Rsp) - 8 * count,
            i,
        ) == 0 by {
            if i > 0 {
                assert(word_above(middle, m.get(Reg::Rsp) - 8 * fewer, i - 1) == 0);
            }
        }
    }
}

/// The header, run on a machine whose stack has room for the ring and one
/// word more, leaves the machine as generated code keeps it, with every slot
/// at zero and the cursor at cell 0.
pub proof fn lemma_header_runs(m: Machine, slot_count: usize)
    requires
        m.has(Reg::Rsp),
        m.get(Reg::Rsp) >= 8 * (slot_count + 1) + 8,
    ensures
        run(m, header_lines(slot_count)) is Next,
        frame(run(m, header_lines(slot_count)).machine(), slot_count as nat),
        slots_of(run(m, header_lines(slot_count)).machine(), slot_count as nat) == (Slots {
            output: m.output,
            ..fresh_slots(slot_count as nat, m.input)
        }),
{
    let notes = seq![Line::Entry, Line::AllocateNote];
    let cells = cells_lines(slot_count as nat + 1);
    let tail = seq![
        Line::Move { from: Reg::Rsp, to: Reg::R12 },
        Line::MoveValue { value: slot_count, to: Reg::R13 },
        Line::MoveValue { value: 0, to: Reg::R14 },
    ];
    lemma_run_concat(m, notes + cells, tail);
    lemma_run_concat(m, notes, cells);
    lemma_run_step(m, notes, 0, m);
    lemma_run_step(m, notes, 1, m);
    lemma_cells_run(m, slot_count as nat + 1);
    let made = run(m, cells).machine();
    let base = made.get(Reg::Rsp);
    assert(base == m.get(Reg::Rsp) - 8 * (slot_count + 1));
    let m1 = made.set(Reg::R12, base, made.zero);
    let m2 = m1.set(Reg::R13, slot_count as u64, m1.zero);
    let m3 = m2.set(Reg::R14, 0, m2.zero);
    lemma_run_step(made, tail, 0, m1);
    lemma_run_step(m1, tail, 1, m2);
    lemma_run_step(m2, tail, 2, m3);
    assert(run(m, header_lines(slot_count)) == Outcome::Next(m3));
    assert forall|i: int| 0 <= i < slot_count + 1 implies #[trigger] word_above(
        m3,
        base as int,
        i,
    ) == 0 by {
        assert(word_above(made, m.get(Reg::Rsp) - 8 * (slot_count as nat + 1), i) == 0);
    }
    assert forall|i: int| 0 <= i < slot_count + 1 implies slots_of(
        m3,
        slot_count as nat,
    ).cells[i] == 0 by {
        assert(word_above(m3, base as int, i) == 0);
    }
    assert(slots_of(m3, slot_count as nat).cells =~= fresh_slots(
        slot_count as nat,
        m.input,
    ).cells);
}

/// A whole listing, run on a machine whose stack has room for the ring and
/// one word more, does up to its first jump what the program does to slots
/// that start at zero.
pub proof fn lemma_program_runs(m: Machine, slot_count: usize, program: Seq<DuckInstruction>)
    requires
        m.has(Reg::Rsp),
        m.get(Reg::Rsp) >= 8 * (slot_count + 1) + 8,
        forall|i: int|
            0 <= i < program.len() ==> (#[trigger] program[i]).known() && operands_fit(program[i]),
    ensures
        step_of(run(m, program_lines(slot_count, program)), slot_count as nat) == (Slots {
            output: m.output,
            ..fresh_slots(slot_count as nat, m.input)
        }).run_program(program),
{
    let header = header_lines(slot_count);
    let body = body_lines(program);
    lemma_run_concat(m, header + body, exit_lines());
    lemma_run_concat(m, header, body);
    lemma_header_runs(m, slot_count);
    let ready = run(m, header).machine();
    lemma_body_runs(ready, slot_count as nat, program);
    match run(ready, body) {
        Outcome::Next(done) => {
            lemma_exit_runs(done, slot_count as nat);
        },
        _ => {},
    }
}

/// The lines of `Print` and then those of `Input` for the same slot, run
/// with the byte that was written waiting on standard input, leave in the
/// slot the lowest byte of what it held, and the cursor at its cell.
pub proof fn lemma_print_input_round_trip(m: Machine, slot_count: nat, n: usize)
    requires
        frame(m, slot_count),
        fits_operand(n),
    ensures
        ({
            let printed = run(m, print_lines(n)).machine();
            let looped = Machine { input: seq![printed.output.last()], ..printed };
            let read = run(looped, input_lines(n)).machine();
            &&& run(m, print_lines(n)) is Next
            &&& run(looped, input_lines(n)) is Next
            &&& printed.output == m.output.push(
                (slots_of(m, slot_count).value(n as nat) % 256) as u8,
            )
            &&& slots_of(read, slot_count).value(0) == slots_of(m, slot_count).value(n as nat)
                % 256
            &&& slots_of(read, slot_count).cursor == slots_of(m, slot_count).cell_of(n as nat)
        }),
{
    lemma_print_runs(m, slot_count, n);
    let printed = run(m, print_lines(n)).machine();
    let looped = Machine { input: seq![printed.output.last()], ..printed };
    lemma_input_runs(looped, slot_count, n);
    lemma_print_then_input(slots_of(m, slot_count), n as nat);
    assert(slots_of(looped, slot_count) == (Slots {
        input: seq![printed.output.last()],
        ..slots_of(printed, slot_count)
    }));
}

} // verus!
