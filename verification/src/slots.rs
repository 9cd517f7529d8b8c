//! The slots of a running program, as the instructions see them.
//!
//! A program with `slot_count` slots runs on a ring of `slot_count + 1`
//! cells. The cursor is the number of the cell at which slot 0 stands, and
//! slot `i` stands in the cell `(cursor + i) mod (slot_count + 1)`. The last
//! cell of the ring is also the satchel. An instruction that writes to a
//! slot writes to the cell at which the slot stands before the instruction,
//! and then moves the cursor to that cell.

use vstd::prelude::*;

use crate::instruction::{DuckInstruction, InstructionEnum};

verus! {

/// The number of values of a word of 64 bits.
pub open spec fn word() -> int {
    0x1_0000_0000_0000_0000
}

/// The low 64 bits of a number.
pub open spec fn low64(x: int) -> u64 {
    (x % word()) as u64
}

/// The number that 64 bits stand for in two's complement.
pub open spec fn signed(x: u64) -> int {
    if x < 0x8000_0000_0000_0000 {
        x as int
    } else {
        x - word()
    }
}

/// The quotient of two numbers, rounded towards zero.
pub open spec fn quotient_toward_zero(a: int, b: int) -> int
    recommends
        b != 0,
{
    if a >= 0 && b > 0 {
        a / b
    } else if a >= 0 {
        -(a / (-b))
    } else if b > 0 {
        -((-a) / b)
    } else {
        (-a) / (-b)
    }
}

/// The number can be held in 64 bits in two's complement.
pub open spec fn fits_signed(x: int) -> bool {
    -0x8000_0000_0000_0000 <= x < 0x8000_0000_0000_0000
}

/// The quotient of two values, both taken in two's complement and the
/// quotient rounded towards zero. There is none where the divisor is zero,
/// and none where the smallest number is divided by -1, the one quotient
/// that 64 bits cannot hold.
pub open spec fn divide(a: u64, b: u64) -> Option<u64> {
    if b == 0 || (signed(a) == -0x8000_0000_0000_0000 && signed(b) == -1) {
        None
    } else {
        Some(low64(quotient_toward_zero(signed(a), signed(b))))
    }
}

/// A quotient rounded towards zero can be held in 64 bits, but for the
/// smallest number divided by -1.
pub proof fn lemma_quotient_fits(a: u64, b: u64)
    requires
        b != 0,
    ensures
        fits_signed(quotient_toward_zero(signed(a), signed(b))) <==> !(signed(a)
            == -0x8000_0000_0000_0000 && signed(b) == -1),
{
    let x = signed(a);
    let d = signed(b);
    let size = if x >= 0 {
        x
    } else {
        -x
    };
    let by = if d > 0 {
        d
    } else {
        -d
    };
    assert(0 <= size / by <= size) by (nonlinear_arith)
        requires
            size >= 0,
            by > 0,
    ;
    if by >= 2 {
        assert(size / by <= size / 2) by {
            vstd::arithmetic::div_mod::lemma_div_is_ordered_by_denominator(size, 2, by);
        }
    } else {
        assert(size / by == size) by (nonlinear_arith)
            requires
                by == 1,
        ;
    }
}

/// The ring of cells, the cursor and the two standard streams.
pub struct Slots {
    /// The cells of the ring, `slot_count + 1` of them.
    pub cells: Seq<u64>,
    /// The number of the cell at which slot 0 stands.
    pub cursor: nat,
    /// The bytes that wait on standard input.
    pub input: Seq<u8>,
    /// The bytes written to standard output.
    pub output: Seq<u8>,
}

/// How an instruction ends.
pub enum Step {
    /// The instruction behind it comes next.
    Next(Slots),
    /// A jump to the head of the loop with this number.
    ToStart(usize, Slots),
    /// A jump behind the end of the loop with this number.
    ToEnd(usize, Slots),
    /// The process has ended with this status.
    Exit(u64, Slots),
    /// The process has been stopped.
    Fault,
}

impl Slots {
    /// The ring has a cell, and the cursor is the number of one.
    pub open spec fn wf(self) -> bool {
        self.cursor < self.cells.len()
    }

    /// The number of slots.
    pub open spec fn slot_count(self) -> nat {
        (self.cells.len() - 1) as nat
    }

    /// The number of the cell at which a slot stands.
    pub open spec fn cell_of(self, slot: nat) -> int {
        ((self.cursor + slot) % (self.slot_count() + 1)) as int
    }

    /// The number of the cell that is the satchel.
    pub open spec fn satchel(self) -> int {
        self.slot_count() as int
    }

    /// The value of a slot.
    pub open spec fn value(self, slot: nat) -> u64 {
        self.cells[self.cell_of(slot)]
    }

    /// A value written to a slot: the cell of the slot holds the value, and
    /// the cursor is at that cell.
    pub open spec fn write(self, slot: nat, value: u64) -> Slots {
        Slots {
            cells: self.cells.update(self.cell_of(slot), value),
            cursor: self.cell_of(slot) as nat,
            ..self
        }
    }

    /// A value written to the satchel. The cursor stays.
    pub open spec fn save(self, value: u64) -> Slots {
        Slots { cells: self.cells.update(self.satchel(), value), ..self }
    }

    /// The next byte of standard input taken, or 0 where none waits, and
    /// written to slot `n`.
    pub open spec fn read_byte(self, n: nat) -> Slots {
        if self.input.len() > 0 {
            Slots { input: self.input.drop_first(), ..self }.write(n, self.input[0] as u64)
        } else {
            self.write(n, 0)
        }
    }

    /// The lowest byte of the value of slot `n` written to standard output.
    pub open spec fn write_byte(self, n: nat) -> Slots {
        Slots { output: self.output.push((self.value(n) % 256) as u8), ..self }
    }

    /// What an instruction does. Values are numbers of 64 bits in two's
    /// complement. Sums, differences and products keep their low 64 bits; a
    /// quotient is rounded towards zero, and a division that has no quotient
    /// stops the process. An instruction whose opcode is not known does
    /// nothing.
    pub open spec fn step(self, inst: DuckInstruction) -> Step {
        let n = inst.n as nat;
        let y = inst.y as nat;
        match inst.kind() {
            Some(InstructionEnum::End) => Step::Exit(0, self),
            Some(InstructionEnum::Print) => Step::Next(self.write_byte(n)),
            Some(InstructionEnum::Add) => Step::Next(
                self.write(n, low64(self.value(n) + self.value(y))),
            ),
            Some(InstructionEnum::Subtract) => Step::Next(
                self.write(n, low64(self.value(n) - self.value(y))),
            ),
            Some(InstructionEnum::Multiply) => Step::Next(
                self.write(n, low64(self.value(n) * self.value(y))),
            ),
            Some(InstructionEnum::Divide) => match divide(self.value(n), self.value(y)) {
                None => Step::Fault,
                Some(quotient) => Step::Next(self.write(n, quotient)),
            },
            Some(InstructionEnum::Input) => Step::Next(self.read_byte(n)),
            Some(InstructionEnum::Push) => Step::Next(
                self.write(n, self.value(n)).save(self.value(n)),
            ),
            Some(InstructionEnum::Pop) => Step::Next(
                self.write(n, self.cells[self.satchel()]).save(0),
            ),
            Some(InstructionEnum::LoopBegin) => if self.value(n) == 0 {
                Step::ToEnd(inst.y, self)
            } else {
                Step::Next(self)
            },
            Some(InstructionEnum::LoopEnd) => Step::ToStart(inst.y, self),
            Some(InstructionEnum::SetValue) => Step::Next(self.write(n, inst.y as u64)),
            None => Step::Next(self),
        }
    }
}

/// The slots as a program finds them: every cell holds zero, the cursor is
/// at cell 0, and nothing has been written yet.
pub open spec fn fresh_slots(slot_count: nat, input: Seq<u8>) -> Slots {
    Slots {
        cells: Seq::new(slot_count + 1, |i: int| 0u64),
        cursor: 0,
        input,
        output: Seq::empty(),
    }
}

impl Slots {
    /// What the instructions do, one after the other, up to the first of
    /// them that does not go on to the next.
    pub open spec fn steps(self, program: Seq<DuckInstruction>) -> Step
        decreases program.len(),
    {
        if program.len() == 0 {
            Step::Next(self)
        } else {
            match self.steps(program.drop_last()) {
                Step::Next(slots) => slots.step(program.last()),
                other => other,
            }
        }
    }

    /// What a program does up to its first jump: its instructions one after
    /// the other, and behind the last of them the end of the process.
    pub open spec fn run_program(self, program: Seq<DuckInstruction>) -> Step {
        match self.steps(program) {
            Step::Next(slots) => Step::Exit(0, slots),
            other => other,
        }
    }
}

impl Step {
    /// The slots as the instruction leaves them.
    pub open spec fn slots(self) -> Slots {
        match self {
            Step::Next(slots) => slots,
            Step::ToStart(_, slots) => slots,
            Step::ToEnd(_, slots) => slots,
            Step::Exit(_, slots) => slots,
            Step::Fault => arbitrary(),
        }
    }
}

/// Every slot number, however large, stands at a cell of the ring.
pub proof fn lemma_cell_in_ring(slots: Slots, slot: nat)
    requires
        slots.cells.len() > 0,
    ensures
        0 <= slots.cell_of(slot) < slots.cells.len(),
{
    vstd::arithmetic::div_mod::lemma_mod_division_less_than_divisor(
        (slots.cursor + slot) as int,
        slots.cells.len() as int,
    );
}

/// A write goes to the cell at which the slot stands before it, changes no
/// other cell, and leaves the cursor at that cell: the slot written is slot 0
/// afterwards, and holds the value.
pub proof fn lemma_write_moves_cursor(slots: Slots, slot: nat, value: u64)
    requires
        slots.wf(),
    ensures
        slots.write(slot, value).wf(),
        slots.write(slot, value).cells.len() == slots.cells.len(),
        slots.write(slot, value).cursor == slots.cell_of(slot),
        slots.write(slot, value).cells[slots.cell_of(slot)] == value,
        forall|i: int|
            0 <= i < slots.cells.len() && i != slots.cell_of(slot) ==> slots.write(
                slot,
                value,
            ).cells[i] == slots.cells[i],
        slots.write(slot, value).cell_of(0) == slots.cell_of(slot),
        slots.write(slot, value).value(0) == value,
{
    lemma_cell_in_ring(slots, slot);
    vstd::arithmetic::div_mod::lemma_small_mod(
        slots.cell_of(slot) as nat,
        slots.cells.len() as nat,
    );
}

/// Whatever an instruction does, the ring keeps its length and the cursor
/// stays a cell of it.
pub proof fn lemma_step_keeps_ring(slots: Slots, inst: DuckInstruction)
    requires
        slots.wf(),
    ensures
        slots.step(inst) !is Fault ==> slots.step(inst).slots().wf() && slots.step(
            inst,
        ).slots().cells.len() == slots.cells.len(),
{
    lemma_cell_in_ring(slots, inst.n as nat);
    if slots.input.len() > 0 {
        lemma_cell_in_ring(Slots { input: slots.input.drop_first(), ..slots }, inst.n as nat);
    }
}

/// A byte that `Print` writes, read back by `Input` into the same slot, is
/// the lowest byte of what the slot held: where the byte that waits on
/// standard input is the byte just written, the slot holds that byte
/// afterwards, and the cursor is at its cell.
pub proof fn lemma_print_then_input(slots: Slots, n: nat)
    requires
        slots.wf(),
    ensures
        ({
            let printed = slots.write_byte(n);
            let looped = Slots { input: seq![printed.output.last()], ..printed };
            let read = looped.read_byte(n);
            &&& printed.output == slots.output.push((slots.value(n) % 256) as u8)
            &&& read.cells[slots.cell_of(n)] == slots.value(n) % 256
            &&& read.cursor == slots.cell_of(n)
            &&& read.value(0) == slots.value(n) % 256
            &&& read.input.len() == 0
        }),
{
    let printed = slots.write_byte(n);
    let looped = Slots { input: seq![printed.output.last()], ..printed };
    let waiting = Slots { input: looped.input.drop_first(), ..looped };
    assert(waiting.cell_of(n) == slots.cell_of(n));
    lemma_write_moves_cursor(waiting, n, looped.input[0] as u64);
}

} // verus!
