//! The lines of assembly that the generator writes, and their text in AT&T
//! syntax.
//!
//! Only the forms that the generator needs are here. A number in a line is
//! written out in full. Where a line adds, stores, pushes or compares a
//! number, the processor has room for 32 bits of it, which it takes in two's
//! complement; what such a line does with a number that needs more is said
//! in [`crate::machine`].

use vstd::prelude::*;
use vstd::string::*;

use crate::decimal::{append_decimal, decimal_text};
use crate::instruction::InstructionEnum;

verus! {

/// The registers that generated code uses.
#[derive(Clone, Copy, Debug, PartialEq, Eq, Structural)]
pub enum Reg {
    Rax,
    Rbx,
    Rdx,
    Rdi,
    Rsi,
    Rsp,
    R8,
    R9,
    R10,
    R11,
    R12,
    R13,
    R14,
}

impl Reg {
    /// The name of the whole register, of 64 bits.
    pub open spec fn name(self) -> Seq<char> {
        match self {
            Reg::Rax => "rax"@,
            Reg::Rbx => "rbx"@,
            Reg::Rdx => "rdx"@,
            Reg::Rdi => "rdi"@,
            Reg::Rsi => "rsi"@,
            Reg::Rsp => "rsp"@,
            Reg::R8 => "r8"@,
            Reg::R9 => "r9"@,
            Reg::R10 => "r10"@,
            Reg::R11 => "r11"@,
            Reg::R12 => "r12"@,
            Reg::R13 => "r13"@,
            Reg::R14 => "r14"@,
        }
    }

    /// The name of the low 32 bits of the register.
    pub open spec fn name32(self) -> Seq<char> {
        match self {
            Reg::Rax => "eax"@,
            Reg::Rbx => "ebx"@,
            Reg::Rdx => "edx"@,
            Reg::Rdi => "edi"@,
            Reg::Rsi => "esi"@,
            Reg::Rsp => "esp"@,
            Reg::R8 => "r8d"@,
            Reg::R9 => "r9d"@,
            Reg::R10 => "r10d"@,
            Reg::R11 => "r11d"@,
            Reg::R12 => "r12d"@,
            Reg::R13 => "r13d"@,
            Reg::R14 => "r14d"@,
        }
    }

    /// The name of the whole register.
    pub fn as_str(self) -> (text: &'static str)
        ensures
            text@ == self.name(),
    {
        match self {
            Reg::Rax => "rax",
            Reg::Rbx => "rbx",
            Reg::Rdx => "rdx",
            Reg::Rdi => "rdi",
            Reg::Rsi => "rsi",
            Reg::Rsp => "rsp",
            Reg::R8 => "r8",
            Reg::R9 => "r9",
            Reg::R10 => "r10",
            Reg::R11 => "r11",
            Reg::R12 => "r12",
            Reg::R13 => "r13",
            Reg::R14 => "r14",
        }
    }

    /// The name of the low 32 bits of the register.
    pub fn as_str32(self) -> (text: &'static str)
        ensures
            text@ == self.name32(),
    {
        match self {
            Reg::Rax => "eax",
            Reg::Rbx => "ebx",
            Reg::Rdx => "edx",
            Reg::Rdi => "edi",
            Reg::Rsi => "esi",
            Reg::Rsp => "esp",
            Reg::R8 => "r8d",
            Reg::R9 => "r9d",
            Reg::R10 => "r10d",
            Reg::R11 => "r11d",
            Reg::R12 => "r12d",
            Reg::R13 => "r13d",
            Reg::R14 => "r14d",
        }
    }
}

/// One line of a listing. (`Entry` alone stands for three lines.)
///
/// The cells of the ring are reached through `r12`, which holds the address
/// of the first of them: `Load`, `Store` and `StoreValue` name the register
/// that holds the number of the cell.
#[derive(Clone, Copy, Debug, PartialEq, Eq, Structural)]
pub enum Line {
    /// The section, and `main` declared and placed.
    Entry,
    /// A comment that names the instruction whose code follows.
    Banner(InstructionEnum),
    /// The comment above the lines that make the cells.
    AllocateNote,
    /// A comment that gives the operand `n`.
    NoteN(usize),
    /// A comment that gives the operand `y`.
    NoteY(usize),
    /// `to := from`
    Move { from: Reg, to: Reg },
    /// `to := value`
    MoveValue { value: usize, to: Reg },
    /// `to := value`, written to the low 32 bits, which clears the others.
    MoveValue32 { value: usize, to: Reg },
    /// `reg := 0`, by `xor` on the low 32 bits, which clears the others.
    Clear32 { reg: Reg },
    /// `to := to + value`
    AddValue { value: usize, to: Reg },
    /// `to := to + from`
    Add { from: Reg, to: Reg },
    /// `to := to - from`
    Sub { from: Reg, to: Reg },
    /// `to := to * from`, the low 64 bits of it.
    Mul { from: Reg, to: Reg },
    /// Divides the 128 bits of `rdx` and `rax` by `by`, all three taken as
    /// numbers without sign: `rax` gets the quotient and `rdx` the remainder.
    Div { by: Reg },
    /// Fills `rdx` with the sign of `rax`, so that the 128 bits of `rdx` and
    /// `rax` are the number that `rax` holds in two's complement.
    SignExtend,
    /// Divides the 128 bits of `rdx` and `rax` by `by`, all three taken in
    /// two's complement: `rax` gets the quotient, rounded towards zero, and
    /// `rdx` the remainder.
    DivSigned { by: Reg },
    /// `to := ` the cell whose number `index` holds.
    Load { index: Reg, to: Reg },
    /// The cell whose number `index` holds `:= from`.
    Store { from: Reg, index: Reg },
    /// The cell whose number `index` holds `:= value`.
    StoreValue { value: usize, index: Reg },
    /// Puts `from` on the stack.
    Push { from: Reg },
    /// Puts `value` on the stack.
    PushValue { value: usize },
    /// Takes the top of the stack into `to`.
    Pop { to: Reg },
    /// Compares `with` to `value`.
    Compare { value: usize, with: Reg },
    /// The label at the head of a loop.
    StartLabel(usize),
    /// The label behind the end of a loop.
    EndLabel(usize),
    /// A jump to the head of a loop.
    JumpToStart(usize),
    /// A jump behind the end of a loop, taken where the last comparison
    /// found equal.
    JumpIfZeroToEnd(usize),
    /// A call of the operating system.
    Syscall,
}

/// The comment that names an instruction.
pub open spec fn banner_text(kind: InstructionEnum) -> Seq<char> {
    match kind {
        InstructionEnum::End => "#Exit==========\n"@,
        InstructionEnum::Print => "#Print==========\n"@,
        InstructionEnum::Add => "#Add==========\n"@,
        InstructionEnum::Subtract => "#Subtract==========\n"@,
        InstructionEnum::Multiply => "#Multiply==========\n"@,
        InstructionEnum::Divide => "#Divide==========\n"@,
        InstructionEnum::Input => "#Input==========\n"@,
        InstructionEnum::Push => "#Push==========\n"@,
        InstructionEnum::Pop => "#Pop==========\n"@,
        InstructionEnum::LoopBegin => "#LoopBegin==========\n"@,
        InstructionEnum::LoopEnd => "#LoopEnd==========\n"@,
        InstructionEnum::SetValue => "#Set==========\n"@,
    }
}

/// Text with a number between two pieces.
pub open spec fn with_number(before: Seq<char>, n: nat, after: Seq<char>) -> Seq<char> {
    before + decimal_text(n) + after
}

/// Text with one name between two pieces.
pub open spec fn with_name(before: Seq<char>, name: Seq<char>, after: Seq<char>) -> Seq<char> {
    before + name + after
}

/// Text with two names between three pieces.
pub open spec fn with_names(
    before: Seq<char>,
    first: Seq<char>,
    between: Seq<char>,
    second: Seq<char>,
    after: Seq<char>,
) -> Seq<char> {
    before + first + between + second + after
}

/// Text with a number and then a name between three pieces.
pub open spec fn with_number_and_name(
    before: Seq<char>,
    n: nat,
    between: Seq<char>,
    name: Seq<char>,
    after: Seq<char>,
) -> Seq<char> {
    before + decimal_text(n) + between + name + after
}

impl Line {
    /// The text of this line, with the line break at its end.
    pub open spec fn text(self) -> Seq<char> {
        match self {
            Line::Entry => ".section .text\n.global main\nmain:\n"@,
            Line::Banner(kind) => banner_text(kind),
            Line::AllocateNote => "#Allocate ducks on stack\n"@,
            Line::NoteN(n) => with_number("#n: "@, n as nat, "\n"@),
            Line::NoteY(y) => with_number("#y: "@, y as nat, "\n"@),
            Line::Move { from, to } => with_names(
                "  mov %"@,
                from.name(),
                ", %"@,
                to.name(),
                "\n"@,
            ),
            Line::MoveValue { value, to } => with_number_and_name(
                "  mov $"@,
                value as nat,
                ", %"@,
                to.name(),
                "\n"@,
            ),
            Line::MoveValue32 { value, to } => with_number_and_name(
                "  mov $"@,
                value as nat,
                ", %"@,
                to.name32(),
                "\n"@,
            ),
            Line::Clear32 { reg } => with_names(
                "  xor %"@,
                reg.name32(),
                ", %"@,
                reg.name32(),
                "\n"@,
            ),
            Line::AddValue { value, to } => with_number_and_name(
                "  add $"@,
                value as nat,
                ", %"@,
                to.name(),
                "\n"@,
            ),
            Line::Add { from, to } => with_names("  add %"@, from.name(), ", %"@, to.name(), "\n"@),
            Line::Sub { from, to } => with_names("  sub %"@, from.name(), ", %"@, to.name(), "\n"@),
            Line::Mul { from, to } => with_names(
                "  imul %"@,
                from.name(),
                ", %"@,
                to.name(),
                "\n"@,
            ),
            Line::Div { by } => with_name("  divq %"@, by.name(), "\n"@),
            Line::SignExtend => "  cqto\n"@,
            Line::DivSigned { by } => with_name("  idivq %"@, by.name(), "\n"@),
            Line::Load { index, to } => with_names(
                "  movq (%r12, %"@,
                index.name(),
                ", 8),%"@,
                to.name(),
                "\n"@,
            ),
            Line::Store { from, index } => with_names(
                "  movq %"@,
                from.name(),
                ", (%r12, %"@,
                index.name(),
                ", 8)\n"@,
            ),
            Line::StoreValue { value, index } => with_number_and_name(
                "  movq $"@,
                value as nat,
                ", (%r12, %"@,
                index.name(),
                ", 8)\n"@,
            ),
            Line::Push { from } => with_name("  push %"@, from.name(), "\n"@),
            Line::PushValue { value } => with_number("  push $"@, value as nat, "\n"@),
            Line::Pop { to } => with_name("  pop %"@, to.name(), "\n"@),
            Line::Compare { value, with } => with_number_and_name(
                "  cmp $"@,
                value as nat,
                ", %"@,
                with.name(),
                "\n"@,
            ),
            Line::StartLabel(y) => with_number("  start_"@, y as nat, ":\n"@),
            Line::EndLabel(y) => with_number("  end_"@, y as nat, ":\n"@),
            Line::JumpToStart(y) => with_number("  jmp start_"@, y as nat, "\n"@),
            Line::JumpIfZeroToEnd(y) => with_number("  jz end_"@, y as nat, "\n"@),
            Line::Syscall => "  syscall\n"@,
        }
    }
}

/// The text of a listing: the text of its lines, one after the other.
pub open spec fn listing_text(lines: Seq<Line>) -> Seq<char>
    decreases lines.len(),
{
    if lines.len() == 0 {
        Seq::empty()
    } else {
        listing_text(lines.drop_last()) + lines.last().text()
    }
}

fn write_banner(kind: InstructionEnum, out: &mut String)
    ensures
        final(out)@ == old(out)@ + banner_text(kind),
{
    match kind {
        InstructionEnum::End => out.append("#Exit==========\n"),
        InstructionEnum::Print => out.append("#Print==========\n"),
        InstructionEnum::Add => out.append("#Add==========\n"),
        InstructionEnum::Subtract => out.append("#Subtract==========\n"),
        InstructionEnum::Multiply => out.append("#Multiply==========\n"),
        InstructionEnum::Divide => out.append("#Divide==========\n"),
        InstructionEnum::Input => out.append("#Input==========\n"),
        InstructionEnum::Push => out.append("#Push==========\n"),
        InstructionEnum::Pop => out.append("#Pop==========\n"),
        InstructionEnum::LoopBegin => out.append("#LoopBegin==========\n"),
        InstructionEnum::LoopEnd => out.append("#LoopEnd==========\n"),
        InstructionEnum::SetValue => out.append("#Set==========\n"),
    }
}

fn write_with_number(before: &str, n: usize, after: &str, out: &mut String)
    ensures
        final(out)@ == old(out)@ + with_number(before@, n as nat, after@),
{
    out.append(before);
    append_decimal(out, n);
    out.append(after);
    assert(out@ =~= old(out)@ + with_number(before@, n as nat, after@));
}

fn write_with_name(before: &str, name: &str, after: &str, out: &mut String)
    ensures
        final(out)@ == old(out)@ + with_name(before@, name@, after@),
{
    out.append(before);
    out.append(name);
    out.append(after);
    assert(out@ =~= old(out)@ + with_name(before@, name@, after@));
}

fn write_with_names(
    before: &str,
    first: &str,
    between: &str,
    second: &str,
    after: &str,
    out: &mut String,
)
    ensures
        final(out)@ == old(out)@ + with_names(before@, first@, between@, second@, after@),
{
    out.append(before);
    out.append(first);
    out.append(between);
    out.append(second);
    out.append(after);
    assert(out@ =~= old(out)@ + with_names(before@, first@, between@, second@, after@));
}

fn write_with_number_and_name(
    before: &str,
    n: usize,
    between: &str,
    name: &str,
    after: &str,
    out: &mut String,
)
    ensures
        final(out)@ == old(out)@ + with_number_and_name(
            before@,
            n as nat,
            between@,
            name@,
            after@,
        ),
{
    out.append(before);
    append_decimal(out, n);
    out.append(between);
    out.append(name);
    out.append(after);
    assert(out@ =~= old(out)@ + with_number_and_name(
        before@,
        n as nat,
        between@,
        name@,
        after@,
    ));
}

impl Line {
    /// Writes the text of this line at the end of `out`.
    pub fn write(&self, out: &mut String)
        ensures
            final(out)@ == old(out)@ + self.text(),
    {
        match *self {
            Line::Entry => out.append(".section .text\n.global main\nmain:\n"),
            Line::Banner(kind) => write_banner(kind, out),
            Line::AllocateNote => out.append("#Allocate ducks on stack\n"),
            Line::NoteN(n) => write_with_number("#n: ", n, "\n", out),
            Line::NoteY(y) => write_with_number("#y: ", y, "\n", out),
            Line::Move { from, to } => write_with_names(
                "  mov %",
                from.as_str(),
                ", %",
                to.as_str(),
                "\n",
                out,
            ),
            Line::MoveValue { value, to } => write_with_number_and_name(
                "  mov $",
                value,
                ", %",
                to.as_str(),
                "\n",
                out,
            ),
            Line::MoveValue32 { value, to } => write_with_number_and_name(
                "  mov $",
                value,
                ", %",
                to.as_str32(),
                "\n",
                out,
            ),
            Line::Clear32 { reg } => write_with_names(
                "  xor %",
                reg.as_str32(),
                ", %",
                reg.as_str32(),
                "\n",
                out,
            ),
            Line::AddValue { value, to } => write_with_number_and_name(
                "  add $",
                value,
                ", %",
                to.as_str(),
                "\n",
                out,
            ),
            Line::Add { from, to } => write_with_names(
                "  add %",
                from.as_str(),
                ", %",
                to.as_str(),
                "\n",
                out,
            ),
            Line::Sub { from, to } => write_with_names(
                "  sub %",
                from.as_str(),
                ", %",
                to.as_str(),
                "\n",
                out,
            ),
            Line::Mul { from, to } => write_with_names(
                "  imul %",
                from.as_str(),
                ", %",
                to.as_str(),
                "\n",
                out,
            ),
            Line::Div { by } => write_with_name("  divq %", by.as_str(), "\n", out),
            Line::SignExtend => out.append("  cqto\n"),
            Line::DivSigned { by } => write_with_name("  idivq %", by.as_str(), "\n", out),
            Line::Load { index, to } => write_with_names(
                "  movq (%r12, %",
                index.as_str(),
                ", 8),%",
                to.as_str(),
                "\n",
                out,
            ),
            Line::Store { from, index } => write_with_names(
                "  movq %",
                from.as_str(),
                ", (%r12, %",
                index.as_str(),
                ", 8)\n",
                out,
            ),
            Line::StoreValue { value, index } => write_with_number_and_name(
                "  movq $",
                value,
                ", (%r12, %",
                index.as_str(),
                ", 8)\n",
                out,
            ),
            Line::Push { from } => write_with_name("  push %", from.as_str(), "\n", out),
            Line::PushValue { value } => write_with_number("  push $", value, "\n", out),
            Line::Pop { to } => write_with_name("  pop %", to.as_str(), "\n", out),
            Line::Compare { value, with } => write_with_number_and_name(
                "  cmp $",
                value,
                ", %",
                with.as_str(),
                "\n",
                out,
            ),
            Line::StartLabel(y) => write_with_number("  start_", y, ":\n", out),
            Line::EndLabel(y) => write_with_number("  end_", y, ":\n", out),
            Line::JumpToStart(y) => write_with_number("  jmp start_", y, "\n", out),
            Line::JumpIfZeroToEnd(y) => write_with_number("  jz end_", y, "\n", out),
            Line::Syscall => out.append("  syscall\n"),
        }
    }
}

/// The text of a listing.
pub fn render(lines: &Vec<Line>) -> (text: String)
    ensures
        text@ == listing_text(lines@),
{
    let mut out = String::new();
    let mut i: usize = 0;
    assert(lines@.subrange(0, 0) =~= Seq::<Line>::empty());
    while i < lines.len()
        invariant
            i <= lines.len(),
            out@ == listing_text(lines@.subrange(0, i as int)),
        decreases lines.len() - i,
    {
        lines[i].write(&mut out);
        proof {
            let done = lines@.subrange(0, i + 1);
            assert(done.drop_last() =~= lines@.subrange(0, i as int));
            assert(done.last() == lines@[i as int]);
        }
        i += 1;
    }
    assert(lines@.subrange(0, i as int) =~= lines@);
    out
}

} // verus!
