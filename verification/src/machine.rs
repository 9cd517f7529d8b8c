//! What the lines of a listing do when they run: a model of the processor,
//! its memory and the two standard streams, as far as generated code uses
//! them.
//!
//! Registers and words of memory hold 64 bits. Memory is looked at in words
//! of eight bytes, each known by the address of its first byte; an address is
//! taken as the number that it is, without wrapping. A register may hold
//! nothing that is known, as `r11` does behind a call of the operating
//! system; a line that reads such a register is a fault.
//!
//! A line that adds, stores, pushes or compares a number holds 32 bits of
//! it, which the processor widens in two's complement. A line with a number
//! that cannot be written so is taken as a fault: it cannot be assembled.

use vstd::prelude::*;

use crate::listing::{Line, Reg};
use crate::slots::{fits_signed, low64, quotient_toward_zero, signed, word};

verus! {

/// The state of the processor, the memory and the standard streams.
pub struct Machine {
    /// The registers whose value is known.
    pub regs: Map<Reg, u64>,
    /// The words of memory, by address.
    pub mem: Map<int, u64>,
    /// Whether the last comparison found equal, where that is known.
    pub zero: Option<bool>,
    /// The bytes that wait on standard input.
    pub input: Seq<u8>,
    /// The bytes written to standard output.
    pub output: Seq<u8>,
}

impl Machine {
    /// The value of the register is known.
    pub open spec fn has(self, r: Reg) -> bool {
        self.regs.dom().contains(r)
    }

    /// The value of a register.
    pub open spec fn get(self, r: Reg) -> u64 {
        self.regs[r]
    }

    /// The machine with a register set, and the flag as given.
    pub open spec fn set(self, r: Reg, value: u64, zero: Option<bool>) -> Machine {
        Machine { regs: self.regs.insert(r, value), zero, ..self }
    }

    /// The machine with the value of a register forgotten.
    pub open spec fn forget(self, r: Reg) -> Machine {
        Machine { regs: self.regs.remove(r), ..self }
    }

    /// The machine with a word of memory written.
    pub open spec fn store(self, address: int, value: u64) -> Machine {
        Machine { mem: self.mem.insert(address, value), ..self }
    }

    /// The address of the cell with the given number.
    pub open spec fn cell_address(self, index: u64) -> int {
        self.get(Reg::R12) + 8 * index
    }
}

/// How a line, or a run of lines, ends.
pub enum Outcome {
    /// The line behind it comes next.
    Next(Machine),
    /// A jump to the head of the loop with this number.
    ToStart(usize, Machine),
    /// A jump behind the end of the loop with this number.
    ToEnd(usize, Machine),
    /// The process has ended with this status.
    Exit(u64, Machine),
    /// The processor or the operating system has stopped the process.
    Fault,
}

impl Outcome {
    /// The machine as the line or the run of lines leaves it.
    pub open spec fn machine(self) -> Machine {
        match self {
            Outcome::Next(m) => m,
            Outcome::ToStart(_, m) => m,
            Outcome::ToEnd(_, m) => m,
            Outcome::Exit(_, m) => m,
            Outcome::Fault => arbitrary(),
        }
    }
}

/// What a call of the operating system does. `rax` names the service: 0
/// reads from the stream `rdi` and 1 writes to it, `rdx` bytes at the address
/// `rsi`; 60 ends the process with status `rdi`. Only reading one byte from
/// standard input, writing one byte to standard output and ending are
/// modelled. A byte read replaces the lowest byte of the word at `rsi`; where
/// no byte waits, nothing is read. The byte written is the lowest byte of
/// that word. The call leaves in `rax` the number of bytes moved, and nothing
/// known in `r11` and in the flag.
pub open spec fn run_syscall(m: Machine) -> Outcome {
    if !m.has(Reg::Rax) || !m.has(Reg::Rdi) {
        Outcome::Fault
    } else if m.get(Reg::Rax) == 60 {
        Outcome::Exit(m.get(Reg::Rdi), m)
    } else if !m.has(Reg::Rsi) || !m.has(Reg::Rdx) || m.get(Reg::Rdx) != 1 {
        Outcome::Fault
    } else if m.get(Reg::Rax) == 0 && m.get(Reg::Rdi) == 0 {
        let at = m.get(Reg::Rsi) as int;
        if m.input.len() > 0 {
            let read = low64((m.mem[at] / 256) * 256 + m.input[0]);
            Outcome::Next(
                Machine { input: m.input.drop_first(), ..m.store(at, read) }.forget(Reg::R11).set(
                    Reg::Rax,
                    1,
                    None,
                ),
            )
        } else {
            Outcome::Next(m.forget(Reg::R11).set(Reg::Rax, 0, None))
        }
    } else if m.get(Reg::Rax) == 1 && m.get(Reg::Rdi) == 1 {
        let at = m.get(Reg::Rsi) as int;
        Outcome::Next(
            Machine { output: m.output.push((m.mem[at] % 256) as u8), ..m }.forget(Reg::R11).set(
                Reg::Rax,
                1,
                None,
            ),
        )
    } else {
        Outcome::Fault
    }
}

/// The number can stand in a line that has room for 32 bits, which are
/// widened to 64 in two's complement.
pub open spec fn fits_line(value: usize) -> bool {
    value < 0x8000_0000 || value >= word() - 0x8000_0000
}

/// The number that the 128 bits of two registers stand for in two's
/// complement.
pub open spec fn signed_pair(high: u64, low: u64) -> int {
    if high < 0x8000_0000_0000_0000 {
        high * word() + low
    } else {
        high * word() + low - word() * word()
    }
}

/// What one line does.
pub open spec fn run_line(m: Machine, line: Line) -> Outcome {
    match line {
        Line::Entry
        | Line::Banner(_)
        | Line::AllocateNote
        | Line::NoteN(_)
        | Line::NoteY(_)
        | Line::StartLabel(_)
        | Line::EndLabel(_) => Outcome::Next(m),
        Line::Move { from, to } => if m.has(from) {
            Outcome::Next(m.set(to, m.get(from), m.zero))
        } else {
            Outcome::Fault
        },
        Line::MoveValue { value, to } => Outcome::Next(m.set(to, value as u64, m.zero)),
        Line::MoveValue32 { value, to } => if value < 0x1_0000_0000 {
            Outcome::Next(m.set(to, value as u64, m.zero))
        } else {
            Outcome::Fault
        },
        Line::Clear32 { reg } => Outcome::Next(m.set(reg, 0, Some(true))),
        Line::AddValue { value, to } => if m.has(to) && fits_line(value) {
            let sum = low64(m.get(to) + value);
            Outcome::Next(m.set(to, sum, Some(sum == 0)))
        } else {
            Outcome::Fault
        },
        Line::Add { from, to } => if m.has(from) && m.has(to) {
            let sum = low64(m.get(to) + m.get(from));
            Outcome::Next(m.set(to, sum, Some(sum == 0)))
        } else {
            Outcome::Fault
        },
        Line::Sub { from, to } => if m.has(from) && m.has(to) {
            let difference = low64(m.get(to) - m.get(from));
            Outcome::Next(m.set(to, difference, Some(difference == 0)))
        } else {
            Outcome::Fault
        },
        Line::Mul { from, to } => if m.has(from) && m.has(to) {
            Outcome::Next(m.set(to, low64(m.get(to) * m.get(from)), None))
        } else {
            Outcome::Fault
        },
        Line::Div { by } => if m.has(by) && m.has(Reg::Rax) && m.has(Reg::Rdx) && m.get(by) != 0 {
            let dividend = m.get(Reg::Rdx) * word() + m.get(Reg::Rax);
            let divisor = m.get(by) as int;
            if dividend / divisor < word() {
                Outcome::Next(
                    m.set(Reg::Rax, (dividend / divisor) as u64, None).set(
                        Reg::Rdx,
                        (dividend % divisor) as u64,
                        None,
                    ),
                )
            } else {
                Outcome::Fault
            }
        } else {
            Outcome::Fault
        },
        Line::SignExtend => if m.has(Reg::Rax) {
            Outcome::Next(
                m.set(
                    Reg::Rdx,
                    if signed(m.get(Reg::Rax)) < 0 {
                        0xffff_ffff_ffff_ffff
                    } else {
                        0
                    },
                    m.zero,
                ),
            )
        } else {
            Outcome::Fault
        },
        Line::DivSigned { by } => if m.has(by) && m.has(Reg::Rax) && m.has(Reg::Rdx) && m.get(by)
            != 0 {
            let dividend = signed_pair(m.get(Reg::Rdx), m.get(Reg::Rax));
            let divisor = signed(m.get(by));
            let quotient = quotient_toward_zero(dividend, divisor);
            if fits_signed(quotient) {
                Outcome::Next(
                    m.set(Reg::Rax, low64(quotient), None).set(
                        Reg::Rdx,
                        low64(dividend - quotient * divisor),
                        None,
                    ),
                )
            } else {
                Outcome::Fault
            }
        } else {
            Outcome::Fault
        },
        Line::Load { index, to } => if m.has(Reg::R12) && m.has(index) {
            Outcome::Next(m.set(to, m.mem[m.cell_address(m.get(index))], m.zero))
        } else {
            Outcome::Fault
        },
        Line::Store { from, index } => if m.has(Reg::R12) && m.has(index) && m.has(from) {
            Outcome::Next(m.store(m.cell_address(m.get(index)), m.get(from)))
        } else {
            Outcome::Fault
        },
        Line::StoreValue { value, index } => if m.has(Reg::R12) && m.has(index) && fits_line(
            value,
        ) {
            Outcome::Next(m.store(m.cell_address(m.get(index)), value as u64))
        } else {
            Outcome::Fault
        },
        Line::Push { from } => if m.has(Reg::Rsp) && m.has(from) {
            let top = low64(m.get(Reg::Rsp) - 8);
            Outcome::Next(m.store(top as int, m.get(from)).set(Reg::Rsp, top, m.zero))
        } else {
            Outcome::Fault
        },
        Line::PushValue { value } => if m.has(Reg::Rsp) && fits_line(value) {
            let top = low64(m.get(Reg::Rsp) - 8);
            Outcome::Next(m.store(top as int, value as u64).set(Reg::Rsp, top, m.zero))
        } else {
            Outcome::Fault
        },
        Line::Pop { to } => if m.has(Reg::Rsp) {
            let top = m.get(Reg::Rsp);
            Outcome::Next(
                m.set(Reg::Rsp, low64(top + 8), m.zero).set(to, m.mem[top as int], m.zero),
            )
        } else {
            Outcome::Fault
        },
        Line::Compare { value, with } => if m.has(with) && fits_line(value) {
            Outcome::Next(Machine { zero: Some(m.get(with) == value), ..m })
        } else {
            Outcome::Fault
        },
        Line::JumpToStart(y) => Outcome::ToStart(y, m),
        Line::JumpIfZeroToEnd(y) => match m.zero {
            Some(true) => Outcome::ToEnd(y, m),
            Some(false) => Outcome::Next(m),
            None => Outcome::Fault,
        },
        Line::Syscall => run_syscall(m),
    }
}

/// What goes on behind an outcome: where the line behind it comes next, the
/// lines given are run; any other outcome stands.
pub open spec fn then_run(first: Outcome, lines: Seq<Line>) -> Outcome {
    match first {
        Outcome::Next(m) => run(m, lines),
        other => other,
    }
}

/// What the lines do from line `at` on, run one after the other until one of
/// them jumps, ends the process or is a fault.
pub open spec fn run_from(m: Machine, lines: Seq<Line>, at: int) -> Outcome
    decreases lines.len() - at,
{
    if at < 0 || at >= lines.len() {
        Outcome::Next(m)
    } else {
        match run_line(m, lines[at]) {
            Outcome::Next(next) => run_from(next, lines, at + 1),
            other => other,
        }
    }
}

/// What a run of lines does.
pub open spec fn run(m: Machine, lines: Seq<Line>) -> Outcome {
    run_from(m, lines, 0)
}

proof fn lemma_run_tail(m: Machine, first: Seq<Line>, second: Seq<Line>, at: int)
    requires
        0 <= at <= second.len(),
    ensures
        run_from(m, first + second, first.len() + at) == run_from(m, second, at),
    decreases second.len() - at,
{
    if at < second.len() {
        assert((first + second)[first.len() + at] == second[at]);
        match run_line(m, second[at]) {
            Outcome::Next(next) => {
                lemma_run_tail(next, first, second, at + 1);
            },
            _ => {},
        }
    }
}

proof fn lemma_run_concat_from(m: Machine, first: Seq<Line>, second: Seq<Line>, at: int)
    requires
        0 <= at <= first.len(),
    ensures
        run_from(m, first + second, at) == then_run(run_from(m, first, at), second),
    decreases first.len() - at,
{
    if at < first.len() {
        assert((first + second)[at] == first[at]);
        match run_line(m, first[at]) {
            Outcome::Next(next) => {
                lemma_run_concat_from(next, first, second, at + 1);
            },
            _ => {},
        }
    } else {
        lemma_run_tail(m, first, second, 0);
    }
}

/// Two runs of lines, one behind the other, do what the first does and
/// then, where the first comes to its end, what the second does.
pub proof fn lemma_run_concat(m: Machine, first: Seq<Line>, second: Seq<Line>)
    ensures
        run(m, first + second) == then_run(run(m, first), second),
{
    lemma_run_concat_from(m, first, second, 0);
}

} // verus!
