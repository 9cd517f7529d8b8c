//! The instruction set: twelve kinds of instruction, numbered 0 to 11, and
//! the record that holds one decoded instruction.

use vstd::prelude::*;

verus! {

/// The kinds of instruction, in the order of their opcodes.
#[derive(Clone, Copy, Debug, PartialEq, Eq, Structural)]
pub enum InstructionEnum {
    End,
    Print,
    Add,
    Subtract,
    Multiply,
    Divide,
    Input,
    Push,
    Pop,
    LoopBegin,
    LoopEnd,
    SetValue,
}

impl InstructionEnum {
    /// The opcode of this kind: its place in the list, counted from 0.
    pub open spec fn spec_code(self) -> nat {
        match self {
            InstructionEnum::End => 0,
            InstructionEnum::Print => 1,
            InstructionEnum::Add => 2,
            InstructionEnum::Subtract => 3,
            InstructionEnum::Multiply => 4,
            InstructionEnum::Divide => 5,
            InstructionEnum::Input => 6,
            InstructionEnum::Push => 7,
            InstructionEnum::Pop => 8,
            InstructionEnum::LoopBegin => 9,
            InstructionEnum::LoopEnd => 10,
            InstructionEnum::SetValue => 11,
        }
    }

    /// The kind with the given opcode, if there is one.
    pub open spec fn of_code(code: int) -> Option<InstructionEnum> {
        if code == 0 {
            Some(InstructionEnum::End)
        } else if code == 1 {
            Some(InstructionEnum::Print)
        } else if code == 2 {
            Some(InstructionEnum::Add)
        } else if code == 3 {
            Some(InstructionEnum::Subtract)
        } else if code == 4 {
            Some(InstructionEnum::Multiply)
        } else if code == 5 {
            Some(InstructionEnum::Divide)
        } else if code == 6 {
            Some(InstructionEnum::Input)
        } else if code == 7 {
            Some(InstructionEnum::Push)
        } else if code == 8 {
            Some(InstructionEnum::Pop)
        } else if code == 9 {
            Some(InstructionEnum::LoopBegin)
        } else if code == 10 {
            Some(InstructionEnum::LoopEnd)
        } else if code == 11 {
            Some(InstructionEnum::SetValue)
        } else {
            None
        }
    }

    /// How many operands an instruction of this kind is recorded with.
    /// `LoopEnd` takes one from the stack and is recorded with two.
    pub open spec fn spec_arity(self) -> nat {
        match self {
            InstructionEnum::End => 0,
            InstructionEnum::Print
            | InstructionEnum::Input
            | InstructionEnum::Push
            | InstructionEnum::Pop => 1,
            InstructionEnum::Add
            | InstructionEnum::Subtract
            | InstructionEnum::Multiply
            | InstructionEnum::Divide
            | InstructionEnum::LoopBegin
            | InstructionEnum::LoopEnd
            | InstructionEnum::SetValue => 2,
        }
    }

    /// The opcode of this kind.
    pub fn code(self) -> (c: usize)
        ensures
            c == self.spec_code(),
    {
        match self {
            InstructionEnum::End => 0,
            InstructionEnum::Print => 1,
            InstructionEnum::Add => 2,
            InstructionEnum::Subtract => 3,
            InstructionEnum::Multiply => 4,
            InstructionEnum::Divide => 5,
            InstructionEnum::Input => 6,
            InstructionEnum::Push => 7,
            InstructionEnum::Pop => 8,
            InstructionEnum::LoopBegin => 9,
            InstructionEnum::LoopEnd => 10,
            InstructionEnum::SetValue => 11,
        }
    }

    /// The kind with the given opcode; `None` for a number above 11.
    pub fn from_code(code: usize) -> (kind: Option<InstructionEnum>)
        ensures
            kind == Self::of_code(code as int),
    {
        match code {
            0 => Some(InstructionEnum::End),
            1 => Some(InstructionEnum::Print),
            2 => Some(InstructionEnum::Add),
            3 => Some(InstructionEnum::Subtract),
            4 => Some(InstructionEnum::Multiply),
            5 => Some(InstructionEnum::Divide),
            6 => Some(InstructionEnum::Input),
            7 => Some(InstructionEnum::Push),
            8 => Some(InstructionEnum::Pop),
            9 => Some(InstructionEnum::LoopBegin),
            10 => Some(InstructionEnum::LoopEnd),
            11 => Some(InstructionEnum::SetValue),
            _ => None,
        }
    }

    /// The number of operands this kind is recorded with.
    pub fn arity(self) -> (a: usize)
        ensures
            a == self.spec_arity(),
    {
        match self {
            InstructionEnum::End => 0,
            InstructionEnum::Print
            | InstructionEnum::Input
            | InstructionEnum::Push
            | InstructionEnum::Pop => 1,
            _ => 2,
        }
    }

    /// Opcodes and kinds correspond one to one: exactly the numbers 0 to 11
    /// are opcodes, and going from a kind to its opcode and back, or from an
    /// opcode to its kind and back, changes nothing.
    pub proof fn lemma_code_round_trip(kind: InstructionEnum, code: int)
        ensures
            Self::of_code(kind.spec_code() as int) == Some(kind),
            kind.spec_code() <= 11,
            Self::of_code(code) is Some <==> 0 <= code <= 11,
            Self::of_code(code) is Some ==> Self::of_code(code)->0.spec_code() == code,
    {
    }
}

/// One decoded instruction.
///
/// `op_code` says which kind it is; `n` and `y` are its operands, slot
/// numbers for the most part (the `y` of `Set` is a literal value, the `y` of
/// a loop instruction names the loop); `arg_c` records how many operands the
/// kind has.
#[derive(Clone, Copy, Debug, PartialEq, Eq, Structural)]
pub struct DuckInstruction {
    pub op_code: usize,
    pub n: usize,
    pub y: usize,
    pub arg_c: usize,
}

impl DuckInstruction {
    /// The kind of this instruction, if its opcode is one of the twelve.
    pub open spec fn kind(self) -> Option<InstructionEnum> {
        InstructionEnum::of_code(self.op_code as int)
    }

    /// The opcode is known.
    pub open spec fn known(self) -> bool {
        self.op_code <= 11
    }

    /// The opcode is known and `arg_c` is the arity of its kind.
    pub open spec fn wf(self) -> bool {
        &&& self.kind() is Some
        &&& self.arg_c == self.kind()->0.spec_arity()
    }

    /// The instruction is `End`.
    pub open spec fn is_end(self) -> bool {
        self.op_code == 0
    }
}

/// What a program must be before it is lowered: every instruction is well
/// formed, and the last one is `End`.
pub open spec fn valid_program(program: Seq<DuckInstruction>) -> bool {
    &&& program.len() > 0
    &&& program.last().is_end()
    &&& forall|i: int| 0 <= i < program.len() ==> (#[trigger] program[i]).wf()
}

} // verus!
