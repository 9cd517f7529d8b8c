//! From the lines of a source program to its slot count and instructions.
//!
//! The first line that holds a keyword is the header: its ducks, all of them
//! before its one goose, give the number of slots. Of the lines behind it,
//! one without a goose puts its number of ducks on a stack of operands, and
//! one with a goose is an opcode line: its number of ducks is an opcode, whose
//! operands are taken from the top of the stack. The last instruction of a
//! program is `End`.

use vstd::prelude::*;
use vstd::string::*;
use vstd::utf8::*;

use crate::error::ParseError;
pub use crate::instruction::DuckInstruction;
use crate::instruction::{valid_program, InstructionEnum};
use crate::scan::{
    code_part, count, count_matches, duck, find, goose, has_match, is_first_match,
    lemma_count_matches, lemma_keyword_bytes, lemma_single_match, line_counts, matches_at, rfind,
    strip_comment,
};

verus! {

/// The number of ducks and the number of geese in the code of a line.
pub fn get_counts(line: &str) -> (counts: (usize, usize))
    ensures
        counts.0 == line_counts(line.spec_bytes()).0,
        counts.1 == line_counts(line.spec_bytes()).1,
{
    let code = strip_comment(line.as_bytes());
    let duck_count = count(code, "duck".as_bytes());
    let goose_count = count(code, "goose".as_bytes());
    (duck_count, goose_count)
}

/// A duck stands behind the first goose of this code.
pub open spec fn duck_after_goose(code: Seq<u8>) -> bool {
    exists|d: int, g: int|
        matches_at(code, duck(), d) && is_first_match(code, goose(), g) && g < d
}

/// The rule for a line that holds a goose: it holds one goose only, and none
/// of its ducks stands behind that goose.
pub open spec fn marker_check(code: Seq<u8>, goose_count: nat) -> Result<(), ParseError> {
    if goose_count > 1 {
        Err(ParseError::MultipleMarkersError)
    } else if duck_after_goose(code) {
        Err(ParseError::MarkerOrderError)
    } else {
        Ok(())
    }
}

/// In code with one goose, a duck stands behind the first goose exactly if
/// it stands behind the goose, wherever that is found.
pub proof fn lemma_duck_after_the_goose(code: Seq<u8>, g: int)
    requires
        count_matches(code, goose()) == 1,
        matches_at(code, goose(), g),
    ensures
        is_first_match(code, goose(), g),
        duck_after_goose(code) <==> exists|d: int| matches_at(code, duck(), d) && g < d,
{
    assert forall|j: int| 0 <= j < g implies !matches_at(code, goose(), j) by {
        if matches_at(code, goose(), j) {
            lemma_single_match(code, goose(), j, g);
        }
    }
    if duck_after_goose(code) {
        let (d, first) = choose|d: int, first: int|
            matches_at(code, duck(), d) && is_first_match(code, goose(), first) && first < d;
        lemma_single_match(code, goose(), first, g);
        assert(matches_at(code, duck(), d) && g < d);
    }
    if exists|d: int| matches_at(code, duck(), d) && g < d {
        let d = choose|d: int| matches_at(code, duck(), d) && g < d;
        assert(matches_at(code, duck(), d) && is_first_match(code, goose(), g) && g < d);
    }
}

/// Holds a line with `goose_count` geese in its code to the rule for lines
/// with a goose.
pub fn check_line(line: &str, goose_count: usize) -> (checked: Result<(), ParseError>)
    requires
        goose_count <= 1 ==> has_match(code_part(line.spec_bytes()), goose()),
    ensures
        checked == marker_check(code_part(line.spec_bytes()), goose_count as nat),
{
    if goose_count > 1 {
        return Err(ParseError::MultipleMarkersError);
    }
    let code = strip_comment(line.as_bytes());
    let goose_pos = match find(code, "goose".as_bytes()) {
        Some(pos) => pos,
        None => { return Ok(()); },
    };
    match rfind(code, "duck".as_bytes()) {
        None => {
            assert(!duck_after_goose(code@)) by {
                if duck_after_goose(code@) {
                    let (d, g) = choose|d: int, g: int|
                        matches_at(code@, duck(), d) && is_first_match(code@, goose(), g) && g
                            < d;
                    assert(has_match(code@, duck()));
                }
            }
            Ok(())
        },
        Some(duck_pos) => {
            if duck_pos > goose_pos {
                assert(matches_at(code@, duck(), duck_pos as int) && is_first_match(
                    code@,
                    goose(),
                    goose_pos as int,
                ) && goose_pos < duck_pos);
                Err(ParseError::MarkerOrderError)
            } else {
                assert(!duck_after_goose(code@)) by {
                    if duck_after_goose(code@) {
                        let (d, g) = choose|d: int, g: int|
                            matches_at(code@, duck(), d) && is_first_match(code@, goose(), g)
                                && g < d;
                        assert(g == goose_pos);
                        assert(d <= duck_pos);
                    }
                }
                Ok(())
            }
        },
    }
}

/// What a line before the body is taken for: the counts of a blank line or
/// of a header line, or the reason why it is neither.
pub open spec fn header_line(line: Seq<u8>) -> Result<(nat, nat), ParseError> {
    let counts = line_counts(line);
    if counts.1 != 0 {
        match marker_check(code_part(line), counts.1) {
            Err(e) => Err(e),
            Ok(_) => Ok(counts),
        }
    } else if counts.0 != 0 {
        Err(ParseError::MissingHeaderMarkerError)
    } else {
        Ok(counts)
    }
}

/// Reads one line before the body. A line without keywords is blank and
/// gives `(0, 0)`; a line with one goose and all its `k` ducks before it is
/// the header and gives `(k, 1)`; any other line is an error.
pub fn parse_header_line(line: &str) -> (parsed: Result<(usize, usize), ParseError>)
    ensures
        match parsed {
            Ok(counts) => header_line(line.spec_bytes()) == Ok::<(nat, nat), ParseError>(
                (counts.0 as nat, counts.1 as nat),
            ),
            Err(e) => header_line(line.spec_bytes()) == Err::<(nat, nat), ParseError>(e),
        },
        // a line of ducks followed by exactly one goose gives the number of ducks
        line_counts(line.spec_bytes()).1 == 1 && !duck_after_goose(code_part(line.spec_bytes()))
            ==> parsed == Ok::<(usize, usize), ParseError>(
            (line_counts(line.spec_bytes()).0 as usize, 1),
        ),
        // a duck behind the one goose is refused
        line_counts(line.spec_bytes()).1 == 1 && duck_after_goose(code_part(line.spec_bytes()))
            ==> parsed == Err::<(usize, usize), ParseError>(ParseError::MarkerOrderError),
        // two geese are refused, whatever the ducks
        line_counts(line.spec_bytes()).1 > 1 ==> parsed == Err::<(usize, usize), ParseError>(
            ParseError::MultipleMarkersError,
        ),
        // ducks without a goose are refused
        line_counts(line.spec_bytes()).1 == 0 && line_counts(line.spec_bytes()).0 > 0 ==> parsed
            == Err::<(usize, usize), ParseError>(ParseError::MissingHeaderMarkerError),
        // a line without keywords is passed over
        line_counts(line.spec_bytes()) == (0nat, 0nat) ==> parsed == Ok::<
            (usize, usize),
            ParseError,
        >((0, 0)),
{
    let counts = get_counts(line);
    if counts.1 != 0 {
        proof {
            lemma_keyword_bytes();
            lemma_count_matches(code_part(line.spec_bytes()), goose());
        }
        match check_line(line, counts.1) {
            Err(e) => { return Err(e); },
            Ok(_) => {},
        }
    } else if counts.0 != 0 {
        return Err(ParseError::MissingHeaderMarkerError);
    }
    Ok(counts)
}

/// The lines of a program as bytes: each line in its UTF-8 encoding.
pub open spec fn line_bytes(lines: Seq<String>) -> Seq<Seq<u8>> {
    Seq::new(lines.len(), |i: int| encode_utf8(lines[i]@))
}

/// The header as found from line `from` on: the slot count, and the number
/// of the first line behind the header line. Blank lines are passed over;
/// the first line that is not blank must be a header line.
pub open spec fn header_from(lines: Seq<Seq<u8>>, from: int) -> Result<(nat, nat), ParseError>
    decreases lines.len() - from,
{
    if from < 0 || from >= lines.len() {
        Err(ParseError::UnexpectedEndOfInputError)
    } else {
        match header_line(lines[from]) {
            Err(e) => Err(e),
            Ok(counts) => if counts.1 != 0 {
                Ok((counts.0, (from + 1) as nat))
            } else {
                header_from(lines, from + 1)
            },
        }
    }
}

/// The header of a program: its slot count, and the number of the first
/// line of its body.
pub open spec fn header(lines: Seq<Seq<u8>>) -> Result<(nat, nat), ParseError> {
    header_from(lines, 0)
}

/// Finds the header line. Gives the slot count and the number of the first
/// line of the body.
pub fn parse_header(lines: &Vec<String>) -> (parsed: Result<(usize, usize), ParseError>)
    ensures
        match parsed {
            Ok(found) => header(line_bytes(lines@)) == Ok::<(nat, nat), ParseError>(
                (found.0 as nat, found.1 as nat),
            ),
            Err(e) => header(line_bytes(lines@)) == Err::<(nat, nat), ParseError>(e),
        },
        parsed is Ok ==> 0 < parsed->Ok_0.1 <= lines.len(),
{
    let mut i: usize = 0;
    while i < lines.len()
        invariant
            i <= lines.len(),
            header_from(line_bytes(lines@), i as int) == header(line_bytes(lines@)),
        decreases lines.len() - i,
    {
        let counts = match parse_header_line(lines[i].as_str()) {
            Ok(counts) => counts,
            Err(e) => { return Err(e); },
        };
        if counts.1 != 0 {
            return Ok((counts.0, i + 1));
        }
        i += 1;
    }
    Err(ParseError::UnexpectedEndOfInputError)
}

/// A stack of operands with up to `k` of them taken from its top.
pub open spec fn without_top(stack: Seq<usize>, k: nat) -> Seq<usize> {
    if stack.len() >= k {
        stack.subrange(0, stack.len() - k)
    } else {
        Seq::empty()
    }
}

/// An instruction with one operand: `n` is the operand on top of the stack.
pub open spec fn unary_inst(inst: usize, stack: Seq<usize>) -> Result<
    DuckInstruction,
    ParseError,
> {
    if stack.len() < 1 {
        Err(ParseError::ArityError)
    } else {
        Ok(DuckInstruction { op_code: inst, n: stack.last(), y: 0, arg_c: 1 })
    }
}

/// An instruction with two operands: `y` is the operand on top of the stack,
/// the one that was put there last, and `n` is the one below it.
pub open spec fn binary_inst(inst: usize, stack: Seq<usize>) -> Result<
    DuckInstruction,
    ParseError,
> {
    if stack.len() < 2 {
        Err(ParseError::ArityError)
    } else {
        Ok(
            DuckInstruction {
                op_code: inst,
                n: stack[stack.len() - 2],
                y: stack[stack.len() - 1],
                arg_c: 2,
            },
        )
    }
}

/// A loop instruction. The start of a loop takes `y`, or 0 from an empty
/// stack, and then `n`, which must be there. The end of a loop takes `n`, or
/// 0 from an empty stack; its `y` is 0.
pub open spec fn loop_inst(inst: usize, stack: Seq<usize>) -> Result<
    DuckInstruction,
    ParseError,
> {
    if inst == InstructionEnum::LoopBegin.spec_code() {
        let y = if stack.len() == 0 {
            0
        } else {
            stack.last()
        };
        let rest = without_top(stack, 1);
        if rest.len() == 0 {
            Err(ParseError::ArityError)
        } else {
            Ok(DuckInstruction { op_code: inst, n: rest.last(), y, arg_c: 2 })
        }
    } else {
        let n = if stack.len() == 0 {
            0
        } else {
            stack.last()
        };
        Ok(DuckInstruction { op_code: inst, n, y: 0, arg_c: 2 })
    }
}

/// Takes one operand from the stack for an instruction with one operand.
pub fn parse_unary_inst(inst: usize, operands: &mut Vec<usize>) -> (parsed: Result<
    DuckInstruction,
    ParseError,
>)
    ensures
        parsed == unary_inst(inst, old(operands)@),
        final(operands)@ == without_top(old(operands)@, 1),
{
    let n = match operands.pop() {
        None => { return Err(ParseError::ArityError); },
        Some(op) => op,
    };
    Ok(DuckInstruction { op_code: inst, n, y: 0, arg_c: 1 })
}

/// Takes two operands from the stack for an instruction with two operands:
/// first `y`, then `n`.
pub fn parse_binary_inst(inst: usize, operands: &mut Vec<usize>) -> (parsed: Result<
    DuckInstruction,
    ParseError,
>)
    ensures
        parsed == binary_inst(inst, old(operands)@),
        final(operands)@ == without_top(old(operands)@, 2),
{
    let y = match operands.pop() {
        None => { return Err(ParseError::ArityError); },
        Some(op) => op,
    };
    let n = match operands.pop() {
        None => { return Err(ParseError::ArityError); },
        Some(op) => op,
    };
    Ok(DuckInstruction { op_code: inst, n, y, arg_c: 2 })
}

/// Takes the operands of a loop instruction from the stack: two for the
/// start of a loop, one for any other opcode, which is read as the end of a
/// loop.
pub fn parse_loop_inst(inst: usize, operands: &mut Vec<usize>) -> (parsed: Result<
    DuckInstruction,
    ParseError,
>)
    ensures
        parsed == loop_inst(inst, old(operands)@),
        final(operands)@ == without_top(
            old(operands)@,
            if inst == InstructionEnum::LoopBegin.spec_code() {
                2
            } else {
                1
            },
        ),
{
    if inst == InstructionEnum::LoopBegin.code() {
        let y = match operands.pop() {
            None => 0,
            Some(op) => op,
        };
        let n = match operands.pop() {
            None => { return Err(ParseError::ArityError); },
            Some(op) => op,
        };
        Ok(DuckInstruction { op_code: inst, n, y, arg_c: 2 })
    } else {
        let n = match operands.pop() {
            None => 0,
            Some(op) => op,
        };
        Ok(DuckInstruction { op_code: inst, n, y: 0, arg_c: 2 })
    }
}

/// The instruction that an opcode line with `op_code` ducks stands for, its
/// operands taken from the top of `stack`.
pub open spec fn opcode_inst(op_code: nat, stack: Seq<usize>) -> Result<
    DuckInstruction,
    ParseError,
> {
    match InstructionEnum::of_code(op_code as int) {
        None => Err(ParseError::UnknownOpcodeError),
        Some(kind) => match kind {
            InstructionEnum::End => Ok(DuckInstruction { op_code: 0, n: 0, y: 0, arg_c: 0 }),
            InstructionEnum::Print
            | InstructionEnum::Input
            | InstructionEnum::Push
            | InstructionEnum::Pop => unary_inst(op_code as usize, stack),
            InstructionEnum::Add
            | InstructionEnum::Subtract
            | InstructionEnum::Multiply
            | InstructionEnum::Divide
            | InstructionEnum::SetValue => binary_inst(op_code as usize, stack),
            InstructionEnum::LoopBegin | InstructionEnum::LoopEnd => loop_inst(
                op_code as usize,
                stack,
            ),
        },
    }
}

/// How many operands the instruction with this opcode takes from the stack,
/// where it finds that many.
pub open spec fn operands_taken(op_code: nat) -> nat {
    match InstructionEnum::of_code(op_code as int) {
        None | Some(InstructionEnum::End) => 0,
        Some(InstructionEnum::Print)
        | Some(InstructionEnum::Input)
        | Some(InstructionEnum::Push)
        | Some(InstructionEnum::Pop)
        | Some(InstructionEnum::LoopEnd) => 1,
        Some(_) => 2,
    }
}

/// Decodes one opcode, taking its operands from the top of the stack.
pub fn decode_opcode(op_code: usize, operands: &mut Vec<usize>) -> (decoded: Result<
    DuckInstruction,
    ParseError,
>)
    ensures
        decoded == opcode_inst(op_code as nat, old(operands)@),
        final(operands)@ == without_top(old(operands)@, operands_taken(op_code as nat)),
        decoded is Ok ==> decoded->Ok_0.wf() && decoded->Ok_0.op_code == op_code,
{
    match InstructionEnum::from_code(op_code) {
        None => {
            assert(operands@.subrange(0, operands@.len() as int) =~= operands@);
            Err(ParseError::UnknownOpcodeError)
        },
        Some(kind) => match kind {
            InstructionEnum::End => {
                assert(operands@.subrange(0, operands@.len() as int) =~= operands@);
                Ok(DuckInstruction { op_code, n: 0, y: 0, arg_c: 0 })
            },
            InstructionEnum::Print
            | InstructionEnum::Input
            | InstructionEnum::Push
            | InstructionEnum::Pop => parse_unary_inst(op_code, operands),
            InstructionEnum::Add
            | InstructionEnum::Subtract
            | InstructionEnum::Multiply
            | InstructionEnum::Divide
            | InstructionEnum::SetValue => parse_binary_inst(op_code, operands),
            InstructionEnum::LoopBegin | InstructionEnum::LoopEnd => parse_loop_inst(
                op_code,
                operands,
            ),
        },
    }
}

/// Where the decoder stands between two lines: the operands that wait on the
/// stack, and the instructions decoded so far.
pub struct DecodeState {
    pub stack: Seq<usize>,
    pub program: Seq<DuckInstruction>,
}

/// The decoder before the first line of the body.
pub open spec fn decode_start() -> DecodeState {
    DecodeState { stack: Seq::empty(), program: Seq::empty() }
}

/// One line of the body. A line without a goose puts its number of ducks on
/// the stack. A line with a goose is held to the rule for such lines; its
/// number of ducks is then decoded as an opcode, and whatever the opcode left
/// on the stack is thrown away.
pub open spec fn decode_line(state: DecodeState, line: Seq<u8>) -> Result<
    DecodeState,
    ParseError,
> {
    let counts = line_counts(line);
    if counts.1 == 0 {
        Ok(DecodeState { stack: state.stack.push(counts.0 as usize), program: state.program })
    } else {
        match marker_check(code_part(line), counts.1) {
            Err(e) => Err(e),
            Ok(_) => match opcode_inst(counts.0, state.stack) {
                Err(e) => Err(e),
                Ok(inst) => Ok(
                    DecodeState { stack: Seq::empty(), program: state.program.push(inst) },
                ),
            },
        }
    }
}

/// The lines of a body, decoded one after the other from the first. The
/// first line that cannot be decoded gives the error.
pub open spec fn decode_lines(lines: Seq<Seq<u8>>) -> Result<DecodeState, ParseError>
    decreases lines.len(),
{
    if lines.len() == 0 {
        Ok(decode_start())
    } else {
        match decode_lines(lines.drop_last()) {
            Err(e) => Err(e),
            Ok(state) => decode_line(state, lines.last()),
        }
    }
}

/// A program must hold an instruction, and its last one must be `End`.
pub open spec fn validate(program: Seq<DuckInstruction>) -> Result<(), ParseError> {
    if program.len() == 0 || !program.last().is_end() {
        Err(ParseError::UnterminatedProgramError)
    } else {
        Ok(())
    }
}

/// Checks that a program holds an instruction and ends with `End`.
pub fn validate_program(program: &Vec<DuckInstruction>) -> (checked: Result<(), ParseError>)
    ensures
        checked == validate(program@),
        checked is Ok <==> program@.len() > 0 && program@.last().is_end(),
        checked is Err ==> checked == Err::<(), ParseError>(
            ParseError::UnterminatedProgramError,
        ),
{
    let len = program.len();
    if len == 0 || program[len - 1].op_code != InstructionEnum::End.code() {
        Err(ParseError::UnterminatedProgramError)
    } else {
        Ok(())
    }
}

/// A whole program: the header gives the slot count, the lines behind it are
/// decoded, and the instructions they give must end with `End`.
pub open spec fn parse(lines: Seq<Seq<u8>>) -> Result<(nat, Seq<DuckInstruction>), ParseError> {
    match header(lines) {
        Err(e) => Err(e),
        Ok(found) => match decode_lines(lines.subrange(found.1 as int, lines.len() as int)) {
            Err(e) => Err(e),
            Ok(state) => match validate(state.program) {
                Err(e) => Err(e),
                Ok(_) => Ok((found.0, state.program)),
            },
        },
    }
}

/// The number of opcode lines among the lines: of those that hold a goose.
pub open spec fn opcode_lines(lines: Seq<Seq<u8>>) -> nat
    decreases lines.len(),
{
    if lines.len() == 0 {
        0
    } else if line_counts(lines.last()).1 != 0 {
        opcode_lines(lines.drop_last()) + 1
    } else {
        opcode_lines(lines.drop_last())
    }
}

/// The decoder gives one instruction for each opcode line, in the order of
/// the lines. Behind an opcode line the stack is empty and the last
/// instruction has the opcode that the line holds in ducks; behind any
/// other line the instructions are those of the lines before it, and the
/// number of ducks of the line is on top of the stack.
pub proof fn lemma_one_instruction_per_opcode_line(lines: Seq<Seq<u8>>)
    ensures
        decode_lines(lines) matches Ok(state) ==> {
            &&& state.program.len() == opcode_lines(lines)
            &&& lines.len() > 0 && line_counts(lines.last()).1 != 0 ==> {
                &&& state.stack.len() == 0
                &&& state.program.last().op_code == line_counts(lines.last()).0
                &&& state.program.drop_last() == decode_lines(lines.drop_last())->Ok_0.program
            }
            &&& lines.len() > 0 && line_counts(lines.last()).1 == 0 ==> {
                &&& state.stack.last() == line_counts(lines.last()).0 as usize
                &&& state.program == decode_lines(lines.drop_last())->Ok_0.program
            }
        },
    decreases lines.len(),
{
    if lines.len() > 0 {
        lemma_one_instruction_per_opcode_line(lines.drop_last());
        if decode_lines(lines) is Ok && line_counts(lines.last()).1 != 0 {
            let state = decode_lines(lines)->Ok_0;
            let before = decode_lines(lines.drop_last())->Ok_0;
            assert(state.program.drop_last() =~= before.program);
        }
    }
}

/// Every instruction that the decoder gives is well formed.
pub proof fn lemma_decoded_well_formed(lines: Seq<Seq<u8>>)
    ensures
        decode_lines(lines) matches Ok(state) ==> forall|i: int|
            0 <= i < state.program.len() ==> (#[trigger] state.program[i]).wf(),
    decreases lines.len(),
{
    if lines.len() > 0 {
        lemma_decoded_well_formed(lines.drop_last());
    }
}

/// Parses the lines of a source program into its slot count and its
/// instructions.
pub fn parse_file(lines: &Vec<String>) -> (parsed: Result<
    (usize, Vec<DuckInstruction>),
    ParseError,
>)
    ensures
        match parsed {
            Ok(program) => parse(line_bytes(lines@)) == Ok::<
                (nat, Seq<DuckInstruction>),
                ParseError,
            >((program.0 as nat, program.1@)),
            Err(e) => parse(line_bytes(lines@)) == Err::<
                (nat, Seq<DuckInstruction>),
                ParseError,
            >(e),
        },
        parsed is Ok ==> valid_program(parsed->Ok_0.1@),
{
    let (slot_count, first) = match parse_header(lines) {
        Ok(found) => found,
        Err(e) => { return Err(e); },
    };
    let ghost all = line_bytes(lines@);
    let mut ops: Vec<usize> = Vec::new();
    let mut duck_inst: Vec<DuckInstruction> = Vec::new();
    let mut i: usize = first;
    assert(all.subrange(first as int, i as int) =~= Seq::<Seq<u8>>::empty());
    while i < lines.len()
        invariant
            all == line_bytes(lines@),
            header(all) == Ok::<(nat, nat), ParseError>((slot_count as nat, first as nat)),
            first <= i <= lines.len(),
            decode_lines(all.subrange(first as int, i as int)) == Ok::<DecodeState, ParseError>(
                DecodeState { stack: ops@, program: duck_inst@ },
            ),
        decreases lines.len() - i,
    {
        let line = lines[i].as_str();
        let counts = get_counts(line);
        proof {
            let done = all.subrange(first as int, i + 1);
            assert(done.drop_last() =~= all.subrange(first as int, i as int));
            assert(done.last() == line.spec_bytes());
        }
        if counts.1 == 0 {
            ops.push(counts.0);
        } else {
            proof {
                lemma_keyword_bytes();
                lemma_count_matches(code_part(line.spec_bytes()), goose());
            }
            let decoded = match check_line(line, counts.1) {
                Err(e) => Err(e),
                Ok(_) => decode_opcode(counts.0, &mut ops),
            };
            let inst = match decoded {
                Err(e) => {
                    proof {
                        let body = all.subrange(first as int, lines.len() as int);
                        assert(body.subrange(0, i + 1 - first) =~= all.subrange(
                            first as int,
                            i + 1,
                        ));
                        lemma_decode_error_stays(body, i + 1 - first);
                    }
                    return Err(e);
                },
                Ok(inst) => inst,
            };
            duck_inst.push(inst);
            ops.clear();
        }
        i += 1;
    }
    proof {
        lemma_decoded_well_formed(all.subrange(first as int, lines.len() as int));
    }
    match validate_program(&duck_inst) {
        Err(e) => Err(e),
        Ok(_) => Ok((slot_count, duck_inst)),
    }
}

/// Once a line cannot be decoded, the lines behind it change nothing: the
/// error of the first `k` lines is the error of all of them.
pub proof fn lemma_decode_error_stays(lines: Seq<Seq<u8>>, k: int)
    requires
        0 <= k <= lines.len(),
        decode_lines(lines.subrange(0, k)) is Err,
    ensures
        decode_lines(lines) == decode_lines(lines.subrange(0, k)),
    decreases lines.len(),
{
    if k == lines.len() {
        assert(lines.subrange(0, k) =~= lines);
    } else {
        assert(lines.drop_last().subrange(0, k) =~= lines.subrange(0, k));
        lemma_decode_error_stays(lines.drop_last(), k);
    }
}

/// A line is blank: its code holds no keyword.
pub open spec fn is_blank(line: Seq<u8>) -> bool {
    line_counts(line) == (0nat, 0nat)
}

/// The first line that is not blank decides the header: where the lines from
/// `from` up to `at` are blank and line `at` is not, the header is what line
/// `at` is taken for.
pub proof fn lemma_header_decided(lines: Seq<Seq<u8>>, from: int, at: int)
    requires
        0 <= from <= at < lines.len(),
        forall|j: int| from <= j < at ==> is_blank(#[trigger] lines[j]),
        !is_blank(lines[at]),
    ensures
        header_from(lines, from) == match header_line(lines[at]) {
            Ok(counts) => Ok((counts.0, (at + 1) as nat)),
            Err(e) => Err(e),
        },
    decreases at - from,
{
    if from < at {
        assert(is_blank(lines[from]));
        lemma_header_decided(lines, from + 1, at);
    }
}

/// Blank lines, then a line of `k` ducks followed by exactly one goose: the
/// slot count is `k`, and the body starts behind that line.
pub proof fn lemma_header_gives_duck_count(lines: Seq<Seq<u8>>, at: int)
    requires
        0 <= at < lines.len(),
        forall|j: int| 0 <= j < at ==> is_blank(#[trigger] lines[j]),
        line_counts(lines[at]).1 == 1,
        !duck_after_goose(code_part(lines[at])),
    ensures
        header(lines) == Ok::<(nat, nat), ParseError>(
            (line_counts(lines[at]).0, (at + 1) as nat),
        ),
{
    lemma_header_decided(lines, 0, at);
}

/// Blank lines, then a line with one goose and a duck behind it: the header
/// is refused with `MarkerOrderError`, however many ducks stand before the
/// goose and however many behind it.
pub proof fn lemma_header_duck_after_goose(lines: Seq<Seq<u8>>, at: int)
    requires
        0 <= at < lines.len(),
        forall|j: int| 0 <= j < at ==> is_blank(#[trigger] lines[j]),
        line_counts(lines[at]).1 == 1,
        duck_after_goose(code_part(lines[at])),
    ensures
        header(lines) == Err::<(nat, nat), ParseError>(ParseError::MarkerOrderError),
{
    lemma_header_decided(lines, 0, at);
}

/// Blank lines, then a line with two geese or more: the header is refused
/// with `MultipleMarkersError`, whatever the number of ducks.
pub proof fn lemma_header_two_geese(lines: Seq<Seq<u8>>, at: int)
    requires
        0 <= at < lines.len(),
        forall|j: int| 0 <= j < at ==> is_blank(#[trigger] lines[j]),
        line_counts(lines[at]).1 > 1,
    ensures
        header(lines) == Err::<(nat, nat), ParseError>(ParseError::MultipleMarkersError),
{
    lemma_header_decided(lines, 0, at);
}

/// Blank lines, then a line with ducks and no goose: the header is refused
/// with `MissingHeaderMarkerError`.
pub proof fn lemma_header_missing_goose(lines: Seq<Seq<u8>>, at: int)
    requires
        0 <= at < lines.len(),
        forall|j: int| 0 <= j < at ==> is_blank(#[trigger] lines[j]),
        line_counts(lines[at]).1 == 0,
        line_counts(lines[at]).0 > 0,
    ensures
        header(lines) == Err::<(nat, nat), ParseError>(ParseError::MissingHeaderMarkerError),
{
    lemma_header_decided(lines, 0, at);
}

/// Where every line from `from` on is blank, the lines run out before a
/// header is found.
pub proof fn lemma_header_not_found(lines: Seq<Seq<u8>>, from: int)
    requires
        0 <= from,
        forall|j: int| from <= j < lines.len() ==> is_blank(#[trigger] lines[j]),
    ensures
        header_from(lines, from) == Err::<(nat, nat), ParseError>(
            ParseError::UnexpectedEndOfInputError,
        ),
    decreases lines.len() - from,
{
    if from < lines.len() {
        assert(is_blank(lines[from]));
        lemma_header_not_found(lines, from + 1);
    }
}

/// The opcode takes two operands and is not a loop instruction.
pub open spec fn is_binary_opcode(op_code: nat) -> bool {
    2 <= op_code <= 5 || op_code == 11
}

/// Two operand lines and then the line of an opcode with two operands: the
/// operand of the first line becomes `n`, that of the second line, the one
/// put on the stack last, becomes `y`. The same holds of the start of a loop.
pub proof fn lemma_binary_operand_order(
    state: DecodeState,
    first: Seq<u8>,
    second: Seq<u8>,
    opcode_line: Seq<u8>,
)
    requires
        line_counts(first).1 == 0,
        line_counts(second).1 == 0,
        line_counts(opcode_line).1 == 1,
        !duck_after_goose(code_part(opcode_line)),
        is_binary_opcode(line_counts(opcode_line).0) || line_counts(opcode_line).0 == 9,
    ensures
        decode_line(state, first) is Ok,
        decode_line(decode_line(state, first)->Ok_0, second) is Ok,
        decode_line(
            decode_line(decode_line(state, first)->Ok_0, second)->Ok_0,
            opcode_line,
        ) == Ok::<DecodeState, ParseError>(
            DecodeState {
                stack: Seq::empty(),
                program: state.program.push(
                    DuckInstruction {
                        op_code: line_counts(opcode_line).0 as usize,
                        n: line_counts(first).0 as usize,
                        y: line_counts(second).0 as usize,
                        arg_c: 2,
                    },
                ),
            },
        ),
{
}

/// The instruction `End`, as the decoder gives it.
pub open spec fn end_inst() -> DuckInstruction {
    DuckInstruction { op_code: 0, n: 0, y: 0, arg_c: 0 }
}

/// A line with one goose and no duck is decoded as `End`, whatever waits on
/// the stack.
pub proof fn lemma_goose_line_is_end(state: DecodeState, line: Seq<u8>)
    requires
        line_counts(line) == (0nat, 1nat),
    ensures
        decode_line(state, line) == Ok::<DecodeState, ParseError>(
            DecodeState { stack: Seq::empty(), program: state.program.push(end_inst()) },
        ),
{
    lemma_keyword_bytes();
    lemma_count_matches(code_part(line), duck());
    assert(!duck_after_goose(code_part(line))) by {
        if duck_after_goose(code_part(line)) {
            let (d, g) = choose|d: int, g: int|
                matches_at(code_part(line), duck(), d) && is_first_match(
                    code_part(line),
                    goose(),
                    g,
                ) && g < d;
            assert(has_match(code_part(line), duck()));
        }
    }
}

/// A program whose last instruction is not `End` is refused, and so is an
/// empty one; with `End` put behind it, any program passes.
pub proof fn lemma_end_terminates(program: Seq<DuckInstruction>)
    ensures
        program.len() == 0 || !program.last().is_end() ==> validate(program) == Err::<
            (),
            ParseError,
        >(ParseError::UnterminatedProgramError),
        validate(program.push(end_inst())) is Ok,
{
}

/// Lines put behind a header that was found do not change it.
pub proof fn lemma_header_unchanged_by_more_lines(
    lines: Seq<Seq<u8>>,
    more: Seq<Seq<u8>>,
    from: int,
)
    requires
        0 <= from,
        header_from(lines, from) is Ok,
    ensures
        header_from(lines + more, from) == header_from(lines, from),
        header_from(lines, from)->Ok_0.1 <= lines.len(),
    decreases lines.len() - from,
{
    if from < lines.len() {
        assert((lines + more)[from] == lines[from]);
        if header_line(lines[from]) matches Ok(counts) && counts.1 == 0 {
            lemma_header_unchanged_by_more_lines(lines, more, from + 1);
        }
    }
}

/// Where the header of a source is found and its body is decoded, the source
/// with one more line, of one goose and no duck, is a program: the
/// instructions of the body and then `End`.
pub proof fn lemma_goose_line_completes(lines: Seq<Seq<u8>>, last: Seq<u8>)
    requires
        header(lines) is Ok,
        decode_lines(lines.subrange(header(lines)->Ok_0.1 as int, lines.len() as int)) is Ok,
        line_counts(last) == (0nat, 1nat),
    ensures
        parse(lines.push(last)) == Ok::<(nat, Seq<DuckInstruction>), ParseError>(
            (
                header(lines)->Ok_0.0,
                decode_lines(
                    lines.subrange(header(lines)->Ok_0.1 as int, lines.len() as int),
                )->Ok_0.program.push(end_inst()),
            ),
        ),
{
    let first = header(lines)->Ok_0.1 as int;
    let body = lines.subrange(first, lines.len() as int);
    let longer = lines.push(last);
    lemma_header_unchanged_by_more_lines(lines, seq![last], 0);
    assert(lines + seq![last] =~= longer);
    let longer_body = longer.subrange(first, longer.len() as int);
    assert(longer_body.drop_last() =~= body);
    assert(longer_body.last() == last);
    lemma_goose_line_is_end(decode_lines(body)->Ok_0, last);
}

/// The name of each kind of instruction.
pub open spec fn op_name(op_code: nat) -> Seq<char> {
    match InstructionEnum::of_code(op_code as int) {
        Some(InstructionEnum::End) => "End"@,
        Some(InstructionEnum::Print) => "Print"@,
        Some(InstructionEnum::Add) => "Add"@,
        Some(InstructionEnum::Subtract) => "Subtract"@,
        Some(InstructionEnum::Multiply) => "Multiply"@,
        Some(InstructionEnum::Divide) => "Divide"@,
        Some(InstructionEnum::Input) => "Input"@,
        Some(InstructionEnum::Push) => "Push"@,
        Some(InstructionEnum::Pop) => "Pop"@,
        Some(InstructionEnum::LoopBegin) => "LoopBegin"@,
        Some(InstructionEnum::LoopEnd) => "LoopEnd"@,
        Some(InstructionEnum::SetValue) => "Set"@,
        None => Seq::empty(),
    }
}

/// The name of the instruction with the given opcode.
pub fn get_op_name(op_code: usize) -> (name: String)
    requires
        op_code <= 11,
    ensures
        name@ == op_name(op_code as nat),
{
    match InstructionEnum::from_code(op_code) {
        Some(InstructionEnum::End) => String::from_str("End"),
        Some(InstructionEnum::Print) => String::from_str("Print"),
        Some(InstructionEnum::Add) => String::from_str("Add"),
        Some(InstructionEnum::Subtract) => String::from_str("Subtract"),
        Some(InstructionEnum::Multiply) => String::from_str("Multiply"),
        Some(InstructionEnum::Divide) => String::from_str("Divide"),
        Some(InstructionEnum::Input) => String::from_str("Input"),
        Some(InstructionEnum::Push) => String::from_str("Push"),
        Some(InstructionEnum::Pop) => String::from_str("Pop"),
        Some(InstructionEnum::LoopBegin) => String::from_str("LoopBegin"),
        Some(InstructionEnum::LoopEnd) => String::from_str("LoopEnd"),
        Some(InstructionEnum::SetValue) => String::from_str("Set"),
        None => String::new(),
    }
}

} // verus!
