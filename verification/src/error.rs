//! The ways in which a source program can be rejected.

use vstd::prelude::*;
use vstd::string::*;

verus! {

/// Why a source program was rejected. The first four arise while looking for
/// the header line or checking a line that holds a goose, the next two while
/// decoding an opcode line, the last one once every line has been decoded.
#[derive(Clone, Copy, Debug, PartialEq, Eq, Structural)]
pub enum ParseError {
    /// A line before the header holds ducks but no goose.
    MissingHeaderMarkerError,
    /// A line holds more than one goose.
    MultipleMarkersError,
    /// A duck stands behind the goose of its line.
    MarkerOrderError,
    /// The lines ran out before a header line was found.
    UnexpectedEndOfInputError,
    /// An opcode line holds more ducks than there are opcodes.
    UnknownOpcodeError,
    /// An opcode found fewer operands waiting than it takes.
    ArityError,
    /// The program is empty or its last instruction is not `End`.
    UnterminatedProgramError,
}

impl ParseError {
    /// The text of the message for this error.
    pub open spec fn message_text(self) -> Seq<char> {
        match self {
            ParseError::MissingHeaderMarkerError => "Missing goose!"@,
            ParseError::MultipleMarkersError => "There can only be one goose!"@,
            ParseError::MarkerOrderError => "Duck after goose!"@,
            ParseError::UnexpectedEndOfInputError => "Input ended before the header line!"@,
            ParseError::UnknownOpcodeError => "Unhandled instruction code!"@,
            ParseError::ArityError => "Mismatched argument count!"@,
            ParseError::UnterminatedProgramError => "Program does not end with goose!"@,
        }
    }

    /// A one-line message for the person who wrote the program.
    pub fn message(&self) -> (text: String)
        ensures
            text@ == self.message_text(),
    {
        match self {
            ParseError::MissingHeaderMarkerError => String::from_str("Missing goose!"),
            ParseError::MultipleMarkersError => String::from_str("There can only be one goose!"),
            ParseError::MarkerOrderError => String::from_str("Duck after goose!"),
            ParseError::UnexpectedEndOfInputError => String::from_str(
                "Input ended before the header line!",
            ),
            ParseError::UnknownOpcodeError => String::from_str("Unhandled instruction code!"),
            ParseError::ArityError => String::from_str("Mismatched argument count!"),
            ParseError::UnterminatedProgramError => String::from_str(
                "Program does not end with goose!",
            ),
        }
    }
}

} // verus!
