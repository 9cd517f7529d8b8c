use gdd::error::ParseError;
use gdd::instruction::InstructionEnum;

#[test]
fn opcodes_run_from_0_to_11() {
    let kinds = [
        InstructionEnum::End,
        InstructionEnum::Print,
        InstructionEnum::Add,
        InstructionEnum::Subtract,
        InstructionEnum::Multiply,
        InstructionEnum::Divide,
        InstructionEnum::Input,
        InstructionEnum::Push,
        InstructionEnum::Pop,
        InstructionEnum::LoopBegin,
        InstructionEnum::LoopEnd,
        InstructionEnum::SetValue,
    ];
    for (code, kind) in kinds.iter().enumerate() {
        assert_eq!(kind.code(), code);
        assert_eq!(InstructionEnum::from_code(code), Some(*kind));
    }
}

#[test]
fn numbers_above_11_are_no_opcodes() {
    assert_eq!(InstructionEnum::from_code(12), None);
    assert_eq!(InstructionEnum::from_code(100), None);
    assert_eq!(InstructionEnum::from_code(usize::MAX), None);
}

#[test]
fn arity_of_each_kind() {
    assert_eq!(InstructionEnum::End.arity(), 0);
    assert_eq!(InstructionEnum::Print.arity(), 1);
    assert_eq!(InstructionEnum::Input.arity(), 1);
    assert_eq!(InstructionEnum::Push.arity(), 1);
    assert_eq!(InstructionEnum::Pop.arity(), 1);
    assert_eq!(InstructionEnum::Add.arity(), 2);
    assert_eq!(InstructionEnum::Subtract.arity(), 2);
    assert_eq!(InstructionEnum::Multiply.arity(), 2);
    assert_eq!(InstructionEnum::Divide.arity(), 2);
    assert_eq!(InstructionEnum::LoopBegin.arity(), 2);
    assert_eq!(InstructionEnum::LoopEnd.arity(), 2);
    assert_eq!(InstructionEnum::SetValue.arity(), 2);
}

#[test]
fn every_error_has_its_message() {
    assert_eq!(ParseError::MissingHeaderMarkerError.message(), "Missing goose!");
    assert_eq!(ParseError::MultipleMarkersError.message(), "There can only be one goose!");
    assert_eq!(ParseError::MarkerOrderError.message(), "Duck after goose!");
    assert_eq!(
        ParseError::UnexpectedEndOfInputError.message(),
        "Input ended before the header line!"
    );
    assert_eq!(ParseError::UnknownOpcodeError.message(), "Unhandled instruction code!");
    assert_eq!(ParseError::ArityError.message(), "Mismatched argument count!");
    assert_eq!(
        ParseError::UnterminatedProgramError.message(),
        "Program does not end with goose!"
    );
}
