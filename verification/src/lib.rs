//! A compiler for a language of two keywords: a line of a source program
//! means something only through how many times `duck` and `goose` stand on
//! it. The lines are decoded into a slot count and a list of instructions,
//! and the instructions are lowered to x86-64 assembly text.
//!
//! * [`scan`] finds and counts keywords in the bytes of a line.
//! * [`parse`] turns the lines of a source into a slot count and a list of
//!   instructions ([`instruction`]), or says why it cannot ([`error`]).
//! * [`x86_64_gen`] lays down, for each instruction, the lines of assembly
//!   ([`listing`]) that stand for it, and writes them out as text.
//! * [`slots`] says what each instruction does to the slots of a running
//!   program, [`machine`] what each line of assembly does to a processor,
//!   and [`refinement`] shows that the two agree.
//! * [`rotation`] works out the places of slots ahead of time, for a program
//!   that is to find them without a cursor.
//! * [`file_name`] finds the name of a source file in its path, and
//!   [`decimal`] writes numbers.

pub mod decimal;
pub mod error;
pub mod file_name;
pub mod instruction;
pub mod listing;
pub mod machine;
pub mod parse;
pub mod refinement;
pub mod rotation;
pub mod scan;
pub mod slots;
pub mod x86_64_gen;
