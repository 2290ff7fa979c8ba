//! A verified assembler for the Hack machine language.
//!
//! The pipeline turns source text into 16-bit machine words in three stages:
//! a parser that classifies each whitespace-delimited word into an
//! instruction, a symbol table that resolves names to addresses, and a code
//! generator that packs each non-label instruction into one opcode. The
//! caller is responsible for all file access and error display; `assemble`
//! is a pure function from source text to output text or error reports.
pub mod codegen;
pub mod instr;
pub mod mnemonics;
pub mod parser;
pub mod symbols;
pub mod text;

use vstd::prelude::*;
use vstd::string::StringExecFns;

verus! {

/// The message returned when a program holds more instructions than the
/// assembler's 16-bit addresses can count through.
pub open spec fn capacity_err() -> Seq<char> {
    "error: program too large for the 16-bit address space"@
}

/// The machine-code text of `source`: what assembly yields when there are
/// no parse errors and the program fits.
pub open spec fn assembled_text(source: Seq<char>) -> Seq<char> {
    codegen::opcodes_text(codegen::generated_opcodes(parser::parsed_instrs(source)))
}

/// Assemble a whole source text: parse every word, and either return the
/// full ordered list of error reports, or register the labels, encode every
/// non-label instruction, and render the opcodes as 16-digit binary lines.
/// A program too large for the 16-bit address space is reported as an error
/// rather than wrapped around.
pub fn assemble(source: &str) -> (r: Result<String, Vec<String>>)
    ensures
        parser::parse_errors(source@).len() != 0 ==> (match r {
            Ok(_) => false,
            Err(es) => es.deep_view() == parser::parse_errors(source@),
        }),
        (parser::parse_errors(source@).len() == 0 && parser::parsed_instrs(source@).len() > 0xFFEF)
            ==> (match r {
            Ok(_) => false,
            Err(es) => es.deep_view() == seq![capacity_err()],
        }),
        (parser::parse_errors(source@).len() == 0 && parser::parsed_instrs(source@).len()
            <= 0xFFEF) ==> (match r {
            Ok(text) => text@ == assembled_text(source@),
            Err(_) => false,
        }),
{
    let instructions = match parser::parse_asm(source) {
        Ok(ins) => ins,
        Err(errs) => {
            return Err(errs);
        },
    };
    if instructions.len() > 0xFFEF {
        let mut errs: Vec<String> = Vec::new();
        errs.push(String::from_str("error: program too large for the 16-bit address space"));
        proof {
            assert(errs.deep_view() =~= seq![capacity_err()]);
        }
        return Err(errs);
    }
    let opcodes = codegen::codegen_instructions(instructions);
    Ok(codegen::opcodes_to_string(opcodes.as_slice()))
}

} // verus!

