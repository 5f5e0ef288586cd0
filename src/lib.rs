//! A compiler from brainfuck source text to x86-64 NASM assembly text.
//!
//! The parser turns source characters into a flat [`Program`] whose loop
//! instructions carry resolved jump targets; the code generator turns a
//! program into assembly text over a fixed-size tape and one data pointer.
use vstd::prelude::*;

pub mod instruction;
pub mod parser;
pub mod codegen;
pub mod laws;
pub mod path;

pub use instruction::{Instruction, Program};
pub use parser::{ParseError, parse};
pub use codegen::{TAPE_SIZE, generate};
pub use path::asm_path;

verus! {

/// Parses `source` and, where it forms a program, generates its assembly
/// text; a parse error is handed back as it is.
pub fn compile(source: &str) -> (r: Result<String, ParseError>)
    ensures
        match parser::parse_spec(source@) {
            Ok(p) => r matches Ok(t) && t@ == codegen::asm_text(p),
            Err(e) => r == Err::<String, ParseError>(e),
        },
{
    match parse(source) {
        Ok(program) => Ok(generate(&program)),
        Err(e) => Err(e),
    }
}

} // verus!
