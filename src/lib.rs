use vstd::prelude::*;

pub mod assembler;
pub mod code;
pub mod error;
pub mod parser;
pub mod symbol_table;

verus! {

/// What the assembler is asked to translate: the path of a source file.
pub struct Arg {
    pub file: String,
}

} // verus!
