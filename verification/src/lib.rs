//! A two-stage assembler and linker for the 65C02 instruction set.
//!
//! Source text is tokenized and parsed into statements grouped by section,
//! the code of each section is generated with its pending relocations,
//! and the sections are linked into one flat memory image.

pub mod text;
pub mod scan;
pub mod symtab;
pub mod mnemonic;
pub mod opcode;
pub mod model;
pub mod diagnostic;
pub mod errors;
pub mod codeblob;
pub mod ldscript;
pub mod sink;
pub mod codegen;
pub mod laws;
pub mod lexer;
pub mod parser;
