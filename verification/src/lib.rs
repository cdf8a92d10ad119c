//! A miniature 32-bit x86 assembler with templated code generation.
//!
//! The pipeline has three stages: a parser that turns a flat token
//! sequence into instructions (`asm_parse`), an encoder that turns each
//! instruction into exact opcode bytes and reports the offset of any
//! patchable 32-bit slot (`asm_x86`), and a code buffer that concatenates
//! the encoded instructions and overwrites the recorded slots with fresh
//! little-endian values on demand (`asm_function`).

pub mod asm_function;
pub mod asm_parse;
pub mod asm_x86;
