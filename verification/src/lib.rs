//! A small register-based virtual machine and the assembler that produces its bytecode.

pub mod assembler;
pub mod instruction;
pub mod repl;
pub mod roundtrip;
pub mod vm;
