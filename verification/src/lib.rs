//! A small register-based virtual machine and the assembler that feeds it.

pub mod assembler;
pub mod hex;
pub mod instruction;
pub mod repl;
pub mod vm;
