//! cpu16: a 16-bit CPU emulator with a two-pass assembler, a direct-mapped
//! write-through L1 data cache and a five-stage in-order pipeline.

pub mod text;
pub mod flags;
pub mod memory;
pub mod cache;
pub mod isa;
pub mod alu;
pub mod cpu;
pub mod pipeline;
pub mod lexer;
pub mod numbers;
pub mod assembler;
