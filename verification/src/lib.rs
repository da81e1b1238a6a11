//! A verified 8086 instruction decoder, disassembler, and execution engine.
//!
//! The crate decodes raw 8086 machine code (a small subset: MOV, ADD, SUB,
//! CMP, the 16 single-byte conditional jumps, the 4 loop-family instructions,
//! and HLT) into structured instruction values, renders those back into
//! assembler text, and simulates execution against a small machine model
//! (registers, flags, a 64 KiB flat memory) while estimating cycle cost.

pub mod bits;
pub mod inst;
pub mod decode;
pub mod encode;
pub mod roundtrip;
pub mod machine;
pub mod text;
