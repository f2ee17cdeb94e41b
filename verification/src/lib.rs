//! ARMx64: an AArch64 to x86-64 dynamic translation engine.
//!
//! Guest code is lifted from raw instruction words into a small typed IR,
//! optimized, and lowered to x86-64 machine code bytes.

pub mod arch;
pub mod codegen;
pub mod elf;
pub mod ir;
pub mod jit;
pub mod lift;
pub mod runtime;

