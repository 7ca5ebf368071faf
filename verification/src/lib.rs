//! Native code-generation backend for a small ahead-of-time compiler
//! targeting 64-bit x86 under the System V calling convention.
//!
//! The crate covers the register/operand model, the instruction-and-segment
//! emission buffer, the compiler context that tracks scopes and symbols, the
//! per-function compilation protocol, and the deferred emission of built-in
//! runtime routines.

#![allow(non_snake_case)]

pub mod bif;
pub mod codegen;
pub mod compiler;
pub mod driver;
pub mod program;
pub mod text;
