//! A small compiler backend.
//!
//! Functions over 32-bit integers are built as basic blocks of instructions
//! ([`builder`]), checked as a whole ([`finish`], [`dominance`]), and handed
//! to LLVM ([`lower`], [`backend`]) for their text, for native code as bytes,
//! or for native code in the running process ([`gateway`]), on the machine
//! that [`target`] describes. [`programs`] builds the sum of three integers
//! and the Fibonacci function. [`semantics`] says what a function computes,
//! [`meaning`] what those programs compute, [`safety`] that a checked
//! function cannot go wrong, and [`laws`] what holds of every module.

pub mod backend;
pub mod builder;
pub mod dominance;
pub mod finish;
pub mod gateway;
pub mod ir;
pub mod laws;
pub mod lower;
pub mod meaning;
pub mod programs;
pub mod safety;
pub mod semantics;
pub mod target;
pub mod types;
