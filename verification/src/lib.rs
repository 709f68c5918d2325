//! A loader and a small interpreter for class files.
//!
//! The loader turns a byte buffer into a constant pool, a method table and
//! their attributes. The interpreter executes a handful of instructions on a
//! frame made of a local-variable array, an operand stack and a program
//! counter. Every format rule and every instruction is stated as a function
//! on byte sequences, and every executable routine is proved to agree with
//! that statement. No routine panics: whatever is malformed or not
//! implemented comes back as a [`error::DecodeError`].

pub mod attributes;
pub mod classes;
pub mod constants;
pub mod error;
pub mod exceptions;
pub mod interpreter;
pub mod methods;
pub mod reader;
pub mod resolution;
pub mod text;
