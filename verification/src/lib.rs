//! A single-pass compiler and a stack machine for a small scripting language.
//!
//! The pipeline is `Scanner` (text to tokens), `Parser` (tokens to
//! instructions, gathered in a `Chunk`) and `VM` (instructions to effects).
//! Every phase is specified by a function on a mathematical model and proved
//! to compute it.
//!
//! Numbers are IEEE 754 binary64 values. The library holds them by their bit
//! patterns and decides their order and equality, but it neither converts
//! numerals nor computes sums, differences, products and quotients: the
//! scanner yields numerals as they are written, and the machine stops where
//! arithmetic on two numbers or output is due.

pub mod value;
pub mod op;
pub mod chunk;
pub mod token;
pub mod symtable;
pub mod scanner;
pub mod rules;
pub mod grammar;
pub mod soundness;
pub mod parser;
pub mod vm;
