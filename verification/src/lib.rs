//! A structured summary of the operations of a program that need an explicit
//! safety annotation: raw-pointer dereferences, foreign calls, inline machine
//! code, accesses to mutable globals, and annotated calls and blocks.
//!
//! The summary mirrors the lexical nesting of the analysed program, is
//! written as one compact JSON record per crate, and can be read back.
//!
//! Every function of this library is verified against its contract. Two
//! facts about the standard library are taken on trust: what `String::push`
//! does, and that a vector of statements is shorter than `usize::MAX`.

pub mod decode;
pub mod driver;
pub mod emitter;
mod grammar;
pub mod json;
pub mod laws;
mod parser;
pub mod provenance;
mod roundtrip;
pub mod summary;
pub mod syntax;
pub mod text;
pub mod unsafe_ast;
