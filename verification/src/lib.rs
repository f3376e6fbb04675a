//! Argen: turns a declarative description of a command-line interface into C
//! source code that parses arguments with a getopt-style loop.
//!
//! The core of the crate is `codegen`: the in-memory model of an argument
//! specification, its validation, the allocation of unique dispatch selector
//! bytes for long options, and the emission of the generated C text.
#![verifier::loop_isolation(false)]

pub mod args;
pub mod codegen;
pub mod ident;
pub mod item;
pub mod laws;
pub mod selector;
pub mod text;
