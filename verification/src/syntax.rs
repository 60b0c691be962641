//! Rust source files as the rules see them: a model of the syntax tree, its
//! parsing, and the order in which a syntax visitor meets its nodes.
pub mod model;
pub mod parse;
pub mod visit;
