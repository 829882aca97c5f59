//! An expression front end for a small dynamically typed language: a scanner
//! that turns source text into tokens, a recursive-descent parser that builds
//! one expression tree from them, and a tree-walking evaluator.

pub mod evaluate;
pub mod expr;
pub mod front;
pub mod parser;
pub mod primitives;
pub mod scan;
pub mod status;
pub mod text;
pub mod token;
