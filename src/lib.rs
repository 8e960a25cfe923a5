//! An interpreter core for a small S-expression language: a recursive-descent
//! parser from text to expression trees, and an evaluator that folds one
//! arithmetic operator over a list.
pub mod chars;
pub mod sexpr;
pub mod parser;
pub mod evaluator;
pub mod render;
pub mod laws;
