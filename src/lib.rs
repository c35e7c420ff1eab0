//! Build-and-execute core of a small imperative scripting language: the value
//! model, the function registry, the scope resolver, the builder that turns the
//! syntax tree into an executable tree, and the tree-walking evaluator.

pub mod ast;
pub mod comment_stripper;
pub mod exec_tree;
pub mod file_data;
pub mod lexer;
