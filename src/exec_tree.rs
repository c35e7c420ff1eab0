//! The executable tree: building it from the syntax tree and running it.

pub mod base;
pub mod building;
pub mod error;
pub mod expressions;
pub mod laws;
pub mod main;
pub mod resolution;
pub mod semantics;
pub mod statements;
