//! Material statements.

pub mod entity;
pub mod laws;
pub mod lexer;
pub mod writer;
