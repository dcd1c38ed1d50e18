//! Geometry statements.

pub mod entity;
pub mod format_writer;
pub mod read_lexer;
pub mod laws;
