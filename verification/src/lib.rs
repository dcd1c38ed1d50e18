//! A two-way text codec for Wavefront geometry (`.obj`) and material (`.mtl`)
//! statements: one line of text becomes one typed entity, and one entity
//! becomes one line of text. Both directions are specified over sequences of
//! characters, and lexing is proved to undo writing.

pub mod error;
pub mod fields;
pub mod integer;
pub mod mtl;
pub mod number;
pub mod obj;
pub mod prefix;
pub mod text;
