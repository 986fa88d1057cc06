//! A verified lexer for the Squirrel scripting language.
pub mod text;
pub mod smol;
pub mod token;
pub mod spec;
pub mod lexer;
pub mod laws;
pub mod lexical_laws;
