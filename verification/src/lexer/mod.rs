//! The lexer: a single pass over the source that yields tokens with byte
//! spans, switching between an outer mode and the modes inside a tag.
pub mod chars;
pub mod grammar;
pub mod scan;

pub use grammar::{Inner, Mode, Outer, Parameters, Raw, Run, Token};
pub use scan::lex;
