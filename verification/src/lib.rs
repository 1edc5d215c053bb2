//! A template engine in the Handlebars family: templates are lexed, parsed into
//! a tree over byte spans of the source, and rendered against JSON-like data.
pub mod text;
pub mod json;
pub mod lexer;
pub mod parser;
pub mod error;
pub mod outside;
pub mod escape;
pub mod render;
pub mod table;
pub mod helper;
pub mod template;
pub mod registry;
