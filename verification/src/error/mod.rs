//! The errors of compiling and of rendering.
pub mod helper;
pub mod message;
pub mod render;
pub mod syntax;

pub use helper::HelperError;
pub use render::RenderError;
pub use syntax::{ErrorInfo, ErrorKind, Note, SourcePos, SyntaxError, SyntaxErrorView};
