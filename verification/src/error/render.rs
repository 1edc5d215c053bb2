//! Errors found while rendering a template.
use vstd::prelude::*;
use crate::error::helper::{HelperError, HelperErrorView};

verus! {

/// Why a template could not be rendered.
#[derive(Debug, PartialEq, Eq)]
pub enum RenderError {
    /// No template is registered under that name.
    TemplateNotFound(String),
    /// The target of a partial at that byte offset gives no name.
    PartialNameResolve(usize),
    /// No template is registered under the name of a partial.
    PartialNotFound(String),
    /// Partials are nested deeper than the engine follows them.
    PartialDepth,
    /// A path at that byte offset asks for more parent scopes than there are.
    ScopeDepth(usize),
    /// A local variable at that byte offset is not set in any scope.
    LocalNotFound(usize),
    /// A helper failed.
    Helper(HelperError),
    /// What was rendered is not UTF-8 text.
    Utf8,
}

/// The value of a [`RenderError`].
pub ghost enum RenderErrorView {
    TemplateNotFound(Seq<char>),
    PartialNameResolve(usize),
    PartialNotFound(Seq<char>),
    PartialDepth,
    ScopeDepth(usize),
    LocalNotFound(usize),
    Helper(HelperErrorView),
    Utf8,
}

impl View for RenderError {
    type V = RenderErrorView;

    open spec fn view(&self) -> RenderErrorView {
        match *self {
            RenderError::TemplateNotFound(n) => RenderErrorView::TemplateNotFound(n@),
            RenderError::PartialNameResolve(at) => RenderErrorView::PartialNameResolve(at),
            RenderError::PartialNotFound(n) => RenderErrorView::PartialNotFound(n@),
            RenderError::PartialDepth => RenderErrorView::PartialDepth,
            RenderError::ScopeDepth(at) => RenderErrorView::ScopeDepth(at),
            RenderError::LocalNotFound(at) => RenderErrorView::LocalNotFound(at),
            RenderError::Helper(e) => RenderErrorView::Helper(e@),
            RenderError::Utf8 => RenderErrorView::Utf8,
        }
    }
}

} // verus!
