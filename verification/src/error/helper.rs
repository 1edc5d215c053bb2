//! Errors that a helper raises.
use vstd::prelude::*;

verus! {

/// How a helper was misused. Each error names the helper.
#[derive(Debug, PartialEq, Eq)]
pub enum HelperError {
    /// The helper takes exactly that many arguments.
    ArityExact(String, usize),
    /// The helper takes a number of arguments within that range.
    ArityRange(String, usize, usize),
    /// The argument at that index must be a string.
    ArgumentTypeString(String, usize),
    /// The argument at that index must be a number.
    ArgumentTypeNumber(String, usize),
    /// The argument at that index must be a boolean.
    ArgumentTypeBool(String, usize),
    /// The argument at that index must be an array.
    ArgumentTypeArray(String, usize),
    /// The argument at that index must be an object.
    ArgumentTypeObject(String, usize),
    /// What the helper has to say.
    Message(String),
}

/// The value of a [`HelperError`].
pub ghost enum HelperErrorView {
    ArityExact(Seq<char>, usize),
    ArityRange(Seq<char>, usize, usize),
    ArgumentTypeString(Seq<char>, usize),
    ArgumentTypeNumber(Seq<char>, usize),
    ArgumentTypeBool(Seq<char>, usize),
    ArgumentTypeArray(Seq<char>, usize),
    ArgumentTypeObject(Seq<char>, usize),
    Message(Seq<char>),
}

impl View for HelperError {
    type V = HelperErrorView;

    open spec fn view(&self) -> HelperErrorView {
        match *self {
            HelperError::ArityExact(n, a) => HelperErrorView::ArityExact(n@, a),
            HelperError::ArityRange(n, a, b) => HelperErrorView::ArityRange(n@, a, b),
            HelperError::ArgumentTypeString(n, i) => HelperErrorView::ArgumentTypeString(n@, i),
            HelperError::ArgumentTypeNumber(n, i) => HelperErrorView::ArgumentTypeNumber(n@, i),
            HelperError::ArgumentTypeBool(n, i) => HelperErrorView::ArgumentTypeBool(n@, i),
            HelperError::ArgumentTypeArray(n, i) => HelperErrorView::ArgumentTypeArray(n@, i),
            HelperError::ArgumentTypeObject(n, i) => HelperErrorView::ArgumentTypeObject(n@, i),
            HelperError::Message(m) => HelperErrorView::Message(m@),
        }
    }
}

} // verus!
