//! What a helper is called with.
use vstd::prelude::*;
use std::ops::Range;
use crate::error::helper::{HelperError, HelperErrorView};
use crate::json::{entry_views, views, Json, JsonView};

verus! {

/// The call of a helper: the name it was called by, its arguments and its
/// named parameters, each with the value it had when the call was made.
/// The named parameters stand in the order written; the grammar gives each
/// of them a name of its own.
#[derive(Debug, PartialEq, Eq)]
pub struct Context {
    pub name: String,
    pub arguments: Vec<Json>,
    pub hash: Vec<(String, Json)>,
}

/// The value of a [`Context`].
pub ghost struct ContextView {
    pub name: Seq<char>,
    pub arguments: Seq<JsonView>,
    pub hash: Seq<(Seq<char>, JsonView)>,
}

impl View for Context {
    type V = ContextView;

    open spec fn view(&self) -> ContextView {
        ContextView {
            name: self.name@,
            arguments: views(self.arguments@),
            hash: entry_views(self.hash@),
        }
    }
}

/// What is wrong with the number of arguments of a call, if anything. A
/// range that starts where it ends asks for exactly that many arguments;
/// any other range asks for at least its start and at most its end.
pub open spec fn arity_error(ctx: ContextView, start: usize, end: usize) -> Option<HelperErrorView> {
    let n = ctx.arguments.len();
    if start == end {
        if n != start {
            Some(HelperErrorView::ArityExact(ctx.name, start))
        } else {
            None
        }
    } else if n < start || n > end {
        Some(HelperErrorView::ArityRange(ctx.name, start, end))
    } else {
        None
    }
}

/// The kinds of value that a helper may ask an argument to be.
#[derive(Clone, Copy, Debug, PartialEq, Eq, Structural)]
pub enum Kind {
    String,
    Number,
    Bool,
    Array,
    Object,
}

/// Whether a value is of a kind.
pub open spec fn is_kind(v: JsonView, kind: Kind) -> bool {
    match kind {
        Kind::String => v is String,
        Kind::Number => v is Number,
        Kind::Bool => v is Bool,
        Kind::Array => v is Array,
        Kind::Object => v is Object,
    }
}

/// The error for an argument that is not of the kind that is asked for.
pub open spec fn kind_error(name: Seq<char>, index: usize, kind: Kind) -> HelperErrorView {
    match kind {
        Kind::String => HelperErrorView::ArgumentTypeString(name, index),
        Kind::Number => HelperErrorView::ArgumentTypeNumber(name, index),
        Kind::Bool => HelperErrorView::ArgumentTypeBool(name, index),
        Kind::Array => HelperErrorView::ArgumentTypeArray(name, index),
        Kind::Object => HelperErrorView::ArgumentTypeObject(name, index),
    }
}

/// The argument at an index, asked to be of a kind: the argument if there
/// is one and it is of the kind, and else the error that names the
/// helper, the index and the kind.
pub open spec fn argument_of(ctx: ContextView, index: usize, kind: Kind) -> Result<
    JsonView,
    HelperErrorView,
> {
    if index < ctx.arguments.len() && is_kind(ctx.arguments[index as int], kind) {
        Ok(ctx.arguments[index as int])
    } else {
        Err(kind_error(ctx.name, index, kind))
    }
}

impl Context {
    pub fn new(name: String, arguments: Vec<Json>, hash: Vec<(String, Json)>) -> (r: Self)
        ensures
            r.name == name,
            r.arguments == arguments,
            r.hash == hash,
    {
        Context { name, arguments, hash }
    }

    /// The name that the helper was called by.
    pub fn name(&self) -> (r: &str)
        ensures
            r@ == self.name@,
    {
        self.name.as_str()
    }

    pub fn arguments(&self) -> (r: &Vec<Json>)
        ensures
            *r == self.arguments,
    {
        &self.arguments
    }

    pub fn hash(&self) -> (r: &Vec<(String, Json)>)
        ensures
            *r == self.hash,
    {
        &self.hash
    }

    /// Checks the number of arguments against a range.
    pub fn arity(&self, range: Range<usize>) -> (r: Result<(), HelperError>)
        ensures
            match arity_error(self@, range.start, range.end) {
                Some(e) => r matches Err(x) && x@ == e,
                None => r is Ok,
            },
    {
        proof {
            crate::json::lemma_views(self.arguments@);
        }
        if range.start == range.end {
            if self.arguments.len() != range.start {
                return Err(HelperError::ArityExact(self.name.clone(), range.start));
            }
        } else {
            if self.arguments.len() < range.start || self.arguments.len() > range.end {
                return Err(HelperError::ArityRange(self.name.clone(), range.start, range.end));
            }
        }
        Ok(())
    }

    /// Checks that the call has exactly that many arguments.
    pub fn arity_exact(&self, count: usize) -> (r: Result<(), HelperError>)
        ensures
            match arity_error(self@, count, count) {
                Some(e) => r matches Err(x) && x@ == e,
                None => r is Ok,
            },
    {
        self.arity(count..count)
    }

    /// Checks that the call has at least `start` and at most `end`
    /// arguments, or exactly `start` where `start` is `end`.
    pub fn arity_range(&self, start: usize, end: usize) -> (r: Result<(), HelperError>)
        ensures
            match arity_error(self@, start, end) {
                Some(e) => r matches Err(x) && x@ == e,
                None => r is Ok,
            },
    {
        self.arity(start..end)
    }

    /// The argument at an index, which must be of a kind.
    pub fn argument(&self, index: usize, kind: Kind) -> (r: Result<&Json, HelperError>)
        ensures
            match argument_of(self@, index, kind) {
                Ok(v) => r matches Ok(w) && w@ == v && index < self.arguments.len() && *w
                    == self.arguments[index as int],
                Err(e) => r matches Err(x) && x@ == e,
            },
    {
        proof {
            crate::json::lemma_views(self.arguments@);
        }
        if index < self.arguments.len() {
            let v = &self.arguments[index];
            let fits = match kind {
                Kind::String => match v {
                    Json::String(_) => true,
                    _ => false,
                },
                Kind::Number => match v {
                    Json::Number(_) => true,
                    _ => false,
                },
                Kind::Bool => match v {
                    Json::Bool(_) => true,
                    _ => false,
                },
                Kind::Array => match v {
                    Json::Array(_) => true,
                    _ => false,
                },
                Kind::Object => match v {
                    Json::Object(_) => true,
                    _ => false,
                },
            };
            if fits {
                return Ok(v);
            }
        }
        let name = self.name.clone();
        Err(
            match kind {
                Kind::String => HelperError::ArgumentTypeString(name, index),
                Kind::Number => HelperError::ArgumentTypeNumber(name, index),
                Kind::Bool => HelperError::ArgumentTypeBool(name, index),
                Kind::Array => HelperError::ArgumentTypeArray(name, index),
                Kind::Object => HelperError::ArgumentTypeObject(name, index),
            },
        )
    }

    /// The string that is the argument at an index.
    pub fn arg_as_string(&self, index: usize) -> (r: Result<&str, HelperError>)
        ensures
            match argument_of(self@, index, Kind::String) {
                Ok(v) => r matches Ok(s) && v == JsonView::String(s@),
                Err(e) => r matches Err(x) && x@ == e,
            },
    {
        match self.argument(index, Kind::String) {
            Ok(Json::String(s)) => Ok(s.as_str()),
            Ok(_) => Err(HelperError::ArgumentTypeString(self.name.clone(), index)),
            Err(e) => Err(e),
        }
    }

    /// The decimal text of the number that is the argument at an index.
    pub fn arg_as_number(&self, index: usize) -> (r: Result<&str, HelperError>)
        ensures
            match argument_of(self@, index, Kind::Number) {
                Ok(v) => r matches Ok(s) && v == JsonView::Number(s@),
                Err(e) => r matches Err(x) && x@ == e,
            },
    {
        match self.argument(index, Kind::Number) {
            Ok(Json::Number(s)) => Ok(s.as_str()),
            Ok(_) => Err(HelperError::ArgumentTypeNumber(self.name.clone(), index)),
            Err(e) => Err(e),
        }
    }

    /// The boolean that is the argument at an index.
    pub fn arg_as_bool(&self, index: usize) -> (r: Result<bool, HelperError>)
        ensures
            match argument_of(self@, index, Kind::Bool) {
                Ok(v) => r matches Ok(b) && v == JsonView::Bool(b),
                Err(e) => r matches Err(x) && x@ == e,
            },
    {
        match self.argument(index, Kind::Bool) {
            Ok(Json::Bool(b)) => Ok(*b),
            Ok(_) => Err(HelperError::ArgumentTypeBool(self.name.clone(), index)),
            Err(e) => Err(e),
        }
    }

    /// The elements of the array that is the argument at an index.
    pub fn arg_as_array(&self, index: usize) -> (r: Result<&Vec<Json>, HelperError>)
        ensures
            match argument_of(self@, index, Kind::Array) {
                Ok(v) => r matches Ok(items) && v == JsonView::Array(views(items@)),
                Err(e) => r matches Err(x) && x@ == e,
            },
    {
        match self.argument(index, Kind::Array) {
            Ok(Json::Array(items)) => Ok(items),
            Ok(_) => Err(HelperError::ArgumentTypeArray(self.name.clone(), index)),
            Err(e) => Err(e),
        }
    }

    /// The entries of the object that is the argument at an index.
    pub fn arg_as_object(&self, index: usize) -> (r: Result<&Vec<(String, Json)>, HelperError>)
        ensures
            match argument_of(self@, index, Kind::Object) {
                Ok(v) => r matches Ok(entries) && v == JsonView::Object(entry_views(entries@)),
                Err(e) => r matches Err(x) && x@ == e,
            },
    {
        match self.argument(index, Kind::Object) {
            Ok(Json::Object(entries)) => Ok(entries),
            Ok(_) => Err(HelperError::ArgumentTypeObject(self.name.clone(), index)),
            Err(e) => Err(e),
        }
    }
}

} // verus!
