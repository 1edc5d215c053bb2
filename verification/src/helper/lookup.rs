//! The helper `lookup`.
use vstd::prelude::*;
use crate::error::helper::{HelperError, HelperErrorView};
use crate::helper::{Helper, HelperValue};
use crate::json::{field, lemma_views, Json, JsonView};
use crate::render::context::{arity_error, Context, ContextView};
use crate::text::{bytes_of, str_bytes};

verus! {

/// `{{lookup value name}}`: the field or element of `value` that the
/// string `name` names, if there is one.
#[derive(Clone, Copy, Debug)]
pub struct LookupHelper;

impl Helper for LookupHelper {
    open spec fn result(&self, ctx: ContextView) -> Result<Option<JsonView>, HelperErrorView> {
        match arity_error(ctx, 2, 2) {
            Some(e) => Err(e),
            None => match ctx.arguments[1] {
                JsonView::String(name) => Ok(field(ctx.arguments[0], bytes_of(name))),
                _ => Err(HelperErrorView::ArgumentTypeString(ctx.name, 1)),
            },
        }
    }

    fn call(&self, ctx: &Context) -> (r: HelperValue) {
        proof {
            lemma_views(ctx.arguments@);
        }
        match ctx.arity(2..2) {
            Err(e) => Err(e),
            Ok(()) => match &ctx.arguments[1] {
                Json::String(name) => match ctx.arguments[0].field(str_bytes(name.as_str())) {
                    Some(v) => Ok(Some(v.copy())),
                    None => Ok(None),
                },
                _ => Err(HelperError::ArgumentTypeString(ctx.name.clone(), 1)),
            },
        }
    }
}

} // verus!
