//! The helpers `and`, `or` and `not`, which go by truthiness, and `eq` and
//! `ne`, which compare two values.
use vstd::prelude::*;
use crate::error::helper::HelperErrorView;
use crate::helper::{Helper, HelperValue};
use crate::json::{json_eq, lemma_views, truthy, Json, JsonView};
use crate::render::context::{arity_error, Context, ContextView};

verus! {

/// `{{and a b}}`: whether both values are truthy.
#[derive(Clone, Copy, Debug)]
pub struct And;

/// `{{or a b}}`: whether one of the values is truthy.
#[derive(Clone, Copy, Debug)]
pub struct Or;

/// `{{not a}}`: whether the value is falsy.
#[derive(Clone, Copy, Debug)]
pub struct Not;

impl Helper for And {
    open spec fn result(&self, ctx: ContextView) -> Result<Option<JsonView>, HelperErrorView> {
        match arity_error(ctx, 2, 2) {
            Some(e) => Err(e),
            None => Ok(Some(JsonView::Bool(truthy(ctx.arguments[0]) && truthy(ctx.arguments[1])))),
        }
    }

    fn call(&self, ctx: &Context) -> (r: HelperValue) {
        proof {
            lemma_views(ctx.arguments@);
        }
        match ctx.arity(2..2) {
            Err(e) => Err(e),
            Ok(()) => Ok(
                Some(Json::Bool(ctx.arguments[0].is_truthy() && ctx.arguments[1].is_truthy())),
            ),
        }
    }
}

impl Helper for Or {
    open spec fn result(&self, ctx: ContextView) -> Result<Option<JsonView>, HelperErrorView> {
        match arity_error(ctx, 2, 2) {
            Some(e) => Err(e),
            None => Ok(Some(JsonView::Bool(truthy(ctx.arguments[0]) || truthy(ctx.arguments[1])))),
        }
    }

    fn call(&self, ctx: &Context) -> (r: HelperValue) {
        proof {
            lemma_views(ctx.arguments@);
        }
        match ctx.arity(2..2) {
            Err(e) => Err(e),
            Ok(()) => Ok(
                Some(Json::Bool(ctx.arguments[0].is_truthy() || ctx.arguments[1].is_truthy())),
            ),
        }
    }
}

impl Helper for Not {
    open spec fn result(&self, ctx: ContextView) -> Result<Option<JsonView>, HelperErrorView> {
        match arity_error(ctx, 1, 1) {
            Some(e) => Err(e),
            None => Ok(Some(JsonView::Bool(!truthy(ctx.arguments[0])))),
        }
    }

    fn call(&self, ctx: &Context) -> (r: HelperValue) {
        proof {
            lemma_views(ctx.arguments@);
        }
        match ctx.arity(1..1) {
            Err(e) => Err(e),
            Ok(()) => Ok(Some(Json::Bool(!ctx.arguments[0].is_truthy()))),
        }
    }
}

/// `{{eq a b}}`: whether the two values are the same.
#[derive(Clone, Copy, Debug)]
pub struct Equal;

/// `{{ne a b}}`: whether the two values differ.
#[derive(Clone, Copy, Debug)]
pub struct NotEqual;

impl Helper for Equal {
    open spec fn result(&self, ctx: ContextView) -> Result<Option<JsonView>, HelperErrorView> {
        match arity_error(ctx, 2, 2) {
            Some(e) => Err(e),
            None => Ok(Some(JsonView::Bool(ctx.arguments[0] == ctx.arguments[1]))),
        }
    }

    fn call(&self, ctx: &Context) -> (r: HelperValue) {
        proof {
            lemma_views(ctx.arguments@);
        }
        match ctx.arity(2..2) {
            Err(e) => Err(e),
            Ok(()) => Ok(Some(Json::Bool(json_eq(&ctx.arguments[0], &ctx.arguments[1])))),
        }
    }
}

impl Helper for NotEqual {
    open spec fn result(&self, ctx: ContextView) -> Result<Option<JsonView>, HelperErrorView> {
        match arity_error(ctx, 2, 2) {
            Some(e) => Err(e),
            None => Ok(Some(JsonView::Bool(ctx.arguments[0] != ctx.arguments[1]))),
        }
    }

    fn call(&self, ctx: &Context) -> (r: HelperValue) {
        proof {
            lemma_views(ctx.arguments@);
        }
        match ctx.arity(2..2) {
            Err(e) => Err(e),
            Ok(()) => Ok(Some(Json::Bool(!json_eq(&ctx.arguments[0], &ctx.arguments[1])))),
        }
    }
}

} // verus!
