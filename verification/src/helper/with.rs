//! Block helpers that set the scope: `with`, `each`, `if` and `unless`.
use vstd::prelude::*;
use crate::error::helper::HelperErrorView;
use crate::helper::{BlockHelper, HelperPlan};
use crate::json::{entry_views, lemma_entry_views, lemma_views, truthy, views, Json, JsonView};
use crate::render::context::{arity_error, Context, ContextView};
use crate::render::scope::{scope_views, Scope, ScopeView};
use crate::text::{decimal, to_decimal};

verus! {

/// `{{#with value}}`: renders the block once, with `value` as the value
/// that paths are resolved against.
#[derive(Clone, Copy, Debug)]
pub struct With;

/// `{{#each list}}`: renders the block once for each element of an array
/// or entry of an object, with the element as the value that paths are
/// resolved against and the locals `@index`, `@first`, `@last` and, for an
/// object, `@key`.
#[derive(Clone, Copy, Debug)]
pub struct Each;

/// `{{#if value}}`: renders the block once if `value` is truthy.
#[derive(Clone, Copy, Debug)]
pub struct If;

/// `{{#unless value}}`: renders the block once if `value` is falsy.
#[derive(Clone, Copy, Debug)]
pub struct Unless;

/// The locals of the element at `index` among `len`.
pub open spec fn item_locals(index: nat, len: nat) -> Seq<(Seq<char>, JsonView)> {
    seq![
        (seq!['@'] + "index"@, JsonView::Number(decimal(index))),
        (seq!['@'] + "first"@, JsonView::Bool(index == 0)),
        (seq!['@'] + "last"@, JsonView::Bool(index + 1 == len)),
    ]
}

/// The scope for the element at `index` of an array.
pub open spec fn item_scope(items: Seq<JsonView>, index: int) -> ScopeView {
    ScopeView { value: Some(items[index]), locals: item_locals(index as nat, items.len()) }
}

/// The scope for the entry at `index` of an object.
pub open spec fn entry_scope(entries: Seq<(Seq<char>, JsonView)>, index: int) -> ScopeView {
    ScopeView {
        value: Some(entries[index].1),
        locals: item_locals(index as nat, entries.len()).push(
            (seq!['@'] + "key"@, JsonView::String(entries[index].0)),
        ),
    }
}

/// The scopes in which `each` renders its block for a value: one for each
/// element of an array or entry of an object, none for any other value.
pub open spec fn each_scopes(v: JsonView) -> Seq<ScopeView> {
    match v {
        JsonView::Array(items) => Seq::new(items.len(), |i: int| item_scope(items, i)),
        JsonView::Object(entries) => Seq::new(entries.len(), |i: int| entry_scope(entries, i)),
        _ => Seq::empty(),
    }
}

/// A scope that sets the value that paths are resolved against.
pub open spec fn value_scope(v: JsonView) -> ScopeView {
    ScopeView { value: Some(v), locals: Seq::empty() }
}

/// A scope that sets nothing.
pub open spec fn plain_scope() -> ScopeView {
    ScopeView { value: None, locals: Seq::empty() }
}

/// The scopes for a value whose truthiness decides whether the block is
/// rendered.
pub open spec fn when_scopes(render: bool) -> Seq<ScopeView> {
    if render {
        seq![plain_scope()]
    } else {
        Seq::empty()
    }
}

fn new_item_scope(value: &Json, index: usize, len: usize) -> (r: Scope)
    requires
        index < len,
    ensures
        r@ == (ScopeView { value: Some(value@), locals: item_locals(index as nat, len as nat) }),
{
    let mut scope = Scope::new();
    scope.set_base_value(value.copy());
    scope.set_local("index", Json::Number(to_decimal(index)));
    scope.set_local("first", Json::Bool(index == 0));
    scope.set_local("last", Json::Bool(index + 1 == len));
    assert(scope@.locals =~= item_locals(index as nat, len as nat));
    scope
}

/// The scopes in which `each` renders its block for a value.
pub fn each_plan(v: &Json) -> (r: Vec<Scope>)
    ensures
        scope_views(r@) == each_scopes(v@),
{
    let mut out: Vec<Scope> = Vec::new();
    match v {
        Json::Array(items) => {
            proof {
                lemma_views(items@);
            }
            let ghost iv = views(items@);
            let n = items.len();
            let mut i: usize = 0;
            while i < n
                invariant
                    i <= n,
                    n == items.len(),
                    iv == views(items@),
                    iv.len() == n,
                    out.len() == i,
                    forall|k: int| 0 <= k < i ==> (#[trigger] out@[k])@ == item_scope(iv, k),
                decreases n - i,
            {
                proof {
                    lemma_views(items@);
                }
                out.push(new_item_scope(&items[i], i, n));
                i += 1;
            }
            assert(scope_views(out@) =~= each_scopes(v@));
        },
        Json::Object(entries) => {
            proof {
                lemma_entry_views(entries@);
            }
            let ghost ev = entry_views(entries@);
            let n = entries.len();
            let mut i: usize = 0;
            while i < n
                invariant
                    i <= n,
                    n == entries.len(),
                    ev == entry_views(entries@),
                    ev.len() == n,
                    out.len() == i,
                    forall|k: int| 0 <= k < i ==> (#[trigger] out@[k])@ == entry_scope(ev, k),
                decreases n - i,
            {
                proof {
                    lemma_entry_views(entries@);
                }
                let mut scope = new_item_scope(&entries[i].1, i, n);
                scope.set_local("key", Json::String(entries[i].0.clone()));
                out.push(scope);
                i += 1;
            }
            assert(scope_views(out@) =~= each_scopes(v@));
        },
        _ => {
            assert(scope_views(out@) =~= each_scopes(v@));
        },
    }
    out
}

/// The scopes for a block that is rendered once, or not at all.
pub fn when_plan(render: bool) -> (r: Vec<Scope>)
    ensures
        scope_views(r@) == when_scopes(render),
{
    let mut out: Vec<Scope> = Vec::new();
    if render {
        out.push(Scope::new());
    }
    assert(scope_views(out@) =~= when_scopes(render));
    out
}

/// The one scope that sets the value that paths are resolved against.
pub fn with_plan(v: &Json) -> (r: Vec<Scope>)
    ensures
        scope_views(r@) == seq![value_scope(v@)],
{
    let mut out: Vec<Scope> = Vec::new();
    let mut scope = Scope::new();
    scope.set_base_value(v.copy());
    out.push(scope);
    assert(scope_views(out@) =~= seq![value_scope(v@)]);
    out
}

impl BlockHelper for With {
    open spec fn plan(&self, ctx: ContextView) -> Result<Seq<ScopeView>, HelperErrorView> {
        match arity_error(ctx, 1, 1) {
            Some(e) => Err(e),
            None => Ok(seq![value_scope(ctx.arguments[0])]),
        }
    }

    fn call(&self, ctx: &Context) -> (r: HelperPlan) {
        proof {
            lemma_views(ctx.arguments@);
        }
        match ctx.arity(1..1) {
            Err(e) => Err(e),
            Ok(()) => Ok(with_plan(&ctx.arguments[0])),
        }
    }
}

impl BlockHelper for Each {
    open spec fn plan(&self, ctx: ContextView) -> Result<Seq<ScopeView>, HelperErrorView> {
        match arity_error(ctx, 1, 1) {
            Some(e) => Err(e),
            None => Ok(each_scopes(ctx.arguments[0])),
        }
    }

    fn call(&self, ctx: &Context) -> (r: HelperPlan) {
        proof {
            lemma_views(ctx.arguments@);
        }
        match ctx.arity(1..1) {
            Err(e) => Err(e),
            Ok(()) => Ok(each_plan(&ctx.arguments[0])),
        }
    }
}

impl BlockHelper for If {
    open spec fn plan(&self, ctx: ContextView) -> Result<Seq<ScopeView>, HelperErrorView> {
        match arity_error(ctx, 1, 1) {
            Some(e) => Err(e),
            None => Ok(when_scopes(truthy(ctx.arguments[0]))),
        }
    }

    fn call(&self, ctx: &Context) -> (r: HelperPlan) {
        proof {
            lemma_views(ctx.arguments@);
        }
        match ctx.arity(1..1) {
            Err(e) => Err(e),
            Ok(()) => Ok(when_plan(ctx.arguments[0].is_truthy())),
        }
    }
}

impl BlockHelper for Unless {
    open spec fn plan(&self, ctx: ContextView) -> Result<Seq<ScopeView>, HelperErrorView> {
        match arity_error(ctx, 1, 1) {
            Some(e) => Err(e),
            None => Ok(when_scopes(!truthy(ctx.arguments[0]))),
        }
    }

    fn call(&self, ctx: &Context) -> (r: HelperPlan) {
        proof {
            lemma_views(ctx.arguments@);
        }
        match ctx.arity(1..1) {
            Err(e) => Err(e),
            Ok(()) => Ok(when_plan(!ctx.arguments[0].is_truthy())),
        }
    }
}

} // verus!
