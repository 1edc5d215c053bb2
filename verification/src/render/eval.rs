//! Paths and calls: what they give against the data and the scopes.
use vstd::prelude::*;
use vstd::slice::slice_to_vec;
use crate::error::render::RenderError;
use crate::helper::{BlockHelper, BlockKind, Helper, ValueHelper};
use crate::json::{lemma_entry_views_push, lemma_views_push, views, entry_views, Json, JsonView};
use crate::lexer::scan::{lemma_len_fits, peek};
use crate::outside::text_from_utf8;
use crate::parser::ast::{
    call_view, hash_views, lemma_hash_views, lemma_param_views, param_view, param_views,
    target_view, Call, CallTarget, Component, ComponentType, ParameterValue, Path,
};
use crate::parser::simple_name_of;
use crate::registry::Registry;
use crate::render::context::Context;
use crate::render::scope::{scope_views, Scope};
use crate::render::spec::{
    base, block_helper_of, bracket_key, context_of, eval_call, eval_hash, eval_param,
    eval_params, find_local, helper_of, navigate, or_null, resolve, select, text_of,
};
use crate::text::Span;

verus! {

/// The text that bytes spell.
pub fn string_of(bytes: &[u8]) -> (r: String)
    ensures
        r@ == text_of(bytes@),
{
    match text_from_utf8(slice_to_vec(bytes)) {
        Some(s) => s,
        None => String::new(),
    }
}

/// The value that paths are resolved against below the scope at `upto`.
pub(crate) fn base_value<'a>(root: &'a Json, scopes: &'a Vec<Scope>, upto: usize) -> (r: &'a Json)
    requires
        upto <= scopes.len(),
    ensures
        r@ == base(root@, scope_views(scopes@), upto as int),
{
    let mut i: usize = upto;
    while i > 0
        invariant
            i <= upto <= scopes.len(),
            base(root@, scope_views(scopes@), upto as int) == base(
                root@,
                scope_views(scopes@),
                i as int,
            ),
        decreases i,
    {
        proof {
            reveal_with_fuel(base, 2);
        }
        match &scopes[i - 1].value {
            Some(v) => {
                return v;
            },
            None => {},
        }
        i -= 1;
    }
    proof {
        reveal_with_fuel(base, 2);
    }
    root
}

/// The local variable of that name in the nearest scope that sets it.
pub fn find_local_value<'a>(scopes: &'a Vec<Scope>, name: &[u8]) -> (r: Option<&'a Json>)
    ensures
        match find_local(scope_views(scopes@), name@, scopes.len() as int) {
            Some(v) => r matches Some(w) && w@ == v,
            None => r is None,
        },
{
    let mut i: usize = scopes.len();
    while i > 0
        invariant
            i <= scopes.len(),
            find_local(scope_views(scopes@), name@, scopes.len() as int) == find_local(
                scope_views(scopes@),
                name@,
                i as int,
            ),
        decreases i,
    {
        proof {
            reveal_with_fuel(find_local, 2);
        }
        match scopes[i - 1].get_local(name) {
            Some(v) => {
                return Some(v);
            },
            None => {},
        }
        i -= 1;
    }
    proof {
        reveal_with_fuel(find_local, 2);
    }
    None
}

/// What stands in the brackets of `[...]`, without quotes around it.
pub fn bracket_key_of<'a>(src: &'a [u8], span: Span) -> (r: &'a [u8])
    ensures
        r@ == bracket_key(src@, span),
{
    proof {
        lemma_len_fits(src);
    }
    if span.start < span.end && span.end <= src.len() && span.end - span.start >= 2 {
        let inner = Span { start: span.start + 1, end: span.end - 1 };
        let first = peek(src, inner.start, 0);
        let quoted = inner.end - inner.start >= 2 && (first == 0x22 || first == 0x27) && peek(
            src,
            inner.end - 1,
            0,
        ) == first;
        if quoted {
            (Span { start: inner.start + 1, end: inner.end - 1 }).slice(src)
        } else {
            inner.slice(src)
        }
    } else {
        (Span { start: 0, end: 0 }).slice(src)
    }
}

/// What a path component selects in a value.
pub fn select_in<'a>(src: &[u8], v: &'a Json, c: &Component) -> (r: Option<&'a Json>)
    ensures
        match select(src@, v@, *c) {
            Some(x) => r matches Some(w) && w@ == x,
            None => r is None,
        },
{
    match c.0 {
        ComponentType::ThisKeyword => Some(v),
        ComponentType::ThisDotSlash => Some(v),
        ComponentType::ArrayAccess => v.field(bracket_key_of(src, c.1)),
        ComponentType::Identifier => v.field(c.1.slice(src)),
        _ => None,
    }
}

/// The value of what may be a value.
pub open spec fn opt_view(v: Option<&Json>) -> Option<JsonView> {
    match v {
        Some(x) => Some(x@),
        None => None,
    }
}

/// What the components from index `from` on select, one after the other.
pub fn navigate_from<'a>(src: &[u8], v: Option<&'a Json>, comps: &Vec<Component>, from: usize) -> (r:
    Option<&'a Json>)
    ensures
        opt_view(r) == navigate(src@, opt_view(v), comps@, from as int),
{
    let mut cur = v;
    let mut i: usize = from;
    while i < comps.len()
        invariant
            navigate(src@, opt_view(v), comps@, from as int) == navigate(
                src@,
                opt_view(cur),
                comps@,
                i as int,
            ),
        decreases comps.len() - i,
    {
        proof {
            reveal_with_fuel(navigate, 2);
        }
        match cur {
            None => {
                return None;
            },
            Some(x) => {
                cur = select_in(src, x, &comps[i]);
            },
        }
        i += 1;
    }
    proof {
        reveal_with_fuel(navigate, 2);
    }
    cur
}

/// What a path resolves to.
pub fn lookup<'a>(src: &[u8], path: &Path, root: &'a Json, scopes: &'a Vec<Scope>, at: usize) -> (r:
    Result<Option<&'a Json>, RenderError>)
    ensures
        match resolve(src@, path@, root@, scope_views(scopes@), at) {
            Ok(v) => r matches Ok(w) && opt_view(w) == v,
            Err(e) => r matches Err(x) && x@ == e,
        },
{
    let comps = &path.components;
    let n = scopes.len();
    if path.root {
        Ok(navigate_from(src, Some(root), comps, 1))
    } else if comps.len() > 0 && comps[0].0 == ComponentType::LocalIdentifier {
        match find_local_value(scopes, comps[0].1.slice(src)) {
            None => Err(RenderError::LocalNotFound(comps[0].1.start)),
            Some(v) => Ok(navigate_from(src, Some(v), comps, 1)),
        }
    } else if path.parents > 0 {
        if path.parents > n {
            Err(RenderError::ScopeDepth(at))
        } else {
            Ok(navigate_from(src, Some(base_value(root, scopes, n - path.parents)), comps, 0))
        }
    } else if path.explicit {
        Ok(navigate_from(src, Some(base_value(root, scopes, n)), comps, 0))
    } else {
        match navigate_from(src, Some(base_value(root, scopes, n)), comps, 0) {
            Some(v) => Ok(Some(v)),
            None => Ok(navigate_from(src, Some(root), comps, 0)),
        }
    }
}

/// A copy of a value that may be missing: `null` stands for none.
pub fn copy_or_null(v: Option<&Json>) -> (r: Json)
    ensures
        r@ == or_null(opt_view(v)),
{
    match v {
        Some(x) => x.copy(),
        None => Json::Null,
    }
}

/// The helper that a call invokes.
pub fn find_helper<'a, H: Helper, B, E>(reg: &'a Registry<H, B, E>, src: &[u8], c: &Call) -> (r:
    Option<(&'a ValueHelper<H>, Span)>)
    ensures
        match helper_of(*reg, src@, c@) {
            Some((h, n)) => r matches Some((g, m)) && *g == h && m == n,
            None => r is None,
        },
{
    proof {
        reveal_with_fuel(call_view, 2);
        reveal_with_fuel(target_view, 2);
    }
    match &c.target {
        CallTarget::Path(p) => match simple_name_of(p) {
            Some(n) => match reg.helpers.helpers.get(n.slice(src)) {
                Some(h) => Some((h, n)),
                None => None,
            },
            None => None,
        },
        CallTarget::SubExpr(_) => None,
    }
}

/// The block helper that the call of a block invokes.
pub fn find_block_helper<'a, H, B: BlockHelper, E>(
    reg: &'a Registry<H, B, E>,
    src: &[u8],
    c: &Call,
) -> (r: Option<(&'a BlockKind<B>, Span)>)
    ensures
        match block_helper_of(*reg, src@, c@) {
            Some((h, n)) => r matches Some((g, m)) && *g == h && m == n,
            None => r is None,
        },
{
    proof {
        reveal_with_fuel(call_view, 2);
        reveal_with_fuel(target_view, 2);
    }
    match &c.target {
        CallTarget::Path(p) => match simple_name_of(p) {
            Some(n) => match reg.block_helpers.get(n.slice(src)) {
                Some(h) => Some((h, n)),
                None => None,
            },
            None => None,
        },
        CallTarget::SubExpr(_) => None,
    }
}

/// The value of a parameter.
pub fn parameter<H: Helper, B, E>(
    reg: &Registry<H, B, E>,
    src: &[u8],
    root: &Json,
    scopes: &Vec<Scope>,
    p: &ParameterValue,
) -> (r: Result<Json, RenderError>)
    ensures
        match eval_param(*reg, src@, root@, scope_views(scopes@), p@) {
            Ok(v) => r matches Ok(w) && w@ == v,
            Err(e) => r matches Err(x) && x@ == e,
        },
    decreases p, 0int,
{
    proof {
        reveal_with_fuel(param_view, 2);
        reveal_with_fuel(eval_param, 2);
    }
    match p {
        ParameterValue::Json(j) => Ok(j.copy()),
        ParameterValue::Path(path) => match lookup(src, path, root, scopes, 0) {
            Err(e) => Err(e),
            Ok(v) => Ok(copy_or_null(v)),
        },
        ParameterValue::SubExpr(c) => match call(reg, src, root, scopes, c) {
            Err(e) => Err(e),
            Ok(v) => Ok(
                match v {
                    Some(x) => x,
                    None => Json::Null,
                },
            ),
        },
    }
}

/// The values of the arguments of a call.
pub fn arguments<H: Helper, B, E>(
    reg: &Registry<H, B, E>,
    src: &[u8],
    root: &Json,
    scopes: &Vec<Scope>,
    ps: &Vec<ParameterValue>,
) -> (r: Result<Vec<Json>, RenderError>)
    ensures
        match eval_params(
            *reg,
            src@,
            root@,
            scope_views(scopes@),
            param_views(ps@),
            0,
            Seq::empty(),
        ) {
            Ok(v) => r matches Ok(w) && views(w@) == v,
            Err(e) => r matches Err(x) && x@ == e,
        },
    decreases ps, 0int,
{
    let mut out: Vec<Json> = Vec::new();
    let mut i: usize = 0;
    let ghost goal = eval_params(
        *reg,
        src@,
        root@,
        scope_views(scopes@),
        param_views(ps@),
        0,
        Seq::empty(),
    );
    proof {
        lemma_param_views(ps@);
        assert(views(out@) =~= Seq::empty());
    }
    while i < ps.len()
        invariant
            i <= ps.len(),
            param_views(ps@).len() == ps.len(),
            goal == eval_params(
                *reg,
                src@,
                root@,
                scope_views(scopes@),
                param_views(ps@),
                0,
                Seq::empty(),
            ),
            goal == eval_params(
                *reg,
                src@,
                root@,
                scope_views(scopes@),
                param_views(ps@),
                i as int,
                views(out@),
            ),
        decreases ps.len() - i,
    {
        proof {
            reveal_with_fuel(eval_params, 2);
            lemma_param_views(ps@);
            assert(decreases_to!(ps => ps[i as int]));
        }
        match parameter(reg, src, root, scopes, &ps[i]) {
            Err(e) => {
                return Err(e);
            },
            Ok(v) => {
                proof {
                    lemma_views_push(out@, v);
                }
                out.push(v);
            },
        }
        i += 1;
    }
    proof {
        reveal_with_fuel(eval_params, 2);
    }
    Ok(out)
}

/// The values of the named parameters of a call.
pub fn hash<H: Helper, B, E>(
    reg: &Registry<H, B, E>,
    src: &[u8],
    root: &Json,
    scopes: &Vec<Scope>,
    hs: &Vec<(Span, ParameterValue)>,
) -> (r: Result<Vec<(String, Json)>, RenderError>)
    ensures
        match eval_hash(
            *reg,
            src@,
            root@,
            scope_views(scopes@),
            hash_views(hs@),
            0,
            Seq::empty(),
        ) {
            Ok(v) => r matches Ok(w) && entry_views(w@) == v,
            Err(e) => r matches Err(x) && x@ == e,
        },
    decreases hs, 0int,
{
    let mut out: Vec<(String, Json)> = Vec::new();
    let mut i: usize = 0;
    let ghost goal = eval_hash(
        *reg,
        src@,
        root@,
        scope_views(scopes@),
        hash_views(hs@),
        0,
        Seq::empty(),
    );
    proof {
        lemma_hash_views(hs@);
        assert(entry_views(out@) =~= Seq::empty());
    }
    while i < hs.len()
        invariant
            i <= hs.len(),
            hash_views(hs@).len() == hs.len(),
            goal == eval_hash(
                *reg,
                src@,
                root@,
                scope_views(scopes@),
                hash_views(hs@),
                0,
                Seq::empty(),
            ),
            goal == eval_hash(
                *reg,
                src@,
                root@,
                scope_views(scopes@),
                hash_views(hs@),
                i as int,
                entry_views(out@),
            ),
        decreases hs.len() - i,
    {
        proof {
            reveal_with_fuel(eval_hash, 2);
            lemma_hash_views(hs@);
            assert(decreases_to!(hs => hs[i as int]));
            assert(decreases_to!(hs[i as int] => hs[i as int].1));
        }
        match parameter(reg, src, root, scopes, &hs[i].1) {
            Err(e) => {
                return Err(e);
            },
            Ok(v) => {
                let key = string_of(hs[i].0.slice(src));
                proof {
                    lemma_entry_views_push(out@, (key, v));
                }
                out.push((key, v));
            },
        }
        i += 1;
    }
    proof {
        reveal_with_fuel(eval_hash, 2);
    }
    Ok(out)
}

/// What a helper is called with for a call.
pub fn context<H: Helper, B, E>(
    reg: &Registry<H, B, E>,
    src: &[u8],
    root: &Json,
    scopes: &Vec<Scope>,
    name: Span,
    c: &Call,
) -> (r: Result<Context, RenderError>)
    ensures
        match context_of(*reg, src@, root@, scope_views(scopes@), name, c@) {
            Ok(v) => r matches Ok(w) && w@ == v,
            Err(e) => r matches Err(x) && x@ == e,
        },
    decreases c, 0int,
{
    proof {
        reveal_with_fuel(call_view, 2);
        reveal_with_fuel(context_of, 2);
    }
    match arguments(reg, src, root, scopes, &c.arguments) {
        Err(e) => Err(e),
        Ok(args) => match hash(reg, src, root, scopes, &c.hash) {
            Err(e) => Err(e),
            Ok(named) => Ok(Context::new(string_of(name.slice(src)), args, named)),
        },
    }
}

/// What a call gives.
pub fn call<H: Helper, B, E>(
    reg: &Registry<H, B, E>,
    src: &[u8],
    root: &Json,
    scopes: &Vec<Scope>,
    c: &Call,
) -> (r: Result<Option<Json>, RenderError>)
    ensures
        match eval_call(*reg, src@, root@, scope_views(scopes@), c@) {
            Ok(v) => r matches Ok(w) && crate::render::eval::owned_view(w) == v,
            Err(e) => r matches Err(x) && x@ == e,
        },
    decreases c, 1int,
{
    proof {
        reveal_with_fuel(call_view, 2);
        reveal_with_fuel(target_view, 2);
        reveal_with_fuel(eval_call, 2);
    }
    match &c.target {
        CallTarget::SubExpr(inner) => call(reg, src, root, scopes, inner),
        CallTarget::Path(p) => match find_helper(reg, src, c) {
            Some((h, name)) => match context(reg, src, root, scopes, name, c) {
                Err(e) => Err(e),
                Ok(ctx) => match h.call(&ctx) {
                    Ok(v) => Ok(v),
                    Err(e) => Err(RenderError::Helper(e)),
                },
            },
            None => match lookup(src, p, root, scopes, c.open.start) {
                Err(e) => Err(e),
                Ok(v) => Ok(
                    match v {
                        Some(x) => Some(x.copy()),
                        None => None,
                    },
                ),
            },
        },
    }
}

/// The value of what may be a value.
pub open spec fn owned_view(v: Option<Json>) -> Option<JsonView> {
    match v {
        Some(x) => Some(x@),
        None => None,
    }
}

} // verus!
