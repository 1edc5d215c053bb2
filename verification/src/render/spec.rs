//! What rendering gives, stated over the values of the tree and the data.
use vstd::prelude::*;
use vstd::utf8::{decode_utf8, valid_utf8};
use crate::error::render::RenderErrorView;
use crate::escape::Escape;
use crate::helper::with::{each_scopes, value_scope, when_scopes};
use crate::helper::{BlockHelper, BlockKind, Helper, ValueHelper};
use crate::json::{field, text_bytes, truthy, JsonView};
use crate::lexer::grammar::{byte_at, TILDE};
use crate::parser::ast::{
    BlockType, BlockView, CallView, Component, ComponentType, NodeView, ParameterView, PathView,
    TargetView,
};
use crate::parser::block::simple_name;
use crate::registry::Registry;
use crate::render::context::ContextView;
use crate::render::scope::{local, ScopeView};
use crate::table::lookup;
use crate::template::Template;
use crate::text::{bytes_of, trimmed, Span};

verus! {

/// The text that bytes spell; none where they are no UTF-8.
pub open spec fn text_of(bytes: Seq<u8>) -> Seq<char> {
    if valid_utf8(bytes) {
        decode_utf8(bytes)
    } else {
        Seq::empty()
    }
}

/// The value that paths are resolved against below the scope at `upto`: that
/// of the nearest scope that sets one, or else the data.
pub open spec fn base(root: JsonView, scopes: Seq<ScopeView>, upto: int) -> JsonView
    decreases upto,
{
    if upto <= 0 || upto > scopes.len() {
        root
    } else {
        match scopes[upto - 1].value {
            Some(v) => v,
            None => base(root, scopes, upto - 1),
        }
    }
}

/// The local variable of that name in the nearest scope below `upto` that
/// sets it.
pub open spec fn find_local(scopes: Seq<ScopeView>, name: Seq<u8>, upto: int) -> Option<JsonView>
    decreases upto,
{
    if upto <= 0 || upto > scopes.len() {
        None
    } else {
        match local(scopes[upto - 1].locals, name, scopes[upto - 1].locals.len() as int) {
            Some(v) => Some(v),
            None => find_local(scopes, name, upto - 1),
        }
    }
}

/// What stands in the brackets of `[...]`, without quotes around it.
pub open spec fn bracket_key(src: Seq<u8>, span: Span) -> Seq<u8> {
    let inner = Span { start: (span.start + 1) as usize, end: (span.end - 1) as usize };
    let quoted = inner.end - inner.start >= 2 && (byte_at(src, inner.start as int) == 0x22
        || byte_at(src, inner.start as int) == 0x27) && byte_at(src, inner.end - 1) == byte_at(
        src,
        inner.start as int,
    );
    if span.start < span.end && span.end <= src.len() && span.end - span.start >= 2 {
        if quoted {
            (Span { start: (inner.start + 1) as usize, end: (inner.end - 1) as usize }).of(src)
        } else {
            inner.of(src)
        }
    } else {
        Seq::empty()
    }
}

/// What a path component selects in a value: `this` and `./` the value
/// itself, an identifier or `[...]` the field or element that it names.
pub open spec fn select(src: Seq<u8>, v: JsonView, c: Component) -> Option<JsonView> {
    match c.0 {
        ComponentType::ThisKeyword => Some(v),
        ComponentType::ThisDotSlash => Some(v),
        ComponentType::ArrayAccess => field(v, bracket_key(src, c.1)),
        ComponentType::Identifier => field(v, c.1.of(src)),
        _ => None,
    }
}

/// What the components from index `from` on select, one after the other.
pub open spec fn navigate(src: Seq<u8>, v: Option<JsonView>, comps: Seq<Component>, from: int) -> Option<
    JsonView,
>
    decreases comps.len() - from,
{
    if from < 0 || from >= comps.len() {
        v
    } else {
        match v {
            None => None,
            Some(x) => navigate(src, select(src, x, comps[from]), comps, from + 1),
        }
    }
}

/// What a path resolves to. A path from `@root` is resolved against the
/// data; one that starts with a local variable against the value of that
/// variable in the nearest scope that sets it; one with `../` against the
/// value that many scopes up; any other against the current value and,
/// unless it starts with `this` or `./`, against the data if that fails.
/// `at` is the byte that an error cites.
pub open spec fn resolve(
    src: Seq<u8>,
    path: PathView,
    root: JsonView,
    scopes: Seq<ScopeView>,
    at: usize,
) -> Result<Option<JsonView>, RenderErrorView> {
    let comps = path.components;
    let current = base(root, scopes, scopes.len() as int);
    if path.root {
        Ok(navigate(src, Some(root), comps, 1))
    } else if comps.len() > 0 && comps[0].0 == ComponentType::LocalIdentifier {
        match find_local(scopes, comps[0].1.of(src), scopes.len() as int) {
            None => Err(RenderErrorView::LocalNotFound(comps[0].1.start)),
            Some(v) => Ok(navigate(src, Some(v), comps, 1)),
        }
    } else if path.parents > 0 {
        if path.parents > scopes.len() {
            Err(RenderErrorView::ScopeDepth(at))
        } else {
            Ok(navigate(src, Some(base(root, scopes, scopes.len() - path.parents)), comps, 0))
        }
    } else if path.explicit {
        Ok(navigate(src, Some(current), comps, 0))
    } else {
        match navigate(src, Some(current), comps, 0) {
            Some(v) => Ok(Some(v)),
            None => Ok(navigate(src, Some(root), comps, 0)),
        }
    }
}

/// Whether the value and the local variables of a scope are well-formed
/// documents.
pub open spec fn scope_well_formed(s: ScopeView) -> bool {
    &&& s.value matches Some(v) ==> crate::json::well_formed(v)
    &&& forall|i: int|
        0 <= i < s.locals.len() ==> crate::json::well_formed((#[trigger] s.locals[i]).1)
}

/// Whether the data and each scope hold well-formed documents.
pub open spec fn all_well_formed(root: JsonView, scopes: Seq<ScopeView>) -> bool {
    &&& crate::json::well_formed(root)
    &&& forall|i: int| 0 <= i < scopes.len() ==> scope_well_formed(#[trigger] scopes[i])
}

/// The value that paths are resolved against is well formed where the data
/// and the scopes are.
pub proof fn lemma_base_well_formed(root: JsonView, scopes: Seq<ScopeView>, upto: int)
    requires
        all_well_formed(root, scopes),
    ensures
        crate::json::well_formed(base(root, scopes, upto)),
    decreases upto,
{
    reveal_with_fuel(base, 2);
    if 0 < upto <= scopes.len() {
        assert(scope_well_formed(scopes[upto - 1]));
        if scopes[upto - 1].value is None {
            lemma_base_well_formed(root, scopes, upto - 1);
        }
    }
}

/// A local variable of a well-formed scope is well formed.
pub proof fn lemma_local_well_formed(s: ScopeView, name: Seq<u8>, upto: int)
    requires
        scope_well_formed(s),
    ensures
        local(s.locals, name, upto) matches Some(v) ==> crate::json::well_formed(v),
    decreases upto,
{
    reveal_with_fuel(local, 2);
    if 0 < upto <= s.locals.len() {
        assert(crate::json::well_formed(s.locals[upto - 1].1));
        if bytes_of(s.locals[upto - 1].0) != name {
            lemma_local_well_formed(s, name, upto - 1);
        }
    }
}

/// A local variable that is found in well-formed scopes is well formed.
pub proof fn lemma_find_local_well_formed(
    root: JsonView,
    scopes: Seq<ScopeView>,
    name: Seq<u8>,
    upto: int,
)
    requires
        all_well_formed(root, scopes),
    ensures
        find_local(scopes, name, upto) matches Some(v) ==> crate::json::well_formed(v),
    decreases upto,
{
    reveal_with_fuel(find_local, 2);
    if 0 < upto <= scopes.len() {
        let s = scopes[upto - 1];
        assert(scope_well_formed(s));
        lemma_local_well_formed(s, name, s.locals.len() as int);
        if local(s.locals, name, s.locals.len() as int) is None {
            lemma_find_local_well_formed(root, scopes, name, upto - 1);
        }
    }
}

/// What path components select in a well-formed document is well formed.
pub proof fn lemma_navigate_well_formed(
    src: Seq<u8>,
    v: Option<JsonView>,
    comps: Seq<Component>,
    from: int,
)
    requires
        v matches Some(x) ==> crate::json::well_formed(x),
    ensures
        navigate(src, v, comps, from) matches Some(x) ==> crate::json::well_formed(x),
    decreases comps.len() - from,
{
    reveal_with_fuel(navigate, 2);
    if 0 <= from < comps.len() {
        match v {
            None => {},
            Some(x) => {
                crate::json::lemma_well_formed_field(x, bracket_key(src, comps[from].1));
                crate::json::lemma_well_formed_field(x, comps[from].1.of(src));
                lemma_navigate_well_formed(src, select(src, x, comps[from]), comps, from + 1);
            },
        }
    }
}

/// What a path resolves to is well formed where the data and the scopes
/// are: each object in it has each key once, and each number in it is
/// spelled as JSON spells numbers.
pub proof fn lemma_resolve_well_formed(
    src: Seq<u8>,
    path: PathView,
    root: JsonView,
    scopes: Seq<ScopeView>,
    at: usize,
)
    requires
        all_well_formed(root, scopes),
    ensures
        resolve(src, path, root, scopes, at) matches Ok(Some(v)) ==> crate::json::well_formed(v),
{
    let comps = path.components;
    let current = base(root, scopes, scopes.len() as int);
    lemma_base_well_formed(root, scopes, scopes.len() as int);
    lemma_base_well_formed(root, scopes, scopes.len() - path.parents);
    lemma_navigate_well_formed(src, Some(root), comps, 1);
    lemma_navigate_well_formed(src, Some(root), comps, 0);
    lemma_navigate_well_formed(src, Some(current), comps, 0);
    lemma_navigate_well_formed(
        src,
        Some(base(root, scopes, scopes.len() - path.parents)),
        comps,
        0,
    );
    if comps.len() > 0 {
        lemma_find_local_well_formed(root, scopes, comps[0].1.of(src), scopes.len() as int);
        match find_local(scopes, comps[0].1.of(src), scopes.len() as int) {
            Some(v) => {
                lemma_navigate_well_formed(src, Some(v), comps, 1);
            },
            None => {},
        }
    }
}

/// The value of a parameter that resolves to nothing.
pub open spec fn or_null(v: Option<JsonView>) -> JsonView {
    match v {
        Some(x) => x,
        None => JsonView::Null,
    }
}

/// The helper that a call invokes: the target of the call is a path of one
/// identifier, and a helper is registered under it.
pub open spec fn helper_of<H, B, E>(reg: Registry<H, B, E>, src: Seq<u8>, c: CallView) -> Option<
    (ValueHelper<H>, Span),
> {
    match c.target {
        TargetView::Path(p) => match simple_name(p) {
            Some(n) => match lookup(reg.helpers.helpers.entries@, n.of(src)) {
                Some(h) => Some((h, n)),
                None => None,
            },
            None => None,
        },
        TargetView::SubExpr(_) => None,
    }
}

/// The block helper that the call of a block invokes.
pub open spec fn block_helper_of<H, B, E>(reg: Registry<H, B, E>, src: Seq<u8>, c: CallView) -> Option<
    (BlockKind<B>, Span),
> {
    match c.target {
        TargetView::Path(p) => match simple_name(p) {
            Some(n) => match lookup(reg.block_helpers.entries@, n.of(src)) {
                Some(h) => Some((h, n)),
                None => None,
            },
            None => None,
        },
        TargetView::SubExpr(_) => None,
    }
}

/// The value of a parameter: a literal is taken as it is, a path is
/// resolved, a sub-expression is evaluated.
pub open spec fn eval_param<H: Helper, B, E>(
    reg: Registry<H, B, E>,
    src: Seq<u8>,
    root: JsonView,
    scopes: Seq<ScopeView>,
    p: ParameterView,
) -> Result<JsonView, RenderErrorView>
    decreases p, 0int,
{
    match p {
        ParameterView::Json(j) => Ok(j),
        ParameterView::Path(path) => match resolve(src, path, root, scopes, 0) {
            Err(e) => Err(e),
            Ok(v) => Ok(or_null(v)),
        },
        ParameterView::SubExpr(c) => match eval_call(reg, src, root, scopes, c) {
            Err(e) => Err(e),
            Ok(v) => Ok(or_null(v)),
        },
    }
}

/// The values of the parameters from index `i` on, after those in `acc`.
pub open spec fn eval_params<H: Helper, B, E>(
    reg: Registry<H, B, E>,
    src: Seq<u8>,
    root: JsonView,
    scopes: Seq<ScopeView>,
    ps: Seq<ParameterView>,
    i: int,
    acc: Seq<JsonView>,
) -> Result<Seq<JsonView>, RenderErrorView>
    decreases ps, ps.len() - i,
{
    if i < 0 || i >= ps.len() {
        Ok(acc)
    } else {
        match eval_param(reg, src, root, scopes, ps[i]) {
            Err(e) => Err(e),
            Ok(v) => eval_params(reg, src, root, scopes, ps, i + 1, acc.push(v)),
        }
    }
}

/// The values of the named parameters from index `i` on, after those in `acc`.
pub open spec fn eval_hash<H: Helper, B, E>(
    reg: Registry<H, B, E>,
    src: Seq<u8>,
    root: JsonView,
    scopes: Seq<ScopeView>,
    hs: Seq<(Span, ParameterView)>,
    i: int,
    acc: Seq<(Seq<char>, JsonView)>,
) -> Result<Seq<(Seq<char>, JsonView)>, RenderErrorView>
    decreases hs, hs.len() - i,
{
    if i < 0 || i >= hs.len() {
        Ok(acc)
    } else {
        match eval_param(reg, src, root, scopes, hs[i].1) {
            Err(e) => Err(e),
            Ok(v) => eval_hash(
                reg,
                src,
                root,
                scopes,
                hs,
                i + 1,
                acc.push((text_of(hs[i].0.of(src)), v)),
            ),
        }
    }
}

/// Whether the name of each named parameter is text.
pub open spec fn names_are_text(hs: Seq<(Span, ParameterView)>, src: Seq<u8>) -> bool {
    forall|k: int| 0 <= k < hs.len() ==> valid_utf8((#[trigger] hs[k]).0.of(src))
}

/// The values of the named parameters stand in the order written, each
/// beside the text of its name.
pub proof fn lemma_eval_hash_names<H: Helper, B, E>(
    reg: Registry<H, B, E>,
    src: Seq<u8>,
    root: JsonView,
    scopes: Seq<ScopeView>,
    hs: Seq<(Span, ParameterView)>,
    i: int,
    acc: Seq<(Seq<char>, JsonView)>,
)
    requires
        0 <= i <= hs.len(),
        acc.len() == i,
        forall|k: int| 0 <= k < i ==> (#[trigger] acc[k]).0 == text_of(hs[k].0.of(src)),
    ensures
        eval_hash(reg, src, root, scopes, hs, i, acc) matches Ok(r) ==> r.len() == hs.len()
            && forall|k: int|
            0 <= k < hs.len() ==> (#[trigger] r[k]).0 == text_of(hs[k].0.of(src)),
    decreases hs.len() - i,
{
    reveal_with_fuel(eval_hash, 2);
    if i < hs.len() {
        match eval_param(reg, src, root, scopes, hs[i].1) {
            Err(e) => {},
            Ok(v) => {
                let more = acc.push((text_of(hs[i].0.of(src)), v));
                assert forall|k: int| 0 <= k < i + 1 implies (#[trigger] more[k]).0 == text_of(
                    hs[k].0.of(src),
                ) by {
                    if k < i {
                        assert(more[k] == acc[k]);
                    }
                }
                lemma_eval_hash_names(reg, src, root, scopes, hs, i + 1, more);
            },
        }
    }
}

/// A helper is called with each named parameter once: where the names in
/// the call differ and are text, no key occurs twice among the values.
pub proof fn lemma_context_names_once<H: Helper, B, E>(
    reg: Registry<H, B, E>,
    src: Seq<u8>,
    root: JsonView,
    scopes: Seq<ScopeView>,
    hs: Seq<(Span, ParameterView)>,
)
    requires
        crate::parser::statement::names_once(hs, src),
        names_are_text(hs, src),
    ensures
        eval_hash(reg, src, root, scopes, hs, 0, Seq::empty()) matches Ok(r)
            ==> crate::json::keys_once(r),
{
    lemma_eval_hash_names(reg, src, root, scopes, hs, 0, Seq::empty());
    match eval_hash(reg, src, root, scopes, hs, 0, Seq::empty()) {
        Err(e) => {},
        Ok(r) => {
            assert forall|a: int, b: int| 0 <= a < b < r.len() implies (#[trigger] r[a]).0 != (
            #[trigger] r[b]).0 by {
                vstd::utf8::decode_utf8_encode_utf8(hs[a].0.of(src));
                vstd::utf8::decode_utf8_encode_utf8(hs[b].0.of(src));
                assert(hs[a].0.of(src) != hs[b].0.of(src));
            }
        },
    }
}

/// What a helper is called with for a call: its name, and the values that
/// the arguments and the named parameters have when the call is made.
pub open spec fn context_of<H: Helper, B, E>(
    reg: Registry<H, B, E>,
    src: Seq<u8>,
    root: JsonView,
    scopes: Seq<ScopeView>,
    name: Span,
    c: CallView,
) -> Result<ContextView, RenderErrorView>
    decreases c, 0int,
{
    match eval_params(reg, src, root, scopes, c.arguments, 0, Seq::empty()) {
        Err(e) => Err(e),
        Ok(arguments) => match eval_hash(reg, src, root, scopes, c.hash, 0, Seq::empty()) {
            Err(e) => Err(e),
            Ok(hash) => Ok(ContextView { name: text_of(name.of(src)), arguments, hash }),
        },
    }
}

/// What a call gives. Where the target is a path of one identifier under
/// which a helper is registered, the helper is called; any other path is
/// resolved; a sub-expression is evaluated.
pub open spec fn eval_call<H: Helper, B, E>(
    reg: Registry<H, B, E>,
    src: Seq<u8>,
    root: JsonView,
    scopes: Seq<ScopeView>,
    c: CallView,
) -> Result<Option<JsonView>, RenderErrorView>
    decreases c, 1int,
{
    match c.target {
        TargetView::SubExpr(inner) => eval_call(reg, src, root, scopes, *inner),
        TargetView::Path(p) => match helper_of(reg, src, c) {
            Some((h, name)) => match context_of(reg, src, root, scopes, name, c) {
                Err(e) => Err(e),
                Ok(ctx) => match h.result(ctx) {
                    Ok(v) => Ok(v),
                    Err(e) => Err(RenderErrorView::Helper(e)),
                },
            },
            None => resolve(src, p, root, scopes, c.open.start),
        },
    }
}

/// Whether one of the bytes that a span covers is `~`.
pub open spec fn has_tilde(src: Seq<u8>, span: Span) -> bool {
    exists|i: int| span.start <= i < span.end && byte_at(src, i) == TILDE
}

/// Whether a node asks for the text before it to be trimmed: its opening
/// sigil holds `~`.
pub open spec fn trim_before(src: Seq<u8>, n: NodeView) -> bool {
    match n {
        NodeView::Statement(c) => has_tilde(src, c.open),
        NodeView::Block(b) => block_trim_before(src, b),
        NodeView::RawBlock(b) => block_trim_before(src, b),
        _ => false,
    }
}

/// Whether the opening sigil of a block holds `~`.
pub open spec fn block_trim_before(src: Seq<u8>, b: BlockView) -> bool {
    match b.call {
        Some(c) => has_tilde(src, c.open),
        None => false,
    }
}

/// Whether a node asks for the text after it to be trimmed: `~` stands
/// before its last closing braces.
pub open spec fn trim_after(src: Seq<u8>, n: NodeView) -> bool {
    match n {
        NodeView::Statement(c) => byte_at(src, c.close.start as int) == TILDE,
        NodeView::Block(b) => trim_after_close(src, b),
        NodeView::RawBlock(b) => trim_after_close(src, b),
        _ => false,
    }
}

/// Whether `~` stands before the closing braces of the closing tag of a
/// block: two braces for a block with a scope, four for a raw block.
pub open spec fn trim_after_close(src: Seq<u8>, b: BlockView) -> bool {
    match b.close {
        Some(s) => match b.kind {
            BlockType::Scoped => byte_at(src, s.end - 3) == TILDE,
            BlockType::RawBlock => byte_at(src, s.end - 5) == TILDE,
            _ => false,
        },
        None => false,
    }
}

/// Whether the opening tag of a block asks for the start of its body to
/// be trimmed.
pub open spec fn trim_after_open(src: Seq<u8>, b: BlockView) -> bool {
    match b.call {
        Some(c) => byte_at(src, c.close.start as int) == TILDE,
        None => false,
    }
}

/// Whether the closing tag of a block asks for the end of its body to be
/// trimmed.
pub open spec fn trim_before_close(src: Seq<u8>, b: BlockView) -> bool {
    match b.close {
        Some(s) => byte_at(src, s.start + 2) == TILDE,
        None => false,
    }
}

/// What stands between the opening and the closing tag of a block.
pub open spec fn between(src: Seq<u8>, b: BlockView) -> Seq<u8> {
    match (b.open, b.close) {
        (Some(o), Some(c)) => (Span { start: o.end, end: c.start }).of(src),
        _ => Seq::empty(),
    }
}

/// The text of an escaped statement: the statement without its backslash.
pub open spec fn unescaped_statement(src: Seq<u8>, b: BlockView) -> Seq<u8> {
    match (b.open, b.close) {
        (Some(o), Some(c)) => if o.start < usize::MAX {
            (Span { start: (o.start + 1) as usize, end: c.end }).of(src)
        } else {
            Seq::empty()
        },
        _ => Seq::empty(),
    }
}

/// What is written for a value: its text, escaped if the statement asks
/// for that.
pub open spec fn written<H, B, E: Escape>(reg: Registry<H, B, E>, v: JsonView, escape: bool) -> Seq<
    u8,
> {
    if escape {
        reg.escape.apply(text_bytes(v))
    } else {
        text_bytes(v)
    }
}

/// The scopes in which a block without a helper renders its body, by the
/// value that its call gives: once for each element of an array, once with
/// an object as the current value, once for any other truthy value.
pub open spec fn implicit_scopes(v: Option<JsonView>) -> Seq<ScopeView> {
    match v {
        None => Seq::empty(),
        Some(x) => match x {
            JsonView::Array(_) => each_scopes(x),
            JsonView::Object(_) => seq![value_scope(x)],
            _ => when_scopes(truthy(x)),
        },
    }
}

/// The name of the template that a partial asks for: the identifier that
/// is its target, or the string that the sub-expression that is its target
/// gives.
pub open spec fn partial_name<H: Helper, B, E>(
    reg: Registry<H, B, E>,
    src: Seq<u8>,
    root: JsonView,
    scopes: Seq<ScopeView>,
    c: CallView,
) -> Result<Seq<u8>, RenderErrorView> {
    match c.target {
        TargetView::Path(p) => match simple_name(p) {
            Some(n) => Ok(n.of(src)),
            None => Err(RenderErrorView::PartialNameResolve(c.open.start)),
        },
        TargetView::SubExpr(inner) => match eval_call(reg, src, root, scopes, *inner) {
            Err(e) => Err(e),
            Ok(Some(JsonView::String(s))) => Ok(bytes_of(s)),
            Ok(_) => Err(RenderErrorView::PartialNameResolve(c.open.start)),
        },
    }
}

/// What a statement that is no partial is written as: the value that its
/// call gives, if it gives one, escaped where the statement has two braces.
pub open spec fn statement_text<H: Helper, B, E: Escape>(
    reg: Registry<H, B, E>,
    src: Seq<u8>,
    root: JsonView,
    scopes: Seq<ScopeView>,
    c: CallView,
) -> Result<Seq<u8>, RenderErrorView> {
    match eval_call(reg, src, root, scopes, c) {
        Err(e) => Err(e),
        Ok(None) => Ok(Seq::empty()),
        Ok(Some(v)) => Ok(written(reg, v, c.escaped)),
    }
}

/// The scopes in which a block that is no partial renders its body: those
/// that the block helper of its name gives, or, where there is none, those
/// that go with the value that its call gives.
pub open spec fn block_plan<H: Helper, B: BlockHelper, E>(
    reg: Registry<H, B, E>,
    src: Seq<u8>,
    root: JsonView,
    scopes: Seq<ScopeView>,
    c: CallView,
) -> Result<Seq<ScopeView>, RenderErrorView> {
    match block_helper_of(reg, src, c) {
        Some((h, name)) => match context_of(reg, src, root, scopes, name, c) {
            Err(e) => Err(e),
            Ok(ctx) => match h.plan(ctx) {
                Err(e) => Err(RenderErrorView::Helper(e)),
                Ok(plan) => Ok(plan),
            },
        },
        None => match eval_call(reg, src, root, scopes, c) {
            Err(e) => Err(e),
            Ok(v) => Ok(implicit_scopes(v)),
        },
    }
}

/// The template that a partial asks for.
pub open spec fn partial_of<H: Helper, B, E>(
    reg: Registry<H, B, E>,
    src: Seq<u8>,
    root: JsonView,
    scopes: Seq<ScopeView>,
    c: CallView,
) -> Result<Template, RenderErrorView> {
    match partial_name(reg, src, root, scopes, c) {
        Err(e) => Err(e),
        Ok(name) => match lookup(reg.templates.entries@, name) {
            None => Err(RenderErrorView::PartialNotFound(text_of(name))),
            Some(t) => Ok(t),
        },
    }
}

/// What a node renders to. A partial renders to what the template of its
/// name renders to against the same data and scopes. `before` and `after` say whether the nodes
/// beside it ask for its text to be trimmed; `depth` is how deep partials
/// may still be nested.
pub open spec fn render_node<H: Helper, B: BlockHelper, E: Escape>(
    reg: Registry<H, B, E>,
    src: Seq<u8>,
    root: JsonView,
    scopes: Seq<ScopeView>,
    n: NodeView,
    before: bool,
    after: bool,
    depth: nat,
) -> Result<Seq<u8>, RenderErrorView>
    decreases depth, n, 0int,
{
    match n {
        NodeView::Text(t) => Ok(trimmed(t.span.of(src), before, after)),
        NodeView::RawBlock(b) => Ok(between(src, b)),
        NodeView::RawStatement(b) => Ok(unescaped_statement(src, b)),
        NodeView::RawComment(_) => Ok(Seq::empty()),
        NodeView::Comment(_) => Ok(Seq::empty()),
        NodeView::Document(b) => render_nodes(
            reg,
            src,
            root,
            scopes,
            b.nodes,
            0,
            false,
            false,
            Seq::empty(),
            depth,
        ),
        NodeView::Statement(c) => if c.partial {
            match partial_of(reg, src, root, scopes, c) {
                Err(e) => Err(e),
                Ok(t) => if depth == 0 {
                    Err(RenderErrorView::PartialDepth)
                } else {
                    render_node(
                        reg,
                        t.source@,
                        root,
                        scopes,
                        t.node@,
                        false,
                        false,
                        (depth - 1) as nat,
                    )
                },
            }
        } else {
            statement_text(reg, src, root, scopes, c)
        },
        NodeView::Block(b) => match b.call {
            None => Ok(Seq::empty()),
            Some(c) => if c.partial {
                match partial_of(reg, src, root, scopes, c) {
                    Err(e) => Err(e),
                    Ok(t) => if depth == 0 {
                        Err(RenderErrorView::PartialDepth)
                    } else {
                        render_node(
                            reg,
                            t.source@,
                            root,
                            scopes,
                            t.node@,
                            false,
                            false,
                            (depth - 1) as nat,
                        )
                    },
                }
            } else {
                match block_plan(reg, src, root, scopes, c) {
                    Err(e) => Err(e),
                    Ok(plan) => render_each(reg, src, root, scopes, b, plan, 0, Seq::empty(), depth),
                }
            },
        },
    }
}

/// What the nodes from index `i` on render to, after `acc`. Each node is
/// rendered with the trim flags of the nodes beside it; `lead` and `trail`
/// stand for what is before the first and after the last node.
pub open spec fn render_nodes<H: Helper, B: BlockHelper, E: Escape>(
    reg: Registry<H, B, E>,
    src: Seq<u8>,
    root: JsonView,
    scopes: Seq<ScopeView>,
    nodes: Seq<NodeView>,
    i: int,
    lead: bool,
    trail: bool,
    acc: Seq<u8>,
    depth: nat,
) -> Result<Seq<u8>, RenderErrorView>
    decreases depth, nodes, nodes.len() - i,
{
    if i < 0 || i >= nodes.len() {
        Ok(acc)
    } else {
        let before = if i == 0 {
            lead
        } else {
            trim_after(src, nodes[i - 1])
        };
        let after = if i + 1 == nodes.len() {
            trail
        } else {
            trim_before(src, nodes[i + 1])
        };
        match render_node(reg, src, root, scopes, nodes[i], before, after, depth) {
            Err(e) => Err(e),
            Ok(x) => render_nodes(reg, src, root, scopes, nodes, i + 1, lead, trail, acc + x, depth),
        }
    }
}

/// What the body of a block renders to in each of the scopes of `plan`
/// from index `k` on, after `acc`. Each scope is pushed for the body and
/// popped after it.
pub open spec fn render_each<H: Helper, B: BlockHelper, E: Escape>(
    reg: Registry<H, B, E>,
    src: Seq<u8>,
    root: JsonView,
    scopes: Seq<ScopeView>,
    b: BlockView,
    plan: Seq<ScopeView>,
    k: int,
    acc: Seq<u8>,
    depth: nat,
) -> Result<Seq<u8>, RenderErrorView>
    decreases depth, b, plan.len() - k,
{
    if k < 0 || k >= plan.len() {
        Ok(acc)
    } else {
        match render_nodes(
            reg,
            src,
            root,
            scopes.push(plan[k]),
            b.nodes,
            0,
            trim_after_open(src, b),
            trim_before_close(src, b),
            Seq::empty(),
            depth,
        ) {
            Err(e) => Err(e),
            Ok(x) => render_each(reg, src, root, scopes, b, plan, k + 1, acc + x, depth),
        }
    }
}

/// What rendering a node writes, whether or not it fails. Rendering stops
/// at the first error: what was written before the error is written, and
/// nothing after it.
pub open spec fn node_output<H: Helper, B: BlockHelper, E: Escape>(
    reg: Registry<H, B, E>,
    src: Seq<u8>,
    root: JsonView,
    scopes: Seq<ScopeView>,
    n: NodeView,
    before: bool,
    after: bool,
    depth: nat,
) -> Seq<u8>
    decreases depth, n, 0int,
{
    match n {
        NodeView::Document(b) => nodes_output(
            reg,
            src,
            root,
            scopes,
            b.nodes,
            0,
            false,
            false,
            Seq::empty(),
            depth,
        ),
        NodeView::Statement(c) => if c.partial {
            match partial_of(reg, src, root, scopes, c) {
                Err(_) => Seq::empty(),
                Ok(t) => if depth == 0 {
                    Seq::empty()
                } else {
                    node_output(
                        reg,
                        t.source@,
                        root,
                        scopes,
                        t.node@,
                        false,
                        false,
                        (depth - 1) as nat,
                    )
                },
            }
        } else {
            or_nothing(statement_text(reg, src, root, scopes, c))
        },
        NodeView::Block(b) => match b.call {
            None => Seq::empty(),
            Some(c) => if c.partial {
                match partial_of(reg, src, root, scopes, c) {
                    Err(_) => Seq::empty(),
                    Ok(t) => if depth == 0 {
                        Seq::empty()
                    } else {
                        node_output(
                            reg,
                            t.source@,
                            root,
                            scopes,
                            t.node@,
                            false,
                            false,
                            (depth - 1) as nat,
                        )
                    },
                }
            } else {
                match block_plan(reg, src, root, scopes, c) {
                    Err(_) => Seq::empty(),
                    Ok(plan) => each_output(reg, src, root, scopes, b, plan, 0, Seq::empty(), depth),
                }
            },
        },
        _ => or_nothing(render_node(reg, src, root, scopes, n, before, after, depth)),
    }
}

/// The text that was rendered, or nothing where rendering failed.
pub open spec fn or_nothing(r: Result<Seq<u8>, RenderErrorView>) -> Seq<u8> {
    match r {
        Ok(x) => x,
        Err(_) => Seq::empty(),
    }
}

/// What rendering the nodes from index `i` on writes after `acc`, whether
/// or not it fails: the nodes after one that fails write nothing.
pub open spec fn nodes_output<H: Helper, B: BlockHelper, E: Escape>(
    reg: Registry<H, B, E>,
    src: Seq<u8>,
    root: JsonView,
    scopes: Seq<ScopeView>,
    nodes: Seq<NodeView>,
    i: int,
    lead: bool,
    trail: bool,
    acc: Seq<u8>,
    depth: nat,
) -> Seq<u8>
    decreases depth, nodes, nodes.len() - i,
{
    if i < 0 || i >= nodes.len() {
        acc
    } else {
        let before = if i == 0 {
            lead
        } else {
            trim_after(src, nodes[i - 1])
        };
        let after = if i + 1 == nodes.len() {
            trail
        } else {
            trim_before(src, nodes[i + 1])
        };
        let x = node_output(reg, src, root, scopes, nodes[i], before, after, depth);
        match render_node(reg, src, root, scopes, nodes[i], before, after, depth) {
            Err(_) => acc + x,
            Ok(_) => nodes_output(reg, src, root, scopes, nodes, i + 1, lead, trail, acc + x, depth),
        }
    }
}

/// What rendering the body of a block in each of the scopes of `plan`
/// from index `k` on writes after `acc`, whether or not it fails.
pub open spec fn each_output<H: Helper, B: BlockHelper, E: Escape>(
    reg: Registry<H, B, E>,
    src: Seq<u8>,
    root: JsonView,
    scopes: Seq<ScopeView>,
    b: BlockView,
    plan: Seq<ScopeView>,
    k: int,
    acc: Seq<u8>,
    depth: nat,
) -> Seq<u8>
    decreases depth, b, plan.len() - k,
{
    if k < 0 || k >= plan.len() {
        acc
    } else {
        let x = nodes_output(
            reg,
            src,
            root,
            scopes.push(plan[k]),
            b.nodes,
            0,
            trim_after_open(src, b),
            trim_before_close(src, b),
            Seq::empty(),
            depth,
        );
        match render_nodes(
            reg,
            src,
            root,
            scopes.push(plan[k]),
            b.nodes,
            0,
            trim_after_open(src, b),
            trim_before_close(src, b),
            Seq::empty(),
            depth,
        ) {
            Err(_) => acc + x,
            Ok(_) => each_output(reg, src, root, scopes, b, plan, k + 1, acc + x, depth),
        }
    }
}

/// Where rendering a node succeeds, what it writes is what it renders to.
pub proof fn lemma_node_output<H: Helper, B: BlockHelper, E: Escape>(
    reg: Registry<H, B, E>,
    src: Seq<u8>,
    root: JsonView,
    scopes: Seq<ScopeView>,
    n: NodeView,
    before: bool,
    after: bool,
    depth: nat,
)
    ensures
        render_node(reg, src, root, scopes, n, before, after, depth) matches Ok(x) ==> node_output(
            reg,
            src,
            root,
            scopes,
            n,
            before,
            after,
            depth,
        ) == x,
    decreases depth, n, 0int,
{
    reveal_with_fuel(render_node, 2);
    reveal_with_fuel(node_output, 2);
    match n {
        NodeView::Document(b) => {
            lemma_nodes_output(reg, src, root, scopes, b.nodes, 0, false, false, Seq::empty(), depth);
        },
        NodeView::Statement(c) => {
            if c.partial {
                match partial_of(reg, src, root, scopes, c) {
                    Ok(t) => {
                        if depth > 0 {
                            lemma_node_output(
                                reg,
                                t.source@,
                                root,
                                scopes,
                                t.node@,
                                false,
                                false,
                                (depth - 1) as nat,
                            );
                        }
                    },
                    Err(_) => {},
                }
            }
        },
        NodeView::Block(b) => match b.call {
            None => {},
            Some(c) => {
                if c.partial {
                    match partial_of(reg, src, root, scopes, c) {
                        Ok(t) => {
                            if depth > 0 {
                                lemma_node_output(
                                    reg,
                                    t.source@,
                                    root,
                                    scopes,
                                    t.node@,
                                    false,
                                    false,
                                    (depth - 1) as nat,
                                );
                            }
                        },
                        Err(_) => {},
                    }
                } else {
                    match block_plan(reg, src, root, scopes, c) {
                        Ok(plan) => {
                            lemma_each_output(
                                reg,
                                src,
                                root,
                                scopes,
                                b,
                                plan,
                                0,
                                Seq::empty(),
                                depth,
                            );
                        },
                        Err(_) => {},
                    }
                }
            },
        },
        _ => {},
    }
}

/// Where rendering nodes succeeds, what it writes is what they render to.
pub proof fn lemma_nodes_output<H: Helper, B: BlockHelper, E: Escape>(
    reg: Registry<H, B, E>,
    src: Seq<u8>,
    root: JsonView,
    scopes: Seq<ScopeView>,
    nodes: Seq<NodeView>,
    i: int,
    lead: bool,
    trail: bool,
    acc: Seq<u8>,
    depth: nat,
)
    ensures
        render_nodes(reg, src, root, scopes, nodes, i, lead, trail, acc, depth) matches Ok(x)
            ==> nodes_output(reg, src, root, scopes, nodes, i, lead, trail, acc, depth) == x,
    decreases depth, nodes, nodes.len() - i,
{
    reveal_with_fuel(render_nodes, 2);
    reveal_with_fuel(nodes_output, 2);
    if 0 <= i < nodes.len() {
        let before = if i == 0 {
            lead
        } else {
            trim_after(src, nodes[i - 1])
        };
        let after = if i + 1 == nodes.len() {
            trail
        } else {
            trim_before(src, nodes[i + 1])
        };
        lemma_node_output(reg, src, root, scopes, nodes[i], before, after, depth);
        match render_node(reg, src, root, scopes, nodes[i], before, after, depth) {
            Ok(x) => {
                lemma_nodes_output(reg, src, root, scopes, nodes, i + 1, lead, trail, acc + x, depth);
            },
            Err(_) => {},
        }
    }
}

/// Where rendering the body of a block in each of its scopes succeeds,
/// what it writes is what it renders to.
pub proof fn lemma_each_output<H: Helper, B: BlockHelper, E: Escape>(
    reg: Registry<H, B, E>,
    src: Seq<u8>,
    root: JsonView,
    scopes: Seq<ScopeView>,
    b: BlockView,
    plan: Seq<ScopeView>,
    k: int,
    acc: Seq<u8>,
    depth: nat,
)
    ensures
        render_each(reg, src, root, scopes, b, plan, k, acc, depth) matches Ok(x) ==> each_output(
            reg,
            src,
            root,
            scopes,
            b,
            plan,
            k,
            acc,
            depth,
        ) == x,
    decreases depth, b, plan.len() - k,
{
    reveal_with_fuel(render_each, 2);
    reveal_with_fuel(each_output, 2);
    if 0 <= k < plan.len() {
        let lead = trim_after_open(src, b);
        let trail = trim_before_close(src, b);
        lemma_nodes_output(
            reg,
            src,
            root,
            scopes.push(plan[k]),
            b.nodes,
            0,
            lead,
            trail,
            Seq::empty(),
            depth,
        );
        match render_nodes(
            reg,
            src,
            root,
            scopes.push(plan[k]),
            b.nodes,
            0,
            lead,
            trail,
            Seq::empty(),
            depth,
        ) {
            Ok(x) => {
                lemma_each_output(reg, src, root, scopes, b, plan, k + 1, acc + x, depth);
            },
            Err(_) => {},
        }
    }
}

/// A literal argument is taken as it is: its value in a call is the value
/// that was written, whatever the data and the scopes are.
pub proof fn lemma_literal_argument<H: Helper, B, E>(
    reg: Registry<H, B, E>,
    src: Seq<u8>,
    root: JsonView,
    scopes: Seq<ScopeView>,
    literal: JsonView,
)
    ensures
        eval_param(reg, src, root, scopes, ParameterView::Json(literal)) == Ok::<
            JsonView,
            RenderErrorView,
        >(literal),
{
    reveal_with_fuel(eval_param, 2);
}

/// Rendering is deterministic: two templates with the same source and the
/// same document render to the same against the same data, be it a text
/// or an error.
pub proof fn lemma_render_deterministic<H: Helper, B: BlockHelper, E: Escape>(
    reg: Registry<H, B, E>,
    first: Template,
    second: Template,
    data: JsonView,
    depth: nat,
)
    requires
        first.source@ == second.source@,
        first.node@ == second.node@,
    ensures
        render_node(reg, first.source@, data, Seq::empty(), first.node@, false, false, depth)
            == render_node(
            reg,
            second.source@,
            data,
            Seq::empty(),
            second.node@,
            false,
            false,
            depth,
        ),
{
}

} // verus!
