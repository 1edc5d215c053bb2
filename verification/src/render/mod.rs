//! Rendering: from a syntax tree and data to text.
pub mod context;
pub mod eval;
pub mod plain;
pub mod scope;
pub mod spec;
pub mod utf8;

pub use context::Context;
pub use scope::Scope;

use vstd::prelude::*;
use crate::error::render::{RenderError, RenderErrorView};
use crate::escape::Escape;
use crate::helper::with::{each_plan, when_plan, with_plan};
use crate::helper::{BlockHelper, Helper};
use crate::json::Json;
use crate::lexer::grammar::TILDE;
use crate::lexer::scan::{lemma_len_fits, peek};
use crate::parser::ast::{
    block_view, call_view, lemma_node_views, node_view, node_views, Block, BlockType, Call, Node,
    Path,
};
use crate::registry::Registry;
use crate::render::eval::{owned_view, string_of};
use crate::render::scope::scope_views;
use crate::render::spec::{
    between, block_plan, block_trim_before, each_output, has_tilde, implicit_scopes, node_output,
    nodes_output, partial_of, render_each, render_node, render_nodes, resolve, statement_text,
    trim_after, trim_after_open, trim_before, trim_before_close, unescaped_statement, written,
};
use crate::table::lookup;
use crate::template::Template;
use crate::text::{append, str_bytes, trim, Span};

verus! {

/// What the evaluation of a statement gives.
#[derive(Debug, PartialEq, Eq)]
pub enum EvalResult {
    /// A value, or none.
    Json(Option<Json>),
}

/// Whether one of the bytes that a span covers is `~`.
pub fn span_has_tilde(src: &[u8], span: Span) -> (r: bool)
    ensures
        r == has_tilde(src@, span),
{
    proof {
        lemma_len_fits(src);
    }
    let end = if span.end < src.len() {
        span.end
    } else {
        src.len()
    };
    let mut i: usize = span.start;
    while i < end
        invariant
            end <= src@.len(),
            end <= span.end,
            end == span.end || end == src@.len(),
            span.start <= i,
            forall|k: int| span.start <= k < i ==> crate::lexer::grammar::byte_at(src@, k) != TILDE,
        decreases end - i,
    {
        if peek(src, i, 0) == TILDE {
            return true;
        }
        i += 1;
    }
    false
}

/// Whether the byte at `i` is `~`.
fn tilde_at(src: &[u8], i: usize) -> (r: bool)
    ensures
        r == (crate::lexer::grammar::byte_at(src@, i as int) == TILDE),
{
    proof {
        lemma_len_fits(src);
    }
    i < src.len() && peek(src, i, 0) == TILDE
}

/// Whether the byte `k` places before `i` is `~`.
fn tilde_before(src: &[u8], i: usize, k: usize) -> (r: bool)
    ensures
        r == (crate::lexer::grammar::byte_at(src@, i - k) == TILDE),
{
    i >= k && tilde_at(src, i - k)
}

impl Block {
    /// Whether the opening sigil of the block holds `~`.
    pub fn trim_before(&self, src: &[u8]) -> (r: bool)
        ensures
            r == block_trim_before(src@, self@),
    {
        proof {
            reveal_with_fuel(block_view, 2);
            reveal_with_fuel(call_view, 2);
        }
        match &self.call {
            Some(c) => span_has_tilde(src, c.open),
            None => false,
        }
    }

    /// Whether the opening tag asks for the start of the body to be trimmed.
    pub fn trim_after_open(&self, src: &[u8]) -> (r: bool)
        ensures
            r == trim_after_open(src@, self@),
    {
        proof {
            reveal_with_fuel(block_view, 2);
            reveal_with_fuel(call_view, 2);
        }
        match &self.call {
            Some(c) => tilde_at(src, c.close.start),
            None => false,
        }
    }

    /// Whether the closing tag asks for the end of the body to be trimmed.
    pub fn trim_before_close(&self, src: &[u8]) -> (r: bool)
        ensures
            r == trim_before_close(src@, self@),
    {
        proof {
            reveal_with_fuel(block_view, 2);
            lemma_len_fits(src);
        }
        match self.close {
            Some(s) => s.start <= src.len() && peek(src, s.start, 2) == TILDE,
            None => false,
        }
    }

    /// Whether `~` stands before the closing braces of the closing tag.
    pub fn trim_after_close(&self, src: &[u8]) -> (r: bool)
        ensures
            r == crate::render::spec::trim_after_close(src@, self@),
    {
        proof {
            reveal_with_fuel(block_view, 2);
        }
        match self.close {
            Some(s) => match self.kind {
                BlockType::Scoped => tilde_before(src, s.end, 3),
                BlockType::RawBlock => tilde_before(src, s.end, 5),
                _ => false,
            },
            None => false,
        }
    }

    /// What stands between the opening and the closing tag.
    pub fn between<'a>(&self, src: &'a [u8]) -> (r: &'a [u8])
        ensures
            r@ == between(src@, self@),
    {
        proof {
            reveal_with_fuel(block_view, 2);
        }
        match (self.open, self.close) {
            (Some(o), Some(c)) => (Span { start: o.end, end: c.start }).slice(src),
            _ => (Span { start: 0, end: 0 }).slice(src),
        }
    }

    /// The text of an escaped statement without its backslash.
    pub fn unescaped<'a>(&self, src: &'a [u8]) -> (r: &'a [u8])
        ensures
            r@ == unescaped_statement(src@, self@),
    {
        proof {
            reveal_with_fuel(block_view, 2);
        }
        match (self.open, self.close) {
            (Some(o), Some(c)) => if o.start < usize::MAX {
                (Span { start: o.start + 1, end: c.end }).slice(src)
            } else {
                (Span { start: 0, end: 0 }).slice(src)
            },
            _ => (Span { start: 0, end: 0 }).slice(src),
        }
    }
}

impl Node {
    /// Whether the node asks for the text before it to be trimmed.
    pub fn trim_before(&self, src: &[u8]) -> (r: bool)
        ensures
            r == trim_before(src@, self@),
    {
        proof {
            reveal_with_fuel(node_view, 2);
            reveal_with_fuel(call_view, 2);
        }
        match self {
            Node::Statement(c) => span_has_tilde(src, c.open),
            Node::Block(b) => b.trim_before(src),
            Node::RawBlock(b) => b.trim_before(src),
            _ => false,
        }
    }

    /// Whether the node asks for the text after it to be trimmed.
    pub fn trim_after(&self, src: &[u8]) -> (r: bool)
        ensures
            r == trim_after(src@, self@),
    {
        proof {
            reveal_with_fuel(node_view, 2);
            reveal_with_fuel(call_view, 2);
            reveal_with_fuel(block_view, 2);
        }
        match self {
            Node::Statement(c) => tilde_at(src, c.close.start),
            Node::Block(b) => b.trim_after_close(src),
            Node::RawBlock(b) => b.trim_after_close(src),
            _ => false,
        }
    }
}

/// Writes a value: its text, escaped if asked for.
pub fn write_value<H, B, E: Escape>(
    reg: &Registry<H, B, E>,
    v: &Json,
    escape: bool,
    out: &mut Vec<u8>,
)
    ensures
        final(out)@ == old(out)@ + written(*reg, v@, escape),
{
    if escape {
        let mut text: Vec<u8> = Vec::new();
        v.write_text(&mut text);
        assert(text@ =~= crate::json::text_bytes(v@));
        let escaped = reg.escape.escape(text.as_slice());
        append(out, escaped.as_slice());
    } else {
        v.write_text(out);
    }
}

/// The template that a partial asks for.
pub fn find_partial<'a, H: Helper, B, E>(
    reg: &'a Registry<H, B, E>,
    src: &[u8],
    root: &Json,
    scopes: &Vec<Scope>,
    c: &Call,
) -> (r: Result<&'a Template, RenderError>)
    ensures
        match partial_of(*reg, src@, root@, scope_views(scopes@), c@) {
            Ok(t) => r matches Ok(u) && *u == t,
            Err(e) => r matches Err(x) && x@ == e,
        },
{
    proof {
        reveal_with_fuel(call_view, 2);
        reveal_with_fuel(crate::parser::ast::target_view, 2);
    }
    let name: Vec<u8> = match &c.target {
        crate::parser::ast::CallTarget::Path(p) => match crate::parser::simple_name_of(p) {
            Some(n) => vstd::slice::slice_to_vec(n.slice(src)),
            None => {
                return Err(RenderError::PartialNameResolve(c.open.start));
            },
        },
        crate::parser::ast::CallTarget::SubExpr(inner) => match crate::render::eval::call(
            reg,
            src,
            root,
            scopes,
            inner,
        ) {
            Err(e) => {
                return Err(e);
            },
            Ok(Some(Json::String(s))) => vstd::slice::slice_to_vec(str_bytes(s.as_str())),
            Ok(_) => {
                return Err(RenderError::PartialNameResolve(c.open.start));
            },
        },
    };
    match reg.templates.get(name.as_slice()) {
        None => Err(RenderError::PartialNotFound(string_of(name.as_slice()))),
        Some(t) => Ok(t),
    }
}

/// Renders a node, adding what it gives to `out`. The scopes are the same
/// after as before.
pub fn node<H: Helper, B: BlockHelper, E: Escape>(
    reg: &Registry<H, B, E>,
    src: &[u8],
    root: &Json,
    scopes: &mut Vec<Scope>,
    out: &mut Vec<u8>,
    n: &Node,
    before: bool,
    after: bool,
    depth: usize,
) -> (r: Result<(), RenderError>)
    ensures
        match render_node(
            *reg,
            src@,
            root@,
            scope_views(old(scopes)@),
            n@,
            before,
            after,
            depth as nat,
        ) {
            Ok(b) => r is Ok && final(out)@ == old(out)@ + b,
            Err(e) => r matches Err(x) && x@ == e && final(out)@ == old(out)@ + node_output(
                *reg,
                src@,
                root@,
                scope_views(old(scopes)@),
                n@,
                before,
                after,
                depth as nat,
            ),
        },
        scope_views(final(scopes)@) == scope_views(old(scopes)@),
    decreases depth, n, 0int,
{
    proof {
        reveal_with_fuel(node_view, 2);
        reveal_with_fuel(block_view, 2);
        reveal_with_fuel(render_node, 2);
        reveal_with_fuel(node_output, 2);
        assert(out@ =~= old(out)@ + Seq::<u8>::empty());
    }
    match n {
        Node::Text(t) => {
            append(out, trim(t.span.slice(src), before, after));
            Ok(())
        },
        Node::RawBlock(b) => {
            append(out, b.between(src));
            Ok(())
        },
        Node::RawStatement(b) => {
            append(out, b.unescaped(src));
            Ok(())
        },
        Node::RawComment(_) => {
            assert(out@ =~= old(out)@ + Seq::<u8>::empty());
            Ok(())
        },
        Node::Comment(_) => {
            assert(out@ =~= old(out)@ + Seq::<u8>::empty());
            Ok(())
        },
        Node::Document(b) => nodes(reg, src, root, scopes, out, &b.nodes, false, false, depth),
        Node::Statement(c) => {
            if c.partial {
                match find_partial(reg, src, root, scopes, c) {
                    Err(e) => Err(e),
                    Ok(t) => {
                        if depth == 0 {
                            Err(RenderError::PartialDepth)
                        } else {
                            node(
                                reg,
                                t.source.as_slice(),
                                root,
                                scopes,
                                out,
                                &t.node,
                                false,
                                false,
                                depth - 1,
                            )
                        }
                    },
                }
            } else {
                statement(reg, src, root, scopes, out, c)
            }
        },
        Node::Block(b) => match &b.call {
            None => {
                assert(out@ =~= old(out)@ + Seq::<u8>::empty());
                Ok(())
            },
            Some(c) => {
                if c.partial {
                    match find_partial(reg, src, root, scopes, c) {
                        Err(e) => Err(e),
                        Ok(t) => {
                            if depth == 0 {
                                Err(RenderError::PartialDepth)
                            } else {
                                node(
                                    reg,
                                    t.source.as_slice(),
                                    root,
                                    scopes,
                                    out,
                                    &t.node,
                                    false,
                                    false,
                                    depth - 1,
                                )
                            }
                        },
                    }
                } else {
                    match block(reg, src, root, scopes, c) {
                        Err(e) => Err(e),
                        Ok(plan) => each(reg, src, root, scopes, out, b, &plan, depth),
                    }
                }
            },
        },
    }
}

/// Writes what a statement that is no partial gives.
pub fn statement<H: Helper, B, E: Escape>(
    reg: &Registry<H, B, E>,
    src: &[u8],
    root: &Json,
    scopes: &Vec<Scope>,
    out: &mut Vec<u8>,
    c: &Call,
) -> (r: Result<(), RenderError>)
    ensures
        match statement_text(*reg, src@, root@, scope_views(scopes@), c@) {
            Ok(b) => r is Ok && final(out)@ == old(out)@ + b,
            Err(e) => r matches Err(x) && x@ == e && final(out)@ == old(out)@,
        },
{
    proof {
        reveal_with_fuel(call_view, 2);
    }
    match crate::render::eval::call(reg, src, root, scopes, c) {
        Err(e) => Err(e),
        Ok(None) => {
            assert(out@ =~= old(out)@ + Seq::<u8>::empty());
            Ok(())
        },
        Ok(Some(v)) => {
            write_value(reg, &v, c.escaped, out);
            Ok(())
        },
    }
}

/// The scopes in which a block that is no partial renders its body.
pub fn block<H: Helper, B: BlockHelper, E>(
    reg: &Registry<H, B, E>,
    src: &[u8],
    root: &Json,
    scopes: &Vec<Scope>,
    c: &Call,
) -> (r: Result<Vec<Scope>, RenderError>)
    ensures
        match block_plan(*reg, src@, root@, scope_views(scopes@), c@) {
            Ok(p) => r matches Ok(q) && scope_views(q@) == p,
            Err(e) => r matches Err(x) && x@ == e,
        },
{
    match crate::render::eval::find_block_helper(reg, src, c) {
        Some((h, name)) => match crate::render::eval::context(reg, src, root, scopes, name, c) {
            Err(e) => Err(e),
            Ok(ctx) => match h.call(&ctx) {
                Err(e) => Err(RenderError::Helper(e)),
                Ok(plan) => Ok(plan),
            },
        },
        None => match crate::render::eval::call(reg, src, root, scopes, c) {
            Err(e) => Err(e),
            Ok(v) => Ok(implicit_plan(&v)),
        },
    }
}

/// The scopes in which a block without a helper renders its body.
pub fn implicit_plan(v: &Option<Json>) -> (r: Vec<Scope>)
    ensures
        scope_views(r@) == implicit_scopes(owned_view(*v)),
{
    match v {
        None => {
            let r: Vec<Scope> = Vec::new();
            assert(scope_views(r@) =~= Seq::empty());
            r
        },
        Some(x) => match x {
            Json::Array(_) => each_plan(x),
            Json::Object(_) => with_plan(x),
            _ => when_plan(x.is_truthy()),
        },
    }
}

/// Renders nodes that stand side by side.
pub fn nodes<H: Helper, B: BlockHelper, E: Escape>(
    reg: &Registry<H, B, E>,
    src: &[u8],
    root: &Json,
    scopes: &mut Vec<Scope>,
    out: &mut Vec<u8>,
    list: &Vec<Node>,
    lead: bool,
    trail: bool,
    depth: usize,
) -> (r: Result<(), RenderError>)
    ensures
        match render_nodes(
            *reg,
            src@,
            root@,
            scope_views(old(scopes)@),
            node_views(list@),
            0,
            lead,
            trail,
            Seq::empty(),
            depth as nat,
        ) {
            Ok(b) => r is Ok && final(out)@ == old(out)@ + b,
            Err(e) => r matches Err(x) && x@ == e && final(out)@ == old(out)@ + nodes_output(
                *reg,
                src@,
                root@,
                scope_views(old(scopes)@),
                node_views(list@),
                0,
                lead,
                trail,
                Seq::empty(),
                depth as nat,
            ),
        },
        scope_views(final(scopes)@) == scope_views(old(scopes)@),
    decreases depth, list, 0int,
{
    let ghost sv = scope_views(scopes@);
    let ghost goal = render_nodes(
        *reg,
        src@,
        root@,
        sv,
        node_views(list@),
        0,
        lead,
        trail,
        Seq::empty(),
        depth as nat,
    );
    let ghost written = nodes_output(
        *reg,
        src@,
        root@,
        sv,
        node_views(list@),
        0,
        lead,
        trail,
        Seq::empty(),
        depth as nat,
    );
    let ghost mut acc: Seq<u8> = Seq::empty();
    let n = list.len();
    let mut i: usize = 0;
    proof {
        lemma_node_views(list@);
        assert(out@ =~= old(out)@ + acc);
    }
    while i < n
        invariant
            i <= n,
            n == list.len(),
            node_views(list@).len() == n,
            sv == scope_views(old(scopes)@),
            scope_views(scopes@) == sv,
            out@ == old(out)@ + acc,
            goal == render_nodes(
                *reg,
                src@,
                root@,
                sv,
                node_views(list@),
                0,
                lead,
                trail,
                Seq::empty(),
                depth as nat,
            ),
            goal == render_nodes(
                *reg,
                src@,
                root@,
                sv,
                node_views(list@),
                i as int,
                lead,
                trail,
                acc,
                depth as nat,
            ),
            written == nodes_output(
                *reg,
                src@,
                root@,
                sv,
                node_views(list@),
                0,
                lead,
                trail,
                Seq::empty(),
                depth as nat,
            ),
            written == nodes_output(
                *reg,
                src@,
                root@,
                sv,
                node_views(list@),
                i as int,
                lead,
                trail,
                acc,
                depth as nat,
            ),
        decreases n - i,
    {
        proof {
            reveal_with_fuel(render_nodes, 2);
            reveal_with_fuel(nodes_output, 2);
            lemma_node_views(list@);
            assert(decreases_to!(list => list[i as int]));
        }
        let before = if i == 0 {
            lead
        } else {
            list[i - 1].trim_after(src)
        };
        let after = if i + 1 == n {
            trail
        } else {
            list[i + 1].trim_before(src)
        };
        let ghost start = out@;
        match node(reg, src, root, scopes, out, &list[i], before, after, depth) {
            Err(e) => {
                proof {
                    let x = node_output(
                        *reg,
                        src@,
                        root@,
                        sv,
                        list[i as int]@,
                        before,
                        after,
                        depth as nat,
                    );
                    assert(out@ =~= old(out)@ + (acc + x));
                }
                return Err(e);
            },
            Ok(()) => {
                proof {
                    crate::render::spec::lemma_node_output(
                        *reg,
                        src@,
                        root@,
                        sv,
                        list[i as int]@,
                        before,
                        after,
                        depth as nat,
                    );
                    let x = render_node(
                        *reg,
                        src@,
                        root@,
                        sv,
                        list[i as int]@,
                        before,
                        after,
                        depth as nat,
                    )->Ok_0;
                    assert(out@ =~= old(out)@ + (acc + x));
                    acc = acc + x;
                }
            },
        }
        i += 1;
    }
    proof {
        reveal_with_fuel(render_nodes, 2);
    }
    Ok(())
}

/// Renders the body of a block once in each of the scopes of `plan`.
pub fn each<H: Helper, B: BlockHelper, E: Escape>(
    reg: &Registry<H, B, E>,
    src: &[u8],
    root: &Json,
    scopes: &mut Vec<Scope>,
    out: &mut Vec<u8>,
    b: &Block,
    plan: &Vec<Scope>,
    depth: usize,
) -> (r: Result<(), RenderError>)
    ensures
        match render_each(
            *reg,
            src@,
            root@,
            scope_views(old(scopes)@),
            b@,
            scope_views(plan@),
            0,
            Seq::empty(),
            depth as nat,
        ) {
            Ok(x) => r is Ok && final(out)@ == old(out)@ + x,
            Err(e) => r matches Err(x) && x@ == e && final(out)@ == old(out)@ + each_output(
                *reg,
                src@,
                root@,
                scope_views(old(scopes)@),
                b@,
                scope_views(plan@),
                0,
                Seq::empty(),
                depth as nat,
            ),
        },
        scope_views(final(scopes)@) == scope_views(old(scopes)@),
    decreases depth, b, 0int,
{
    let ghost sv = scope_views(scopes@);
    let ghost pv = scope_views(plan@);
    let ghost goal = render_each(*reg, src@, root@, sv, b@, pv, 0, Seq::empty(), depth as nat);
    let ghost written = each_output(*reg, src@, root@, sv, b@, pv, 0, Seq::empty(), depth as nat);
    let ghost mut acc: Seq<u8> = Seq::empty();
    let lead = b.trim_after_open(src);
    let trail = b.trim_before_close(src);
    let n = plan.len();
    let mut k: usize = 0;
    proof {
        assert(out@ =~= old(out)@ + acc);
    }
    while k < n
        invariant
            k <= n,
            n == plan.len(),
            pv == scope_views(plan@),
            sv == scope_views(old(scopes)@),
            scope_views(scopes@) == sv,
            lead == trim_after_open(src@, b@),
            trail == trim_before_close(src@, b@),
            out@ == old(out)@ + acc,
            goal == render_each(*reg, src@, root@, sv, b@, pv, 0, Seq::empty(), depth as nat),
            goal == render_each(*reg, src@, root@, sv, b@, pv, k as int, acc, depth as nat),
            written == each_output(*reg, src@, root@, sv, b@, pv, 0, Seq::empty(), depth as nat),
            written == each_output(*reg, src@, root@, sv, b@, pv, k as int, acc, depth as nat),
        decreases n - k,
    {
        proof {
            reveal_with_fuel(render_each, 2);
            reveal_with_fuel(each_output, 2);
            reveal_with_fuel(block_view, 2);
        }
        let ghost before = scopes@;
        let scope = plan[k].copy();
        scopes.push(scope);
        proof {
            assert(scope_views(scopes@) =~= sv.push(pv[k as int]));
        }
        let result = nodes(reg, src, root, scopes, out, &b.nodes, lead, trail, depth);
        let ghost pushed = scopes@;
        let _ = scopes.pop();
        proof {
            assert(scope_views(scopes@) =~= scope_views(pushed).drop_last());
            assert(sv.push(pv[k as int]).drop_last() =~= sv);
        }
        match result {
            Err(e) => {
                proof {
                    let x = nodes_output(
                        *reg,
                        src@,
                        root@,
                        sv.push(pv[k as int]),
                        b@.nodes,
                        0,
                        lead,
                        trail,
                        Seq::empty(),
                        depth as nat,
                    );
                    assert(out@ =~= old(out)@ + (acc + x));
                }
                return Err(e);
            },
            Ok(()) => {
                proof {
                    crate::render::spec::lemma_nodes_output(
                        *reg,
                        src@,
                        root@,
                        sv.push(pv[k as int]),
                        b@.nodes,
                        0,
                        lead,
                        trail,
                        Seq::empty(),
                        depth as nat,
                    );
                    let x = render_nodes(
                        *reg,
                        src@,
                        root@,
                        sv.push(pv[k as int]),
                        b@.nodes,
                        0,
                        lead,
                        trail,
                        Seq::empty(),
                        depth as nat,
                    )->Ok_0;
                    assert(out@ =~= old(out)@ + (acc + x));
                    acc = acc + x;
                }
            },
        }
        k += 1;
    }
    proof {
        reveal_with_fuel(render_each, 2);
    }
    Ok(())
}

/// A render session: a template's source, the registry, the data, the
/// scopes that are open and what has been written.
pub struct Render<'a, H, B, E> {
    pub source: &'a [u8],
    pub registry: &'a Registry<H, B, E>,
    pub root: &'a Json,
    pub scopes: Vec<Scope>,
    pub out: Vec<u8>,
}

impl<'a, H: Helper, B: BlockHelper, E: Escape> Render<'a, H, B, E> {
    /// A session in which nothing has been written and no scope is open.
    pub fn new(source: &'a [u8], registry: &'a Registry<H, B, E>, root: &'a Json) -> (r: Self)
        ensures
            r.source == source,
            r.registry == registry,
            r.root == root,
            r.scopes@.len() == 0,
            r.out@.len() == 0,
    {
        Render { source, registry, root, scopes: Vec::new(), out: Vec::new() }
    }

    /// What has been written.
    pub fn out(&mut self) -> (r: &mut Vec<u8>)
        ensures
            *r == old(self).out,
            final(self).out == *final(r),
            final(self).scopes == old(self).scopes,
            final(self).source == old(self).source,
            final(self).registry == old(self).registry,
            final(self).root == old(self).root,
    {
        &mut self.out
    }

    /// Writes a text, escaped if asked for, and gives the number of bytes
    /// that were written.
    pub fn write_str(&mut self, s: &[u8], escape: bool) -> (r: usize)
        ensures
            final(self).out@ == old(self).out@ + if escape {
                old(self).registry.escape.apply(s@)
            } else {
                s@
            },
            r == final(self).out@.len() - old(self).out@.len(),
            final(self).scopes == old(self).scopes,
            final(self).source == old(self).source,
            final(self).registry == old(self).registry,
            final(self).root == old(self).root,
    {
        let before = self.out.len();
        if escape {
            let text = self.registry.escape.escape(s);
            append(&mut self.out, text.as_slice());
        } else {
            append(&mut self.out, s);
        }
        self.out.len() - before
    }

    /// Opens a scope.
    pub fn push_scope(&mut self, scope: Scope)
        ensures
            final(self).scopes@ == old(self).scopes@.push(scope),
            final(self).out == old(self).out,
            final(self).source == old(self).source,
            final(self).registry == old(self).registry,
            final(self).root == old(self).root,
    {
        self.scopes.push(scope);
    }

    /// Closes the innermost scope, and hands it back.
    pub fn pop_scope(&mut self) -> (r: Option<Scope>)
        ensures
            old(self).scopes@.len() > 0 ==> r == Some(old(self).scopes@.last())
                && final(self).scopes@ == old(self).scopes@.drop_last(),
            old(self).scopes@.len() == 0 ==> r is None && final(self).scopes@ == old(self).scopes@,
            final(self).out == old(self).out,
            final(self).source == old(self).source,
            final(self).registry == old(self).registry,
            final(self).root == old(self).root,
    {
        self.scopes.pop()
    }

    /// The innermost scope.
    pub fn scope(&self) -> (r: Option<&Scope>)
        ensures
            self.scopes@.len() > 0 ==> r == Some(&self.scopes@.last()),
            self.scopes@.len() == 0 ==> r is None,
    {
        let n = self.scopes.len();
        if n > 0 {
            Some(&self.scopes[n - 1])
        } else {
            None
        }
    }

    /// The innermost scope, to be changed.
    pub fn scope_mut(&mut self) -> (r: Option<&mut Scope>)
        ensures
            old(self).scopes@.len() == 0 ==> r is None && final(self).scopes@ == old(self).scopes@,
            old(self).scopes@.len() > 0 ==> (r matches Some(s) && *s == old(self).scopes@.last()
                && final(self).scopes@ == old(self).scopes@.drop_last().push(*final(s))),
            final(self).out == old(self).out,
            final(self).source == old(self).source,
            final(self).registry == old(self).registry,
            final(self).root == old(self).root,
    {
        let n = self.scopes.len();
        if n > 0 {
            let s = &mut self.scopes[n - 1];
            proof {
                assert(old(self).scopes@.update(n - 1, *final(s)) =~= old(self).scopes@.drop_last().push(
                    *final(s),
                ));
            }
            Some(s)
        } else {
            None
        }
    }

    /// The data.
    pub fn root(&self) -> (r: &Json)
        ensures
            r == self.root,
    {
        self.root
    }

    /// The scopes that are open, the innermost last.
    pub fn scopes(&self) -> (r: &Vec<Scope>)
        ensures
            *r == self.scopes,
    {
        &self.scopes
    }

    /// What a path resolves to. `at` is the byte that an error cites.
    pub fn lookup(&self, path: &Path, at: usize) -> (r: Result<Option<&Json>, RenderError>)
        ensures
            match resolve(self.source@, path@, self.root@, scope_views(self.scopes@), at) {
                Ok(v) => r matches Ok(w) && crate::render::eval::opt_view(w) == v,
                Err(e) => r matches Err(x) && x@ == e,
            },
    {
        crate::render::eval::lookup(self.source, path, self.root, &self.scopes, at)
    }

    /// Whether a value is truthy.
    pub fn is_truthy(&self, value: &Json) -> (r: bool)
        ensures
            r == crate::json::truthy(value@),
    {
        value.is_truthy()
    }

    /// The values of the arguments of a call.
    pub fn arguments(&self, call: &Call) -> (r: Result<Vec<Json>, RenderError>)
        ensures
            match crate::render::spec::eval_params(
                *self.registry,
                self.source@,
                self.root@,
                scope_views(self.scopes@),
                call@.arguments,
                0,
                Seq::empty(),
            ) {
                Ok(v) => r matches Ok(w) && crate::json::views(w@) == v,
                Err(e) => r matches Err(x) && x@ == e,
            },
    {
        proof {
            reveal_with_fuel(call_view, 2);
        }
        crate::render::eval::arguments(
            self.registry,
            self.source,
            self.root,
            &self.scopes,
            &call.arguments,
        )
    }

    /// The values of the named parameters of a call.
    pub fn hash(&self, call: &Call) -> (r: Result<Vec<(String, Json)>, RenderError>)
        ensures
            match crate::render::spec::eval_hash(
                *self.registry,
                self.source@,
                self.root@,
                scope_views(self.scopes@),
                call@.hash,
                0,
                Seq::empty(),
            ) {
                Ok(v) => r matches Ok(w) && crate::json::entry_views(w@) == v,
                Err(e) => r matches Err(x) && x@ == e,
            },
    {
        proof {
            reveal_with_fuel(call_view, 2);
        }
        crate::render::eval::hash(self.registry, self.source, self.root, &self.scopes, &call.hash)
    }

    /// Calls a helper for a call, under the name at `name`.
    pub fn invoke(&self, call: &Call, name: Span, helper: &crate::helper::ValueHelper<H>) -> (r:
        Result<Option<Json>, RenderError>)
        ensures
            match crate::render::spec::context_of(
                *self.registry,
                self.source@,
                self.root@,
                scope_views(self.scopes@),
                name,
                call@,
            ) {
                Err(e) => r matches Err(x) && x@ == e,
                Ok(ctx) => match helper.result(ctx) {
                    Ok(v) => r matches Ok(w) && owned_view(w) == v,
                    Err(e) => r matches Err(x) && x@ == RenderErrorView::Helper(e),
                },
            },
    {
        match crate::render::eval::context(
            self.registry,
            self.source,
            self.root,
            &self.scopes,
            name,
            call,
        ) {
            Err(e) => Err(e),
            Ok(ctx) => match helper.call(&ctx) {
                Ok(v) => Ok(v),
                Err(e) => Err(RenderError::Helper(e)),
            },
        }
    }

    /// What a call gives.
    pub fn statement(&self, call: &Call) -> (r: Result<EvalResult, RenderError>)
        ensures
            match crate::render::spec::eval_call(
                *self.registry,
                self.source@,
                self.root@,
                scope_views(self.scopes@),
                call@,
            ) {
                Ok(v) => r matches Ok(EvalResult::Json(w)) && owned_view(w) == v,
                Err(e) => r matches Err(x) && x@ == e,
            },
    {
        match crate::render::eval::call(self.registry, self.source, self.root, &self.scopes, call) {
            Ok(v) => Ok(EvalResult::Json(v)),
            Err(e) => Err(e),
        }
    }

    /// The scopes in which a block that is no partial renders its body.
    pub fn block(&self, call: &Call) -> (r: Result<Vec<Scope>, RenderError>)
        ensures
            match block_plan(
                *self.registry,
                self.source@,
                self.root@,
                scope_views(self.scopes@),
                call@,
            ) {
                Ok(p) => r matches Ok(q) && scope_views(q@) == p,
                Err(e) => r matches Err(x) && x@ == e,
            },
    {
        block(self.registry, self.source, self.root, &self.scopes, call)
    }

    /// Renders a node, and adds what it gives to what has been written.
    /// Rendering stops at the first error: what was written before it
    /// stays written, and nothing is written after it. The scopes are the
    /// same after as before.
    pub fn render_node(&mut self, n: &Node) -> (r: Result<(), RenderError>)
        ensures
            match render_node(
                *old(self).registry,
                old(self).source@,
                old(self).root@,
                scope_views(old(self).scopes@),
                n@,
                false,
                false,
                crate::registry::PARTIAL_DEPTH as nat,
            ) {
                Ok(b) => r is Ok && final(self).out@ == old(self).out@ + b,
                Err(e) => r matches Err(x) && x@ == e && final(self).out@ == old(self).out@
                    + node_output(
                    *old(self).registry,
                    old(self).source@,
                    old(self).root@,
                    scope_views(old(self).scopes@),
                    n@,
                    false,
                    false,
                    crate::registry::PARTIAL_DEPTH as nat,
                ),
            },
            scope_views(final(self).scopes@) == scope_views(old(self).scopes@),
            final(self).source == old(self).source,
            final(self).registry == old(self).registry,
            final(self).root == old(self).root,
    {
        node(
            self.registry,
            self.source,
            self.root,
            &mut self.scopes,
            &mut self.out,
            n,
            false,
            false,
            crate::registry::PARTIAL_DEPTH,
        )
    }

    /// What has been written.
    pub fn into_output(self) -> (r: Vec<u8>)
        ensures
            r == self.out,
    {
        self.out
    }
}

} // verus!
